//! Option values of the extern-call benchmark.
use vstd::prelude::*;
use crate::text::{
    chars_of, clone_string, eq_chars, owned, parse_unsigned, parse_unsigned_exec, push_str,
};

verus! {

/// The value of a numeric option: it must be present and be a `usize`.
pub open spec fn spec_parse_usize_arg(value: Option<Seq<char>>, name: Seq<char>) -> Result<
    usize,
    Seq<char>,
> {
    match value {
        None => Err("missing value for "@ + name),
        Some(raw) => match parse_unsigned(raw, usize::MAX as nat) {
            Some(n) => Ok(n as usize),
            None => Err("invalid integer for "@ + name + ": `"@ + raw + "`"@),
        },
    }
}

pub open spec fn opt_string_view(v: Option<String>) -> Option<Seq<char>> {
    match v {
        Some(s) => Some(s@),
        None => None,
    }
}

pub fn parse_usize_arg(value: Option<String>, name: &str) -> (r: Result<usize, String>)
    ensures
        match r {
            Ok(n) => spec_parse_usize_arg(opt_string_view(value), name@) == Ok::<
                usize,
                Seq<char>,
            >(n),
            Err(e) => spec_parse_usize_arg(opt_string_view(value), name@) == Err::<
                usize,
                Seq<char>,
            >(e@),
        },
{
    let raw = match value {
        Some(raw) => raw,
        None => {
            let mut out = owned("missing value for ");
            push_str(&mut out, name);
            return Err(out);
        },
    };
    let v = chars_of(raw.as_str());
    match parse_unsigned_exec(v.as_slice(), usize::MAX as u64) {
        Some(n) => Ok(n as usize),
        None => {
            let mut out = owned("invalid integer for ");
            push_str(&mut out, name);
            push_str(&mut out, ": `");
            push_str(&mut out, raw.as_str());
            push_str(&mut out, "`");
            Err(out)
        },
    }
}

#[derive(Debug, Clone, Copy, PartialEq, Eq, Structural)]
pub enum OutputFormat {
    Human,
    Json,
}

/// The benchmark's settings.
#[derive(Debug, Clone, Copy, PartialEq, Eq, Structural)]
pub struct Config {
    pub samples: usize,
    pub warmups: usize,
    pub simple_iterations: usize,
    pub complex_iterations: usize,
    pub output: OutputFormat,
}

pub open spec fn default_config() -> Config {
    Config {
        samples: 7,
        warmups: 2,
        simple_iterations: 100000,
        complex_iterations: 20000,
        output: OutputFormat::Human,
    }
}

impl Default for Config {
    fn default() -> (r: Self)
        ensures
            r == default_config(),
    {
        Config {
            samples: 7,
            warmups: 2,
            simple_iterations: 100_000,
            complex_iterations: 20_000,
            output: OutputFormat::Human,
        }
    }
}

/// What the command line asks for: a run with these settings, or the help
/// text.
#[derive(Debug, Clone, Copy, PartialEq, Eq, Structural)]
pub enum BenchRequest {
    Run(Config),
    Help,
}

pub open spec fn arg_at(args: Seq<Seq<char>>, j: int) -> Option<Seq<char>> {
    if 0 <= j < args.len() {
        Some(args[j])
    } else {
        None
    }
}

/// The settings once every option is read: the counts that must not be
/// zero are checked.
pub open spec fn finish_config(cfg: Config) -> Result<BenchRequest, Seq<char>> {
    if cfg.samples == 0 {
        Err("--samples must be greater than 0"@)
    } else if cfg.simple_iterations == 0 {
        Err("--simple-iterations must be greater than 0"@)
    } else if cfg.complex_iterations == 0 {
        Err("--complex-iterations must be greater than 0"@)
    } else {
        Ok(BenchRequest::Run(cfg))
    }
}

/// The options from position `i` on, read into `cfg`: each numeric option
/// takes the next argument as its value; `--output` takes `human` or
/// `json`; `--help` or `-h` asks for the help text at once; anything else
/// is refused.
pub open spec fn scan_args(args: Seq<Seq<char>>, i: int, cfg: Config) -> Result<BenchRequest, Seq<char>>
    decreases args.len() - i,
{
    if i < 0 || i >= args.len() {
        finish_config(cfg)
    } else {
        let a = args[i];
        if a == "--samples"@ {
            match spec_parse_usize_arg(arg_at(args, i + 1), a) {
                Err(e) => Err(e),
                Ok(n) => scan_args(args, i + 2, Config { samples: n, ..cfg }),
            }
        } else if a == "--warmups"@ {
            match spec_parse_usize_arg(arg_at(args, i + 1), a) {
                Err(e) => Err(e),
                Ok(n) => scan_args(args, i + 2, Config { warmups: n, ..cfg }),
            }
        } else if a == "--simple-iterations"@ {
            match spec_parse_usize_arg(arg_at(args, i + 1), a) {
                Err(e) => Err(e),
                Ok(n) => scan_args(args, i + 2, Config { simple_iterations: n, ..cfg }),
            }
        } else if a == "--complex-iterations"@ {
            match spec_parse_usize_arg(arg_at(args, i + 1), a) {
                Err(e) => Err(e),
                Ok(n) => scan_args(args, i + 2, Config { complex_iterations: n, ..cfg }),
            }
        } else if a == "--output"@ {
            match arg_at(args, i + 1) {
                None => Err("missing value for --output"@),
                Some(v) => if v == "human"@ {
                    scan_args(args, i + 2, Config { output: OutputFormat::Human, ..cfg })
                } else if v == "json"@ {
                    scan_args(args, i + 2, Config { output: OutputFormat::Json, ..cfg })
                } else {
                    Err("invalid --output value `"@ + v + "` (expected human|json)"@)
                },
            }
        } else if a == "--help"@ || a == "-h"@ {
            Ok(BenchRequest::Help)
        } else {
            Err("unknown argument `"@ + a + "`"@)
        }
    }
}

pub open spec fn bench_request(args: Seq<Seq<char>>) -> Result<BenchRequest, Seq<char>> {
    scan_args(args, 0, default_config())
}

fn is_lit(a: &[char], lit: &str) -> (r: bool)
    ensures
        r == (a@ == lit@),
{
    let l = chars_of(lit);
    eq_chars(a, l.as_slice())
}

fn next_value(args: &[String], j: usize) -> (r: Option<String>)
    ensures
        opt_string_view(r) == arg_at(args@.map_values(|s: String| s@), j as int),
{
    if j < args.len() {
        Some(clone_string(&args[j]))
    } else {
        None
    }
}

/// The benchmark's command line (without the program name).
pub fn parse_args(args: &[String]) -> (r: Result<BenchRequest, String>)
    ensures
        match r {
            Ok(q) => bench_request(args@.map_values(|s: String| s@)) == Ok::<BenchRequest, Seq<char>>(q),
            Err(e) => bench_request(args@.map_values(|s: String| s@)) == Err::<BenchRequest, Seq<char>>(e@),
        },
{
    let ghost av = args@.map_values(|s: String| s@);
    let mut cfg = Config::default();
    let mut i: usize = 0;
    while i < args.len()
        invariant
            i <= args@.len() + 1,
            av == args@.map_values(|s: String| s@),
            bench_request(av) == scan_args(av, i as int, cfg),
        decreases args@.len() + 1 - i,
    {
        let a = chars_of(args[i].as_str());
        assert(a@ == av[i as int]);
        if is_lit(a.as_slice(), "--samples") {
            match parse_usize_arg(next_value(args, i + 1), "--samples") {
                Ok(n) => {
                    cfg.samples = n;
                },
                Err(e) => {
                    return Err(e);
                },
            }
            i += 2;
        } else if is_lit(a.as_slice(), "--warmups") {
            match parse_usize_arg(next_value(args, i + 1), "--warmups") {
                Ok(n) => {
                    cfg.warmups = n;
                },
                Err(e) => {
                    return Err(e);
                },
            }
            i += 2;
        } else if is_lit(a.as_slice(), "--simple-iterations") {
            match parse_usize_arg(next_value(args, i + 1), "--simple-iterations") {
                Ok(n) => {
                    cfg.simple_iterations = n;
                },
                Err(e) => {
                    return Err(e);
                },
            }
            i += 2;
        } else if is_lit(a.as_slice(), "--complex-iterations") {
            match parse_usize_arg(next_value(args, i + 1), "--complex-iterations") {
                Ok(n) => {
                    cfg.complex_iterations = n;
                },
                Err(e) => {
                    return Err(e);
                },
            }
            i += 2;
        } else if is_lit(a.as_slice(), "--output") {
            if i + 1 >= args.len() {
                return Err(owned("missing value for --output"));
            }
            let v = chars_of(args[i + 1].as_str());
            if is_lit(v.as_slice(), "human") {
                cfg.output = OutputFormat::Human;
            } else if is_lit(v.as_slice(), "json") {
                cfg.output = OutputFormat::Json;
            } else {
                let mut out = owned("invalid --output value `");
                push_str(&mut out, args[i + 1].as_str());
                push_str(&mut out, "` (expected human|json)");
                return Err(out);
            }
            i += 2;
        } else if is_lit(a.as_slice(), "--help") || is_lit(a.as_slice(), "-h") {
            return Ok(BenchRequest::Help);
        } else {
            let mut out = owned("unknown argument `");
            push_str(&mut out, args[i].as_str());
            push_str(&mut out, "`");
            return Err(out);
        }
    }
    if cfg.samples == 0 {
        return Err(owned("--samples must be greater than 0"));
    }
    if cfg.simple_iterations == 0 {
        return Err(owned("--simple-iterations must be greater than 0"));
    }
    if cfg.complex_iterations == 0 {
        return Err(owned("--complex-iterations must be greater than 0"));
    }
    Ok(BenchRequest::Run(cfg))
}

} // verus!
