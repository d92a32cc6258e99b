//! The command lines of the commands that build for a board or run on a
//! virtual one (`build-rp2040`, `virtual-board`, `pil-run`): options that
//! each take a path, and for some an output mode.
use vstd::prelude::*;
use crate::realtime_gate::{
    args_view, clone_opt, is_lit, opt_view, output_or, take_output, take_value, value_or,
    CliOutputMode,
};
use crate::text::{clone_string, owned, push_str};

verus! {

/// The first position of `a` among the flags.
pub open spec fn flag_index(flags: Seq<&str>, a: Seq<char>) -> Option<int>
    decreases flags.len(),
{
    if flags.len() == 0 {
        None
    } else {
        match flag_index(flags.drop_last(), a) {
            Some(k) => Some(k),
            None => if flags.last()@ == a {
                Some(flags.len() - 1)
            } else {
                None
            },
        }
    }
}

pub open spec fn opts_view(v: Seq<Option<String>>) -> Seq<Option<Seq<char>>> {
    v.map_values(|o: Option<String>| opt_view(o))
}

/// No value for any of `n` options.
pub open spec fn no_values(n: nat) -> Seq<Option<Seq<char>>> {
    Seq::new(n, |k: int| None::<Seq<char>>)
}

/// The options from position `i` on, for a command named `command` whose
/// path options are `flags` (the `k`-th one complaining with `missing[k]`
/// when its value is missing): each takes the next argument as its value;
/// when `with_output` holds, `--output` takes the output mode; `-h` or
/// `--help` answers with the usage text; anything else is refused.
pub open spec fn scan_path_options(
    args: Seq<Seq<char>>,
    i: int,
    flags: Seq<&str>,
    missing: Seq<&str>,
    vals: Seq<Option<Seq<char>>>,
    with_output: bool,
    output: CliOutputMode,
    command: Seq<char>,
    usage: Seq<char>,
) -> Result<(Seq<Option<Seq<char>>>, CliOutputMode), Seq<char>>
    decreases args.len() - i,
{
    if i < 0 || i >= args.len() {
        Ok((vals, output))
    } else {
        let a = args[i];
        match flag_index(flags, a) {
            Some(k) => match value_or(args, i + 1, missing[k]@) {
                Err(e) => Err(e),
                Ok(v) => scan_path_options(
                    args,
                    i + 2,
                    flags,
                    missing,
                    vals.update(k, Some(v)),
                    with_output,
                    output,
                    command,
                    usage,
                ),
            },
            None => if with_output && a == "--output"@ {
                match output_or(args, i + 1) {
                    Err(e) => Err(e),
                    Ok(m) => scan_path_options(
                        args,
                        i + 2,
                        flags,
                        missing,
                        vals,
                        with_output,
                        m,
                        command,
                        usage,
                    ),
                }
            } else if a == "-h"@ || a == "--help"@ {
                Err(usage)
            } else {
                Err("Unknown argument for "@ + command + ": "@ + a)
            },
        }
    }
}

fn find_flag(flags: &[&str], a: &str) -> (r: Option<usize>)
    ensures
        match r {
            Some(k) => flag_index(flags@, a@) == Some(k as int) && k < flags@.len(),
            None => flag_index(flags@, a@) is None,
        },
{
    let mut k: usize = 0;
    while k < flags.len()
        invariant
            k <= flags@.len(),
            flag_index(flags@.subrange(0, k as int), a@) is None,
        decreases flags@.len() - k,
    {
        assert(flags@.subrange(0, k + 1).drop_last() =~= flags@.subrange(0, k as int));
        if is_lit(flags[k], a) {
            proof {
                lemma_flag_index_prefix(flags@, a@, k + 1);
            }
            return Some(k);
        }
        k += 1;
    }
    assert(flags@.subrange(0, flags@.len() as int) =~= flags@);
    None
}

/// Where a flag is found among the first `n`, it is found there among all.
proof fn lemma_flag_index_prefix(flags: Seq<&str>, a: Seq<char>, n: int)
    requires
        0 <= n <= flags.len(),
        flag_index(flags.subrange(0, n), a) is Some,
    ensures
        flag_index(flags, a) == flag_index(flags.subrange(0, n), a),
    decreases flags.len(),
{
    if n == flags.len() {
        assert(flags.subrange(0, n) =~= flags);
    } else {
        assert(flags.drop_last().subrange(0, n) =~= flags.subrange(0, n));
        lemma_flag_index_prefix(flags.drop_last(), a, n);
    }
}

/// Scans the options from position `start` on.
pub(crate) fn scan_paths_exec(
    args: &[String],
    start: usize,
    flags: &[&str],
    missing: &[&str],
    with_output: bool,
    command: &str,
    usage: &str,
) -> (r: Result<(Vec<Option<String>>, CliOutputMode), String>)
    requires
        flags@.len() == missing@.len(),
        start <= args@.len(),
    ensures
        r matches Ok((v, m)) ==> v@.len() == flags@.len(),
        match r {
            Ok((v, m)) => scan_path_options(
                args_view(args@),
                start as int,
                flags@,
                missing@,
                no_values(flags@.len()),
                with_output,
                CliOutputMode::Human,
                command@,
                usage@,
            ) == Ok::<(Seq<Option<Seq<char>>>, CliOutputMode), Seq<char>>((opts_view(v@), m)),
            Err(e) => scan_path_options(
                args_view(args@),
                start as int,
                flags@,
                missing@,
                no_values(flags@.len()),
                with_output,
                CliOutputMode::Human,
                command@,
                usage@,
            ) == Err::<(Seq<Option<Seq<char>>>, CliOutputMode), Seq<char>>(e@),
        },
{
    let ghost av = args_view(args@);
    let ghost whole = scan_path_options(
        av,
        start as int,
        flags@,
        missing@,
        no_values(flags@.len()),
        with_output,
        CliOutputMode::Human,
        command@,
        usage@,
    );
    let mut vals: Vec<Option<String>> = Vec::new();
    let mut k: usize = 0;
    while k < flags.len()
        invariant
            k <= flags@.len(),
            vals@.len() == k,
            forall|j: int| 0 <= j < k ==> (#[trigger] vals@[j]) is None,
        decreases flags@.len() - k,
    {
        vals.push(None);
        k += 1;
    }
    assert(opts_view(vals@) =~= no_values(flags@.len()));
    let mut output = CliOutputMode::Human;
    let mut i: usize = start;
    while i < args.len()
        invariant
            start <= i <= args@.len() + 1,
            av == args_view(args@),
            vals@.len() == flags@.len() == missing@.len(),
            whole == scan_path_options(
                av,
                start as int,
                flags@,
                missing@,
                no_values(flags@.len()),
                with_output,
                CliOutputMode::Human,
                command@,
                usage@,
            ),
            whole == scan_path_options(
                av,
                i as int,
                flags@,
                missing@,
                opts_view(vals@),
                with_output,
                output,
                command@,
                usage@,
            ),
        decreases args@.len() + 1 - i,
    {
        let a = args[i].as_str();
        assert(a@ == av[i as int]);
        match find_flag(flags, a) {
            Some(k) => {
                let v = take_value(args, i + 1, missing[k])?;
                let ghost vv = v@;
                let ghost before = vals@;
                vals.set(k, Some(v));
                assert(opts_view(vals@) =~= opts_view(before).update(k as int, Some(vv)));
            },
            None => {
                if with_output && is_lit(a, "--output") {
                    output = take_output(args, i + 1)?;
                } else if is_lit(a, "-h") || is_lit(a, "--help") {
                    return Err(owned(usage));
                } else {
                    let mut out = owned("Unknown argument for ");
                    push_str(&mut out, command);
                    push_str(&mut out, ": ");
                    push_str(&mut out, a);
                    return Err(out);
                }
            },
        }
        i += 2;
    }
    Ok((vals, output))
}

// build-rp2040 ---------------------------------------------------------------

/// What the command line of `build-rp2040` asks for.
#[derive(Debug, Clone, PartialEq, Eq)]
pub struct BuildRp2040Args {
    pub plc_path: String,
    pub out_dir: String,
    pub io_map_path: Option<String>,
    pub analog_calibration_path: Option<String>,
    pub emit_uf2: Option<String>,
    pub output: CliOutputMode,
}

pub struct BuildRp2040ArgsView {
    pub plc_path: Seq<char>,
    pub out_dir: Seq<char>,
    pub io_map_path: Option<Seq<char>>,
    pub analog_calibration_path: Option<Seq<char>>,
    pub emit_uf2: Option<Seq<char>>,
    pub output: CliOutputMode,
}

impl View for BuildRp2040Args {
    type V = BuildRp2040ArgsView;

    open spec fn view(&self) -> BuildRp2040ArgsView {
        BuildRp2040ArgsView {
            plc_path: self.plc_path@,
            out_dir: self.out_dir@,
            io_map_path: opt_view(self.io_map_path),
            analog_calibration_path: opt_view(self.analog_calibration_path),
            emit_uf2: opt_view(self.emit_uf2),
            output: self.output,
        }
    }
}

pub open spec fn rp2040_flags() -> Seq<&'static str> {
    seq!["--out", "--io-map", "--analog-calibration", "--emit-uf2"]
}

pub open spec fn rp2040_missing() -> Seq<&'static str> {
    seq![
        "Missing value for --out <dir>",
        "Missing value for --io-map <file>",
        "Missing value for --analog-calibration <file>",
        "Missing value for --emit-uf2 <file.uf2>",
    ]
}

/// The command line of `build-rp2040` (after the command's name): the PLC
/// source, then `--out <dir>` (required), `--io-map`, `--analog-calibration`,
/// `--emit-uf2` and `--output`.
pub open spec fn spec_build_rp2040_args(args: Seq<Seq<char>>, usage: Seq<char>) -> Result<
    BuildRp2040ArgsView,
    Seq<char>,
> {
    if args.len() == 0 {
        Err(usage)
    } else {
        match scan_path_options(
            args,
            1,
            rp2040_flags(),
            rp2040_missing(),
            no_values(4),
            true,
            CliOutputMode::Human,
            "build-rp2040"@,
            usage,
        ) {
            Err(e) => Err(e),
            Ok((v, m)) => if v[0] is None {
                Err(usage)
            } else {
                Ok(
                    BuildRp2040ArgsView {
                        plc_path: args[0],
                        out_dir: v[0]->0,
                        io_map_path: v[1],
                        analog_calibration_path: v[2],
                        emit_uf2: v[3],
                        output: m,
                    },
                )
            },
        }
    }
}

pub fn parse_build_rp2040_args(args: &[String], usage: &str) -> (r: Result<BuildRp2040Args, String>)
    ensures
        match r {
            Ok(a) => spec_build_rp2040_args(args_view(args@), usage@) == Ok::<
                BuildRp2040ArgsView,
                Seq<char>,
            >(a@),
            Err(e) => spec_build_rp2040_args(args_view(args@), usage@) == Err::<
                BuildRp2040ArgsView,
                Seq<char>,
            >(e@),
        },
{
    if args.len() == 0 {
        return Err(owned(usage));
    }
    let flags = ["--out", "--io-map", "--analog-calibration", "--emit-uf2"];
    let missing = [
        "Missing value for --out <dir>",
        "Missing value for --io-map <file>",
        "Missing value for --analog-calibration <file>",
        "Missing value for --emit-uf2 <file.uf2>",
    ];
    assert(flags@ =~= rp2040_flags());
    assert(missing@ =~= rp2040_missing());
    let (v, output) = scan_paths_exec(args, 1, &flags, &missing, true, "build-rp2040", usage)?;
    let out_dir = clone_opt(&v[0]);
    let io_map_path = clone_opt(&v[1]);
    let analog_calibration_path = clone_opt(&v[2]);
    let emit_uf2 = clone_opt(&v[3]);
    match out_dir {
        Some(out_dir) => Ok(
            BuildRp2040Args {
                plc_path: clone_string(&args[0]),
                out_dir,
                io_map_path,
                analog_calibration_path,
                emit_uf2,
                output,
            },
        ),
        None => Err(owned(usage)),
    }
}

// virtual-board and pil-run --------------------------------------------------

/// What the command line of `virtual-board` asks for: the PLC source, the
/// scenario and the output directory.
#[derive(Debug, Clone, PartialEq, Eq)]
pub struct VirtualBoardArgs {
    pub plc_path: String,
    pub scenario_path: String,
    pub out_dir: String,
}

pub open spec fn virtual_board_flags() -> Seq<&'static str> {
    seq!["--scenario", "--out-dir"]
}

pub open spec fn virtual_board_missing() -> Seq<&'static str> {
    seq!["Missing value for --scenario <scenario.yaml>", "Missing value for --out-dir <dir>"]
}

/// The command line of `virtual-board` (after the command's name): the PLC
/// source, then `--scenario` and `--out-dir`, both required.
pub open spec fn spec_virtual_board_args(args: Seq<Seq<char>>, usage: Seq<char>) -> Result<
    (Seq<char>, Seq<char>, Seq<char>),
    Seq<char>,
> {
    if args.len() == 0 {
        Err(usage)
    } else {
        match scan_path_options(
            args,
            1,
            virtual_board_flags(),
            virtual_board_missing(),
            no_values(2),
            false,
            CliOutputMode::Human,
            "virtual-board"@,
            usage,
        ) {
            Err(e) => Err(e),
            Ok((v, m)) => if v[0] is None || v[1] is None {
                Err(usage)
            } else {
                Ok((args[0], v[0]->0, v[1]->0))
            },
        }
    }
}

pub fn parse_virtual_board_args(args: &[String], usage: &str) -> (r: Result<VirtualBoardArgs, String>)
    ensures
        match r {
            Ok(a) => spec_virtual_board_args(args_view(args@), usage@) == Ok::<
                (Seq<char>, Seq<char>, Seq<char>),
                Seq<char>,
            >((a.plc_path@, a.scenario_path@, a.out_dir@)),
            Err(e) => spec_virtual_board_args(args_view(args@), usage@) == Err::<
                (Seq<char>, Seq<char>, Seq<char>),
                Seq<char>,
            >(e@),
        },
{
    if args.len() == 0 {
        return Err(owned(usage));
    }
    let flags = ["--scenario", "--out-dir"];
    let missing = ["Missing value for --scenario <scenario.yaml>", "Missing value for --out-dir <dir>"];
    assert(flags@ =~= virtual_board_flags());
    assert(missing@ =~= virtual_board_missing());
    let (v, _output) = scan_paths_exec(args, 1, &flags, &missing, false, "virtual-board", usage)?;
    match (clone_opt(&v[0]), clone_opt(&v[1])) {
        (Some(scenario_path), Some(out_dir)) => Ok(
            VirtualBoardArgs { plc_path: clone_string(&args[0]), scenario_path, out_dir },
        ),
        _ => Err(owned(usage)),
    }
}

/// The command line of `pil-run` (after the command's name): the PLC source
/// and `--scenario`, required.
pub open spec fn spec_pil_run_args(args: Seq<Seq<char>>, usage: Seq<char>) -> Result<
    (Seq<char>, Seq<char>),
    Seq<char>,
> {
    if args.len() == 0 {
        Err(usage)
    } else {
        match scan_path_options(
            args,
            1,
            seq!["--scenario"],
            seq!["Missing value for --scenario <scenario.yaml>"],
            no_values(1),
            false,
            CliOutputMode::Human,
            "pil-run"@,
            usage,
        ) {
            Err(e) => Err(e),
            Ok((v, m)) => if v[0] is None {
                Err(usage)
            } else {
                Ok((args[0], v[0]->0))
            },
        }
    }
}

/// The PLC source and the scenario of a `pil-run`.
pub fn parse_pil_run_args(args: &[String], usage: &str) -> (r: Result<(String, String), String>)
    ensures
        match r {
            Ok((plc, scenario)) => spec_pil_run_args(args_view(args@), usage@) == Ok::<
                (Seq<char>, Seq<char>),
                Seq<char>,
            >((plc@, scenario@)),
            Err(e) => spec_pil_run_args(args_view(args@), usage@) == Err::<
                (Seq<char>, Seq<char>),
                Seq<char>,
            >(e@),
        },
{
    if args.len() == 0 {
        return Err(owned(usage));
    }
    let flags = ["--scenario"];
    let missing = ["Missing value for --scenario <scenario.yaml>"];
    assert(flags@ =~= seq!["--scenario"]);
    assert(missing@ =~= seq!["Missing value for --scenario <scenario.yaml>"]);
    let (v, _output) = scan_paths_exec(args, 1, &flags, &missing, false, "pil-run", usage)?;
    match clone_opt(&v[0]) {
        Some(scenario_path) => Ok((clone_string(&args[0]), scenario_path)),
        None => Err(owned(usage)),
    }
}

} // verus!
