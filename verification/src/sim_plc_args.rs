//! The command line of a simulation run (`sim-plc`): its options, and the
//! rules that tie some of them together (a retained state needs a retain
//! configuration; the online force and variable control plane must be
//! switched on explicitly; the alarm options are checked as they are read).
use vstd::prelude::*;
use crate::realtime_gate::{
    args_view, arg_at, is_lit, number_or, opt_view, take_number, take_value, value_or,
};
use crate::text::{chars_of, clone_string, owned, push_str, trim, trim_chars};

verus! {

/// The options of a simulation run.
#[derive(Debug, Clone, PartialEq, Eq)]
pub struct SimPlcOptions {
    pub scenario_path: Option<String>,
    pub out_path: Option<String>,
    pub retain_config_path: Option<String>,
    pub retain_state_path: Option<String>,
    pub enable_online_force_dev: bool,
    pub online_force_script: Option<String>,
    pub online_force_audit_out: Option<String>,
    pub online_var_script: Option<String>,
    pub online_var_bindings_path: Option<String>,
    pub online_var_audit_out: Option<String>,
    /// Whether any alarm option was given.
    pub alarm_options_seen: bool,
    pub alarm_audit_out: Option<String>,
    pub alarm_hmi_ws: Option<String>,
    pub alarm_scenario_id: Option<String>,
    pub alarm_top_n: usize,
    pub alarm_dedup_window_ms: u64,
    pub alarm_min_interval_ms: u64,
    pub io_snapshot_out: Option<String>,
}

pub struct SimPlcOptionsView {
    pub scenario_path: Option<Seq<char>>,
    pub out_path: Option<Seq<char>>,
    pub retain_config_path: Option<Seq<char>>,
    pub retain_state_path: Option<Seq<char>>,
    pub enable_online_force_dev: bool,
    pub online_force_script: Option<Seq<char>>,
    pub online_force_audit_out: Option<Seq<char>>,
    pub online_var_script: Option<Seq<char>>,
    pub online_var_bindings_path: Option<Seq<char>>,
    pub online_var_audit_out: Option<Seq<char>>,
    pub alarm_options_seen: bool,
    pub alarm_audit_out: Option<Seq<char>>,
    pub alarm_hmi_ws: Option<Seq<char>>,
    pub alarm_scenario_id: Option<Seq<char>>,
    pub alarm_top_n: usize,
    pub alarm_dedup_window_ms: u64,
    pub alarm_min_interval_ms: u64,
    pub io_snapshot_out: Option<Seq<char>>,
}

impl View for SimPlcOptions {
    type V = SimPlcOptionsView;

    open spec fn view(&self) -> SimPlcOptionsView {
        SimPlcOptionsView {
            scenario_path: opt_view(self.scenario_path),
            out_path: opt_view(self.out_path),
            retain_config_path: opt_view(self.retain_config_path),
            retain_state_path: opt_view(self.retain_state_path),
            enable_online_force_dev: self.enable_online_force_dev,
            online_force_script: opt_view(self.online_force_script),
            online_force_audit_out: opt_view(self.online_force_audit_out),
            online_var_script: opt_view(self.online_var_script),
            online_var_bindings_path: opt_view(self.online_var_bindings_path),
            online_var_audit_out: opt_view(self.online_var_audit_out),
            alarm_options_seen: self.alarm_options_seen,
            alarm_audit_out: opt_view(self.alarm_audit_out),
            alarm_hmi_ws: opt_view(self.alarm_hmi_ws),
            alarm_scenario_id: opt_view(self.alarm_scenario_id),
            alarm_top_n: self.alarm_top_n,
            alarm_dedup_window_ms: self.alarm_dedup_window_ms,
            alarm_min_interval_ms: self.alarm_min_interval_ms,
            io_snapshot_out: opt_view(self.io_snapshot_out),
        }
    }
}

/// Nothing given yet: three top alarm candidates, a one-second dedup window
/// and 200 ms between emitted alarms.
pub open spec fn initial_sim_options() -> SimPlcOptionsView {
    SimPlcOptionsView {
        scenario_path: None,
        out_path: None,
        retain_config_path: None,
        retain_state_path: None,
        enable_online_force_dev: false,
        online_force_script: None,
        online_force_audit_out: None,
        online_var_script: None,
        online_var_bindings_path: None,
        online_var_audit_out: None,
        alarm_options_seen: false,
        alarm_audit_out: None,
        alarm_hmi_ws: None,
        alarm_scenario_id: None,
        alarm_top_n: 3,
        alarm_dedup_window_ms: 1_000,
        alarm_min_interval_ms: 200,
        io_snapshot_out: None,
    }
}

/// Whether any option of the online force or variable control plane was
/// given.
pub open spec fn online_options_given(o: SimPlcOptionsView) -> bool {
    ||| o.online_force_script is Some
    ||| o.online_force_audit_out is Some
    ||| o.online_var_script is Some
    ||| o.online_var_bindings_path is Some
    ||| o.online_var_audit_out is Some
}

pub open spec fn online_disabled_message() -> Seq<char> {
    "online-force/variable dev control plane is disabled by default; add --enable-online-force-dev to use --online-force-script/--online-force-audit-out/--online-var-script/--online-var-bindings/--online-var-audit-out"@
}

/// Once every option is read: the scenario and the trace output must be
/// given, a retained state needs a retain configuration, and the online
/// options need `--enable-online-force-dev`.
pub open spec fn finish_sim_options(o: SimPlcOptionsView, usage: Seq<char>) -> Result<
    SimPlcOptionsView,
    Seq<char>,
> {
    if o.scenario_path is None || o.out_path is None {
        Err(usage)
    } else if o.retain_state_path is Some && o.retain_config_path is None {
        Err("--retain-state requires --retain-config"@)
    } else if online_options_given(o) && !o.enable_online_force_dev {
        Err(online_disabled_message())
    } else {
        Ok(o)
    }
}

/// The value of `--alarm-scenario-id`: present and not blank.
pub open spec fn scenario_id_or(args: Seq<Seq<char>>, j: int) -> Result<Seq<char>, Seq<char>> {
    match arg_at(args, j) {
        None => Err("Missing value for --alarm-scenario-id <id>"@),
        Some(v) => if trim(v).len() == 0 {
            Err("--alarm-scenario-id cannot be empty"@)
        } else {
            Ok(v)
        },
    }
}

/// The value of `--alarm-top`: a `usize` of at least 1.
pub open spec fn top_or(args: Seq<Seq<char>>, j: int) -> Result<usize, Seq<char>> {
    match number_or(
        args,
        j,
        "Missing value for --alarm-top <n>"@,
        "Invalid --alarm-top value (expected usize): "@,
        usize::MAX as nat,
    ) {
        Err(e) => Err(e),
        Ok(n) => if n == 0 {
            Err("Invalid --alarm-top value (expected >= 1)"@)
        } else {
            Ok(n as usize)
        },
    }
}

/// The options from position `i` on: each takes the next argument as its
/// value, but for the `--enable-online-force-dev` switch; every alarm
/// option marks the alarm options as given; `-h` or `--help` answers with
/// the usage text; anything else is refused.
pub open spec fn scan_sim_args(args: Seq<Seq<char>>, i: int, o: SimPlcOptionsView, usage: Seq<char>) -> Result<
    SimPlcOptionsView,
    Seq<char>,
>
    decreases args.len() - i,
{
    if i < 0 || i >= args.len() {
        finish_sim_options(o, usage)
    } else {
        let a = args[i];
        if a == "--scenario"@ {
            match value_or(args, i + 1, "Missing value for --scenario <scenario.yaml>"@) {
                Err(e) => Err(e),
                Ok(v) => scan_sim_args(args, i + 2, SimPlcOptionsView { scenario_path: Some(v), ..o }, usage),
            }
        } else if a == "--out"@ {
            match value_or(args, i + 1, "Missing value for --out <trace.jsonl>"@) {
                Err(e) => Err(e),
                Ok(v) => scan_sim_args(args, i + 2, SimPlcOptionsView { out_path: Some(v), ..o }, usage),
            }
        } else if a == "--retain-config"@ {
            match value_or(args, i + 1, "Missing value for --retain-config <retain.toml>"@) {
                Err(e) => Err(e),
                Ok(v) => scan_sim_args(
                    args,
                    i + 2,
                    SimPlcOptionsView { retain_config_path: Some(v), ..o },
                    usage,
                ),
            }
        } else if a == "--retain-state"@ {
            match value_or(args, i + 1, "Missing value for --retain-state <retain_state.json>"@) {
                Err(e) => Err(e),
                Ok(v) => scan_sim_args(
                    args,
                    i + 2,
                    SimPlcOptionsView { retain_state_path: Some(v), ..o },
                    usage,
                ),
            }
        } else if a == "--enable-online-force-dev"@ {
            scan_sim_args(args, i + 1, SimPlcOptionsView { enable_online_force_dev: true, ..o }, usage)
        } else if a == "--online-force-script"@ {
            match value_or(args, i + 1, "Missing value for --online-force-script <script.jsonl>"@) {
                Err(e) => Err(e),
                Ok(v) => scan_sim_args(
                    args,
                    i + 2,
                    SimPlcOptionsView { online_force_script: Some(v), ..o },
                    usage,
                ),
            }
        } else if a == "--online-force-audit-out"@ {
            match value_or(args, i + 1, "Missing value for --online-force-audit-out <audit.jsonl>"@) {
                Err(e) => Err(e),
                Ok(v) => scan_sim_args(
                    args,
                    i + 2,
                    SimPlcOptionsView { online_force_audit_out: Some(v), ..o },
                    usage,
                ),
            }
        } else if a == "--online-var-script"@ {
            match value_or(args, i + 1, "Missing value for --online-var-script <script.jsonl>"@) {
                Err(e) => Err(e),
                Ok(v) => scan_sim_args(
                    args,
                    i + 2,
                    SimPlcOptionsView { online_var_script: Some(v), ..o },
                    usage,
                ),
            }
        } else if a == "--online-var-bindings"@ {
            match value_or(args, i + 1, "Missing value for --online-var-bindings <bindings.toml>"@) {
                Err(e) => Err(e),
                Ok(v) => scan_sim_args(
                    args,
                    i + 2,
                    SimPlcOptionsView { online_var_bindings_path: Some(v), ..o },
                    usage,
                ),
            }
        } else if a == "--online-var-audit-out"@ {
            match value_or(args, i + 1, "Missing value for --online-var-audit-out <audit.jsonl>"@) {
                Err(e) => Err(e),
                Ok(v) => scan_sim_args(
                    args,
                    i + 2,
                    SimPlcOptionsView { online_var_audit_out: Some(v), ..o },
                    usage,
                ),
            }
        } else if a == "--alarm-audit-out"@ {
            match value_or(args, i + 1, "Missing value for --alarm-audit-out <alarm_events.ndjson>"@) {
                Err(e) => Err(e),
                Ok(v) => scan_sim_args(
                    args,
                    i + 2,
                    SimPlcOptionsView { alarm_options_seen: true, alarm_audit_out: Some(v), ..o },
                    usage,
                ),
            }
        } else if a == "--alarm-hmi-ws"@ {
            match value_or(args, i + 1, "Missing value for --alarm-hmi-ws <ws://host:port/path>"@) {
                Err(e) => Err(e),
                Ok(v) => scan_sim_args(
                    args,
                    i + 2,
                    SimPlcOptionsView { alarm_options_seen: true, alarm_hmi_ws: Some(v), ..o },
                    usage,
                ),
            }
        } else if a == "--alarm-scenario-id"@ {
            match scenario_id_or(args, i + 1) {
                Err(e) => Err(e),
                Ok(v) => scan_sim_args(
                    args,
                    i + 2,
                    SimPlcOptionsView { alarm_options_seen: true, alarm_scenario_id: Some(v), ..o },
                    usage,
                ),
            }
        } else if a == "--alarm-top"@ {
            match top_or(args, i + 1) {
                Err(e) => Err(e),
                Ok(n) => scan_sim_args(
                    args,
                    i + 2,
                    SimPlcOptionsView { alarm_options_seen: true, alarm_top_n: n, ..o },
                    usage,
                ),
            }
        } else if a == "--alarm-dedup-window-ms"@ {
            match number_or(
                args,
                i + 1,
                "Missing value for --alarm-dedup-window-ms <ms>"@,
                "Invalid --alarm-dedup-window-ms value (expected u64): "@,
                u64::MAX as nat,
            ) {
                Err(e) => Err(e),
                Ok(n) => scan_sim_args(
                    args,
                    i + 2,
                    SimPlcOptionsView { alarm_options_seen: true, alarm_dedup_window_ms: n as u64, ..o },
                    usage,
                ),
            }
        } else if a == "--alarm-min-interval-ms"@ {
            match number_or(
                args,
                i + 1,
                "Missing value for --alarm-min-interval-ms <ms>"@,
                "Invalid --alarm-min-interval-ms value (expected u64): "@,
                u64::MAX as nat,
            ) {
                Err(e) => Err(e),
                Ok(n) => scan_sim_args(
                    args,
                    i + 2,
                    SimPlcOptionsView { alarm_options_seen: true, alarm_min_interval_ms: n as u64, ..o },
                    usage,
                ),
            }
        } else if a == "--io-snapshot-out"@ {
            match value_or(args, i + 1, "Missing value for --io-snapshot-out <io_snapshot.json>"@) {
                Err(e) => Err(e),
                Ok(v) => scan_sim_args(
                    args,
                    i + 2,
                    SimPlcOptionsView { io_snapshot_out: Some(v), ..o },
                    usage,
                ),
            }
        } else if a == "-h"@ || a == "--help"@ {
            Err(usage)
        } else {
            Err("Unknown argument for sim-plc: "@ + a)
        }
    }
}

/// The command line of a simulation run (after the command's name): the
/// PLC source, then its options; the usage text when the source is missing.
pub open spec fn spec_sim_plc_args(args: Seq<Seq<char>>, usage: Seq<char>) -> Result<
    (Seq<char>, SimPlcOptionsView),
    Seq<char>,
> {
    if args.len() == 0 {
        Err(usage)
    } else {
        match scan_sim_args(args, 1, initial_sim_options(), usage) {
            Err(e) => Err(e),
            Ok(o) => Ok((args[0], o)),
        }
    }
}

/// What the command line of a simulation run asks for; the scenario and the
/// trace output are always given.
#[derive(Debug, Clone, PartialEq, Eq)]
pub struct SimPlcArgs {
    pub plc_path: String,
    pub options: SimPlcOptions,
}

fn scenario_id_value(args: &[String], j: usize) -> (r: Result<String, String>)
    ensures
        match r {
            Ok(v) => scenario_id_or(args_view(args@), j as int) == Ok::<Seq<char>, Seq<char>>(v@),
            Err(e) => scenario_id_or(args_view(args@), j as int) == Err::<Seq<char>, Seq<char>>(e@),
        },
{
    if j >= args.len() {
        return Err(owned("Missing value for --alarm-scenario-id <id>"));
    }
    let v = chars_of(args[j].as_str());
    let t = trim_chars(v.as_slice());
    if t.len() == 0 {
        return Err(owned("--alarm-scenario-id cannot be empty"));
    }
    Ok(clone_string(&args[j]))
}

fn top_value(args: &[String], j: usize) -> (r: Result<usize, String>)
    ensures
        match r {
            Ok(n) => top_or(args_view(args@), j as int) == Ok::<usize, Seq<char>>(n),
            Err(e) => top_or(args_view(args@), j as int) == Err::<usize, Seq<char>>(e@),
        },
{
    let n = take_number(
        args,
        j,
        "Missing value for --alarm-top <n>",
        "Invalid --alarm-top value (expected usize): ",
        usize::MAX as u64,
    )?;
    if n == 0 {
        return Err(owned("Invalid --alarm-top value (expected >= 1)"));
    }
    Ok(n as usize)
}

/// Reads the option at position `i` into `o`; the position of the next
/// option, or the error that the option gives.
#[verifier::rlimit(60)]
fn sim_arg_step(args: &[String], i: usize, o: &mut SimPlcOptions, usage: &str) -> (r: Result<
    usize,
    String,
>)
    requires
        i < args@.len(),
    ensures
        match r {
            Ok(j) => i < j <= i + 2 && scan_sim_args(args_view(args@), i as int, old(o)@, usage@)
                == scan_sim_args(args_view(args@), j as int, final(o)@, usage@),
            Err(e) => scan_sim_args(args_view(args@), i as int, old(o)@, usage@) == Err::<
                SimPlcOptionsView,
                Seq<char>,
            >(e@),
        },
{
    let ghost av = args_view(args@);
    let a = args[i].as_str();
    assert(a@ == av[i as int]);
    if is_lit(a, "--scenario") {
        o.scenario_path = Some(take_value(args, i + 1, "Missing value for --scenario <scenario.yaml>")?);
    } else if is_lit(a, "--out") {
        o.out_path = Some(take_value(args, i + 1, "Missing value for --out <trace.jsonl>")?);
    } else if is_lit(a, "--retain-config") {
        o.retain_config_path = Some(
            take_value(args, i + 1, "Missing value for --retain-config <retain.toml>")?,
        );
    } else if is_lit(a, "--retain-state") {
        o.retain_state_path = Some(
            take_value(args, i + 1, "Missing value for --retain-state <retain_state.json>")?,
        );
    } else if is_lit(a, "--enable-online-force-dev") {
        o.enable_online_force_dev = true;
        return Ok(i + 1);
    } else if is_lit(a, "--online-force-script") {
        o.online_force_script = Some(
            take_value(args, i + 1, "Missing value for --online-force-script <script.jsonl>")?,
        );
    } else if is_lit(a, "--online-force-audit-out") {
        o.online_force_audit_out = Some(
            take_value(args, i + 1, "Missing value for --online-force-audit-out <audit.jsonl>")?,
        );
    } else if is_lit(a, "--online-var-script") {
        o.online_var_script = Some(
            take_value(args, i + 1, "Missing value for --online-var-script <script.jsonl>")?,
        );
    } else if is_lit(a, "--online-var-bindings") {
        o.online_var_bindings_path = Some(
            take_value(args, i + 1, "Missing value for --online-var-bindings <bindings.toml>")?,
        );
    } else if is_lit(a, "--online-var-audit-out") {
        o.online_var_audit_out = Some(
            take_value(args, i + 1, "Missing value for --online-var-audit-out <audit.jsonl>")?,
        );
    } else {
        return alarm_arg_step(args, i, o, usage);
    }
    Ok(i + 2)
}

/// The alarm options, the I/O snapshot output, the help and the unknown
/// options (the part of `sim_arg_step` after the online options).
#[verifier::rlimit(60)]
fn alarm_arg_step(args: &[String], i: usize, o: &mut SimPlcOptions, usage: &str) -> (r: Result<
    usize,
    String,
>)
    requires
        i < args@.len(),
        args_view(args@)[i as int] != "--scenario"@,
        args_view(args@)[i as int] != "--out"@,
        args_view(args@)[i as int] != "--retain-config"@,
        args_view(args@)[i as int] != "--retain-state"@,
        args_view(args@)[i as int] != "--enable-online-force-dev"@,
        args_view(args@)[i as int] != "--online-force-script"@,
        args_view(args@)[i as int] != "--online-force-audit-out"@,
        args_view(args@)[i as int] != "--online-var-script"@,
        args_view(args@)[i as int] != "--online-var-bindings"@,
        args_view(args@)[i as int] != "--online-var-audit-out"@,
    ensures
        match r {
            Ok(j) => i < j <= i + 2 && scan_sim_args(args_view(args@), i as int, old(o)@, usage@)
                == scan_sim_args(args_view(args@), j as int, final(o)@, usage@),
            Err(e) => scan_sim_args(args_view(args@), i as int, old(o)@, usage@) == Err::<
                SimPlcOptionsView,
                Seq<char>,
            >(e@),
        },
{
    let ghost av = args_view(args@);
    let a = args[i].as_str();
    assert(a@ == av[i as int]);
    if is_lit(a, "--alarm-audit-out") {
        let v = take_value(args, i + 1, "Missing value for --alarm-audit-out <alarm_events.ndjson>")?;
        o.alarm_options_seen = true;
        o.alarm_audit_out = Some(v);
    } else if is_lit(a, "--alarm-hmi-ws") {
        let v = take_value(args, i + 1, "Missing value for --alarm-hmi-ws <ws://host:port/path>")?;
        o.alarm_options_seen = true;
        o.alarm_hmi_ws = Some(v);
    } else if is_lit(a, "--alarm-scenario-id") {
        let v = scenario_id_value(args, i + 1)?;
        o.alarm_options_seen = true;
        o.alarm_scenario_id = Some(v);
    } else if is_lit(a, "--alarm-top") {
        let n = top_value(args, i + 1)?;
        o.alarm_options_seen = true;
        o.alarm_top_n = n;
    } else if is_lit(a, "--alarm-dedup-window-ms") {
        let n = take_number(
            args,
            i + 1,
            "Missing value for --alarm-dedup-window-ms <ms>",
            "Invalid --alarm-dedup-window-ms value (expected u64): ",
            u64::MAX,
        )?;
        o.alarm_options_seen = true;
        o.alarm_dedup_window_ms = n;
    } else if is_lit(a, "--alarm-min-interval-ms") {
        let n = take_number(
            args,
            i + 1,
            "Missing value for --alarm-min-interval-ms <ms>",
            "Invalid --alarm-min-interval-ms value (expected u64): ",
            u64::MAX,
        )?;
        o.alarm_options_seen = true;
        o.alarm_min_interval_ms = n;
    } else if is_lit(a, "--io-snapshot-out") {
        o.io_snapshot_out = Some(
            take_value(args, i + 1, "Missing value for --io-snapshot-out <io_snapshot.json>")?,
        );
    } else if is_lit(a, "-h") || is_lit(a, "--help") {
        return Err(owned(usage));
    } else {
        let mut out = owned("Unknown argument for sim-plc: ");
        push_str(&mut out, a);
        return Err(out);
    }
    Ok(i + 2)
}

pub fn parse_sim_plc_args(args: &[String], usage: &str) -> (r: Result<SimPlcArgs, String>)
    ensures
        match r {
            Ok(a) => spec_sim_plc_args(args_view(args@), usage@) == Ok::<
                (Seq<char>, SimPlcOptionsView),
                Seq<char>,
            >((a.plc_path@, a.options@)),
            Err(e) => spec_sim_plc_args(args_view(args@), usage@) == Err::<
                (Seq<char>, SimPlcOptionsView),
                Seq<char>,
            >(e@),
        },
{
    let ghost av = args_view(args@);
    if args.len() == 0 {
        return Err(owned(usage));
    }
    let plc_path = clone_string(&args[0]);
    let mut o = SimPlcOptions {
        scenario_path: None,
        out_path: None,
        retain_config_path: None,
        retain_state_path: None,
        enable_online_force_dev: false,
        online_force_script: None,
        online_force_audit_out: None,
        online_var_script: None,
        online_var_bindings_path: None,
        online_var_audit_out: None,
        alarm_options_seen: false,
        alarm_audit_out: None,
        alarm_hmi_ws: None,
        alarm_scenario_id: None,
        alarm_top_n: 3,
        alarm_dedup_window_ms: 1_000,
        alarm_min_interval_ms: 200,
        io_snapshot_out: None,
    };
    let mut i: usize = 1;
    while i < args.len()
        invariant
            1 <= i <= args@.len() + 1,
            av == args_view(args@),
            av.len() > 0,
            plc_path@ == av[0],
            scan_sim_args(av, 1, initial_sim_options(), usage@) == scan_sim_args(
                av,
                i as int,
                o@,
                usage@,
            ),
        decreases args@.len() + 1 - i,
    {
        i = sim_arg_step(args, i, &mut o, usage)?;
    }
    if o.scenario_path.is_none() || o.out_path.is_none() {
        return Err(owned(usage));
    }
    if o.retain_state_path.is_some() && o.retain_config_path.is_none() {
        return Err(owned("--retain-state requires --retain-config"));
    }
    if (o.online_force_script.is_some() || o.online_force_audit_out.is_some()
        || o.online_var_script.is_some() || o.online_var_bindings_path.is_some()
        || o.online_var_audit_out.is_some()) && !o.enable_online_force_dev {
        return Err(
            owned(
                "online-force/variable dev control plane is disabled by default; add --enable-online-force-dev to use --online-force-script/--online-force-audit-out/--online-var-script/--online-var-bindings/--online-var-audit-out",
            ),
        );
    }
    Ok(SimPlcArgs { plc_path, options: o })
}

} // verus!
