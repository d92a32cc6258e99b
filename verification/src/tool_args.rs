//! The command lines of the tools whose options each take a path: reading
//! a board log, timing reports, I/O map normalization, the Renode build,
//! scenario validation and the component simulator and diff.
use vstd::prelude::*;
use crate::deploy_args::{no_values, opts_view, scan_path_options, scan_paths_exec};
use crate::project_scaffold::{spec_parse_layer, spec_parse_layout, DeliveryLayer, ProjectLayout};
use crate::realtime_gate::{
    args_view, clone_opt, is_lit, opt_view, output_mode_of, parse_cli_output_mode, take_value,
    value_or, CliOutputMode,
};
use crate::text::{clone_string, owned, push_str};

verus! {

/// A command line of `positionals` leading arguments and then path options:
/// the usage text when a leading argument is missing, otherwise the options
/// as `scan_path_options` reads them.
pub open spec fn path_options_of(
    args: Seq<Seq<char>>,
    positionals: nat,
    flags: Seq<&str>,
    missing: Seq<&str>,
    with_output: bool,
    command: Seq<char>,
    usage: Seq<char>,
) -> Result<(Seq<Option<Seq<char>>>, CliOutputMode), Seq<char>> {
    if args.len() < positionals {
        Err(usage)
    } else {
        scan_path_options(
            args,
            positionals as int,
            flags,
            missing,
            no_values(flags.len()),
            with_output,
            CliOutputMode::Human,
            command,
            usage,
        )
    }
}

/// The path options of a command line after its leading arguments: the
/// value of each flag (the last one given), and the output mode.
pub fn parse_path_options(
    args: &[String],
    positionals: usize,
    flags: &[&str],
    missing: &[&str],
    with_output: bool,
    command: &str,
    usage: &str,
) -> (r: Result<(Vec<Option<String>>, CliOutputMode), String>)
    requires
        flags@.len() == missing@.len(),
    ensures
        r matches Ok((v, m)) ==> v@.len() == flags@.len(),
        match r {
            Ok((v, m)) => path_options_of(
                args_view(args@),
                positionals as nat,
                flags@,
                missing@,
                with_output,
                command@,
                usage@,
            ) == Ok::<(Seq<Option<Seq<char>>>, CliOutputMode), Seq<char>>((opts_view(v@), m)),
            Err(e) => path_options_of(
                args_view(args@),
                positionals as nat,
                flags@,
                missing@,
                with_output,
                command@,
                usage@,
            ) == Err::<(Seq<Option<Seq<char>>>, CliOutputMode), Seq<char>>(e@),
        },
{
    if args.len() < positionals {
        return Err(owned(usage));
    }
    scan_paths_exec(args, positionals, flags, missing, with_output, command, usage)
}

// board-parse, timing-report, io-map-normalize --------------------------------

pub open spec fn board_parse_flags() -> Seq<&'static str> {
    seq!["--in", "--out-dir"]
}

pub open spec fn board_parse_missing() -> Seq<&'static str> {
    seq!["Missing value for --in <board.log>", "Missing value for --out-dir <dir>"]
}

/// The command line of `board-parse`: the board log and the output
/// directory, both required.
pub open spec fn spec_board_parse_args(args: Seq<Seq<char>>, usage: Seq<char>) -> Result<
    (Seq<char>, Seq<char>),
    Seq<char>,
> {
    match path_options_of(args, 0, board_parse_flags(), board_parse_missing(), false, "board-parse"@, usage) {
        Err(e) => Err(e),
        Ok((v, m)) => if v[0] is None || v[1] is None {
            Err(usage)
        } else {
            Ok((v[0]->0, v[1]->0))
        },
    }
}

pub fn parse_board_parse_args(args: &[String], usage: &str) -> (r: Result<(String, String), String>)
    ensures
        match r {
            Ok((i, o)) => spec_board_parse_args(args_view(args@), usage@) == Ok::<
                (Seq<char>, Seq<char>),
                Seq<char>,
            >((i@, o@)),
            Err(e) => spec_board_parse_args(args_view(args@), usage@) == Err::<
                (Seq<char>, Seq<char>),
                Seq<char>,
            >(e@),
        },
{
    let flags = ["--in", "--out-dir"];
    let missing = ["Missing value for --in <board.log>", "Missing value for --out-dir <dir>"];
    assert(flags@ =~= board_parse_flags());
    assert(missing@ =~= board_parse_missing());
    let (v, _m) = parse_path_options(args, 0, &flags, &missing, false, "board-parse", usage)?;
    match (clone_opt(&v[0]), clone_opt(&v[1])) {
        (Some(input), Some(out_dir)) => Ok((input, out_dir)),
        _ => Err(owned(usage)),
    }
}

pub open spec fn timing_report_flags() -> Seq<&'static str> {
    seq!["--in", "--out"]
}

pub open spec fn timing_report_missing() -> Seq<&'static str> {
    seq!["Missing value for --in <tick_timing.jsonl>", "Missing value for --out <timing_report.json>"]
}

/// The command line of `timing-report`: the tick timing input, required,
/// and where the report goes, if given.
pub open spec fn spec_timing_report_args(args: Seq<Seq<char>>, usage: Seq<char>) -> Result<
    (Seq<char>, Option<Seq<char>>),
    Seq<char>,
> {
    match path_options_of(
        args,
        0,
        timing_report_flags(),
        timing_report_missing(),
        false,
        "timing-report"@,
        usage,
    ) {
        Err(e) => Err(e),
        Ok((v, m)) => if v[0] is None {
            Err(usage)
        } else {
            Ok((v[0]->0, v[1]))
        },
    }
}

pub fn parse_timing_report_args(args: &[String], usage: &str) -> (r: Result<
    (String, Option<String>),
    String,
>)
    ensures
        match r {
            Ok((i, o)) => spec_timing_report_args(args_view(args@), usage@) == Ok::<
                (Seq<char>, Option<Seq<char>>),
                Seq<char>,
            >((i@, opt_view(o))),
            Err(e) => spec_timing_report_args(args_view(args@), usage@) == Err::<
                (Seq<char>, Option<Seq<char>>),
                Seq<char>,
            >(e@),
        },
{
    let flags = ["--in", "--out"];
    let missing = ["Missing value for --in <tick_timing.jsonl>", "Missing value for --out <timing_report.json>"];
    assert(flags@ =~= timing_report_flags());
    assert(missing@ =~= timing_report_missing());
    let (v, _m) = parse_path_options(args, 0, &flags, &missing, false, "timing-report", usage)?;
    match clone_opt(&v[0]) {
        Some(input) => Ok((input, clone_opt(&v[1]))),
        None => Err(owned(usage)),
    }
}

pub open spec fn io_map_normalize_flags() -> Seq<&'static str> {
    seq!["--in", "--out"]
}

pub open spec fn io_map_normalize_missing() -> Seq<&'static str> {
    seq!["Missing value for --in <io_map.toml>", "Missing value for --out <normalized.toml>"]
}

/// The command line of `io-map-normalize`: the I/O map and where its
/// normalized form goes, both required.
pub open spec fn spec_io_map_normalize_args(args: Seq<Seq<char>>, usage: Seq<char>) -> Result<
    (Seq<char>, Seq<char>),
    Seq<char>,
> {
    match path_options_of(
        args,
        0,
        io_map_normalize_flags(),
        io_map_normalize_missing(),
        false,
        "io-map-normalize"@,
        usage,
    ) {
        Err(e) => Err(e),
        Ok((v, m)) => if v[0] is None || v[1] is None {
            Err(usage)
        } else {
            Ok((v[0]->0, v[1]->0))
        },
    }
}

pub fn parse_io_map_normalize_args(args: &[String], usage: &str) -> (r: Result<(String, String), String>)
    ensures
        match r {
            Ok((i, o)) => spec_io_map_normalize_args(args_view(args@), usage@) == Ok::<
                (Seq<char>, Seq<char>),
                Seq<char>,
            >((i@, o@)),
            Err(e) => spec_io_map_normalize_args(args_view(args@), usage@) == Err::<
                (Seq<char>, Seq<char>),
                Seq<char>,
            >(e@),
        },
{
    let flags = ["--in", "--out"];
    let missing = ["Missing value for --in <io_map.toml>", "Missing value for --out <normalized.toml>"];
    assert(flags@ =~= io_map_normalize_flags());
    assert(missing@ =~= io_map_normalize_missing());
    let (v, _m) = parse_path_options(args, 0, &flags, &missing, false, "io-map-normalize", usage)?;
    match (clone_opt(&v[0]), clone_opt(&v[1])) {
        (Some(input), Some(out)) => Ok((input, out)),
        _ => Err(owned(usage)),
    }
}

// build-renode-stm32, scenario-validate ------------------------------------

/// What the command line of `build-renode-stm32` asks for.
#[derive(Debug, Clone, PartialEq, Eq)]
pub struct BuildRenodeArgs {
    pub plc_path: String,
    pub scenario_path: String,
    pub out_dir: String,
    pub output: CliOutputMode,
}

pub open spec fn renode_flags() -> Seq<&'static str> {
    seq!["--scenario", "--out"]
}

pub open spec fn renode_missing() -> Seq<&'static str> {
    seq!["Missing value for --scenario <scenario.yaml>", "Missing value for --out <dir>"]
}

/// The command line of `build-renode-stm32`: the PLC source, then
/// `--scenario` and `--out`, both required, and `--output`.
pub open spec fn spec_build_renode_args(args: Seq<Seq<char>>, usage: Seq<char>) -> Result<
    (Seq<char>, Seq<char>, Seq<char>, CliOutputMode),
    Seq<char>,
> {
    match path_options_of(args, 1, renode_flags(), renode_missing(), true, "build-renode-stm32"@, usage) {
        Err(e) => Err(e),
        Ok((v, m)) => if v[0] is None || v[1] is None {
            Err(usage)
        } else {
            Ok((args[0], v[0]->0, v[1]->0, m))
        },
    }
}

pub fn parse_build_renode_args(args: &[String], usage: &str) -> (r: Result<BuildRenodeArgs, String>)
    ensures
        match r {
            Ok(a) => spec_build_renode_args(args_view(args@), usage@) == Ok::<
                (Seq<char>, Seq<char>, Seq<char>, CliOutputMode),
                Seq<char>,
            >((a.plc_path@, a.scenario_path@, a.out_dir@, a.output)),
            Err(e) => spec_build_renode_args(args_view(args@), usage@) == Err::<
                (Seq<char>, Seq<char>, Seq<char>, CliOutputMode),
                Seq<char>,
            >(e@),
        },
{
    let flags = ["--scenario", "--out"];
    let missing = ["Missing value for --scenario <scenario.yaml>", "Missing value for --out <dir>"];
    assert(flags@ =~= renode_flags());
    assert(missing@ =~= renode_missing());
    let (v, output) = parse_path_options(args, 1, &flags, &missing, true, "build-renode-stm32", usage)?;
    match (clone_opt(&v[0]), clone_opt(&v[1])) {
        (Some(scenario_path), Some(out_dir)) => Ok(
            BuildRenodeArgs { plc_path: clone_string(&args[0]), scenario_path, out_dir, output },
        ),
        _ => Err(owned(usage)),
    }
}

/// The command line of `scenario-validate`: the PLC source, then
/// `--scenario` (required, with its own message) and `--output`.
pub open spec fn spec_scenario_validate_args(args: Seq<Seq<char>>, usage: Seq<char>) -> Result<
    (Seq<char>, Seq<char>, CliOutputMode),
    Seq<char>,
> {
    match path_options_of(
        args,
        1,
        seq!["--scenario"],
        seq!["Missing value for --scenario <scenario.yaml>"],
        true,
        "scenario-validate"@,
        usage,
    ) {
        Err(e) => Err(e),
        Ok((v, m)) => if v[0] is None {
            Err("Missing required argument: --scenario <scenario.yaml>"@)
        } else {
            Ok((args[0], v[0]->0, m))
        },
    }
}

pub fn parse_scenario_validate_args(args: &[String], usage: &str) -> (r: Result<
    (String, String, CliOutputMode),
    String,
>)
    ensures
        match r {
            Ok((p, s, m)) => spec_scenario_validate_args(args_view(args@), usage@) == Ok::<
                (Seq<char>, Seq<char>, CliOutputMode),
                Seq<char>,
            >((p@, s@, m)),
            Err(e) => spec_scenario_validate_args(args_view(args@), usage@) == Err::<
                (Seq<char>, Seq<char>, CliOutputMode),
                Seq<char>,
            >(e@),
        },
{
    let flags = ["--scenario"];
    let missing = ["Missing value for --scenario <scenario.yaml>"];
    assert(flags@ =~= seq!["--scenario"]);
    assert(missing@ =~= seq!["Missing value for --scenario <scenario.yaml>"]);
    let (v, output) = parse_path_options(args, 1, &flags, &missing, true, "scenario-validate", usage)?;
    match clone_opt(&v[0]) {
        Some(scenario_path) => Ok((clone_string(&args[0]), scenario_path, output)),
        None => Err(owned("Missing required argument: --scenario <scenario.yaml>")),
    }
}

// component-sim, component-topology-diff ------------------------------------

/// What the command line of `component-sim` asks for.
#[derive(Debug, Clone, PartialEq, Eq)]
pub struct ComponentSimArgs {
    pub topology_path: String,
    pub scenario_path: String,
    pub trace_out: Option<String>,
    pub fault_audit_out: Option<String>,
    pub diagnosis_out: Option<String>,
    pub keypoints_out: Option<String>,
    pub output: CliOutputMode,
}

pub struct ComponentSimArgsView {
    pub topology_path: Seq<char>,
    pub scenario_path: Seq<char>,
    pub trace_out: Option<Seq<char>>,
    pub fault_audit_out: Option<Seq<char>>,
    pub diagnosis_out: Option<Seq<char>>,
    pub keypoints_out: Option<Seq<char>>,
    pub output: CliOutputMode,
}

impl View for ComponentSimArgs {
    type V = ComponentSimArgsView;

    open spec fn view(&self) -> ComponentSimArgsView {
        ComponentSimArgsView {
            topology_path: self.topology_path@,
            scenario_path: self.scenario_path@,
            trace_out: opt_view(self.trace_out),
            fault_audit_out: opt_view(self.fault_audit_out),
            diagnosis_out: opt_view(self.diagnosis_out),
            keypoints_out: opt_view(self.keypoints_out),
            output: self.output,
        }
    }
}

pub open spec fn component_sim_flags() -> Seq<&'static str> {
    seq!["--scenario", "--out", "--fault-audit-out", "--diagnosis-out", "--keypoints-out"]
}

pub open spec fn component_sim_missing() -> Seq<&'static str> {
    seq![
        "Missing value for --scenario <scenario.json>",
        "Missing value for --out <component_trace.jsonl>",
        "Missing value for --fault-audit-out <fault_audit.jsonl>",
        "Missing value for --diagnosis-out <component_diagnosis.json>",
        "Missing value for --keypoints-out <component_keypoints.json>",
    ]
}

/// The command line of `component-sim`: the topology, then `--scenario`
/// (required), the optional outputs and `--output`.
pub open spec fn spec_component_sim_args(args: Seq<Seq<char>>, usage: Seq<char>) -> Result<
    ComponentSimArgsView,
    Seq<char>,
> {
    match path_options_of(
        args,
        1,
        component_sim_flags(),
        component_sim_missing(),
        true,
        "component-sim"@,
        usage,
    ) {
        Err(e) => Err(e),
        Ok((v, m)) => if v[0] is None {
            Err(usage)
        } else {
            Ok(
                ComponentSimArgsView {
                    topology_path: args[0],
                    scenario_path: v[0]->0,
                    trace_out: v[1],
                    fault_audit_out: v[2],
                    diagnosis_out: v[3],
                    keypoints_out: v[4],
                    output: m,
                },
            )
        },
    }
}

pub fn parse_component_sim_args(args: &[String], usage: &str) -> (r: Result<ComponentSimArgs, String>)
    ensures
        match r {
            Ok(a) => spec_component_sim_args(args_view(args@), usage@) == Ok::<
                ComponentSimArgsView,
                Seq<char>,
            >(a@),
            Err(e) => spec_component_sim_args(args_view(args@), usage@) == Err::<
                ComponentSimArgsView,
                Seq<char>,
            >(e@),
        },
{
    let flags = ["--scenario", "--out", "--fault-audit-out", "--diagnosis-out", "--keypoints-out"];
    let missing = [
        "Missing value for --scenario <scenario.json>",
        "Missing value for --out <component_trace.jsonl>",
        "Missing value for --fault-audit-out <fault_audit.jsonl>",
        "Missing value for --diagnosis-out <component_diagnosis.json>",
        "Missing value for --keypoints-out <component_keypoints.json>",
    ];
    assert(flags@ =~= component_sim_flags());
    assert(missing@ =~= component_sim_missing());
    let (v, output) = parse_path_options(args, 1, &flags, &missing, true, "component-sim", usage)?;
    match clone_opt(&v[0]) {
        Some(scenario_path) => Ok(
            ComponentSimArgs {
                topology_path: clone_string(&args[0]),
                scenario_path,
                trace_out: clone_opt(&v[1]),
                fault_audit_out: clone_opt(&v[2]),
                diagnosis_out: clone_opt(&v[3]),
                keypoints_out: clone_opt(&v[4]),
                output,
            },
        ),
        None => Err(owned(usage)),
    }
}

/// The command line of `component-topology-diff`: the topology before and
/// after, then `--out` (required) and `--output`.
pub open spec fn spec_topology_diff_args(args: Seq<Seq<char>>, usage: Seq<char>) -> Result<
    (Seq<char>, Seq<char>, Seq<char>, CliOutputMode),
    Seq<char>,
> {
    match path_options_of(
        args,
        2,
        seq!["--out"],
        seq!["Missing value for --out <semantic_diff.json>"],
        true,
        "component-topology-diff"@,
        usage,
    ) {
        Err(e) => Err(e),
        Ok((v, m)) => if v[0] is None {
            Err(usage)
        } else {
            Ok((args[0], args[1], v[0]->0, m))
        },
    }
}

pub fn parse_topology_diff_args(args: &[String], usage: &str) -> (r: Result<
    (String, String, String, CliOutputMode),
    String,
>)
    ensures
        match r {
            Ok((b, a, o, m)) => spec_topology_diff_args(args_view(args@), usage@) == Ok::<
                (Seq<char>, Seq<char>, Seq<char>, CliOutputMode),
                Seq<char>,
            >((b@, a@, o@, m)),
            Err(e) => spec_topology_diff_args(args_view(args@), usage@) == Err::<
                (Seq<char>, Seq<char>, Seq<char>, CliOutputMode),
                Seq<char>,
            >(e@),
        },
{
    let flags = ["--out"];
    let missing = ["Missing value for --out <semantic_diff.json>"];
    assert(flags@ =~= seq!["--out"]);
    assert(missing@ =~= seq!["Missing value for --out <semantic_diff.json>"]);
    let (v, output) = parse_path_options(args, 2, &flags, &missing, true, "component-topology-diff", usage)?;
    match clone_opt(&v[0]) {
        Some(out) => Ok((clone_string(&args[0]), clone_string(&args[1]), out, output)),
        None => Err(owned(usage)),
    }
}

// sim, scenario-expand --------------------------------------------------------

/// What the command line of `sim` asks for: the scenario and where the
/// trace, the waveform, the analog samples and the report go, if anywhere.
#[derive(Debug, Clone, PartialEq, Eq)]
pub struct SimArgs {
    pub scenario_path: String,
    pub out_path: Option<String>,
    pub vcd_out_path: Option<String>,
    pub analog_out_path: Option<String>,
    pub report_out_path: Option<String>,
}

pub open spec fn sim_flags() -> Seq<&'static str> {
    seq!["--out", "--vcd-out", "--analog-out", "--report-out"]
}

pub open spec fn sim_missing() -> Seq<&'static str> {
    seq![
        "Missing value for --out <trace.jsonl>",
        "Missing value for --vcd-out <wave.vcd>",
        "Missing value for --analog-out <analog.csv>",
        "Missing value for --report-out <report.json>",
    ]
}

/// The command line of `sim`: the scenario, then its optional outputs.
pub open spec fn spec_sim_args(args: Seq<Seq<char>>, usage: Seq<char>) -> Result<
    (Seq<char>, Seq<Option<Seq<char>>>),
    Seq<char>,
> {
    match path_options_of(args, 1, sim_flags(), sim_missing(), false, "sim"@, usage) {
        Err(e) => Err(e),
        Ok((v, m)) => Ok((args[0], v)),
    }
}

pub fn parse_sim_args(args: &[String], usage: &str) -> (r: Result<SimArgs, String>)
    ensures
        match r {
            Ok(a) => spec_sim_args(args_view(args@), usage@) == Ok::<
                (Seq<char>, Seq<Option<Seq<char>>>),
                Seq<char>,
            >(
                (
                    a.scenario_path@,
                    seq![
                        opt_view(a.out_path),
                        opt_view(a.vcd_out_path),
                        opt_view(a.analog_out_path),
                        opt_view(a.report_out_path),
                    ],
                ),
            ),
            Err(e) => spec_sim_args(args_view(args@), usage@) == Err::<
                (Seq<char>, Seq<Option<Seq<char>>>),
                Seq<char>,
            >(e@),
        },
{
    let flags = ["--out", "--vcd-out", "--analog-out", "--report-out"];
    let missing = [
        "Missing value for --out <trace.jsonl>",
        "Missing value for --vcd-out <wave.vcd>",
        "Missing value for --analog-out <analog.csv>",
        "Missing value for --report-out <report.json>",
    ];
    assert(flags@ =~= sim_flags());
    assert(missing@ =~= sim_missing());
    let (v, _m) = parse_path_options(args, 1, &flags, &missing, false, "sim", usage)?;
    let r = SimArgs {
        scenario_path: clone_string(&args[0]),
        out_path: clone_opt(&v[0]),
        vcd_out_path: clone_opt(&v[1]),
        analog_out_path: clone_opt(&v[2]),
        report_out_path: clone_opt(&v[3]),
    };
    assert(opts_view(v@) =~= seq![
        opt_view(r.out_path),
        opt_view(r.vcd_out_path),
        opt_view(r.analog_out_path),
        opt_view(r.report_out_path),
    ]);
    Ok(r)
}

/// The command line of `scenario-expand`: the PLC source, then `--scenario`
/// and `--out`, both required.
pub open spec fn spec_scenario_expand_args(args: Seq<Seq<char>>, usage: Seq<char>) -> Result<
    (Seq<char>, Seq<char>, Seq<char>),
    Seq<char>,
> {
    match path_options_of(
        args,
        1,
        seq!["--scenario", "--out"],
        seq!["Missing value for --scenario <scenario.yaml>", "Missing value for --out <expanded.yaml>"],
        false,
        "scenario-expand"@,
        usage,
    ) {
        Err(e) => Err(e),
        Ok((v, m)) => if v[0] is None || v[1] is None {
            Err(usage)
        } else {
            Ok((args[0], v[0]->0, v[1]->0))
        },
    }
}

pub fn parse_scenario_expand_args(args: &[String], usage: &str) -> (r: Result<
    (String, String, String),
    String,
>)
    ensures
        match r {
            Ok((p, s, o)) => spec_scenario_expand_args(args_view(args@), usage@) == Ok::<
                (Seq<char>, Seq<char>, Seq<char>),
                Seq<char>,
            >((p@, s@, o@)),
            Err(e) => spec_scenario_expand_args(args_view(args@), usage@) == Err::<
                (Seq<char>, Seq<char>, Seq<char>),
                Seq<char>,
            >(e@),
        },
{
    let flags = ["--scenario", "--out"];
    let missing = ["Missing value for --scenario <scenario.yaml>", "Missing value for --out <expanded.yaml>"];
    assert(flags@ =~= seq!["--scenario", "--out"]);
    assert(missing@ =~= seq![
        "Missing value for --scenario <scenario.yaml>",
        "Missing value for --out <expanded.yaml>",
    ]);
    let (v, _m) = parse_path_options(args, 1, &flags, &missing, false, "scenario-expand", usage)?;
    match (clone_opt(&v[0]), clone_opt(&v[1])) {
        (Some(scenario), Some(out)) => Ok((clone_string(&args[0]), scenario, out)),
        _ => Err(owned(usage)),
    }
}

// new -----------------------------------------------------------------------

/// What the command line of `new` asks for.
#[derive(Debug, Clone, PartialEq, Eq)]
pub struct NewProjectArgs {
    pub project_dir: String,
    pub force: bool,
    pub layout: ProjectLayout,
    pub delivery_layer: DeliveryLayer,
}

/// The options of `new` from position `i` on: `--force` is a switch,
/// `--layout` and `--delivery-layer` take a name.
pub open spec fn scan_new_args(
    args: Seq<Seq<char>>,
    i: int,
    force: bool,
    layout: ProjectLayout,
    layer: DeliveryLayer,
    usage: Seq<char>,
) -> Result<(bool, ProjectLayout, DeliveryLayer), Seq<char>>
    decreases args.len() - i,
{
    if i < 0 || i >= args.len() {
        Ok((force, layout, layer))
    } else {
        let a = args[i];
        if a == "--force"@ {
            scan_new_args(args, i + 1, true, layout, layer, usage)
        } else if a == "--layout"@ {
            match value_or(args, i + 1, "Missing value for --layout <single-file|structured-fragments>"@) {
                Err(e) => Err(e),
                Ok(v) => match spec_parse_layout(v) {
                    Err(e) => Err(e),
                    Ok(l) => scan_new_args(args, i + 2, force, l, layer, usage),
                },
            }
        } else if a == "--delivery-layer"@ {
            match value_or(args, i + 1, "Missing value for --delivery-layer <module|station|line>"@) {
                Err(e) => Err(e),
                Ok(v) => match spec_parse_layer(v) {
                    Err(e) => Err(e),
                    Ok(d) => scan_new_args(args, i + 2, force, layout, d, usage),
                },
            }
        } else if a == "-h"@ || a == "--help"@ {
            Err(usage)
        } else {
            Err("Unknown argument for new: "@ + a)
        }
    }
}

/// The command line of `new`: the project directory, then its options; a
/// single-file project at the station layer unless they say otherwise.
pub open spec fn spec_new_project_args(args: Seq<Seq<char>>, usage: Seq<char>) -> Result<
    (Seq<char>, bool, ProjectLayout, DeliveryLayer),
    Seq<char>,
> {
    if args.len() == 0 {
        Err(usage)
    } else {
        match scan_new_args(args, 1, false, ProjectLayout::SingleFile, DeliveryLayer::Station, usage) {
            Err(e) => Err(e),
            Ok((f, l, d)) => Ok((args[0], f, l, d)),
        }
    }
}

pub fn parse_new_project_args(args: &[String], usage: &str) -> (r: Result<NewProjectArgs, String>)
    ensures
        match r {
            Ok(a) => spec_new_project_args(args_view(args@), usage@) == Ok::<
                (Seq<char>, bool, ProjectLayout, DeliveryLayer),
                Seq<char>,
            >((a.project_dir@, a.force, a.layout, a.delivery_layer)),
            Err(e) => spec_new_project_args(args_view(args@), usage@) == Err::<
                (Seq<char>, bool, ProjectLayout, DeliveryLayer),
                Seq<char>,
            >(e@),
        },
{
    let ghost av = args_view(args@);
    if args.len() == 0 {
        return Err(owned(usage));
    }
    let project_dir = clone_string(&args[0]);
    let mut force = false;
    let mut layout = ProjectLayout::SingleFile;
    let mut layer = DeliveryLayer::Station;
    let mut i: usize = 1;
    while i < args.len()
        invariant
            1 <= i <= args@.len() + 1,
            av == args_view(args@),
            av.len() > 0,
            scan_new_args(av, 1, false, ProjectLayout::SingleFile, DeliveryLayer::Station, usage@)
                == scan_new_args(av, i as int, force, layout, layer, usage@),
        decreases args@.len() + 1 - i,
    {
        let a = args[i].as_str();
        assert(a@ == av[i as int]);
        if is_lit(a, "--force") {
            force = true;
            i += 1;
        } else if is_lit(a, "--layout") {
            let v = take_value(args, i + 1, "Missing value for --layout <single-file|structured-fragments>")?;
            layout = ProjectLayout::parse(v.as_str())?;
            i += 2;
        } else if is_lit(a, "--delivery-layer") {
            let v = take_value(args, i + 1, "Missing value for --delivery-layer <module|station|line>")?;
            layer = DeliveryLayer::parse(v.as_str())?;
            i += 2;
        } else if is_lit(a, "-h") || is_lit(a, "--help") {
            return Err(owned(usage));
        } else {
            let mut out = owned("Unknown argument for new: ");
            push_str(&mut out, a);
            return Err(out);
        }
    }
    Ok(NewProjectArgs { project_dir, force, layout, delivery_layer: layer })
}

// sim-pid-kpi, component-topology-validate, component-scenario-validate -----

/// The command line of `sim-pid-kpi`: the PLC source, `--scenario`
/// (required) and `--out`.
pub open spec fn spec_pid_kpi_args(args: Seq<Seq<char>>, usage: Seq<char>) -> Result<
    (Seq<char>, Seq<char>, Option<Seq<char>>),
    Seq<char>,
> {
    match path_options_of(
        args,
        1,
        seq!["--scenario", "--out"],
        seq!["Missing value for --scenario <pid_scenario.yaml>", "Missing value for --out <kpi.json>"],
        false,
        "sim-pid-kpi"@,
        usage,
    ) {
        Err(e) => Err(e),
        Ok((v, m)) => if v[0] is None {
            Err(usage)
        } else {
            Ok((args[0], v[0]->0, v[1]))
        },
    }
}

pub fn parse_pid_kpi_args(args: &[String], usage: &str) -> (r: Result<
    (String, String, Option<String>),
    String,
>)
    ensures
        match r {
            Ok((p, sc, o)) => spec_pid_kpi_args(args_view(args@), usage@) == Ok::<
                (Seq<char>, Seq<char>, Option<Seq<char>>),
                Seq<char>,
            >((p@, sc@, opt_view(o))),
            Err(e) => spec_pid_kpi_args(args_view(args@), usage@) == Err::<
                (Seq<char>, Seq<char>, Option<Seq<char>>),
                Seq<char>,
            >(e@),
        },
{
    let flags = ["--scenario", "--out"];
    let missing = ["Missing value for --scenario <pid_scenario.yaml>", "Missing value for --out <kpi.json>"];
    assert(flags@ =~= seq!["--scenario", "--out"]);
    assert(missing@ =~= seq![
        "Missing value for --scenario <pid_scenario.yaml>",
        "Missing value for --out <kpi.json>",
    ]);
    let (v, _m) = parse_path_options(args, 1, &flags, &missing, false, "sim-pid-kpi", usage)?;
    match clone_opt(&v[0]) {
        Some(scenario) => Ok((clone_string(&args[0]), scenario, clone_opt(&v[1]))),
        None => Err(owned(usage)),
    }
}

/// The command line of `component-topology-validate` or
/// `component-scenario-validate` (`command`): the input, then
/// `--normalized-out` (with `missing` as the message when its value is
/// missing) and `--output`.
pub open spec fn spec_component_validate_args(
    args: Seq<Seq<char>>,
    command: Seq<char>,
    missing: &str,
    usage: Seq<char>,
) -> Result<(Seq<char>, Option<Seq<char>>, CliOutputMode), Seq<char>> {
    match path_options_of(args, 1, seq!["--normalized-out"], seq![missing], true, command, usage) {
        Err(e) => Err(e),
        Ok((v, m)) => Ok((args[0], v[0], m)),
    }
}

fn component_validate_args(args: &[String], command: &str, missing: &str, usage: &str) -> (r: Result<
    (String, Option<String>, CliOutputMode),
    String,
>)
    ensures
        match r {
            Ok((p, n, m)) => spec_component_validate_args(args_view(args@), command@, missing, usage@)
                == Ok::<(Seq<char>, Option<Seq<char>>, CliOutputMode), Seq<char>>(
                (p@, opt_view(n), m),
            ),
            Err(e) => spec_component_validate_args(args_view(args@), command@, missing, usage@)
                == Err::<(Seq<char>, Option<Seq<char>>, CliOutputMode), Seq<char>>(e@),
        },
{
    let flags = ["--normalized-out"];
    let missings = [missing];
    assert(flags@ =~= seq!["--normalized-out"]);
    assert(missings@ =~= seq![missing]);
    let (v, output) = parse_path_options(args, 1, &flags, &missings, true, command, usage)?;
    Ok((clone_string(&args[0]), clone_opt(&v[0]), output))
}

/// The topology, where its normalized form goes, and the output mode.
pub fn parse_component_topology_validate_args(args: &[String], usage: &str) -> (r: Result<
    (String, Option<String>, CliOutputMode),
    String,
>)
    ensures
        match r {
            Ok((p, n, m)) => spec_component_validate_args(
                args_view(args@),
                "component-topology-validate"@,
                "Missing value for --normalized-out <normalized_topology.json>",
                usage@,
            ) == Ok::<(Seq<char>, Option<Seq<char>>, CliOutputMode), Seq<char>>(
                (p@, opt_view(n), m),
            ),
            Err(e) => spec_component_validate_args(
                args_view(args@),
                "component-topology-validate"@,
                "Missing value for --normalized-out <normalized_topology.json>",
                usage@,
            ) == Err::<(Seq<char>, Option<Seq<char>>, CliOutputMode), Seq<char>>(e@),
        },
{
    component_validate_args(
        args,
        "component-topology-validate",
        "Missing value for --normalized-out <normalized_topology.json>",
        usage,
    )
}

/// The scenario, where its normalized form goes, and the output mode.
pub fn parse_component_scenario_validate_args(args: &[String], usage: &str) -> (r: Result<
    (String, Option<String>, CliOutputMode),
    String,
>)
    ensures
        match r {
            Ok((p, n, m)) => spec_component_validate_args(
                args_view(args@),
                "component-scenario-validate"@,
                "Missing value for --normalized-out <normalized_scenario.json>",
                usage@,
            ) == Ok::<(Seq<char>, Option<Seq<char>>, CliOutputMode), Seq<char>>(
                (p@, opt_view(n), m),
            ),
            Err(e) => spec_component_validate_args(
                args_view(args@),
                "component-scenario-validate"@,
                "Missing value for --normalized-out <normalized_scenario.json>",
                usage@,
            ) == Err::<(Seq<char>, Option<Seq<char>>, CliOutputMode), Seq<char>>(e@),
        },
{
    component_validate_args(
        args,
        "component-scenario-validate",
        "Missing value for --normalized-out <normalized_scenario.json>",
        usage,
    )
}

// flash-rp2040, sim-regress ---------------------------------------------------

/// The options of `flash-rp2040` from position `i` on: `--uf2` and
/// `--mount` take a path, `--dry-run` is a switch; both paths must be given.
pub open spec fn scan_flash_args(
    args: Seq<Seq<char>>,
    i: int,
    uf2: Option<Seq<char>>,
    mount: Option<Seq<char>>,
    dry_run: bool,
    usage: Seq<char>,
) -> Result<(Seq<char>, Seq<char>, bool), Seq<char>>
    decreases args.len() - i,
{
    if i < 0 || i >= args.len() {
        if uf2 is None || mount is None {
            Err(usage)
        } else {
            Ok((uf2->0, mount->0, dry_run))
        }
    } else {
        let a = args[i];
        if a == "--uf2"@ {
            match value_or(args, i + 1, "Missing value for --uf2 <file.uf2>"@) {
                Err(e) => Err(e),
                Ok(v) => scan_flash_args(args, i + 2, Some(v), mount, dry_run, usage),
            }
        } else if a == "--mount"@ {
            match value_or(args, i + 1, "Missing value for --mount <path>"@) {
                Err(e) => Err(e),
                Ok(v) => scan_flash_args(args, i + 2, uf2, Some(v), dry_run, usage),
            }
        } else if a == "--dry-run"@ {
            scan_flash_args(args, i + 1, uf2, mount, true, usage)
        } else if a == "-h"@ || a == "--help"@ {
            Err(usage)
        } else {
            Err("Unknown argument for flash-rp2040: "@ + a)
        }
    }
}

/// The UF2 image, the mount point of the board and whether to only show
/// the copy.
pub fn parse_flash_rp2040_args(args: &[String], usage: &str) -> (r: Result<
    (String, String, bool),
    String,
>)
    ensures
        match r {
            Ok((u, m, d)) => scan_flash_args(args_view(args@), 0, None, None, false, usage@) == Ok::<
                (Seq<char>, Seq<char>, bool),
                Seq<char>,
            >((u@, m@, d)),
            Err(e) => scan_flash_args(args_view(args@), 0, None, None, false, usage@) == Err::<
                (Seq<char>, Seq<char>, bool),
                Seq<char>,
            >(e@),
        },
{
    let ghost av = args_view(args@);
    let mut uf2: Option<String> = None;
    let mut mount: Option<String> = None;
    let mut dry_run = false;
    let mut i: usize = 0;
    while i < args.len()
        invariant
            i <= args@.len() + 1,
            av == args_view(args@),
            scan_flash_args(av, 0, None, None, false, usage@) == scan_flash_args(
                av,
                i as int,
                opt_view(uf2),
                opt_view(mount),
                dry_run,
                usage@,
            ),
        decreases args@.len() + 1 - i,
    {
        let a = args[i].as_str();
        assert(a@ == av[i as int]);
        if is_lit(a, "--uf2") {
            uf2 = Some(take_value(args, i + 1, "Missing value for --uf2 <file.uf2>")?);
            i += 2;
        } else if is_lit(a, "--mount") {
            mount = Some(take_value(args, i + 1, "Missing value for --mount <path>")?);
            i += 2;
        } else if is_lit(a, "--dry-run") {
            dry_run = true;
            i += 1;
        } else if is_lit(a, "-h") || is_lit(a, "--help") {
            return Err(owned(usage));
        } else {
            let mut m = owned("Unknown argument for flash-rp2040: ");
            push_str(&mut m, a);
            return Err(m);
        }
    }
    match (uf2, mount) {
        (Some(u), Some(m)) => Ok((u, m, dry_run)),
        _ => Err(owned(usage)),
    }
}

/// What the command line of `sim-regress` asks for.
#[derive(Debug, Clone, PartialEq, Eq)]
pub struct SimRegressArgs {
    pub plc_dir: String,
    pub scenario_dir: String,
    pub artifacts_dir: Option<String>,
    pub summary_out: Option<String>,
    pub minimize_failure: bool,
}

/// The options of `sim-regress` from position `i` on (the directory paths,
/// then the `--minimize-failure` switch); the PLC and scenario directories
/// must be given.
pub open spec fn scan_regress_args(
    args: Seq<Seq<char>>,
    i: int,
    paths: Seq<Option<Seq<char>>>,
    minimize: bool,
    usage: Seq<char>,
) -> Result<(Seq<Option<Seq<char>>>, bool), Seq<char>>
    decreases args.len() - i,
{
    if i < 0 || i >= args.len() {
        if paths[0] is None || paths[1] is None {
            Err(usage)
        } else {
            Ok((paths, minimize))
        }
    } else {
        let a = args[i];
        if a == "--plc-dir"@ {
            match value_or(args, i + 1, "Missing value for --plc-dir <dir>"@) {
                Err(e) => Err(e),
                Ok(v) => scan_regress_args(args, i + 2, paths.update(0, Some(v)), minimize, usage),
            }
        } else if a == "--scenario-dir"@ {
            match value_or(args, i + 1, "Missing value for --scenario-dir <dir>"@) {
                Err(e) => Err(e),
                Ok(v) => scan_regress_args(args, i + 2, paths.update(1, Some(v)), minimize, usage),
            }
        } else if a == "--artifacts-dir"@ {
            match value_or(args, i + 1, "Missing value for --artifacts-dir <dir>"@) {
                Err(e) => Err(e),
                Ok(v) => scan_regress_args(args, i + 2, paths.update(2, Some(v)), minimize, usage),
            }
        } else if a == "--summary-out"@ {
            match value_or(args, i + 1, "Missing value for --summary-out <summary.json>"@) {
                Err(e) => Err(e),
                Ok(v) => scan_regress_args(args, i + 2, paths.update(3, Some(v)), minimize, usage),
            }
        } else if a == "--minimize-failure"@ {
            scan_regress_args(args, i + 1, paths, true, usage)
        } else if a == "-h"@ || a == "--help"@ {
            Err(usage)
        } else {
            Err("Unknown argument for sim-regress: "@ + a)
        }
    }
}

pub open spec fn regress_args_view(a: SimRegressArgs) -> (Seq<Option<Seq<char>>>, bool) {
    (
        seq![
            Some(a.plc_dir@),
            Some(a.scenario_dir@),
            opt_view(a.artifacts_dir),
            opt_view(a.summary_out),
        ],
        a.minimize_failure,
    )
}

pub fn parse_sim_regress_args(args: &[String], usage: &str) -> (r: Result<SimRegressArgs, String>)
    ensures
        match r {
            Ok(a) => scan_regress_args(args_view(args@), 0, no_values(4), false, usage@) == Ok::<
                (Seq<Option<Seq<char>>>, bool),
                Seq<char>,
            >(regress_args_view(a)),
            Err(e) => scan_regress_args(args_view(args@), 0, no_values(4), false, usage@) == Err::<
                (Seq<Option<Seq<char>>>, bool),
                Seq<char>,
            >(e@),
        },
{
    let ghost av = args_view(args@);
    let mut plc_dir: Option<String> = None;
    let mut scenario_dir: Option<String> = None;
    let mut artifacts_dir: Option<String> = None;
    let mut summary_out: Option<String> = None;
    let mut minimize = false;
    let mut i: usize = 0;
    assert(no_values(4) =~= seq![
        opt_view(plc_dir),
        opt_view(scenario_dir),
        opt_view(artifacts_dir),
        opt_view(summary_out),
    ]);
    while i < args.len()
        invariant
            i <= args@.len() + 1,
            av == args_view(args@),
            scan_regress_args(av, 0, no_values(4), false, usage@) == scan_regress_args(
                av,
                i as int,
                seq![
                    opt_view(plc_dir),
                    opt_view(scenario_dir),
                    opt_view(artifacts_dir),
                    opt_view(summary_out),
                ],
                minimize,
                usage@,
            ),
        decreases args@.len() + 1 - i,
    {
        let a = args[i].as_str();
        assert(a@ == av[i as int]);
        let ghost before = seq![
            opt_view(plc_dir),
            opt_view(scenario_dir),
            opt_view(artifacts_dir),
            opt_view(summary_out),
        ];
        if is_lit(a, "--plc-dir") {
            plc_dir = Some(take_value(args, i + 1, "Missing value for --plc-dir <dir>")?);
            assert(before.update(0, opt_view(plc_dir)) =~= seq![
                opt_view(plc_dir),
                opt_view(scenario_dir),
                opt_view(artifacts_dir),
                opt_view(summary_out),
            ]);
            i += 2;
        } else if is_lit(a, "--scenario-dir") {
            scenario_dir = Some(take_value(args, i + 1, "Missing value for --scenario-dir <dir>")?);
            assert(before.update(1, opt_view(scenario_dir)) =~= seq![
                opt_view(plc_dir),
                opt_view(scenario_dir),
                opt_view(artifacts_dir),
                opt_view(summary_out),
            ]);
            i += 2;
        } else if is_lit(a, "--artifacts-dir") {
            artifacts_dir = Some(take_value(args, i + 1, "Missing value for --artifacts-dir <dir>")?);
            assert(before.update(2, opt_view(artifacts_dir)) =~= seq![
                opt_view(plc_dir),
                opt_view(scenario_dir),
                opt_view(artifacts_dir),
                opt_view(summary_out),
            ]);
            i += 2;
        } else if is_lit(a, "--summary-out") {
            summary_out = Some(take_value(args, i + 1, "Missing value for --summary-out <summary.json>")?);
            assert(before.update(3, opt_view(summary_out)) =~= seq![
                opt_view(plc_dir),
                opt_view(scenario_dir),
                opt_view(artifacts_dir),
                opt_view(summary_out),
            ]);
            i += 2;
        } else if is_lit(a, "--minimize-failure") {
            minimize = true;
            i += 1;
        } else if is_lit(a, "-h") || is_lit(a, "--help") {
            return Err(owned(usage));
        } else {
            let mut m = owned("Unknown argument for sim-regress: ");
            push_str(&mut m, a);
            return Err(m);
        }
    }
    match (plc_dir, scenario_dir) {
        (Some(p), Some(sd)) => {
            let r = SimRegressArgs {
                plc_dir: p,
                scenario_dir: sd,
                artifacts_dir,
                summary_out,
                minimize_failure: minimize,
            };
            Ok(r)
        },
        _ => Err(owned(usage)),
    }
}

// flowchart -----------------------------------------------------------------------

/// The options of `flowchart` from position `i` on: `--out-dir` and
/// `--title` take a value, `--output` the mode; an unknown option is
/// refused with the usage text after the message.
pub open spec fn scan_flowchart_args(
    args: Seq<Seq<char>>,
    i: int,
    out_dir: Option<Seq<char>>,
    title: Option<Seq<char>>,
    output: CliOutputMode,
    usage: Seq<char>,
) -> Result<(Option<Seq<char>>, Option<Seq<char>>, CliOutputMode), Seq<char>>
    decreases args.len() - i,
{
    if i < 0 || i >= args.len() {
        Ok((out_dir, title, output))
    } else {
        let a = args[i];
        if a == "--out-dir"@ {
            match value_or(args, i + 1, "Missing value for --out-dir <dir>"@) {
                Err(e) => Err(e),
                Ok(v) => scan_flowchart_args(args, i + 2, Some(v), title, output, usage),
            }
        } else if a == "--title"@ {
            match value_or(args, i + 1, "Missing value for --title <title>"@) {
                Err(e) => Err(e),
                Ok(v) => scan_flowchart_args(args, i + 2, out_dir, Some(v), output, usage),
            }
        } else if a == "--output"@ {
            match value_or(args, i + 1, "Missing value for --output <human|json>"@) {
                Err(e) => Err(e),
                Ok(raw) => match output_mode_of(raw) {
                    None => Err("Invalid value for --output `"@ + raw + "` (expected human or json)"@),
                    Some(m) => scan_flowchart_args(args, i + 2, out_dir, title, m, usage),
                },
            }
        } else if a == "-h"@ || a == "--help"@ {
            Err(usage)
        } else {
            Err("Unknown argument for flowchart: "@ + a + "\n"@ + usage)
        }
    }
}

/// The command line of `flowchart`: the PLC source, then where the page
/// goes, its title and the output mode.
pub open spec fn spec_flowchart_args(args: Seq<Seq<char>>, usage: Seq<char>) -> Result<
    (Seq<char>, Option<Seq<char>>, Option<Seq<char>>, CliOutputMode),
    Seq<char>,
> {
    if args.len() == 0 {
        Err(usage)
    } else {
        match scan_flowchart_args(args, 1, None, None, CliOutputMode::Human, usage) {
            Err(e) => Err(e),
            Ok((d, t, m)) => Ok((args[0], d, t, m)),
        }
    }
}

pub fn parse_flowchart_args(args: &[String], usage: &str) -> (r: Result<
    (String, Option<String>, Option<String>, CliOutputMode),
    String,
>)
    ensures
        match r {
            Ok((p, d, t, m)) => spec_flowchart_args(args_view(args@), usage@) == Ok::<
                (Seq<char>, Option<Seq<char>>, Option<Seq<char>>, CliOutputMode),
                Seq<char>,
            >((p@, opt_view(d), opt_view(t), m)),
            Err(e) => spec_flowchart_args(args_view(args@), usage@) == Err::<
                (Seq<char>, Option<Seq<char>>, Option<Seq<char>>, CliOutputMode),
                Seq<char>,
            >(e@),
        },
{
    let ghost av = args_view(args@);
    if args.len() == 0 {
        return Err(owned(usage));
    }
    let plc_path = clone_string(&args[0]);
    let mut out_dir: Option<String> = None;
    let mut title: Option<String> = None;
    let mut output = CliOutputMode::Human;
    let mut i: usize = 1;
    while i < args.len()
        invariant
            1 <= i <= args@.len() + 1,
            av == args_view(args@),
            av.len() > 0,
            scan_flowchart_args(av, 1, None, None, CliOutputMode::Human, usage@) == scan_flowchart_args(
                av,
                i as int,
                opt_view(out_dir),
                opt_view(title),
                output,
                usage@,
            ),
        decreases args@.len() + 1 - i,
    {
        let a = args[i].as_str();
        assert(a@ == av[i as int]);
        if is_lit(a, "--out-dir") {
            out_dir = Some(take_value(args, i + 1, "Missing value for --out-dir <dir>")?);
        } else if is_lit(a, "--title") {
            title = Some(take_value(args, i + 1, "Missing value for --title <title>")?);
        } else if is_lit(a, "--output") {
            let raw = take_value(args, i + 1, "Missing value for --output <human|json>")?;
            match parse_cli_output_mode(raw.as_str()) {
                Some(m) => {
                    output = m;
                },
                None => {
                    let mut e = owned("Invalid value for --output `");
                    push_str(&mut e, raw.as_str());
                    push_str(&mut e, "` (expected human or json)");
                    return Err(e);
                },
            }
        } else if is_lit(a, "-h") || is_lit(a, "--help") {
            return Err(owned(usage));
        } else {
            let mut e = owned("Unknown argument for flowchart: ");
            push_str(&mut e, a);
            push_str(&mut e, "\n");
            push_str(&mut e, usage);
            return Err(e);
        }
        i += 2;
    }
    Ok((plc_path, out_dir, title, output))
}

} // verus!
