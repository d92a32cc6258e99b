//! The files that `new` writes for a fresh project: manifest, sources,
//! scenarios, configuration, editor support and documentation.
use vstd::prelude::*;
use crate::text::{
    chars_of, eq_chars, is_ws, is_ws_char, owned, push_chars, push_str, replace_all, replace_all_exec,
};

verus! {
pub const GITIGNORE: &'static str = "/out/**\n!/out/\n!/out/**/\n!/out/**/.gitkeep\n";
pub const NORMAL_SCENARIO: &'static str = "tick_ms: 10\nduration_ms: 300\ninputs:\n  - at_ms: 0\n    set:\n      digital_inputs:\n        0: true\n  - at_ms: 50\n    set:\n      digital_inputs:\n        0: false\nforces: []\n";
pub const IO_MAP: &'static str = "schema_version = 1\n\n[digital_inputs]\ndi0 = { gpio = 2, pull = \"up\" }\n\n[digital_outputs]\ndo0 = { gpio = 10, active_low = false }\n\n[safe_state]\nmode = \"all_zero\"\non_exit_timeout_ms = 0\n";
pub const RETAIN: &'static str = "schema_version = 1\n\n[retain]\nenabled = false\npath = \"out/sim/retain_state.json\"\n";
pub const WORKPIECE: &'static str = "schema_version = 1\n\n[workpiece]\nrequired = true\n";
pub const VSCODE_SETTINGS: &'static str = "{\n  \"files.associations\": {\n    \"*.plc\": \"ini\",\n    \"*.plcfrag\": \"ini\"\n  },\n  \"editor.tabSize\": 4,\n  \"editor.insertSpaces\": true,\n  \"editor.detectIndentation\": false\n}\n";
pub const VSCODE_EXTENSIONS: &'static str = "{\n  \"recommendations\": [\n    \"rust-lang.rust-analyzer\",\n    \"redhat.vscode-yaml\",\n    \"tamasfe.even-better-toml\"\n  ]\n}\n";
pub const PROCESS_OPERATION_MODEL: &'static str = r#"schema_version = 1
policy = "opportunistic_admission"
diagnostics = []

# Source-side scheduling intent. Keep this file ahead of task/step flow:
# plc/main.system.md -> process_model/process_operation_model.toml -> 02_process/ -> process-model-check.
# `operation-model` is only a migration or audit helper for an existing task/step source.

[[operation_classes]]
key = "move:Acquire:infeed->part_handler"
operation_ids = ["auto_cycle.pick.op1"]
source_patterns = ["infeed"]
destination_patterns = ["part_handler"]
effect_kinds = ["Acquire"]

[[operation_classes]]
key = "move:Transfer:part_handler->outfeed"
operation_ids = ["auto_cycle.place.op2"]
source_patterns = ["part_handler"]
destination_patterns = ["outfeed"]
effect_kinds = ["Transfer"]

[[operation_classes]]
key = "finish:outfeed:finished"
operation_ids = ["auto_cycle.stop.op3"]
source_patterns = ["outfeed"]
effect_kinds = ["Finish"]

[[operation_classes]]
key = "move:Transfer:infeed->reject_bin+finish:reject_bin:rejected"
operation_ids = ["fault.reject_unstarted.op4"]
source_patterns = ["infeed", "reject_bin"]
destination_patterns = ["reject_bin"]
effect_kinds = ["Finish", "Transfer"]

[[operations]]
id = "auto_cycle.pick.op1"
contract_key = 'effects=[WorkpieceMove { effect: Acquire, from: "infeed", to: "part_handler" }];admissions=[dest:part_handler|source:infeed];resources=[]'
operation_class = "move:Acquire:infeed->part_handler"
task_name = "auto_cycle"
step_name = "pick"

[operations.from_state]
task_name = "auto_cycle"
step_name = "pick"

[operations.to_state]
task_name = "auto_cycle"
step_name = "run"

[operations.guard]
kind = "always"

[[operations.admissions]]
kind = "source_available"
endpoint = "infeed"

[[operations.admissions]]
kind = "destination_has_capacity"
endpoint = "part_handler"

[[operations.effects]]
kind = "workpiece_move"
effect = "acquire"
from = "infeed"
to = "part_handler"

[[operations]]
id = "auto_cycle.place.op2"
contract_key = 'effects=[WorkpieceMove { effect: Transfer, from: "part_handler", to: "outfeed" }];admissions=[dest:outfeed|source:part_handler];resources=[]'
operation_class = "move:Transfer:part_handler->outfeed"
task_name = "auto_cycle"
step_name = "place"

[operations.from_state]
task_name = "auto_cycle"
step_name = "place"

[operations.to_state]
task_name = "auto_cycle"
step_name = "stop"

[operations.guard]
kind = "always"

[[operations.admissions]]
kind = "source_available"
endpoint = "part_handler"

[[operations.admissions]]
kind = "destination_has_capacity"
endpoint = "outfeed"

[[operations.effects]]
kind = "workpiece_move"
effect = "transfer"
from = "part_handler"
to = "outfeed"

[[operations]]
id = "auto_cycle.stop.op3"
contract_key = 'effects=[WorkpieceFinish { at: "outfeed", terminal_state: "finished" }];admissions=[source:outfeed];resources=[]'
operation_class = "finish:outfeed:finished"
task_name = "auto_cycle"
step_name = "stop"

[operations.from_state]
task_name = "auto_cycle"
step_name = "stop"

[operations.to_state]
task_name = "done"
step_name = "halt"

[operations.guard]
kind = "always"

[[operations.admissions]]
kind = "source_available"
endpoint = "outfeed"

[[operations.effects]]
kind = "workpiece_finish"
at = "outfeed"
terminal_state = "finished"

[[operations]]
id = "fault.reject_unstarted.op4"
contract_key = 'effects=[WorkpieceFinish { at: "reject_bin", terminal_state: "rejected" }|WorkpieceMove { effect: Transfer, from: "infeed", to: "reject_bin" }];admissions=[dest:reject_bin|source:infeed|source:reject_bin];resources=[]'
operation_class = "move:Transfer:infeed->reject_bin+finish:reject_bin:rejected"
task_name = "fault"
step_name = "reject_unstarted"

[operations.from_state]
task_name = "fault"
step_name = "reject_unstarted"

[operations.to_state]
task_name = "done"
step_name = "halt"

[operations.guard]
kind = "always"

[[operations.admissions]]
kind = "source_available"
endpoint = "infeed"

[[operations.admissions]]
kind = "destination_has_capacity"
endpoint = "reject_bin"

[[operations.admissions]]
kind = "source_available"
endpoint = "reject_bin"

[[operations.effects]]
kind = "workpiece_move"
effect = "transfer"
from = "infeed"
to = "reject_bin"

[[operations.effects]]
kind = "workpiece_finish"
at = "reject_bin"
terminal_state = "rejected"
"#;
pub const STATE_PROOF_CONFIG: &'static str = r#"schema_version = 1

[[trusted_initial_state]]
symbol = "outfeed"
reason = "Starter scaffold assumes the finished-part outfeed is emptied before startup."
proof_basis = "commissioning checklist"

[[trusted_initial_state]]
symbol = "part_handler"
reason = "Starter scaffold assumes the transfer handler is empty before startup."
proof_basis = "commissioning checklist"

[[self_check_exempt_devices]]
device = "run_lamp"
reason = "Starter scaffold output lamp has no modeled feedback contact."
proof_basis = "commissioning checklist verifies lamp wiring during panel test"
"#;
pub const SINGLE_FILE_PLC: &'static str = "[topology]\n\ndevice plc_main: plc {\n    purpose: \"Controller with minimal digital I/O mapping\",\n    model_ref: openplc_softplc\n}\n\ncontroller_io plc_main {\n    input start_cycle_cmd: X0 { purpose: \"Start request input\" }\n    output run_lamp_cmd: Y0 { purpose: \"Run lamp command\", safe_state: off }\n}\n\ndevice start_button: sensor { purpose: \"Start request\", subtype: \"push_button\", debounce: 20ms }\ndevice run_lamp: solenoid_valve { purpose: \"Demo run output\", response_time: 20ms }\n\nworkpiece part: workpiece_type {\n    normal_terminal_states: [finished]\n    abnormal_terminal_states: [rejected]\n    ingress_sites: [infeed]\n    normal_egress_sites: [outfeed]\n    abnormal_egress_sites: [reject_bin]\n}\n\nlocation infeed: workpiece_location { capacity: 1 }\nlocation outfeed: workpiece_location { capacity: 1 }\nlocation reject_bin: workpiece_location { capacity: 20 }\nholder part_handler: workpiece_holder { capacity: 1 }\n\nrelation { from: start_button.out, to: plc_main.start_cycle_cmd, via: reports_to }\nrelation { from: plc_main.run_lamp_cmd, to: run_lamp.coil, via: driven_by }\n\n[constraints]\n\n[tasks]\n\ntask startup_initializer:\n    step safe_outputs_off:\n        action: set run_lamp off\n\n    on_complete: goto main.wait_start\n\ntask main:\n    step wait_start:\n        wait: start_button == true\n        timeout: 100ms -> goto fault.reject_unstarted\n\n    step pick:\n        effect: acquire holder part_handler from infeed\n\n    step run:\n        action: set run_lamp on\n        delay: 20ms\n\n    step place:\n        effect: transfer from part_handler to outfeed\n\n    step stop:\n        effect: finish workpiece at outfeed as finished\n        action: set run_lamp off\n\n    on_complete: goto done\n\ntask fault:\n    step reject_unstarted:\n        action: set run_lamp off\n        effect: transfer from infeed to reject_bin\n        effect: finish workpiece at reject_bin as rejected\n    on_complete: goto done\n\ntask done:\n    step halt:\n";
pub const DEVICES_PLC: &'static str = "device start_button: sensor { purpose: \"Start request\", subtype: \"push_button\", debounce: 20ms }\ndevice run_lamp: solenoid_valve { purpose: \"Demo run output\", response_time: 20ms }\n";
pub const WORKPIECES_PLC: &'static str = "workpiece part: workpiece_type {\n    normal_terminal_states: [finished]\n    abnormal_terminal_states: [rejected]\n    ingress_sites: [infeed]\n    normal_egress_sites: [outfeed]\n    abnormal_egress_sites: [reject_bin]\n}\n\nlocation infeed: workpiece_location { capacity: 1 }\nlocation outfeed: workpiece_location { capacity: 1 }\nlocation reject_bin: workpiece_location { capacity: 20 }\nholder part_handler: workpiece_holder { capacity: 1 }\n";
pub const CONNECTIONS_PLC: &'static str = "relation { from: start_button.out, to: plc_main.start_cycle_cmd, via: reports_to }\nrelation { from: plc_main.run_lamp_cmd, to: run_lamp.coil, via: driven_by }\n";
pub const STATION_PROTOCOL_PLC: &'static str = "# Station isolation protocol.\n#\n# When a project has multiple stations, this file declares:\n#   1. Device partition - which station owns which devices\n#   2. Handshake signals - how stations communicate\n#   3. Transfer points - where workpieces cross station boundaries\n#\n# Without these declarations, multi-station files in 02_process/\n# have NO compiler-enforced isolation. Any task can write any device.\n#\n# Example (supported by the compiler):\n#\n#   station st01_loading {\n#       owns: [valve_push, cyl_push, sensor_push_ext, sensor_push_ret]\n#       tasks: [st01_cycle]\n#   }\n#\n#   station st02_assembly {\n#       owns: [valve_press, cyl_press, sensor_press_ext, sensor_press_ret]\n#       tasks: [st02_cycle]\n#   }\n#\n#   handshake st01_to_st02 {\n#       from: st01_loading, to: st02_assembly\n#       request: st01_outflow_request\n#       allow: st02_inflow_allow\n#       complete: st01_outflow_done\n#       timeout: 5000ms -> goto fault\n#   }\n#\n#   transfer_point st01_st02_handoff {\n#       from_station: st01_loading\n#       to_station: st02_assembly\n#       site: press_position\n#       handshake: st01_to_st02\n#   }\n";
pub const INIT_DEFAULTS_PLC: &'static str = "task startup_initializer:\n    step safe_outputs_off:\n        action: set run_lamp off\n\n    on_complete: goto supervisor.wait_start\n";
pub const MAIN_CYCLE_PLC: &'static str = "task supervisor:\n    step wait_start:\n        wait: start_button == true\n        timeout: 100ms -> goto fault.reject_unstarted\n\n    on_complete: goto auto_cycle.pick\n\ntask auto_cycle:\n    step pick:\n        effect: acquire holder part_handler from infeed\n\n    step run:\n        action: set run_lamp on\n        delay: 20ms\n\n    step place:\n        effect: transfer from part_handler to outfeed\n\n    step stop:\n        effect: finish workpiece at outfeed as finished\n        action: set run_lamp off\n\n    on_complete: goto done.halt\n";
pub const CONSTRAINTS_PLACEHOLDER: &'static str = "# Safety, timing, and resource constraint rules.\n# This file is a placeholder; the compiler skips files starting with _.\n# Rename to e.g. safety_rules.plc when adding real constraints.\n";
pub const FAULT_HANDLERS_PLC: &'static str = "task fault:\n    step reject_unstarted:\n        action: set run_lamp off\n        effect: transfer from infeed to reject_bin\n        effect: finish workpiece at reject_bin as rejected\n\n    on_complete: goto done.halt\n\ntask done:\n    step halt:\n";
pub const SUPERVISION_PLACEHOLDER: &'static str = "# Machine mode management (auto/manual/init/alarm).\n# This file is a placeholder; the compiler skips files starting with _.\n";
pub const MANUAL_PLACEHOLDER: &'static str = "# Manual-mode tasks and jog operations.\n# This file is a placeholder; the compiler skips files starting with _.\n";
pub const HMI_PLACEHOLDER: &'static str = "# HMI command routing and status mirroring.\n# This file is a placeholder; the compiler skips files starting with _.\n";
pub const BUNDLE_V2: &'static str = r#"schema_version = 2

# ============================================================================
# Execution order & agent collaboration
# ============================================================================
#
# Phases execute in STRICT SERIAL order (top to bottom).
# Each phase assumes the state established by all previous phases.
#
#   00_topology     -> declare devices, workpieces, connections, station protocol
#   process_model   -> author admissible workpiece operations before task/step
#   01_init         -> establish safe state (all outputs off, defaults set)
#   02_process      -> automatic production cycle (assumes safe-state entry)
#   03_constraints  -> safety/timing rules (references devices + steps)
#   04_faults       -> fault recovery (returns system to safe state)
#   05_supervision  -> mode arbitration (placeholder)
#   06_manual       -> manual operations (placeholder)
#   07_hmi          -> HMI interface (placeholder)
#
# PARALLEL WINDOW (within 02_process/ and 04_faults/):
#   Multiple station files (st01_*.plc, st02_*.plc) can be written by
#   separate agents simultaneously, BUT ONLY IF the station protocol in
#   00_topology/_station_protocol.plc declares:
#     - Device partition: which station owns which devices
#     - Handshake signals: how stations communicate
#     - Transfer points: where workpieces cross station boundaries
#
#   Without a station protocol, there is NO compiler-enforced isolation.
#   Any task can write any device. Parallel authoring is at your own risk.
#
# ============================================================================

[phases.00_topology]
path = "00_topology/"
section = "topology"
exports = ["devices", "connections", "workpieces"]

[phases.01_init]
path = "01_init/"
section = "tasks"
depends_on = ["00_topology"]
exports = ["startup_initializer"]
# Establishes: all outputs in safe state, device defaults applied.
# Downstream phases assume this state as their entry condition.

[phases.02_process]
path = "02_process/"
section = "tasks"
depends_on = ["01_init"]
exports = ["supervisor", "auto_cycle"]
# Entry condition: safe state established by 01_init.
# Multi-station: add st01_*.plc, st02_*.plc - requires station protocol.

[phases.03_constraints]
path = "03_constraints/"
section = "constraints"
depends_on = ["02_process"]
exports = ["safety_rules", "timing_rules"]
# References device names AND step/task names from 02_process.

[phases.04_faults]
path = "04_faults/"
section = "tasks"
depends_on = ["02_process"]
exports = ["fault", "done"]
# Handles abnormal states created by 02_process.
# Returns system to safe state defined by 01_init.

[phases.05_supervision]
path = "05_supervision/"
section = "tasks"
depends_on = ["02_process"]
enabled = false
# Arbitrates auto/manual/init modes across 02_process tasks.

[phases.06_manual]
path = "06_manual/"
section = "tasks"
depends_on = ["01_init"]
enabled = false
# Manual operations assume safe state, independent of 02_process.

[phases.07_hmi]
path = "07_hmi/"
section = "tasks"
depends_on = ["05_supervision"]
enabled = false
# Mirrors supervision state to HMI.
"#;
pub const VSCODE_README: &'static str = "# VS Code Day-1 Support for RustPLC\n\n## What this package provides\n\n- `settings.json`: associates `*.plc` with INI highlighting\n- `plc.code-snippets`: starter snippets for PLC skeletons\n- `tasks.json`: one-click project-check, sim, and gate commands\n- `extensions.json`: recommended Rust/YAML/TOML extensions\n\n## Troubleshooting\n\n1. If snippets do not appear, confirm the file is `*.plc` and reload the window.\n2. If tasks fail with `command not found`, run them from the workspace root with `cargo` on PATH.\n3. If YAML/TOML diagnostics are missing, install the recommended extensions.\n";
pub const WORKFLOW_TEMPLATE: &'static str = r#"name: rustplc-no-board-gate

on:
  push:
  pull_request:

jobs:
  no-board-gate:
    runs-on: ubuntu-latest
    steps:
      - uses: actions/checkout@v4
      - uses: dtolnay/rust-toolchain@stable
      - name: Project check
        run: cargo run --release --bin rust_plc -- project-check __ENTRY__ --scenario __SCENARIO__ --out-dir out/project_check/normal --output json
"#;
pub const VSCODE_TASKS_TEMPLATE: &'static str = r#"{
  "version": "2.0.0",
  "tasks": [
    {
      "label": "RustPLC: project-check",
      "type": "shell",
      "command": "cargo run --release --bin rust_plc -- project-check __ENTRY__ --scenario __SCENARIO__ --out-dir out/project_check/normal --output human",
      "problemMatcher": []
    },
    {
      "label": "RustPLC: sim-plc",
      "type": "shell",
      "command": "cargo run --release --bin rust_plc -- sim-plc __ENTRY__ --scenario __SCENARIO__ --out out/sim/normal/trace.jsonl",
      "problemMatcher": []
    },
    {
      "label": "RustPLC: no-board-gate",
      "type": "shell",
      "command": "cargo run --release --bin rust_plc -- no-board-gate __ENTRY__ --scenario __SCENARIO__ --out-dir out/gate/no_board/normal --output human",
      "problemMatcher": []
    }
  ]
}
"#;
pub const SNIPPETS_SINGLE_FILE: &'static str = "{\n  \"RustPLC: PLC Skeleton\": {\n    \"scope\": \"ini\",\n    \"prefix\": \"plc-skeleton\",\n    \"body\": [\n      \"[topology]\",\n      \"\",\n      \"device plc_main: plc {\",\n      \"    purpose: \\\"Controller with minimal digital I/O mapping\\\",\",\n      \"    model_ref: openplc_softplc\",\n      \"}\",\n      \"\",\n      \"[constraints]\",\n      \"\",\n      \"[tasks]\"\n    ],\n    \"description\": \"Insert a minimal RustPLC file skeleton\"\n  }\n}\n";
pub const SNIPPETS_PHASED: &'static str = "{\n  \"RustPLC: Phase File\": {\n    \"scope\": \"ini\",\n    \"prefix\": \"plc-phase\",\n    \"body\": [\n      \"# Phase: ${1:00_topology}\",\n      \"# Add device, constraint, or task declarations here\"\n    ],\n    \"description\": \"Insert a phase file header\"\n  }\n}\n";
pub const README_STRUCTURE_SINGLE: &'static str = "- `plc/main.plc`: all-in-one PLC source\n- `config/`: deployment configuration\n- `scenarios/`: test scenarios";
pub const README_STRUCTURE_PHASED: &'static str = "- `00_topology/`: device declarations, workpieces, connections\n- `process_model/`: authored process operation scheduling intent\n- `01_init/`: initialization and startup tasks\n- `02_process/`: automatic production cycle\n- `03_constraints/`: safety and timing rules\n- `04_faults/`: fault handling tasks\n- `05_supervision/`: mode management (placeholder)\n- `06_manual/`: manual-mode tasks (placeholder)\n- `07_hmi/`: HMI interface (placeholder)\n- `config/`: deployment configuration\n- `scenarios/`: test scenarios\n- `docs/`: project documentation";

#[derive(Clone, Copy, Debug, PartialEq, Eq, Structural)]
pub enum ProjectLayout {
    SingleFile,
    StructuredFragments,
}

#[derive(Clone, Copy, Debug, PartialEq, Eq, Structural)]
pub enum DeliveryLayer {
    Module,
    Station,
    Line,
}

pub open spec fn layout_cli_name(l: ProjectLayout) -> Seq<char> {
    match l {
        ProjectLayout::SingleFile => "single-file"@,
        ProjectLayout::StructuredFragments => "structured-fragments"@,
    }
}

pub open spec fn layout_entry_plc(l: ProjectLayout) -> Seq<char> {
    match l {
        ProjectLayout::SingleFile => "plc/main.plc"@,
        ProjectLayout::StructuredFragments => "rustplc.bundle.toml"@,
    }
}

pub open spec fn layout_summary_text(l: ProjectLayout) -> Seq<char> {
    match l {
        ProjectLayout::SingleFile => "single-file PLC source"@,
        ProjectLayout::StructuredFragments => "phased bundle (v2)"@,
    }
}

pub open spec fn layer_cli_name(d: DeliveryLayer) -> Seq<char> {
    match d {
        DeliveryLayer::Module => "module"@,
        DeliveryLayer::Station => "station"@,
        DeliveryLayer::Line => "line"@,
    }
}

pub open spec fn layer_label(d: DeliveryLayer) -> Seq<char> {
    match d {
        DeliveryLayer::Module => "reusable module"@,
        DeliveryLayer::Station => "independent station"@,
        DeliveryLayer::Line => "integrated line"@,
    }
}

/// The layout a command-line value names, or the message that lists the
/// accepted values.
pub open spec fn spec_parse_layout(raw: Seq<char>) -> Result<ProjectLayout, Seq<char>> {
    if raw == "single-file"@ {
        Ok(ProjectLayout::SingleFile)
    } else if raw == "structured-fragments"@ {
        Ok(ProjectLayout::StructuredFragments)
    } else {
        Err("Unknown layout `"@ + raw + "` (expected `single-file` or `structured-fragments`)"@)
    }
}

/// The delivery layer a command-line value names, or the message that lists
/// the accepted values.
pub open spec fn spec_parse_layer(raw: Seq<char>) -> Result<DeliveryLayer, Seq<char>> {
    if raw == "module"@ {
        Ok(DeliveryLayer::Module)
    } else if raw == "station"@ {
        Ok(DeliveryLayer::Station)
    } else if raw == "line"@ {
        Ok(DeliveryLayer::Line)
    } else {
        Err("Unknown delivery layer `"@ + raw + "` (expected `module`, `station`, or `line`)"@)
    }
}

impl ProjectLayout {
    pub fn parse(raw: &str) -> (r: Result<Self, String>)
        ensures
            match r {
                Ok(l) => spec_parse_layout(raw@) == Ok::<ProjectLayout, Seq<char>>(l),
                Err(e) => spec_parse_layout(raw@) == Err::<ProjectLayout, Seq<char>>(e@),
            },
    {
        let v = chars_of(raw);
        let a = chars_of("single-file");
        let b = chars_of("structured-fragments");
        if eq_chars(v.as_slice(), a.as_slice()) {
            Ok(ProjectLayout::SingleFile)
        } else if eq_chars(v.as_slice(), b.as_slice()) {
            Ok(ProjectLayout::StructuredFragments)
        } else {
            let mut out = owned("Unknown layout `");
            push_str(&mut out, raw);
            push_str(&mut out, "` (expected `single-file` or `structured-fragments`)");
            Err(out)
        }
    }

    pub fn cli_name(self) -> (r: &'static str)
        ensures
            r@ == layout_cli_name(self),
    {
        match self {
            ProjectLayout::SingleFile => "single-file",
            ProjectLayout::StructuredFragments => "structured-fragments",
        }
    }

    pub fn entry_plc_path(self) -> (r: &'static str)
        ensures
            r@ == layout_entry_plc(self),
    {
        match self {
            ProjectLayout::SingleFile => "plc/main.plc",
            ProjectLayout::StructuredFragments => "rustplc.bundle.toml",
        }
    }

    pub fn layout_summary(self) -> (r: &'static str)
        ensures
            r@ == layout_summary_text(self),
    {
        match self {
            ProjectLayout::SingleFile => "single-file PLC source",
            ProjectLayout::StructuredFragments => "phased bundle (v2)",
        }
    }
}

impl DeliveryLayer {
    pub fn parse(raw: &str) -> (r: Result<Self, String>)
        ensures
            match r {
                Ok(l) => spec_parse_layer(raw@) == Ok::<DeliveryLayer, Seq<char>>(l),
                Err(e) => spec_parse_layer(raw@) == Err::<DeliveryLayer, Seq<char>>(e@),
            },
    {
        let v = chars_of(raw);
        let a = chars_of("module");
        let b = chars_of("station");
        let c = chars_of("line");
        if eq_chars(v.as_slice(), a.as_slice()) {
            Ok(DeliveryLayer::Module)
        } else if eq_chars(v.as_slice(), b.as_slice()) {
            Ok(DeliveryLayer::Station)
        } else if eq_chars(v.as_slice(), c.as_slice()) {
            Ok(DeliveryLayer::Line)
        } else {
            let mut out = owned("Unknown delivery layer `");
            push_str(&mut out, raw);
            push_str(&mut out, "` (expected `module`, `station`, or `line`)");
            Err(out)
        }
    }

    pub fn cli_name(self) -> (r: &'static str)
        ensures
            r@ == layer_cli_name(self),
    {
        match self {
            DeliveryLayer::Module => "module",
            DeliveryLayer::Station => "station",
            DeliveryLayer::Line => "line",
        }
    }

    pub fn label(self) -> (r: &'static str)
        ensures
            r@ == layer_label(self),
    {
        match self {
            DeliveryLayer::Module => "reusable module",
            DeliveryLayer::Station => "independent station",
            DeliveryLayer::Line => "integrated line",
        }
    }
}

/// Parsing the command-line name of a layout or a delivery layer gives it
/// back.
pub proof fn law_layout_and_layer_names_round_trip(l: ProjectLayout, d: DeliveryLayer)
    ensures
        spec_parse_layout(layout_cli_name(l)) == Ok::<ProjectLayout, Seq<char>>(l),
        spec_parse_layer(layer_cli_name(d)) == Ok::<DeliveryLayer, Seq<char>>(d),
{
    reveal_strlit("single-file");
    reveal_strlit("structured-fragments");
    reveal_strlit("module");
    reveal_strlit("station");
    reveal_strlit("line");
    assert("structured-fragments"@.len() != "single-file"@.len());
    assert("station"@.len() != "module"@.len());
    assert("line"@.len() != "module"@.len());
    assert("line"@.len() != "station"@.len());
    match l {
        ProjectLayout::SingleFile => {},
        ProjectLayout::StructuredFragments => {
            assert("structured-fragments"@ != "single-file"@);
        },
    }
    match d {
        DeliveryLayer::Module => {},
        DeliveryLayer::Station => {
            assert("station"@ != "module"@);
        },
        DeliveryLayer::Line => {
            assert("line"@ != "module"@);
            assert("line"@ != "station"@);
        },
    }
}

pub open spec fn readme_structure(l: ProjectLayout) -> Seq<char> {
    match l {
        ProjectLayout::SingleFile => README_STRUCTURE_SINGLE@,
        ProjectLayout::StructuredFragments => README_STRUCTURE_PHASED@,
    }
}

fn readme_structure_text(l: ProjectLayout) -> (r: &'static str)
    ensures
        r@ == readme_structure(l),
{
    match l {
        ProjectLayout::SingleFile => README_STRUCTURE_SINGLE,
        ProjectLayout::StructuredFragments => README_STRUCTURE_PHASED,
    }
}

/// The README of a new project.
pub open spec fn spec_build_readme(project_slug: Seq<char>, project_title: Seq<char>, layout: ProjectLayout, delivery_layer: DeliveryLayer, entry_plc: Seq<char>, entry_scenario: Seq<char>) -> Seq<char> {
    "# "@
        + project_title
        + "\n\n- Project slug: `"@
        + project_slug
        + "`\n- Manifest: `rustplc.project.toml`\n- Layout: `"@
        + layout_summary_text(layout)
        + "`\n- Delivery layer: `"@
        + layer_cli_name(delivery_layer)
        + "` ("@
        + layer_label(delivery_layer)
        + ")\n\n## Structure\n\n"@
        + readme_structure(layout)
        + "\n\n## Quick Start\n\n```bash\ncargo run --release --bin rust_plc -- project-check "@
        + entry_plc
        + " --scenario "@
        + entry_scenario
        + " --out-dir out/check --output human\n```\n"@
}

pub fn build_readme(project_slug: &str, project_title: &str, layout: ProjectLayout, delivery_layer: DeliveryLayer, entry_plc: &str, entry_scenario: &str) -> (r: String)
    ensures
        r@ == spec_build_readme(project_slug@, project_title@, layout, delivery_layer, entry_plc@, entry_scenario@),
{
    let mut out = owned("# ");
    push_str(&mut out, project_title);
    push_str(&mut out, "\n\n- Project slug: `");
    push_str(&mut out, project_slug);
    push_str(&mut out, "`\n- Manifest: `rustplc.project.toml`\n- Layout: `");
    push_str(&mut out, layout.layout_summary());
    push_str(&mut out, "`\n- Delivery layer: `");
    push_str(&mut out, delivery_layer.cli_name());
    push_str(&mut out, "` (");
    push_str(&mut out, delivery_layer.label());
    push_str(&mut out, ")\n\n## Structure\n\n");
    push_str(&mut out, readme_structure_text(layout));
    push_str(&mut out, "\n\n## Quick Start\n\n```bash\ncargo run --release --bin rust_plc -- project-check ");
    push_str(&mut out, entry_plc);
    push_str(&mut out, " --scenario ");
    push_str(&mut out, entry_scenario);
    push_str(&mut out, " --out-dir out/check --output human\n```\n");
    out
}

/// The `rustplc.project.toml` manifest of a new project.
pub open spec fn spec_build_manifest(project_slug: Seq<char>, project_title: Seq<char>, delivery_layer: DeliveryLayer, entry_plc: Seq<char>, entry_scenario: Seq<char>) -> Seq<char> {
    "schema_version = 1\n\n[project]\nname = \""@
        + project_title
        + "\"\nslug = \""@
        + project_slug
        + "\"\n\n[delivery]\nlayer = \""@
        + layer_cli_name(delivery_layer)
        + "\"\n\n[entry]\nsystem = \"plc/main.system.md\"\nplc = \""@
        + entry_plc
        + "\"\nscenario = \""@
        + entry_scenario
        + "\"\nio_map = \"config/io_map.toml\"\nretain = \"config/retain.toml\"\nworkpiece = \"config/workpiece.toml\"\n\n[out]\nir = \"out/ir\"\nsim = \"out/sim\"\ngate = \"out/gate\"\ncodegen = \"out/codegen\"\nrp2040 = \"out/rp2040\"\nrelease = \"out/release\"\n"@
}

pub fn build_manifest(project_slug: &str, project_title: &str, delivery_layer: DeliveryLayer, entry_plc: &str, entry_scenario: &str) -> (r: String)
    ensures
        r@ == spec_build_manifest(project_slug@, project_title@, delivery_layer, entry_plc@, entry_scenario@),
{
    let mut out = owned("schema_version = 1\n\n[project]\nname = \"");
    push_str(&mut out, project_title);
    push_str(&mut out, "\"\nslug = \"");
    push_str(&mut out, project_slug);
    push_str(&mut out, "\"\n\n[delivery]\nlayer = \"");
    push_str(&mut out, delivery_layer.cli_name());
    push_str(&mut out, "\"\n\n[entry]\nsystem = \"plc/main.system.md\"\nplc = \"");
    push_str(&mut out, entry_plc);
    push_str(&mut out, "\"\nscenario = \"");
    push_str(&mut out, entry_scenario);
    push_str(&mut out, "\"\nio_map = \"config/io_map.toml\"\nretain = \"config/retain.toml\"\nworkpiece = \"config/workpiece.toml\"\n\n[out]\nir = \"out/ir\"\nsim = \"out/sim\"\ngate = \"out/gate\"\ncodegen = \"out/codegen\"\nrp2040 = \"out/rp2040\"\nrelease = \"out/release\"\n");
    out
}

/// The system description of a new project.
pub open spec fn spec_build_system_doc(project_title: Seq<char>, project_slug: Seq<char>, delivery_layer: DeliveryLayer) -> Seq<char> {
    "# "@
        + project_title
        + " System Description\n\n## Identity\n- Name: "@
        + project_title
        + "\n- Project slug: `"@
        + project_slug
        + "`\n- Delivery layer: `"@
        + layer_cli_name(delivery_layer)
        + "` ("@
        + layer_label(delivery_layer)
        + ")\n\n## Process Intent\n1. Wait for the start command.\n2. Energize the run output.\n3. Hold for 20 ms.\n4. De-energize the run output and finish.\n\n## Fault Strategy\n- If the start signal does not arrive within 100 ms, jump to `fault` and de-energize the run output.\n"@
}

pub fn build_system_doc(project_title: &str, project_slug: &str, delivery_layer: DeliveryLayer) -> (r: String)
    ensures
        r@ == spec_build_system_doc(project_title@, project_slug@, delivery_layer),
{
    let mut out = owned("# ");
    push_str(&mut out, project_title);
    push_str(&mut out, " System Description\n\n## Identity\n- Name: ");
    push_str(&mut out, project_title);
    push_str(&mut out, "\n- Project slug: `");
    push_str(&mut out, project_slug);
    push_str(&mut out, "`\n- Delivery layer: `");
    push_str(&mut out, delivery_layer.cli_name());
    push_str(&mut out, "` (");
    push_str(&mut out, delivery_layer.label());
    push_str(&mut out, ")\n\n## Process Intent\n1. Wait for the start command.\n2. Energize the run output.\n3. Hold for 20 ms.\n4. De-energize the run output and finish.\n\n## Fault Strategy\n- If the start signal does not arrive within 100 ms, jump to `fault` and de-energize the run output.\n");
    out
}

/// The project-layout guide of a new project.
pub open spec fn spec_build_project_layout_doc(project_title: Seq<char>, project_slug: Seq<char>, entry_plc: Seq<char>, entry_scenario: Seq<char>) -> Seq<char> {
    "# Project Layout\n\nThis scaffold uses the standard RustPLC project layout.\n\n- `rustplc.project.toml`: project manifest and default artifact paths\n- `plc/main.system.md`: human/AI confirmed system intent\n- `process_model/process_operation_model.toml`: authored operation scheduling intent, before task/step\n- `"@
        + entry_plc
        + "`: executable RustPLC source entry\n- `"@
        + entry_scenario
        + "`: nominal regression scenario\n- `config/`: I/O, retain, workpiece, and state-proof configuration\n- `out/`: rebuildable generated artifacts\n\nCurrent project: `"@
        + project_slug
        + "` / `"@
        + project_title
        + "`\n\nRecommended commands:\n\n```bash\ncargo run --release --bin rust_plc -- process-model-check \\\n  "@
        + entry_plc
        + " --model process_model/process_operation_model.toml --output human\n\ncargo run --release --bin rust_plc -- state-proof-check \\\n  "@
        + entry_plc
        + " --config config/state_proof.toml --output human\n\ncargo run --release --bin rust_plc -- scenario-validate \\\n  "@
        + entry_plc
        + " --scenario "@
        + entry_scenario
        + " --output human\n\ncargo run --release --bin rust_plc -- sim-plc \\\n  "@
        + entry_plc
        + " --scenario "@
        + entry_scenario
        + " --out out/sim/normal/trace.jsonl\n\ncargo run --release --bin rust_plc -- no-board-gate \\\n  "@
        + entry_plc
        + " --scenario "@
        + entry_scenario
        + " \\\n  --out-dir out/gate/no_board/normal --output human\n\ncargo run --release --bin rust_plc -- gen-st \\\n  "@
        + entry_plc
        + " --out out/codegen/st/main.st\n```\n"@
}

pub fn build_project_layout_doc(project_title: &str, project_slug: &str, entry_plc: &str, entry_scenario: &str) -> (r: String)
    ensures
        r@ == spec_build_project_layout_doc(project_title@, project_slug@, entry_plc@, entry_scenario@),
{
    let mut out = owned("# Project Layout\n\nThis scaffold uses the standard RustPLC project layout.\n\n- `rustplc.project.toml`: project manifest and default artifact paths\n- `plc/main.system.md`: human/AI confirmed system intent\n- `process_model/process_operation_model.toml`: authored operation scheduling intent, before task/step\n- `");
    push_str(&mut out, entry_plc);
    push_str(&mut out, "`: executable RustPLC source entry\n- `");
    push_str(&mut out, entry_scenario);
    push_str(&mut out, "`: nominal regression scenario\n- `config/`: I/O, retain, workpiece, and state-proof configuration\n- `out/`: rebuildable generated artifacts\n\nCurrent project: `");
    push_str(&mut out, project_slug);
    push_str(&mut out, "` / `");
    push_str(&mut out, project_title);
    push_str(&mut out, "`\n\nRecommended commands:\n\n```bash\ncargo run --release --bin rust_plc -- process-model-check \\\n  ");
    push_str(&mut out, entry_plc);
    push_str(&mut out, " --model process_model/process_operation_model.toml --output human\n\ncargo run --release --bin rust_plc -- state-proof-check \\\n  ");
    push_str(&mut out, entry_plc);
    push_str(&mut out, " --config config/state_proof.toml --output human\n\ncargo run --release --bin rust_plc -- scenario-validate \\\n  ");
    push_str(&mut out, entry_plc);
    push_str(&mut out, " --scenario ");
    push_str(&mut out, entry_scenario);
    push_str(&mut out, " --output human\n\ncargo run --release --bin rust_plc -- sim-plc \\\n  ");
    push_str(&mut out, entry_plc);
    push_str(&mut out, " --scenario ");
    push_str(&mut out, entry_scenario);
    push_str(&mut out, " --out out/sim/normal/trace.jsonl\n\ncargo run --release --bin rust_plc -- no-board-gate \\\n  ");
    push_str(&mut out, entry_plc);
    push_str(&mut out, " --scenario ");
    push_str(&mut out, entry_scenario);
    push_str(&mut out, " \\\n  --out-dir out/gate/no_board/normal --output human\n\ncargo run --release --bin rust_plc -- gen-st \\\n  ");
    push_str(&mut out, entry_plc);
    push_str(&mut out, " --out out/codegen/st/main.st\n```\n");
    out
}

/// The architecture guide of a phased project.
pub open spec fn spec_build_architecture_doc(project_title: Seq<char>, delivery_layer: DeliveryLayer) -> Seq<char> {
    r#"# "#@
        + project_title
        + r#" Architecture

## Delivery Layer
- `"#@
        + layer_label(delivery_layer)
        + r#"`

## Execution Order

Phases are strictly serial. Each phase assumes the state established by
all previous phases. The numbered prefix IS the execution order.

```
00_topology      declare devices, workpieces, connections, station protocol
      |
01_init          establish safe state (all outputs off, defaults applied)
      |
02_process       automatic production cycle (entry: safe state)
      |
03_constraints   safety & timing rules (references steps from 02)
      |
04_faults        fault recovery (returns to safe state from 01)
      |
05_supervision   mode arbitration [placeholder]
      |
06_manual        manual operations [placeholder]
      |
07_hmi           HMI mirroring [placeholder]
```

### Why strictly serial?

PLC programs have state-precondition dependencies, not just symbol dependencies:

- 01_init establishes the safe state. 02_process assumes it as entry condition.
- 02_process creates abnormal states. 04_faults must know what those states are.
- 03_constraints references step names from 02_process.

An agent writing 02_process must know what 01_init guarantees.
An agent writing 04_faults must know what 02_process can break.

## Multi-Station Parallel Authoring

The only parallel window is WITHIN a phase: multiple station files inside
02_process/ or 04_faults/ can be written by separate agents simultaneously.

### Prerequisites (station protocol)

Parallel authoring requires a station protocol declared in
`00_topology/_station_protocol.plc`. Without it, there is NO compiler-enforced
isolation - any task can write any device.

The protocol has three parts:

1. Device partition - which station owns which devices.
   Compiler rejects a task that writes a device it does not own.

2. Handshake signals - how stations communicate.
   Compiler verifies timeout handling and deadlock freedom.

3. Transfer points - where workpieces cross station boundaries.
   Compiler verifies capacity constraints and flow continuity.

See `00_topology/_station_protocol.plc` for the DSL draft syntax.

### Example: 3-station assembly line

```
Phase 1 - Architect (serial):
    00_topology/
        controller.plc
        st01_devices.plc
        st02_devices.plc
        st03_devices.plc
        workpieces.plc
        connections.plc
        _station_protocol.plc    <- device partition + handshakes

Phase 2 - Architect (serial):
    01_init/defaults.plc         <- safe state for all stations

Phase 3 - Station agents (PARALLEL, guarded by station protocol):
    02_process/
        st01_loading.plc         <- Agent A (only writes st01 devices)
        st02_assembly.plc        <- Agent B (only writes st02 devices)
        st03_inspection.plc      <- Agent C (only writes st03 devices)

Phase 4 - Safety agent (serial, after all stations done):
    03_constraints/safety.plc

Phase 5 - Fault agents (PARALLEL, same partition as Phase 3):
    04_faults/
        st01_faults.plc          <- Agent A
        st02_faults.plc          <- Agent B
        st03_faults.plc          <- Agent C
```

### What each agent reads

| Agent role       | Must read                                | Writes                 |
|------------------|------------------------------------------|------------------------|
| Architect        | requirements doc                         | 00_topology/, 01_init/ |
| Station agent    | 00_topology exports + station protocol   | 02_process/st_XX.plc   |
| Fault agent      | 00_topology exports + 02_process exports | 04_faults/st_XX.plc    |
| Safety agent     | 00_topology + 02_process exports         | 03_constraints/        |

The `exports` field in `rustplc.bundle.toml` is the interface contract.
Agents read exports and the station protocol, not source files from other phases.
"#@
}

pub fn build_architecture_doc(project_title: &str, delivery_layer: DeliveryLayer) -> (r: String)
    ensures
        r@ == spec_build_architecture_doc(project_title@, delivery_layer),
{
    let mut out = owned(r#"# "#);
    push_str(&mut out, project_title);
    push_str(&mut out, r#" Architecture

## Delivery Layer
- `"#);
    push_str(&mut out, delivery_layer.label());
    push_str(&mut out, r#"`

## Execution Order

Phases are strictly serial. Each phase assumes the state established by
all previous phases. The numbered prefix IS the execution order.

```
00_topology      declare devices, workpieces, connections, station protocol
      |
01_init          establish safe state (all outputs off, defaults applied)
      |
02_process       automatic production cycle (entry: safe state)
      |
03_constraints   safety & timing rules (references steps from 02)
      |
04_faults        fault recovery (returns to safe state from 01)
      |
05_supervision   mode arbitration [placeholder]
      |
06_manual        manual operations [placeholder]
      |
07_hmi           HMI mirroring [placeholder]
```

### Why strictly serial?

PLC programs have state-precondition dependencies, not just symbol dependencies:

- 01_init establishes the safe state. 02_process assumes it as entry condition.
- 02_process creates abnormal states. 04_faults must know what those states are.
- 03_constraints references step names from 02_process.

An agent writing 02_process must know what 01_init guarantees.
An agent writing 04_faults must know what 02_process can break.

## Multi-Station Parallel Authoring

The only parallel window is WITHIN a phase: multiple station files inside
02_process/ or 04_faults/ can be written by separate agents simultaneously.

### Prerequisites (station protocol)

Parallel authoring requires a station protocol declared in
`00_topology/_station_protocol.plc`. Without it, there is NO compiler-enforced
isolation - any task can write any device.

The protocol has three parts:

1. Device partition - which station owns which devices.
   Compiler rejects a task that writes a device it does not own.

2. Handshake signals - how stations communicate.
   Compiler verifies timeout handling and deadlock freedom.

3. Transfer points - where workpieces cross station boundaries.
   Compiler verifies capacity constraints and flow continuity.

See `00_topology/_station_protocol.plc` for the DSL draft syntax.

### Example: 3-station assembly line

```
Phase 1 - Architect (serial):
    00_topology/
        controller.plc
        st01_devices.plc
        st02_devices.plc
        st03_devices.plc
        workpieces.plc
        connections.plc
        _station_protocol.plc    <- device partition + handshakes

Phase 2 - Architect (serial):
    01_init/defaults.plc         <- safe state for all stations

Phase 3 - Station agents (PARALLEL, guarded by station protocol):
    02_process/
        st01_loading.plc         <- Agent A (only writes st01 devices)
        st02_assembly.plc        <- Agent B (only writes st02 devices)
        st03_inspection.plc      <- Agent C (only writes st03 devices)

Phase 4 - Safety agent (serial, after all stations done):
    03_constraints/safety.plc

Phase 5 - Fault agents (PARALLEL, same partition as Phase 3):
    04_faults/
        st01_faults.plc          <- Agent A
        st02_faults.plc          <- Agent B
        st03_faults.plc          <- Agent C
```

### What each agent reads

| Agent role       | Must read                                | Writes                 |
|------------------|------------------------------------------|------------------------|
| Architect        | requirements doc                         | 00_topology/, 01_init/ |
| Station agent    | 00_topology exports + station protocol   | 02_process/st_XX.plc   |
| Fault agent      | 00_topology exports + 02_process exports | 04_faults/st_XX.plc    |
| Safety agent     | 00_topology + 02_process exports         | 03_constraints/        |

The `exports` field in `rustplc.bundle.toml` is the interface contract.
Agents read exports and the station protocol, not source files from other phases.
"#);
    out
}

/// The verification checklist of a phased project.
pub open spec fn spec_build_verification_doc(project_title: Seq<char>) -> Seq<char> {
    "# "@
        + project_title
        + " Verification\n\n## Required Checks\n1. Compile the bundle: `rustplc.bundle.toml`\n2. Check the source-side process model: `process_model/process_operation_model.toml`\n3. Run scenario: `scenarios/nominal/normal.yaml`\n4. Run `sim-plc` and inspect trace\n5. Run `no-board-gate` when scenario is stable\n\n## Commands\n```bash\ncargo run --release --bin rust_plc -- process-model-check rustplc.bundle.toml --model process_model/process_operation_model.toml --output human\ncargo run --release --bin rust_plc -- project-check rustplc.bundle.toml --scenario scenarios/nominal/normal.yaml --out-dir out/check --output human\ncargo run --release --bin rust_plc -- sim-plc rustplc.bundle.toml --scenario scenarios/nominal/normal.yaml --out out/sim/trace.jsonl\n```\n"@
}

pub fn build_verification_doc(project_title: &str) -> (r: String)
    ensures
        r@ == spec_build_verification_doc(project_title@),
{
    let mut out = owned("# ");
    push_str(&mut out, project_title);
    push_str(&mut out, " Verification\n\n## Required Checks\n1. Compile the bundle: `rustplc.bundle.toml`\n2. Check the source-side process model: `process_model/process_operation_model.toml`\n3. Run scenario: `scenarios/nominal/normal.yaml`\n4. Run `sim-plc` and inspect trace\n5. Run `no-board-gate` when scenario is stable\n\n## Commands\n```bash\ncargo run --release --bin rust_plc -- process-model-check rustplc.bundle.toml --model process_model/process_operation_model.toml --output human\ncargo run --release --bin rust_plc -- project-check rustplc.bundle.toml --scenario scenarios/nominal/normal.yaml --out-dir out/check --output human\ncargo run --release --bin rust_plc -- sim-plc rustplc.bundle.toml --scenario scenarios/nominal/normal.yaml --out out/sim/trace.jsonl\n```\n");
    out
}

/// The controller fragment of a phased project.
pub open spec fn spec_phased_controller_plc(project_title: Seq<char>) -> Seq<char> {
    "device plc_main: plc {\n    purpose: \""@
        + project_title
        + " controller\"\n    model_ref: openplc_softplc\n}\n\ncontroller_io plc_main {\n    input start_cycle_cmd: X0 { purpose: \"Start request input\" }\n    output run_lamp_cmd: Y0 { purpose: \"Run lamp command\", safe_state: off }\n}\n"@
}

pub fn phased_controller_plc(project_title: &str) -> (r: String)
    ensures
        r@ == spec_phased_controller_plc(project_title@),
{
    let mut out = owned("device plc_main: plc {\n    purpose: \"");
    push_str(&mut out, project_title);
    push_str(&mut out, " controller\"\n    model_ref: openplc_softplc\n}\n\ncontroller_io plc_main {\n    input start_cycle_cmd: X0 { purpose: \"Start request input\" }\n    output run_lamp_cmd: Y0 { purpose: \"Run lamp command\", safe_state: off }\n}\n");
    out
}

pub fn scaffold_process_operation_model() -> (r: String)
    ensures
        r@ == PROCESS_OPERATION_MODEL@,
{
    owned(PROCESS_OPERATION_MODEL)
}

pub fn scaffold_state_proof_config() -> (r: String)
    ensures
        r@ == STATE_PROOF_CONFIG@,
{
    owned(STATE_PROOF_CONFIG)
}

pub fn single_file_plc() -> (r: String)
    ensures
        r@ == SINGLE_FILE_PLC@,
{
    owned(SINGLE_FILE_PLC)
}

pub fn build_bundle_v2() -> (r: String)
    ensures
        r@ == BUNDLE_V2@,
{
    owned(BUNDLE_V2)
}

pub fn build_vscode_readme() -> (r: String)
    ensures
        r@ == VSCODE_README@,
{
    owned(VSCODE_README)
}

pub open spec fn spec_build_vscode_snippets(layout: ProjectLayout) -> Seq<char> {
    match layout {
        ProjectLayout::SingleFile => SNIPPETS_SINGLE_FILE@,
        ProjectLayout::StructuredFragments => SNIPPETS_PHASED@,
    }
}

pub fn build_vscode_snippets(layout: ProjectLayout) -> (r: String)
    ensures
        r@ == spec_build_vscode_snippets(layout),
{
    match layout {
        ProjectLayout::SingleFile => owned(SNIPPETS_SINGLE_FILE),
        ProjectLayout::StructuredFragments => owned(SNIPPETS_PHASED),
    }
}

/// A template with every `__ENTRY__` and then every `__SCENARIO__` replaced.
pub open spec fn fill_template(template: Seq<char>, entry_plc: Seq<char>, entry_scenario: Seq<char>) -> Seq<char> {
    replace_all(replace_all(template, "__ENTRY__"@, entry_plc), "__SCENARIO__"@, entry_scenario)
}

fn fill(template: &str, entry_plc: &str, entry_scenario: &str) -> (r: String)
    ensures
        r@ == fill_template(template@, entry_plc@, entry_scenario@),
{
    proof {
        reveal_strlit("__ENTRY__");
        reveal_strlit("__SCENARIO__");
    }
    let t = chars_of(template);
    let e = chars_of("__ENTRY__");
    let s = chars_of("__SCENARIO__");
    let ev = chars_of(entry_plc);
    let sv = chars_of(entry_scenario);
    let r1 = replace_all_exec(t.as_slice(), e.as_slice(), ev.as_slice());
    let r2 = replace_all_exec(r1.as_slice(), s.as_slice(), sv.as_slice());
    let mut out = String::new();
    push_chars(&mut out, r2.as_slice());
    assert(out@ =~= r2@);
    out
}

/// The CI workflow that runs the project check on every push.
pub fn build_workflow(entry_plc: &str, entry_scenario: &str) -> (r: String)
    ensures
        r@ == fill_template(WORKFLOW_TEMPLATE@, entry_plc@, entry_scenario@),
{
    fill(WORKFLOW_TEMPLATE, entry_plc, entry_scenario)
}

/// The VS Code tasks for project-check, sim-plc and no-board-gate.
pub fn build_vscode_tasks(entry_plc: &str, entry_scenario: &str) -> (r: String)
    ensures
        r@ == fill_template(VSCODE_TASKS_TEMPLATE@, entry_plc@, entry_scenario@),
{
    fill(VSCODE_TASKS_TEMPLATE, entry_plc, entry_scenario)
}

// ---------------------------------------------------------------------------
// Project title
// ---------------------------------------------------------------------------

/// What `char::to_uppercase` yields (full Unicode upper-casing).
pub uninterp spec fn spec_char_upper(c: char) -> Seq<char>;

/// `char::to_uppercase`, collected; the result is named, not described.
#[verifier::external_body]
fn char_to_uppercase(c: char) -> (r: String)
    ensures
        r@ == spec_char_upper(c),
{
    c.to_uppercase().collect()
}

pub open spec fn is_name_sep(c: char) -> bool {
    c == '_' || c == '-' || is_ws(c)
}

/// Left-to-right scan that cuts a name at `_`, `-` and whitespace, keeping
/// only the non-empty words.
pub open spec fn word_acc(s: Seq<char>) -> (Seq<Seq<char>>, Seq<char>)
    decreases s.len(),
{
    if s.len() == 0 {
        (seq![], seq![])
    } else {
        let (done, cur) = word_acc(s.drop_last());
        if is_name_sep(s.last()) {
            if cur.len() > 0 {
                (done.push(cur), seq![])
            } else {
                (done, seq![])
            }
        } else {
            (done, cur.push(s.last()))
        }
    }
}

pub open spec fn name_words(s: Seq<char>) -> Seq<Seq<char>> {
    let (done, cur) = word_acc(s);
    if cur.len() > 0 {
        done.push(cur)
    } else {
        done
    }
}

pub open spec fn capitalize(w: Seq<char>) -> Seq<char> {
    spec_char_upper(w[0]) + w.drop_first()
}

pub open spec fn join_words(ws: Seq<Seq<char>>) -> Seq<char>
    decreases ws.len(),
{
    if ws.len() == 0 {
        seq![]
    } else if ws.len() == 1 {
        capitalize(ws[0])
    } else {
        join_words(ws.drop_last()) + " "@ + capitalize(ws.last())
    }
}

/// The words of a project slug (cut at `_`, `-` and whitespace), each with
/// its first letter upper-cased, joined by spaces; `RustPLC Project` when
/// there are none.
pub open spec fn spec_prettify_project_name(raw: Seq<char>) -> Seq<char> {
    let ws = name_words(raw);
    if ws.len() == 0 {
        "RustPLC Project"@
    } else {
        join_words(ws)
    }
}

fn push_word(out: &mut String, count: usize, w: &Vec<char>)
    requires
        w@.len() > 0,
    ensures
        final(out)@ == old(out)@ + (if count > 0 {
            " "@
        } else {
            seq![]
        }) + capitalize(w@),
{
    if count > 0 {
        push_str(out, " ");
    }
    let first = char_to_uppercase(w[0]);
    push_str(out, first.as_str());
    let mut i: usize = 1;
    let ghost base = out@;
    while i < w.len()
        invariant
            1 <= i <= w@.len(),
            out@ == base + w@.subrange(1, i as int),
        decreases w@.len() - i,
    {
        crate::text::push_char(out, w[i]);
        i += 1;
        assert(out@ =~= base + w@.subrange(1, i as int));
    }
    assert(w@.subrange(1, w@.len() as int) =~= w@.drop_first());
}

pub fn prettify_project_name(raw: &str) -> (r: String)
    ensures
        r@ == spec_prettify_project_name(raw@),
{
    let v = chars_of(raw);
    let mut out = String::new();
    let mut count: usize = 0;
    let mut cur: Vec<char> = Vec::new();
    let mut i: usize = 0;
    while i < v.len()
        invariant
            i <= v@.len(),
            v@ == raw@,
            count as nat == word_acc(v@.subrange(0, i as int)).0.len(),
            cur@ == word_acc(v@.subrange(0, i as int)).1,
            out@ == join_words(word_acc(v@.subrange(0, i as int)).0),
            count + cur@.len() <= i,
        decreases v@.len() - i,
    {
        assert(v@.subrange(0, i + 1).drop_last() =~= v@.subrange(0, i as int));
        let c = v[i];
        if c == '_' || c == '-' || is_ws_char(c) {
            if cur.len() > 0 {
                let ghost done = word_acc(v@.subrange(0, i as int)).0;
                push_word(&mut out, count, &cur);
                proof {
                    assert(done.push(cur@).drop_last() =~= done);
                    if count == 0 {
                        assert(out@ =~= join_words(done.push(cur@)));
                    }
                }
                count += 1;
            }
            cur = Vec::new();
        } else {
            cur.push(c);
        }
        i += 1;
    }
    assert(v@.subrange(0, v@.len() as int) =~= v@);
    if cur.len() > 0 {
        let ghost done = word_acc(v@).0;
        push_word(&mut out, count, &cur);
        proof {
            assert(done.push(cur@).drop_last() =~= done);
            if count == 0 {
                assert(out@ =~= join_words(done.push(cur@)));
            }
        }
        count += 1;
    }
    if count == 0 {
        return owned("RustPLC Project");
    }
    out
}

// ---------------------------------------------------------------------------
// Scaffold file lists
// ---------------------------------------------------------------------------

pub open spec fn files_view(v: Seq<(String, String)>) -> Seq<(Seq<char>, Seq<char>)> {
    v.map_values(|f: (String, String)| (f.0@, f.1@))
}

fn push_file(files: &mut Vec<(String, String)>, path: &str, content: String)
    ensures
        files_view(final(files)@) == files_view(old(files)@).push((path@, content@)),
{
    let ghost f0 = files@;
    files.push((owned(path), content));
    assert(files_view(files@) =~= files_view(f0).push((path@, content@)));
}

/// The files of the phased (structured-fragments) layout.
pub open spec fn spec_phased_scaffold_files(project_title: Seq<char>, delivery_layer: DeliveryLayer) -> Seq<
    (Seq<char>, Seq<char>),
> {
    seq![
        ("rustplc.bundle.toml"@, BUNDLE_V2@),
        ("process_model/process_operation_model.toml"@, PROCESS_OPERATION_MODEL@),
        ("00_topology/controller.plc"@, spec_phased_controller_plc(project_title)),
        ("00_topology/devices.plc"@, DEVICES_PLC@),
        ("00_topology/workpieces.plc"@, WORKPIECES_PLC@),
        ("00_topology/connections.plc"@, CONNECTIONS_PLC@),
        ("00_topology/_station_protocol.plc"@, STATION_PROTOCOL_PLC@),
        ("01_init/defaults.plc"@, INIT_DEFAULTS_PLC@),
        ("02_process/main_cycle.plc"@, MAIN_CYCLE_PLC@),
        ("03_constraints/_placeholder.plc"@, CONSTRAINTS_PLACEHOLDER@),
        ("04_faults/fault_handlers.plc"@, FAULT_HANDLERS_PLC@),
        ("05_supervision/_placeholder.plc"@, SUPERVISION_PLACEHOLDER@),
        ("06_manual/_placeholder.plc"@, MANUAL_PLACEHOLDER@),
        ("07_hmi/_placeholder.plc"@, HMI_PLACEHOLDER@),
        ("docs/system.md"@, spec_build_system_doc(project_title, ""@, delivery_layer)),
        ("docs/architecture.md"@, spec_build_architecture_doc(project_title, delivery_layer)),
        ("docs/verification.md"@, spec_build_verification_doc(project_title)),
    ]
}

pub fn phased_scaffold_files(project_title: &str, delivery_layer: DeliveryLayer) -> (r: Vec<
    (String, String),
>)
    ensures
        files_view(r@) == spec_phased_scaffold_files(project_title@, delivery_layer),
{
    let mut files: Vec<(String, String)> = Vec::new();
    push_file(&mut files, "rustplc.bundle.toml", build_bundle_v2());
    push_file(
        &mut files,
        "process_model/process_operation_model.toml",
        scaffold_process_operation_model(),
    );
    push_file(&mut files, "00_topology/controller.plc", phased_controller_plc(project_title));
    push_file(&mut files, "00_topology/devices.plc", owned(DEVICES_PLC));
    push_file(&mut files, "00_topology/workpieces.plc", owned(WORKPIECES_PLC));
    push_file(&mut files, "00_topology/connections.plc", owned(CONNECTIONS_PLC));
    push_file(&mut files, "00_topology/_station_protocol.plc", owned(STATION_PROTOCOL_PLC));
    push_file(&mut files, "01_init/defaults.plc", owned(INIT_DEFAULTS_PLC));
    push_file(&mut files, "02_process/main_cycle.plc", owned(MAIN_CYCLE_PLC));
    push_file(&mut files, "03_constraints/_placeholder.plc", owned(CONSTRAINTS_PLACEHOLDER));
    push_file(&mut files, "04_faults/fault_handlers.plc", owned(FAULT_HANDLERS_PLC));
    push_file(&mut files, "05_supervision/_placeholder.plc", owned(SUPERVISION_PLACEHOLDER));
    push_file(&mut files, "06_manual/_placeholder.plc", owned(MANUAL_PLACEHOLDER));
    push_file(&mut files, "07_hmi/_placeholder.plc", owned(HMI_PLACEHOLDER));
    push_file(&mut files, "docs/system.md", build_system_doc(project_title, "", delivery_layer));
    push_file(&mut files, "docs/architecture.md", build_architecture_doc(project_title, delivery_layer));
    push_file(&mut files, "docs/verification.md", build_verification_doc(project_title));
    assert(files_view(files@) =~= spec_phased_scaffold_files(project_title@, delivery_layer));
    files
}

/// Every file of a new project, with its content: the shared files, then
/// the single PLC source or the phased fragments.
pub open spec fn spec_scaffold_files(
    project_slug: Seq<char>,
    project_title: Seq<char>,
    layout: ProjectLayout,
    delivery_layer: DeliveryLayer,
) -> Seq<(Seq<char>, Seq<char>)> {
    let entry_plc = layout_entry_plc(layout);
    let entry_scenario = "scenarios/nominal/normal.yaml"@;
    let shared = seq![
        ("README.md"@, spec_build_readme(project_slug, project_title, layout, delivery_layer, entry_plc, entry_scenario)),
        (".gitignore"@, GITIGNORE@),
        ("rustplc.project.toml"@, spec_build_manifest(project_slug, project_title, delivery_layer, entry_plc, entry_scenario)),
        ("scenarios/nominal/normal.yaml"@, NORMAL_SCENARIO@),
        ("scenarios/faults/.gitkeep"@, seq![]),
        ("scenarios/generated/.gitkeep"@, seq![]),
        ("config/io_map.toml"@, IO_MAP@),
        ("config/retain.toml"@, RETAIN@),
        ("config/workpiece.toml"@, WORKPIECE@),
        ("config/state_proof.toml"@, STATE_PROOF_CONFIG@),
        ("out/ir/.gitkeep"@, seq![]),
        ("out/sim/.gitkeep"@, seq![]),
        ("out/gate/.gitkeep"@, seq![]),
        ("out/codegen/.gitkeep"@, seq![]),
        ("out/rp2040/.gitkeep"@, seq![]),
        ("out/release/.gitkeep"@, seq![]),
        (".github/workflows/no_board_gate.yml"@, fill_template(WORKFLOW_TEMPLATE@, entry_plc, entry_scenario)),
        (".vscode/tasks.json"@, fill_template(VSCODE_TASKS_TEMPLATE@, entry_plc, entry_scenario)),
        (".vscode/settings.json"@, VSCODE_SETTINGS@),
        (".vscode/extensions.json"@, VSCODE_EXTENSIONS@),
        (".vscode/README.md"@, VSCODE_README@),
        (".vscode/plc.code-snippets"@, spec_build_vscode_snippets(layout)),
        ("plc/main.system.md"@, spec_build_system_doc(project_title, project_slug, delivery_layer)),
        ("docs/project-layout.md"@, spec_build_project_layout_doc(project_title, project_slug, entry_plc, entry_scenario)),
    ];
    match layout {
        ProjectLayout::SingleFile => shared.push(("plc/main.plc"@, SINGLE_FILE_PLC@)),
        ProjectLayout::StructuredFragments => shared + spec_phased_scaffold_files(project_title, delivery_layer),
    }
}

pub fn scaffold_files(
    project_slug: &str,
    project_title: &str,
    layout: ProjectLayout,
    delivery_layer: DeliveryLayer,
) -> (r: Vec<(String, String)>)
    ensures
        files_view(r@) == spec_scaffold_files(project_slug@, project_title@, layout, delivery_layer),
{
    let entry_plc = layout.entry_plc_path();
    let entry_scenario = "scenarios/nominal/normal.yaml";
    let mut files: Vec<(String, String)> = Vec::new();
    push_file(
        &mut files,
        "README.md",
        build_readme(project_slug, project_title, layout, delivery_layer, entry_plc, entry_scenario),
    );
    push_file(&mut files, ".gitignore", owned(GITIGNORE));
    push_file(
        &mut files,
        "rustplc.project.toml",
        build_manifest(project_slug, project_title, delivery_layer, entry_plc, entry_scenario),
    );
    push_file(&mut files, "scenarios/nominal/normal.yaml", owned(NORMAL_SCENARIO));
    push_file(&mut files, "scenarios/faults/.gitkeep", String::new());
    push_file(&mut files, "scenarios/generated/.gitkeep", String::new());
    push_file(&mut files, "config/io_map.toml", owned(IO_MAP));
    push_file(&mut files, "config/retain.toml", owned(RETAIN));
    push_file(&mut files, "config/workpiece.toml", owned(WORKPIECE));
    push_file(&mut files, "config/state_proof.toml", scaffold_state_proof_config());
    push_file(&mut files, "out/ir/.gitkeep", String::new());
    push_file(&mut files, "out/sim/.gitkeep", String::new());
    push_file(&mut files, "out/gate/.gitkeep", String::new());
    push_file(&mut files, "out/codegen/.gitkeep", String::new());
    push_file(&mut files, "out/rp2040/.gitkeep", String::new());
    push_file(&mut files, "out/release/.gitkeep", String::new());
    push_file(
        &mut files,
        ".github/workflows/no_board_gate.yml",
        build_workflow(entry_plc, entry_scenario),
    );
    push_file(&mut files, ".vscode/tasks.json", build_vscode_tasks(entry_plc, entry_scenario));
    push_file(&mut files, ".vscode/settings.json", owned(VSCODE_SETTINGS));
    push_file(&mut files, ".vscode/extensions.json", owned(VSCODE_EXTENSIONS));
    push_file(&mut files, ".vscode/README.md", build_vscode_readme());
    push_file(&mut files, ".vscode/plc.code-snippets", build_vscode_snippets(layout));
    push_file(
        &mut files,
        "plc/main.system.md",
        build_system_doc(project_title, project_slug, delivery_layer),
    );
    push_file(
        &mut files,
        "docs/project-layout.md",
        build_project_layout_doc(project_title, project_slug, entry_plc, entry_scenario),
    );
    let ghost shared = files_view(files@);
    match layout {
        ProjectLayout::SingleFile => {
            push_file(&mut files, "plc/main.plc", single_file_plc());
        },
        ProjectLayout::StructuredFragments => {
            let more = phased_scaffold_files(project_title, delivery_layer);
            let mut i: usize = 0;
            while i < more.len()
                invariant
                    i <= more@.len(),
                    files_view(files@) == shared + files_view(more@).subrange(0, i as int),
                decreases more@.len() - i,
            {
                let ghost f0 = files@;
                let (p, c) = (owned(more[i].0.as_str()), owned(more[i].1.as_str()));
                files.push((p, c));
                assert(files_view(files@) =~= files_view(f0).push(files_view(more@)[i as int]));
                i += 1;
                assert(files_view(more@).subrange(0, i as int) =~= files_view(more@).subrange(
                    0,
                    i - 1,
                ).push(files_view(more@)[i - 1]));
            }
            assert(files_view(more@).subrange(0, more@.len() as int) =~= files_view(more@));
        },
    }
    assert(files_view(files@) =~= spec_scaffold_files(project_slug@, project_title@, layout, delivery_layer));
    files
}

/// Every new project writes the shared files, and the entry source that its
/// README and manifest name is among the files written.
pub proof fn law_scaffold_writes_its_entry(
    project_slug: Seq<char>,
    project_title: Seq<char>,
    layout: ProjectLayout,
    delivery_layer: DeliveryLayer,
)
    ensures
        exists|i: int|
            0 <= i < spec_scaffold_files(project_slug, project_title, layout, delivery_layer).len()
                && (#[trigger] spec_scaffold_files(project_slug, project_title, layout, delivery_layer)[i]).0
                == layout_entry_plc(layout),
{
    let fs = spec_scaffold_files(project_slug, project_title, layout, delivery_layer);
    match layout {
        ProjectLayout::SingleFile => {
            assert(fs[24].0 == layout_entry_plc(layout));
        },
        ProjectLayout::StructuredFragments => {
            assert(fs[24].0 == layout_entry_plc(layout));
        },
    }
}

} // verus!
