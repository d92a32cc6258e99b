use rust_plc::chain::analyze_longest_chain;
use rust_plc::io_usage::{
    io_map_template_for_program, io_map_template_for_usage, io_usage_for_program, IoProgram,
    IoUsage, IrAction, IrCamConfig, IrInstr, IrPidLoop, IO_MAP_HEAD, IO_MAP_TAIL,
};
use rust_plc::scenario_gen::discover_start_and_sensor_ids;

fn sample_program() -> IoProgram {
    IoProgram {
        tasks: vec![
            vec![
                IrInstr::WaitDigital { id: 3 },
                IrInstr::WaitAllDigital { ids: vec![5, 3] },
                IrInstr::Action {
                    actions: vec![
                        IrAction::SetDigital { id: 4 },
                        IrAction::Extend { output: 1 },
                        IrAction::Other,
                        IrAction::SetAnalogExpr { id: 9 },
                    ],
                },
            ],
            vec![IrInstr::WaitAnalog { id: 2 }, IrInstr::Other, IrInstr::WaitDigitalEdge { id: 0 }],
        ],
        cam_configs: vec![IrCamConfig { master_input: 7, slave_feedback: 8, slave_output: 9 }],
        pid_loops: vec![IrPidLoop { pv: 10, out: 11 }],
    }
}

#[test]
fn io_usage_lists_each_family_in_order() {
    let usage = io_usage_for_program(&sample_program());
    assert_eq!(usage.digital_inputs, vec![0, 3, 5]);
    assert_eq!(usage.digital_outputs, vec![1, 4]);
    assert_eq!(usage.analog_inputs, vec![2, 7, 8, 10]);
    assert_eq!(usage.analog_outputs, vec![9, 11]);
}

#[test]
fn io_map_template_for_an_empty_program_shows_examples() {
    let empty = IoProgram { tasks: vec![], cam_configs: vec![], pid_loops: vec![] };
    let text = io_map_template_for_program(&empty);
    let expected = format!(
        "{}[digital_inputs]\n# di0 = 2\n\n[digital_outputs]\n# do0 = 16\n\n[analog_inputs]\n# RP2040 ADC-capable GPIO: 26, 27, 28, 29\n# ai0 = 26\n\n[analog_outputs]\n# ao0 = 26\n{}",
        IO_MAP_HEAD, IO_MAP_TAIL
    );
    assert_eq!(text, expected);
    assert!(text.starts_with("# RP2040 I/O map template"));
    assert!(text.ends_with("# group = 30\n"));
}

#[test]
fn io_map_template_lists_used_channels() {
    let usage = IoUsage {
        digital_inputs: vec![3, 5],
        digital_outputs: vec![],
        analog_inputs: vec![26],
        analog_outputs: vec![1],
    };
    let text = io_map_template_for_usage(&usage);
    assert!(text.contains("[digital_inputs]\n# di3 = 2\n# di5 = 2\n\n[digital_outputs]\n# do0 = 16\n"));
    assert!(text.contains("# ai26 = 26\n\n[analog_outputs]\n# ao1 = 26\n"));
    assert!(io_map_template_for_program(&sample_program())
        .contains("[digital_inputs]\n# di0 = 2\n# di3 = 2\n# di5 = 2\n\n[digital_outputs]\n# do1 = 16\n# do4 = 16\n\n"));
}

#[test]
fn longest_chain_of_a_dag() {
    // 0 -> 1 -> 2, 0 -> 2, 3 alone
    let edges = vec![(0, 1), (1, 2), (0, 2)];
    let outgoing = vec![vec![0, 2], vec![1], vec![], vec![]];
    assert_eq!(analyze_longest_chain(&outgoing, &edges), (false, 2));
}

#[test]
fn cycles_are_reported() {
    let edges = vec![(0, 1), (1, 0)];
    let outgoing = vec![vec![0], vec![1]];
    assert!(analyze_longest_chain(&outgoing, &edges).0);
    let self_loop = vec![(0, 0)];
    assert!(analyze_longest_chain(&[vec![0]], &self_loop).0);
}

#[test]
fn empty_graphs_have_no_chain() {
    assert_eq!(analyze_longest_chain(&[], &[]), (false, 0));
    assert_eq!(analyze_longest_chain(&[vec![], vec![]], &[]), (false, 0));
}

#[test]
fn start_and_sensor_inputs_are_discovered() {
    let inputs = [(1u16, false, true), (4, true, false), (6, true, true), (9, false, true)];
    assert_eq!(discover_start_and_sensor_ids(&inputs), (Some(4), vec![1, 6, 9]));
    assert_eq!(discover_start_and_sensor_ids(&[]), (None, vec![]));
}
