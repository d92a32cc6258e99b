use rust_plc::board_log::parse_board_log_text;
use rust_plc::tick_timing::{parse_tick_timing_text, TickTimingSample};
use rust_plc::virtual_board::{
    reason_str, virtual_board_tick, virtual_tick_timing, LogEvent, TickEvent, TransitionEvent,
    TransitionReason, VirtualBoardRun,
};

fn transition(tick: u64, task: usize, from: u16, to: u16, reason: TransitionReason) -> TickEvent {
    TickEvent::Transition(TransitionEvent { tick, task, from_step: from, to_step: to, reason })
}

fn message(tick: u64, task: usize, step: u16, id: u32, text: &str) -> TickEvent {
    TickEvent::Log(LogEvent { tick, task, step, message_id: id, message: text.to_string() })
}

#[test]
fn reason_words_match_the_trace_vocabulary() {
    assert_eq!(reason_str(TransitionReason::Action), "action");
    assert_eq!(reason_str(TransitionReason::DelayElapsed), "delay_elapsed");
    assert_eq!(reason_str(TransitionReason::WaitSatisfied), "wait_satisfied");
    assert_eq!(reason_str(TransitionReason::Timeout), "timeout");
    assert_eq!(reason_str(TransitionReason::Goto), "goto");
}

#[test]
fn tick_timing_counts_transitions_and_messages() {
    let s = virtual_tick_timing(3, 10, 2, 1);
    assert_eq!(
        s,
        TickTimingSample {
            tick: 3,
            ts_start_us: 30_000,
            ts_end_us: 30_105,
            exec_us: 105,
            slack_us: 9_895,
            overrun: false,
        }
    );
}

#[test]
fn tick_timing_overruns_a_zero_period() {
    let s = virtual_tick_timing(4, 0, 0, 0);
    assert_eq!(s.exec_us, 10);
    assert!(s.overrun);
    assert_eq!(s.slack_us, 0);
    assert_eq!(s.ts_start_us, 0);
    assert_eq!(s.ts_end_us, 10);
}

#[test]
fn tick_timing_saturates() {
    let s = virtual_tick_timing(u64::MAX, 10, u64::MAX, 0);
    assert_eq!(s.ts_start_us, u64::MAX);
    assert_eq!(s.ts_end_us, u64::MAX);
    assert_eq!(s.exec_us, u64::MAX);
    assert!(s.overrun);
}

#[test]
fn tick_text_lists_events_in_order() {
    let events = vec![
        transition(2, 0, 1, 2, TransitionReason::Action),
        message(2, 0, 2, 7, "hello world"),
    ];
    let (text, sample) = virtual_board_tick(2, 5, &events);
    assert_eq!(
        text,
        "TICK tick=2 ts_ms=10\n\
         TRACE tick=2 task=0 from=1 to=2 reason=action ts_ms=10\n\
         LOG tick=2 task=0 step=2 msg_id=7 msg=hello world ts_ms=10\n\
         TIMING tick=2 ts_start_us=10000 ts_end_us=10065 exec_us=65 slack_us=4935 overrun=false\n"
    );
    assert_eq!(sample.exec_us, 65);
    assert_eq!(sample.slack_us, 4_935);
}

#[test]
fn empty_tick_costs_the_base() {
    let (text, sample) = virtual_board_tick(0, 1, &[]);
    assert_eq!(
        text,
        "TICK tick=0 ts_ms=0\nTIMING tick=0 ts_start_us=0 ts_end_us=10 exec_us=10 slack_us=990 overrun=false\n"
    );
    assert_eq!(sample.exec_us, 10);
}

#[test]
fn run_log_reads_back_as_recorded() {
    let mut run = VirtualBoardRun::new();
    assert_eq!(run.log(), "boot ok\n");
    run.record_tick(0, 1, &[transition(0, 0, 0, 1, TransitionReason::Action)]);
    run.record_tick(
        1,
        1,
        &[
            message(1, 1, 3, 9, "valve open"),
            transition(1, 1, 3, 4, TransitionReason::WaitSatisfied),
            transition(1, 0, 1, 2, TransitionReason::DelayElapsed),
        ],
    );

    let rows = run.trace_rows().expect("trace reads back");
    assert_eq!(rows.len(), 3);
    assert_eq!((rows[0].tick, rows[0].task, rows[0].from_step, rows[0].to_step), (0, 0, 0, 1));
    assert_eq!(rows[0].reason, "action");
    assert_eq!(rows[1].reason, "wait_satisfied");
    assert_eq!(rows[2].reason, "delay_elapsed");
    assert_eq!(rows[2].timestamp_ms, 1);

    let timing = parse_tick_timing_text(run.log()).expect("timing reads back");
    assert_eq!(timing.as_slice(), run.timing_rows());
    assert_eq!(run.timing_rows().len(), 2);
    assert_eq!(run.timing_rows()[1].exec_us, 40 * 2 + 15 + 10);

    let both = parse_board_log_text(run.log()).expect("board log reads back");
    assert_eq!(both.trace_rows, rows);
    assert_eq!(both.timing_rows.as_slice(), run.timing_rows());
}

#[test]
fn message_naming_a_trace_record_breaks_the_read_back() {
    let mut run = VirtualBoardRun::new();
    run.record_tick(0, 1, &[message(0, 0, 0, 1, "TRACE me")]);
    assert!(run.trace_rows().is_err());
}
