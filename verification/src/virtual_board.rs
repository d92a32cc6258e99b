//! The virtual board: a stand-in for a real controller board that runs the
//! compiled program tick by tick and writes the same text log a board would
//! (`TICK`, `TRACE`, `LOG` and `TIMING` records), with a deterministic timing
//! model so that runs without hardware are reproducible.
//!
//! The runtime itself is driven from outside; for each scan tick it hands
//! over the transitions and log messages it produced, in the order it
//! produced them, and this module decides what is written and what the tick
//! is reported to have cost.
use vstd::prelude::*;
use crate::runtime_budget::{sat_add, sat_mul, sat_mul_exec};
use crate::text::{
    clone_string, decimal, find, find_from, format_u64, format_usize, is_ws, lemma_decimal_parses, lemma_find_from,
    lines, matches_at, owned, push_char, push_str, split_acc, split_once, split_ws, trim, ws_acc,
};
use crate::board_trace::{
    no_trace_fields, parse_trace_text, rows_view, skip_first, spec_parse_trace_text, trace_line, trace_rows_upto, trace_token_step, trace_tokens, TraceFields,
    TraceParseError, TraceParseErrorView, TraceRow, TraceRowView,
};
use crate::tick_timing::{
    no_timing_fields, parse_bool, spec_parse_tick_timing_text, timing_line, timing_rows_upto,
    timing_token_step, timing_tokens, BoardTimingParseErrorView,
    TickTimingSample, TimingFields,
};

verus! {

// ---------------------------------------------------------------------------
// What the runtime hands over for one tick
// ---------------------------------------------------------------------------

/// Why a task moved from one step to another.
#[derive(Debug, Clone, Copy, PartialEq, Eq)]
pub enum TransitionReason {
    Action,
    DelayElapsed,
    WaitSatisfied,
    Timeout,
    Goto,
}

/// The word a record uses for a transition reason.
pub open spec fn reason_text(r: TransitionReason) -> Seq<char> {
    match r {
        TransitionReason::Action => "action"@,
        TransitionReason::DelayElapsed => "delay_elapsed"@,
        TransitionReason::WaitSatisfied => "wait_satisfied"@,
        TransitionReason::Timeout => "timeout"@,
        TransitionReason::Goto => "goto"@,
    }
}

pub fn reason_str(r: TransitionReason) -> (s: &'static str)
    ensures
        s@ == reason_text(r),
{
    match r {
        TransitionReason::Action => "action",
        TransitionReason::DelayElapsed => "delay_elapsed",
        TransitionReason::WaitSatisfied => "wait_satisfied",
        TransitionReason::Timeout => "timeout",
        TransitionReason::Goto => "goto",
    }
}

/// A step transition of one task.
#[derive(Debug, Clone, Copy, PartialEq, Eq)]
pub struct TransitionEvent {
    pub tick: u64,
    pub task: usize,
    pub from_step: u16,
    pub to_step: u16,
    pub reason: TransitionReason,
}

/// A message that a step logged.
#[derive(Debug, Clone, PartialEq, Eq)]
pub struct LogEvent {
    pub tick: u64,
    pub task: usize,
    pub step: u16,
    pub message_id: u32,
    pub message: String,
}

/// One thing the runtime reported during a tick.
#[derive(Debug, Clone, PartialEq, Eq)]
pub enum TickEvent {
    Transition(TransitionEvent),
    Log(LogEvent),
}

// ---------------------------------------------------------------------------
// The timing model
// ---------------------------------------------------------------------------

/// What one transition adds to a tick's execution time.
pub const TRANSITION_COST_US: u64 = 40;

/// What one logged message adds to a tick's execution time.
pub const LOG_COST_US: u64 = 15;

/// The fixed cost of a tick.
pub const TICK_BASE_COST_US: u64 = 10;

/// The timing reported for a tick with the given numbers of transitions and
/// logged messages: the tick period is `tick_ms` milliseconds, the tick
/// starts `tick` periods after the run started, its execution time is the
/// base cost plus the cost of each transition and each message, it overruns
/// when that exceeds the period, and the slack is what is left of the period
/// otherwise (all products and sums saturate).
pub open spec fn spec_tick_timing(tick: u64, tick_ms: u64, transitions: int, logs: int) -> TickTimingSample {
    let period = sat_mul(tick_ms as int, 1000);
    let start = sat_mul(tick as int, period as int);
    let exec = sat_add(
        sat_add(
            sat_mul(transitions, TRANSITION_COST_US as int) as int,
            sat_mul(logs, LOG_COST_US as int) as int,
        ) as int,
        TICK_BASE_COST_US as int,
    );
    let overrun = exec > period;
    TickTimingSample {
        tick,
        ts_start_us: start,
        ts_end_us: sat_add(start as int, exec as int),
        exec_us: exec,
        slack_us: if overrun {
            0
        } else {
            (period - exec) as u64
        },
        overrun,
    }
}

pub fn virtual_tick_timing(tick: u64, tick_ms: u64, transitions: u64, logs: u64) -> (r:
    TickTimingSample)
    ensures
        r == spec_tick_timing(tick, tick_ms, transitions as int, logs as int),
{
    let period = sat_mul_exec(tick_ms, 1000);
    let start = sat_mul_exec(tick, period);
    let exec = sat_mul_exec(transitions, TRANSITION_COST_US).saturating_add(
        sat_mul_exec(logs, LOG_COST_US),
    ).saturating_add(TICK_BASE_COST_US);
    let overrun = exec > period;
    let slack = if overrun {
        0
    } else {
        period.saturating_sub(exec)
    };
    TickTimingSample {
        tick,
        ts_start_us: start,
        ts_end_us: start.saturating_add(exec),
        exec_us: exec,
        slack_us: slack,
        overrun,
    }
}

/// The number of transitions among the events.
pub open spec fn transitions_in(events: Seq<TickEvent>) -> nat
    decreases events.len(),
{
    if events.len() == 0 {
        0
    } else {
        transitions_in(events.drop_last()) + if events.last() is Transition {
            1nat
        } else {
            0nat
        }
    }
}

/// The number of logged messages among the events.
pub open spec fn logs_in(events: Seq<TickEvent>) -> nat
    decreases events.len(),
{
    if events.len() == 0 {
        0
    } else {
        logs_in(events.drop_last()) + if events.last() is Log {
            1nat
        } else {
            0nat
        }
    }
}

// ---------------------------------------------------------------------------
// The records of the log
// ---------------------------------------------------------------------------

/// One line of the log.
pub enum BoardLine {
    Boot,
    Tick { tick: u64, ts_ms: u64 },
    Transition {
        tick: u64,
        task: usize,
        from_step: u16,
        to_step: u16,
        reason: TransitionReason,
        ts_ms: u64,
    },
    Log { tick: u64, task: usize, step: u16, message_id: u32, message: Seq<char>, ts_ms: u64 },
    Timing(TickTimingSample),
}

/// `key=value`.
pub open spec fn field(key: Seq<char>, value: Seq<char>) -> Seq<char> {
    key + seq!['='] + value
}

/// Each word preceded by a space.
pub open spec fn spaced(words: Seq<Seq<char>>) -> Seq<char>
    decreases words.len(),
{
    if words.len() == 0 {
        seq![]
    } else {
        spaced(words.drop_last()) + seq![' '] + words.last()
    }
}

/// A record: its kind, then its fields, separated by single spaces.
pub open spec fn record(head: Seq<char>, fields: Seq<Seq<char>>) -> Seq<char> {
    head + spaced(fields)
}

pub open spec fn bool_text(b: bool) -> Seq<char> {
    if b {
        "true"@
    } else {
        "false"@
    }
}

/// The text of a line, without its line break.
pub open spec fn line_text(l: BoardLine) -> Seq<char> {
    match l {
        BoardLine::Boot => "boot ok"@,
        BoardLine::Tick { tick, ts_ms } => record(
            "TICK"@,
            seq![field("tick"@, decimal(tick as nat)), field("ts_ms"@, decimal(ts_ms as nat))],
        ),
        BoardLine::Transition { tick, task, from_step, to_step, reason, ts_ms } => record(
            "TRACE"@,
            seq![
                field("tick"@, decimal(tick as nat)),
                field("task"@, decimal(task as nat)),
                field("from"@, decimal(from_step as nat)),
                field("to"@, decimal(to_step as nat)),
                field("reason"@, reason_text(reason)),
                field("ts_ms"@, decimal(ts_ms as nat)),
            ],
        ),
        BoardLine::Log { tick, task, step, message_id, message, ts_ms } => record(
            "LOG"@,
            seq![
                field("tick"@, decimal(tick as nat)),
                field("task"@, decimal(task as nat)),
                field("step"@, decimal(step as nat)),
                field("msg_id"@, decimal(message_id as nat)),
                field("msg"@, message),
                field("ts_ms"@, decimal(ts_ms as nat)),
            ],
        ),
        BoardLine::Timing(s) => record(
            "TIMING"@,
            seq![
                field("tick"@, decimal(s.tick as nat)),
                field("ts_start_us"@, decimal(s.ts_start_us as nat)),
                field("ts_end_us"@, decimal(s.ts_end_us as nat)),
                field("exec_us"@, decimal(s.exec_us as nat)),
                field("slack_us"@, decimal(s.slack_us as nat)),
                field("overrun"@, bool_text(s.overrun)),
            ],
        ),
    }
}

/// The text of a log: each line followed by a line break.
pub open spec fn log_text(ls: Seq<BoardLine>) -> Seq<char>
    decreases ls.len(),
{
    if ls.len() == 0 {
        seq![]
    } else {
        log_text(ls.drop_last()) + line_text(ls.last()) + seq!['\n']
    }
}

/// The line of an event; its time stamp is the event's tick in milliseconds.
pub open spec fn event_line(e: TickEvent, tick_ms: u64) -> BoardLine {
    match e {
        TickEvent::Transition(t) => BoardLine::Transition {
            tick: t.tick,
            task: t.task,
            from_step: t.from_step,
            to_step: t.to_step,
            reason: t.reason,
            ts_ms: sat_mul(t.tick as int, tick_ms as int),
        },
        TickEvent::Log(m) => BoardLine::Log {
            tick: m.tick,
            task: m.task,
            step: m.step,
            message_id: m.message_id,
            message: m.message@,
            ts_ms: sat_mul(m.tick as int, tick_ms as int),
        },
    }
}

pub open spec fn event_lines(events: Seq<TickEvent>, tick_ms: u64) -> Seq<BoardLine> {
    events.map_values(|e: TickEvent| event_line(e, tick_ms))
}

/// The lines of one tick: the tick, each event in the order the runtime
/// reported it, and the tick's timing.
pub open spec fn tick_lines(tick: u64, tick_ms: u64, events: Seq<TickEvent>) -> Seq<BoardLine> {
    seq![BoardLine::Tick { tick, ts_ms: sat_mul(tick as int, tick_ms as int) }] + event_lines(
        events,
        tick_ms,
    ) + seq![
        BoardLine::Timing(
            spec_tick_timing(tick, tick_ms, transitions_in(events) as int, logs_in(events) as int),
        ),
    ]
}

/// The timing samples among the lines, in order.
pub open spec fn timing_rows_of(ls: Seq<BoardLine>) -> Seq<TickTimingSample>
    decreases ls.len(),
{
    if ls.len() == 0 {
        seq![]
    } else {
        match ls.last() {
            BoardLine::Timing(s) => timing_rows_of(ls.drop_last()).push(s),
            _ => timing_rows_of(ls.drop_last()),
        }
    }
}

// ---------------------------------------------------------------------------
// Writing records
// ---------------------------------------------------------------------------

/// The fields made of parallel keys and values.
pub open spec fn fields_of(keys: Seq<&str>, values: Seq<String>) -> Seq<Seq<char>> {
    Seq::new(keys.len(), |i: int| field(keys[i]@, values[i]@))
}

proof fn lemma_spaced_push(ws: Seq<Seq<char>>, w: Seq<char>)
    ensures
        spaced(ws.push(w)) == spaced(ws) + seq![' '] + w,
{
    assert(ws.push(w).drop_last() =~= ws);
}

/// Appends a record and its line break.
fn push_record(out: &mut String, head: &str, keys: &[&str], values: &[String])
    requires
        keys@.len() == values@.len(),
    ensures
        final(out)@ == old(out)@ + record(head@, fields_of(keys@, values@)) + seq!['\n'],
{
    push_str(out, head);
    let ghost mut ws: Seq<Seq<char>> = seq![];
    let mut i: usize = 0;
    while i < keys.len()
        invariant
            i <= keys@.len() == values@.len(),
            ws == fields_of(keys@, values@).subrange(0, i as int),
            out@ == old(out)@ + head@ + spaced(ws),
        decreases keys@.len() - i,
    {
        push_char(out, ' ');
        push_str(out, keys[i]);
        push_char(out, '=');
        push_str(out, values[i].as_str());
        proof {
            let w = field(keys@[i as int]@, values@[i as int]@);
            lemma_spaced_push(ws, w);
            assert(out@ =~= old(out)@ + head@ + spaced(ws.push(w)));
            assert(ws.push(w) =~= fields_of(keys@, values@).subrange(0, i + 1));
            ws = ws.push(w);
        }
        i += 1;
    }
    assert(ws =~= fields_of(keys@, values@));
    push_char(out, '\n');
    assert(out@ =~= old(out)@ + record(head@, fields_of(keys@, values@)) + seq!['\n']);
}

proof fn lemma_log_text_push(ls: Seq<BoardLine>, l: BoardLine)
    ensures
        log_text(ls.push(l)) == log_text(ls) + line_text(l) + seq!['\n'],
{
    assert(ls.push(l).drop_last() =~= ls);
}

fn push_tick_line(out: &mut String, tick: u64, tick_ms: u64)
    ensures
        final(out)@ == old(out)@ + line_text(
            BoardLine::Tick { tick, ts_ms: sat_mul(tick as int, tick_ms as int) },
        ) + seq!['\n'],
{
    let keys = ["tick", "ts_ms"];
    let values = vec![format_u64(tick), format_u64(sat_mul_exec(tick, tick_ms))];
    push_record(out, "TICK", &keys, values.as_slice());
    assert(fields_of(keys@, values@) =~= seq![
        field("tick"@, decimal(tick as nat)),
        field("ts_ms"@, decimal(sat_mul(tick as int, tick_ms as int) as nat)),
    ]);
}

fn push_event_line(out: &mut String, e: &TickEvent, tick_ms: u64)
    ensures
        final(out)@ == old(out)@ + line_text(event_line(*e, tick_ms)) + seq!['\n'],
{
    match e {
        TickEvent::Transition(t) => {
            let keys = ["tick", "task", "from", "to", "reason", "ts_ms"];
            let values = vec![
                format_u64(t.tick),
                format_usize(t.task),
                format_u64(t.from_step as u64),
                format_u64(t.to_step as u64),
                owned(reason_str(t.reason)),
                format_u64(sat_mul_exec(t.tick, tick_ms)),
            ];
            push_record(out, "TRACE", &keys, values.as_slice());
            assert(fields_of(keys@, values@) =~= seq![
                field("tick"@, decimal(t.tick as nat)),
                field("task"@, decimal(t.task as nat)),
                field("from"@, decimal(t.from_step as nat)),
                field("to"@, decimal(t.to_step as nat)),
                field("reason"@, reason_text(t.reason)),
                field("ts_ms"@, decimal(sat_mul(t.tick as int, tick_ms as int) as nat)),
            ]);
        },
        TickEvent::Log(m) => {
            let keys = ["tick", "task", "step", "msg_id", "msg", "ts_ms"];
            let values = vec![
                format_u64(m.tick),
                format_usize(m.task),
                format_u64(m.step as u64),
                format_u64(m.message_id as u64),
                clone_string(&m.message),
                format_u64(sat_mul_exec(m.tick, tick_ms)),
            ];
            push_record(out, "LOG", &keys, values.as_slice());
            assert(fields_of(keys@, values@) =~= seq![
                field("tick"@, decimal(m.tick as nat)),
                field("task"@, decimal(m.task as nat)),
                field("step"@, decimal(m.step as nat)),
                field("msg_id"@, decimal(m.message_id as nat)),
                field("msg"@, m.message@),
                field("ts_ms"@, decimal(sat_mul(m.tick as int, tick_ms as int) as nat)),
            ]);
        },
    }
}

fn push_timing_line(out: &mut String, s: &TickTimingSample)
    ensures
        final(out)@ == old(out)@ + line_text(BoardLine::Timing(*s)) + seq!['\n'],
{
    let keys = ["tick", "ts_start_us", "ts_end_us", "exec_us", "slack_us", "overrun"];
    let overrun = if s.overrun {
        owned("true")
    } else {
        owned("false")
    };
    let values = vec![
        format_u64(s.tick),
        format_u64(s.ts_start_us),
        format_u64(s.ts_end_us),
        format_u64(s.exec_us),
        format_u64(s.slack_us),
        overrun,
    ];
    push_record(out, "TIMING", &keys, values.as_slice());
    assert(fields_of(keys@, values@) =~= seq![
        field("tick"@, decimal(s.tick as nat)),
        field("ts_start_us"@, decimal(s.ts_start_us as nat)),
        field("ts_end_us"@, decimal(s.ts_end_us as nat)),
        field("exec_us"@, decimal(s.exec_us as nat)),
        field("slack_us"@, decimal(s.slack_us as nat)),
        field("overrun"@, bool_text(s.overrun)),
    ]);
}

/// The number of transitions and of logged messages among the events.
fn count_events(events: &[TickEvent]) -> (r: (u64, u64))
    ensures
        r.0 == transitions_in(events@),
        r.1 == logs_in(events@),
{
    let mut transitions: u64 = 0;
    let mut logs: u64 = 0;
    let mut i: usize = 0;
    while i < events.len()
        invariant
            i <= events@.len(),
            transitions == transitions_in(events@.subrange(0, i as int)),
            logs == logs_in(events@.subrange(0, i as int)),
            transitions + logs == i,
        decreases events@.len() - i,
    {
        assert(events@.subrange(0, i + 1).drop_last() =~= events@.subrange(0, i as int));
        match &events[i] {
            TickEvent::Transition(_) => {
                transitions = transitions + 1;
            },
            TickEvent::Log(_) => {
                logs = logs + 1;
            },
        }
        i += 1;
    }
    assert(events@.subrange(0, events@.len() as int) =~= events@);
    (transitions, logs)
}

/// What the board writes for one tick: the `TICK` record, a `TRACE` record
/// for each transition and a `LOG` record for each message in the order the
/// runtime reported them, and the `TIMING` record of the tick; with the
/// tick's timing sample.
pub fn virtual_board_tick(tick: u64, tick_ms: u64, events: &[TickEvent]) -> (r: (
    String,
    TickTimingSample,
))
    ensures
        r.0@ == log_text(tick_lines(tick, tick_ms, events@)),
        r.1 == spec_tick_timing(
            tick,
            tick_ms,
            transitions_in(events@) as int,
            logs_in(events@) as int,
        ),
{
    let mut out = String::new();
    let ghost mut ls: Seq<BoardLine> = seq![];
    push_tick_line(&mut out, tick, tick_ms);
    proof {
        let l = BoardLine::Tick { tick, ts_ms: sat_mul(tick as int, tick_ms as int) };
        lemma_log_text_push(ls, l);
        ls = ls.push(l);
        assert(out@ =~= log_text(ls));
    }
    let mut i: usize = 0;
    while i < events.len()
        invariant
            i <= events@.len(),
            ls == seq![BoardLine::Tick { tick, ts_ms: sat_mul(tick as int, tick_ms as int) }]
                + event_lines(events@.subrange(0, i as int), tick_ms),
            out@ == log_text(ls),
        decreases events@.len() - i,
    {
        push_event_line(&mut out, &events[i], tick_ms);
        proof {
            let l = event_line(events@[i as int], tick_ms);
            lemma_log_text_push(ls, l);
            assert(event_lines(events@.subrange(0, i + 1), tick_ms) =~= event_lines(
                events@.subrange(0, i as int),
                tick_ms,
            ).push(l));
            ls = ls.push(l);
            assert(out@ =~= log_text(ls));
        }
        i += 1;
    }
    assert(events@.subrange(0, events@.len() as int) =~= events@);
    let (transitions, logs) = count_events(events);
    let sample = virtual_tick_timing(tick, tick_ms, transitions, logs);
    push_timing_line(&mut out, &sample);
    proof {
        let l = BoardLine::Timing(sample);
        lemma_log_text_push(ls, l);
        ls = ls.push(l);
        assert(ls =~= tick_lines(tick, tick_ms, events@));
    }
    (out, sample)
}

// ---------------------------------------------------------------------------
// Reading the log back
// ---------------------------------------------------------------------------

/// A character of a key or of a plain value: a lower-case letter, a digit or
/// `_`.
pub open spec fn plain(c: char) -> bool {
    ('a' <= c && c <= 'z') || ('0' <= c && c <= '9') || c == '_'
}

pub open spec fn plain_text(s: Seq<char>) -> bool {
    forall|i: int| 0 <= i < s.len() ==> plain(#[trigger] s[i])
}

/// A character of a field: plain, or the `=` between key and value.
pub open spec fn tame(c: char) -> bool {
    plain(c) || c == '='
}

pub open spec fn tame_text(s: Seq<char>) -> bool {
    forall|i: int| 0 <= i < s.len() ==> tame(#[trigger] s[i])
}

pub open spec fn no_ws(s: Seq<char>) -> bool {
    forall|i: int| 0 <= i < s.len() ==> !is_ws(#[trigger] s[i])
}

proof fn lemma_ws_acc_word(s: Seq<char>, w: Seq<char>)
    requires
        no_ws(w),
    ensures
        ws_acc(s + w) == (ws_acc(s).0, ws_acc(s).1 + w),
    decreases w.len(),
{
    if w.len() == 0 {
        assert(s + w =~= s);
        assert(ws_acc(s).1 + w =~= ws_acc(s).1);
    } else {
        let w0 = w.drop_last();
        assert(no_ws(w0));
        lemma_ws_acc_word(s, w0);
        assert((s + w).drop_last() =~= s + w0);
        assert((s + w).last() == w.last());
        assert(!is_ws(w[w.len() - 1]));
        assert((ws_acc(s).1 + w0).push(w.last()) =~= ws_acc(s).1 + w);
    }
}

proof fn lemma_ws_acc_record(head: Seq<char>, fs: Seq<Seq<char>>)
    requires
        head.len() > 0,
        no_ws(head),
        forall|j: int| 0 <= j < fs.len() ==> (#[trigger] fs[j]).len() > 0 && no_ws(fs[j]),
    ensures
        fs.len() == 0 ==> ws_acc(record(head, fs)) == (Seq::<Seq<char>>::empty(), head),
        fs.len() > 0 ==> ws_acc(record(head, fs)) == (seq![head] + fs.drop_last(), fs.last()),
    decreases fs.len(),
{
    if fs.len() == 0 {
        lemma_ws_acc_word(seq![], head);
        assert(Seq::<char>::empty() + head =~= record(head, fs));
        assert(Seq::<char>::empty() + head =~= head);
    } else {
        let f0 = fs.drop_last();
        assert forall|j: int| 0 <= j < f0.len() implies (#[trigger] f0[j]).len() > 0 && no_ws(
            f0[j],
        ) by {
            assert(f0[j] == fs[j]);
        }
        lemma_ws_acc_record(head, f0);
        let r0 = record(head, f0);
        let r1 = r0 + seq![' '];
        assert(r1.drop_last() =~= r0);
        assert(is_ws(r1.last()));
        let cur = ws_acc(r0).1;
        if f0.len() > 0 {
            assert(cur == f0.last());
            assert(f0[f0.len() - 1].len() > 0);
        }
        assert(cur.len() > 0);
        assert(ws_acc(r1) == (ws_acc(r0).0.push(cur), Seq::<char>::empty()));
        assert(fs[fs.len() - 1].len() > 0 && no_ws(fs[fs.len() - 1]));
        lemma_ws_acc_word(r1, fs.last());
        assert(record(head, fs) =~= r1 + fs.last());
        if f0.len() == 0 {
            assert(ws_acc(r0).0.push(cur) =~= seq![head] + fs.drop_last());
        } else {
            assert(ws_acc(r0).0.push(cur) =~= seq![head] + fs.drop_last());
        }
        assert(Seq::<char>::empty() + fs.last() =~= fs.last());
    }
}

/// The words of a record are its kind and its fields.
proof fn lemma_split_ws_record(head: Seq<char>, fs: Seq<Seq<char>>)
    requires
        head.len() > 0,
        no_ws(head),
        forall|j: int| 0 <= j < fs.len() ==> (#[trigger] fs[j]).len() > 0 && no_ws(fs[j]),
    ensures
        split_ws(record(head, fs)) == seq![head] + fs,
{
    lemma_ws_acc_record(head, fs);
    if fs.len() == 0 {
        assert(seq![head] + fs =~= seq![head]);
        assert(Seq::<Seq<char>>::empty().push(head) =~= seq![head]);
    } else {
        assert(fs[fs.len() - 1].len() > 0);
        assert((seq![head] + fs.drop_last()).push(fs.last()) =~= seq![head] + fs);
    }
}

/// What a record's fields are made of, and how it ends.
proof fn lemma_spaced_chars(fs: Seq<Seq<char>>)
    requires
        forall|j: int| 0 <= j < fs.len() ==> (#[trigger] fs[j]).len() > 0 && tame_text(fs[j]),
    ensures
        forall|i: int|
            0 <= i < spaced(fs).len() ==> #[trigger] spaced(fs)[i] == ' ' || tame(spaced(fs)[i]),
        fs.len() > 0 ==> spaced(fs).len() > 0 && spaced(fs)[0] == ' ' && spaced(fs).last()
            == fs.last().last(),
        fs.len() == 0 ==> spaced(fs).len() == 0,
    decreases fs.len(),
{
    if fs.len() > 0 {
        let f0 = fs.drop_last();
        assert forall|j: int| 0 <= j < f0.len() implies (#[trigger] f0[j]).len() > 0 && tame_text(
            f0[j],
        ) by {
            assert(f0[j] == fs[j]);
        }
        lemma_spaced_chars(f0);
        let w = fs.last();
        assert(w == fs[fs.len() - 1]);
        let s0 = spaced(f0);
        assert(spaced(fs) == s0 + seq![' '] + w);
        assert forall|i: int| 0 <= i < spaced(fs).len() implies #[trigger] spaced(fs)[i] == ' '
            || tame(spaced(fs)[i]) by {
            if i < s0.len() {
                assert(spaced(fs)[i] == s0[i]);
            } else if i == s0.len() {
            } else {
                assert(spaced(fs)[i] == w[i - s0.len() - 1]);
            }
        }
        if f0.len() == 0 {
            assert(spaced(fs)[0] == ' ');
        } else {
            assert(spaced(fs)[0] == s0[0]);
        }
    }
}

proof fn lemma_trim_keeps(s: Seq<char>)
    requires
        s.len() > 0,
        !is_ws(s[0]),
        !is_ws(s.last()),
    ensures
        trim(s) == s,
{
}

/// `key=value` splits at its first `=` into the key and the value.
proof fn lemma_split_once_field(k: Seq<char>, v: Seq<char>)
    requires
        forall|i: int| 0 <= i < k.len() ==> #[trigger] k[i] != '=',
    ensures
        split_once(field(k, v), '=') == Some((k, v)),
{
    let s = field(k, v);
    let pat = seq!['='];
    assert(s[k.len() as int] == '=');
    assert(s.subrange(k.len() as int, k.len() + 1int) =~= pat);
    assert forall|j: int| 0 <= j < k.len() implies !matches_at(s, j, pat) by {
        if matches_at(s, j, pat) {
            assert(s.subrange(j, j + 1)[0] == pat[0]);
            assert(s[j] == k[j]);
        }
    }
    lemma_find_first_at(s, pat, k.len() as int, 0);
    assert(s.subrange(0, k.len() as int) =~= k);
    assert(s.subrange(k.len() + 1int, s.len() as int) =~= v);
}

proof fn lemma_find_first_at(s: Seq<char>, pat: Seq<char>, at: int, j: int)
    requires
        0 <= j <= at,
        matches_at(s, at, pat),
        forall|i: int| 0 <= i < at ==> !matches_at(s, i, pat),
    ensures
        find_from(s, pat, j) == Some(at),
    decreases at - j,
{
    if j < at {
        lemma_find_first_at(s, pat, at, j + 1);
    }
}

/// No occurrence of a pattern `P␣` (whose `P` starts with `T` and holds no
/// space) in `a + m + b` when neither `a` nor `b` holds a `T`, `b` starts
/// with a space, and `P` does not occur in `m`.
proof fn lemma_no_match_around(a: Seq<char>, m: Seq<char>, b: Seq<char>, pat: Seq<char>)
    requires
        pat.len() >= 2,
        pat[0] == 'T',
        pat.last() == ' ',
        forall|i: int| 0 <= i < pat.len() - 1 ==> #[trigger] pat[i] != ' ',
        forall|i: int| 0 <= i < a.len() ==> #[trigger] a[i] != 'T',
        forall|i: int| 0 <= i < b.len() ==> #[trigger] b[i] != 'T',
        b.len() > 0 ==> b[0] == ' ',
        find(m, pat.drop_last()) is None,
    ensures
        forall|k: int| !matches_at(a + m + b, k, pat),
{
    let t = a + m + b;
    let p = pat.drop_last();
    lemma_find_from(m, p, 0);
    assert forall|k: int| !matches_at(t, k, pat) by {
        if matches_at(t, k, pat) {
            assert(t.subrange(k, k + pat.len())[0] == pat[0]);
            assert(t[k] == 'T');
            if k < a.len() {
                assert(t[k] == a[k]);
            } else if k >= a.len() + m.len() {
                assert(t[k] == b[k - a.len() - m.len()]);
            } else {
                let km = k - a.len();
                if km + p.len() <= m.len() {
                    assert forall|i: int| 0 <= i < p.len() implies m.subrange(km, km + p.len())[i]
                        == p[i] by {
                        assert(t.subrange(k, k + pat.len())[i] == pat[i]);
                        assert(t[k + i] == m[km + i]);
                    }
                    assert(m.subrange(km, km + p.len()) =~= p);
                    assert(matches_at(m, km, p));
                } else {
                    let j = a.len() + m.len() - k;
                    assert(0 < j < p.len());
                    assert(t.subrange(k, k + pat.len())[j] == pat[j]);
                    assert(t[k + j] == b[0]);
                    assert(pat[j] != ' ');
                }
            }
        }
    }
}

proof fn lemma_find_none(t: Seq<char>, pat: Seq<char>)
    requires
        forall|k: int| !matches_at(t, k, pat),
    ensures
        find(t, pat) is None,
{
    lemma_find_from(t, pat, 0);
}

proof fn lemma_find_at_start(t: Seq<char>, pat: Seq<char>)
    requires
        matches_at(t, 0, pat),
    ensures
        find(t, pat) == Some(0int),
{
}

proof fn lemma_decimal_plain(n: nat)
    ensures
        decimal(n).len() > 0,
        plain_text(decimal(n)),
{
    lemma_decimal_parses(n, n);
}

proof fn lemma_field_tame(k: Seq<char>, v: Seq<char>)
    requires
        plain_text(k),
        plain_text(v),
    ensures
        tame_text(field(k, v)),
        field(k, v).len() > 0,
        no_ws(field(k, v)),
        v.len() > 0 ==> field(k, v).last() == v.last(),
{
    let f = field(k, v);
    assert forall|i: int| 0 <= i < f.len() implies tame(#[trigger] f[i]) by {
        if i < k.len() {
            assert(f[i] == k[i]);
        } else if i > k.len() {
            assert(f[i] == v[i - k.len() - 1]);
        }
    }
}

proof fn lemma_plain_keys()
    ensures
        plain_text("tick"@),
        plain_text("task"@),
        plain_text("from"@),
        plain_text("to"@),
        plain_text("reason"@),
        plain_text("ts_ms"@),
        plain_text("step"@),
        plain_text("msg_id"@),
        plain_text("msg"@),
        plain_text("ts_start_us"@),
        plain_text("ts_end_us"@),
        plain_text("exec_us"@),
        plain_text("slack_us"@),
        plain_text("overrun"@),
        forall|r: TransitionReason| #[trigger] plain_text(reason_text(r)),
        forall|b: bool| #[trigger] plain_text(bool_text(b)) && bool_text(b).len() > 0,
{
    reveal_strlit("tick");
    reveal_strlit("task");
    reveal_strlit("from");
    reveal_strlit("to");
    reveal_strlit("reason");
    reveal_strlit("ts_ms");
    reveal_strlit("step");
    reveal_strlit("msg_id");
    reveal_strlit("msg");
    reveal_strlit("ts_start_us");
    reveal_strlit("ts_end_us");
    reveal_strlit("exec_us");
    reveal_strlit("slack_us");
    reveal_strlit("overrun");
    reveal_strlit("action");
    reveal_strlit("delay_elapsed");
    reveal_strlit("wait_satisfied");
    reveal_strlit("timeout");
    reveal_strlit("goto");
    reveal_strlit("true");
    reveal_strlit("false");
}


/// The keys of the records differ from one another.
proof fn lemma_keys_differ()
    ensures
        "task"@ != "tick"@,
        "from"@ != "tick"@,
        "from"@ != "task"@,
        "to"@ != "tick"@,
        "to"@ != "task"@,
        "to"@ != "from"@,
        "reason"@ != "tick"@,
        "reason"@ != "task"@,
        "reason"@ != "from"@,
        "reason"@ != "to"@,
        "ts_ms"@ != "tick"@,
        "ts_ms"@ != "task"@,
        "ts_ms"@ != "from"@,
        "ts_ms"@ != "to"@,
        "ts_ms"@ != "reason"@,
        "ts_start_us"@ != "tick"@,
        "ts_end_us"@ != "tick"@,
        "ts_end_us"@ != "ts_start_us"@,
        "exec_us"@ != "tick"@,
        "exec_us"@ != "ts_start_us"@,
        "exec_us"@ != "ts_end_us"@,
        "slack_us"@ != "tick"@,
        "slack_us"@ != "ts_start_us"@,
        "slack_us"@ != "ts_end_us"@,
        "slack_us"@ != "exec_us"@,
        "overrun"@ != "tick"@,
        "overrun"@ != "ts_start_us"@,
        "overrun"@ != "ts_end_us"@,
        "overrun"@ != "exec_us"@,
        "overrun"@ != "slack_us"@,
        "false"@ != "true"@,
{
    reveal_strlit("tick");
    reveal_strlit("task");
    reveal_strlit("from");
    reveal_strlit("to");
    reveal_strlit("reason");
    reveal_strlit("ts_ms");
    reveal_strlit("ts_start_us");
    reveal_strlit("ts_end_us");
    reveal_strlit("exec_us");
    reveal_strlit("slack_us");
    reveal_strlit("overrun");
    reveal_strlit("true");
    reveal_strlit("false");
    assert("task"@[1] != "tick"@[1]);
    assert("from"@[0] != "tick"@[0]);
    assert("from"@[0] != "task"@[0]);
    assert("ts_ms"@.len() != "tick"@.len());
    assert("ts_ms"@.len() != "task"@.len());
    assert("ts_ms"@.len() != "from"@.len());
    assert("ts_ms"@.len() != "to"@.len());
    assert("ts_ms"@.len() != "reason"@.len());
    assert("ts_end_us"@[3] != "ts_start_us"@[3]);
    assert("exec_us"@[0] != "ts_start_us"@[0]);
    assert("exec_us"@[0] != "ts_end_us"@[0]);
    assert("slack_us"@[0] != "ts_start_us"@[0]);
    assert("slack_us"@[0] != "ts_end_us"@[0]);
    assert("slack_us"@[0] != "exec_us"@[0]);
    assert("overrun"@[0] != "tick"@[0]);
    assert("overrun"@[0] != "ts_start_us"@[0]);
    assert("overrun"@[0] != "ts_end_us"@[0]);
    assert("overrun"@[0] != "exec_us"@[0]);
    assert("overrun"@[0] != "slack_us"@[0]);
    assert("false"@[0] != "true"@[0]);
}

proof fn lemma_trace_tokens_push(toks: Seq<Seq<char>>, x: Seq<char>, line: int, text: Seq<char>)
    ensures
        trace_tokens(toks.push(x), line, text) == match trace_tokens(toks, line, text) {
            Err(e) => Err(e),
            Ok(f) => trace_token_step(f, x, line, text),
        },
{
    assert(toks.push(x).drop_last() =~= toks);
}

proof fn lemma_timing_tokens_push(toks: Seq<Seq<char>>, x: Seq<char>, line: int, text: Seq<char>)
    ensures
        timing_tokens(toks.push(x), line, text) == match timing_tokens(toks, line, text) {
            Err(e) => Err(e),
            Ok(f) => timing_token_step(f, x, line, text),
        },
{
    assert(toks.push(x).drop_last() =~= toks);
}

/// The fields of a `TRACE` record read back one by one.
proof fn lemma_trace_fields(
    tick: u64,
    task: usize,
    from_step: u16,
    to_step: u16,
    reason: TransitionReason,
    ts_ms: u64,
    line: int,
    text: Seq<char>,
)
    ensures
        trace_tokens(
            seq![
                field("tick"@, decimal(tick as nat)),
                field("task"@, decimal(task as nat)),
                field("from"@, decimal(from_step as nat)),
                field("to"@, decimal(to_step as nat)),
                field("reason"@, reason_text(reason)),
                field("ts_ms"@, decimal(ts_ms as nat)),
            ],
            line,
            text,
        ) == Ok::<TraceFields, TraceParseErrorView>(
            TraceFields {
                tick: Some(tick),
                task: Some(task),
                from_step: Some(from_step),
                to_step: Some(to_step),
                reason: Some(reason_text(reason)),
                ts_ms: Some(ts_ms),
            },
        ),
{
    reveal_strlit("tick");
    reveal_strlit("task");
    reveal_strlit("from");
    reveal_strlit("to");
    reveal_strlit("reason");
    reveal_strlit("ts_ms");
    lemma_plain_keys();
    lemma_keys_differ();
    let f1 = field("tick"@, decimal(tick as nat));
    let f2 = field("task"@, decimal(task as nat));
    let f3 = field("from"@, decimal(from_step as nat));
    let f4 = field("to"@, decimal(to_step as nat));
    let f5 = field("reason"@, reason_text(reason));
    let f6 = field("ts_ms"@, decimal(ts_ms as nat));
    lemma_split_once_field("tick"@, decimal(tick as nat));
    lemma_split_once_field("task"@, decimal(task as nat));
    lemma_split_once_field("from"@, decimal(from_step as nat));
    lemma_split_once_field("to"@, decimal(to_step as nat));
    lemma_split_once_field("reason"@, reason_text(reason));
    lemma_split_once_field("ts_ms"@, decimal(ts_ms as nat));
    lemma_decimal_parses(tick as nat, u64::MAX as nat);
    lemma_decimal_parses(task as nat, usize::MAX as nat);
    lemma_decimal_parses(from_step as nat, u16::MAX as nat);
    lemma_decimal_parses(to_step as nat, u16::MAX as nat);
    lemma_decimal_parses(ts_ms as nat, u64::MAX as nat);
    let t0: Seq<Seq<char>> = seq![];
    let g0 = no_trace_fields();
    let g1 = TraceFields { tick: Some(tick), ..g0 };
    let g2 = TraceFields { task: Some(task), ..g1 };
    let g3 = TraceFields { from_step: Some(from_step), ..g2 };
    let g4 = TraceFields { to_step: Some(to_step), ..g3 };
    let g5 = TraceFields { reason: Some(reason_text(reason)), ..g4 };
    let g6 = TraceFields { ts_ms: Some(ts_ms), ..g5 };
    assert(trace_token_step(g0, f1, line, text) == Ok::<TraceFields, TraceParseErrorView>(g1));
    assert(trace_token_step(g1, f2, line, text) == Ok::<TraceFields, TraceParseErrorView>(g2));
    assert(trace_token_step(g2, f3, line, text) == Ok::<TraceFields, TraceParseErrorView>(g3));
    assert(trace_token_step(g3, f4, line, text) == Ok::<TraceFields, TraceParseErrorView>(g4));
    assert(trace_token_step(g4, f5, line, text) == Ok::<TraceFields, TraceParseErrorView>(g5));
    assert(trace_token_step(g5, f6, line, text) == Ok::<TraceFields, TraceParseErrorView>(g6));
    lemma_trace_tokens_push(t0, f1, line, text);
    lemma_trace_tokens_push(t0.push(f1), f2, line, text);
    lemma_trace_tokens_push(t0.push(f1).push(f2), f3, line, text);
    lemma_trace_tokens_push(t0.push(f1).push(f2).push(f3), f4, line, text);
    lemma_trace_tokens_push(t0.push(f1).push(f2).push(f3).push(f4), f5, line, text);
    lemma_trace_tokens_push(t0.push(f1).push(f2).push(f3).push(f4).push(f5), f6, line, text);
    assert(t0.push(f1).push(f2).push(f3).push(f4).push(f5).push(f6) =~= seq![f1, f2, f3, f4, f5, f6]);
}

/// The fields of a `TIMING` record read back one by one.
proof fn lemma_timing_fields(sample: TickTimingSample, line: int, text: Seq<char>)
    ensures
        timing_tokens(
            seq![
                field("tick"@, decimal(sample.tick as nat)),
                field("ts_start_us"@, decimal(sample.ts_start_us as nat)),
                field("ts_end_us"@, decimal(sample.ts_end_us as nat)),
                field("exec_us"@, decimal(sample.exec_us as nat)),
                field("slack_us"@, decimal(sample.slack_us as nat)),
                field("overrun"@, bool_text(sample.overrun)),
            ],
            line,
            text,
        ) == Ok::<TimingFields, BoardTimingParseErrorView>(
            TimingFields {
                tick: Some(sample.tick),
                ts_start_us: Some(sample.ts_start_us),
                ts_end_us: Some(sample.ts_end_us),
                exec_us: Some(sample.exec_us),
                slack_us: Some(sample.slack_us),
                overrun: Some(sample.overrun),
            },
        ),
{
    lemma_plain_keys();
    lemma_keys_differ();
    let f1 = field("tick"@, decimal(sample.tick as nat));
    let f2 = field("ts_start_us"@, decimal(sample.ts_start_us as nat));
    let f3 = field("ts_end_us"@, decimal(sample.ts_end_us as nat));
    let f4 = field("exec_us"@, decimal(sample.exec_us as nat));
    let f5 = field("slack_us"@, decimal(sample.slack_us as nat));
    let f6 = field("overrun"@, bool_text(sample.overrun));
    lemma_split_once_field("tick"@, decimal(sample.tick as nat));
    lemma_split_once_field("ts_start_us"@, decimal(sample.ts_start_us as nat));
    lemma_split_once_field("ts_end_us"@, decimal(sample.ts_end_us as nat));
    lemma_split_once_field("exec_us"@, decimal(sample.exec_us as nat));
    lemma_split_once_field("slack_us"@, decimal(sample.slack_us as nat));
    lemma_split_once_field("overrun"@, bool_text(sample.overrun));
    lemma_decimal_parses(sample.tick as nat, u64::MAX as nat);
    lemma_decimal_parses(sample.ts_start_us as nat, u64::MAX as nat);
    lemma_decimal_parses(sample.ts_end_us as nat, u64::MAX as nat);
    lemma_decimal_parses(sample.exec_us as nat, u64::MAX as nat);
    lemma_decimal_parses(sample.slack_us as nat, u64::MAX as nat);
    let t0: Seq<Seq<char>> = seq![];
    let g0 = no_timing_fields();
    let g1 = TimingFields { tick: Some(sample.tick), ..g0 };
    let g2 = TimingFields { ts_start_us: Some(sample.ts_start_us), ..g1 };
    let g3 = TimingFields { ts_end_us: Some(sample.ts_end_us), ..g2 };
    let g4 = TimingFields { exec_us: Some(sample.exec_us), ..g3 };
    let g5 = TimingFields { slack_us: Some(sample.slack_us), ..g4 };
    let g6 = TimingFields { overrun: Some(sample.overrun), ..g5 };
    assert(timing_token_step(g0, f1, line, text) == Ok::<TimingFields, BoardTimingParseErrorView>(g1));
    assert(timing_token_step(g1, f2, line, text) == Ok::<TimingFields, BoardTimingParseErrorView>(g2));
    assert(timing_token_step(g2, f3, line, text) == Ok::<TimingFields, BoardTimingParseErrorView>(g3));
    assert(timing_token_step(g3, f4, line, text) == Ok::<TimingFields, BoardTimingParseErrorView>(g4));
    assert(timing_token_step(g4, f5, line, text) == Ok::<TimingFields, BoardTimingParseErrorView>(g5));
    assert(parse_bool(bool_text(sample.overrun)) == Some(sample.overrun));
    assert(timing_token_step(g5, f6, line, text) == Ok::<TimingFields, BoardTimingParseErrorView>(g6));
    lemma_timing_tokens_push(t0, f1, line, text);
    lemma_timing_tokens_push(t0.push(f1), f2, line, text);
    lemma_timing_tokens_push(t0.push(f1).push(f2), f3, line, text);
    lemma_timing_tokens_push(t0.push(f1).push(f2).push(f3), f4, line, text);
    lemma_timing_tokens_push(t0.push(f1).push(f2).push(f3).push(f4), f5, line, text);
    lemma_timing_tokens_push(t0.push(f1).push(f2).push(f3).push(f4).push(f5), f6, line, text);
    assert(t0.push(f1).push(f2).push(f3).push(f4).push(f5).push(f6) =~= seq![f1, f2, f3, f4, f5, f6]);
}

proof fn lemma_tame_char(c: char)
    requires
        tame(c),
    ensures
        !is_ws(c),
        c != 'T',
        c != '\n',
        c != ' ',
{
}

/// The shape of a record whose kind is a word without whitespace and whose
/// fields are non-empty and tame.
proof fn lemma_record_basics(head: Seq<char>, fs: Seq<Seq<char>>)
    requires
        head.len() > 0,
        no_ws(head),
        fs.len() > 0,
        forall|j: int| 0 <= j < fs.len() ==> (#[trigger] fs[j]).len() > 0 && tame_text(fs[j]),
    ensures
        trim(record(head, fs)) == record(head, fs),
        split_ws(record(head, fs)) == seq![head] + fs,
        record(head, fs).len() > head.len(),
        record(head, fs)[head.len() as int] == ' ',
        forall|i: int| 0 <= i < head.len() ==> #[trigger] record(head, fs)[i] == head[i],
        forall|i: int|
            head.len() <= i < record(head, fs).len() ==> #[trigger] record(head, fs)[i] == ' '
                || tame(record(head, fs)[i]),
        record(head, fs) == head + spaced(fs),
{
    let t = record(head, fs);
    lemma_spaced_chars(fs);
    let sp = spaced(fs);
    assert forall|i: int| head.len() <= i < t.len() implies #[trigger] t[i] == ' ' || tame(t[i]) by {
        assert(t[i] == sp[i - head.len()]);
    }
    let w = fs.last();
    assert(w == fs[fs.len() - 1]);
    assert(tame(w[w.len() - 1]));
    lemma_tame_char(w.last());
    assert(t.last() == sp.last());
    assert(!is_ws(t[0])) by {
        assert(t[0] == head[0]);
    }
    lemma_trim_keeps(t);
    assert forall|j: int| 0 <= j < fs.len() implies (#[trigger] fs[j]).len() > 0 && no_ws(fs[j]) by {
        assert forall|i: int| 0 <= i < fs[j].len() implies !is_ws(#[trigger] fs[j][i]) by {
            assert(tame(fs[j][i]));
            lemma_tame_char(fs[j][i]);
        }
    }
    lemma_split_ws_record(head, fs);
}

pub open spec fn no_newline(s: Seq<char>) -> bool {
    forall|i: int| 0 <= i < s.len() ==> #[trigger] s[i] != '\n'
}

/// The row a line stands for among the trace records, if any.
pub open spec fn trace_row_of_line(l: BoardLine) -> Option<TraceRowView> {
    match l {
        BoardLine::Transition { tick, task, from_step, to_step, reason, ts_ms } => Some(
            TraceRowView {
                tick,
                task,
                from_step,
                to_step,
                reason: reason_text(reason),
                timestamp_ms: ts_ms,
            },
        ),
        _ => None,
    }
}

/// The sample a line stands for among the timing records, if any.
pub open spec fn timing_of_line(l: BoardLine) -> Option<TickTimingSample> {
    match l {
        BoardLine::Timing(s) => Some(s),
        _ => None,
    }
}

proof fn lemma_transition_line(
    tick: u64,
    task: usize,
    from_step: u16,
    to_step: u16,
    reason: TransitionReason,
    ts_ms: u64,
    n: int,
)
    ensures
        ({
            let l = BoardLine::Transition { tick, task, from_step, to_step, reason, ts_ms };
            &&& trace_line(line_text(l), n) == Some(
                Ok::<TraceRowView, TraceParseErrorView>(trace_row_of_line(l)->0),
            )
            &&& timing_line(line_text(l), n) is None
            &&& no_newline(line_text(l))
        }),
{
    let l = BoardLine::Transition { tick, task, from_step, to_step, reason, ts_ms };
    reveal_strlit("TRACE");
    reveal_strlit("TRACE ");
    reveal_strlit("TIMING ");
    reveal_strlit("TIMING");
    lemma_plain_keys();
    lemma_decimal_plain(tick as nat);
    lemma_decimal_plain(task as nat);
    lemma_decimal_plain(from_step as nat);
    lemma_decimal_plain(to_step as nat);
    lemma_decimal_plain(ts_ms as nat);
    let f1 = field("tick"@, decimal(tick as nat));
    let f2 = field("task"@, decimal(task as nat));
    let f3 = field("from"@, decimal(from_step as nat));
    let f4 = field("to"@, decimal(to_step as nat));
    let f5 = field("reason"@, reason_text(reason));
    let f6 = field("ts_ms"@, decimal(ts_ms as nat));
    lemma_field_tame("tick"@, decimal(tick as nat));
    lemma_field_tame("task"@, decimal(task as nat));
    lemma_field_tame("from"@, decimal(from_step as nat));
    lemma_field_tame("to"@, decimal(to_step as nat));
    lemma_field_tame("reason"@, reason_text(reason));
    lemma_field_tame("ts_ms"@, decimal(ts_ms as nat));
    let fs = seq![f1, f2, f3, f4, f5, f6];
    assert forall|j: int| 0 <= j < fs.len() implies (#[trigger] fs[j]).len() > 0 && tame_text(fs[j]) by {
        if j == 0 {} else if j == 1 {} else if j == 2 {} else if j == 3 {} else if j == 4 {} else {}
    }
    let head = "TRACE"@;
    assert(no_ws(head));
    lemma_record_basics(head, fs);
    let t = record(head, fs);
    assert(line_text(l) == t);
    // the record starts with `TRACE `
    assert(t.subrange(0, 6) =~= "TRACE "@);
    lemma_find_at_start(t, "TRACE "@);
    assert(t.subrange(0, t.len() as int) =~= t);
    assert(skip_first(seq![head] + fs) =~= fs);
    lemma_trace_fields(tick, task, from_step, to_step, reason, ts_ms, n, t);
    // it holds no `TIMING `
    let sp = spaced(fs);
    assert forall|i: int| 0 <= i < sp.len() implies #[trigger] sp[i] != 'T' by {
        assert(t[head.len() + i] == sp[i]);
        if sp[i] != ' ' {
            lemma_tame_char(sp[i]);
        }
    }
    assert("TIMING "@.drop_last() =~= "TIMING"@);
    assert(Seq::<char>::empty() + head + sp =~= t);
    lemma_no_match_around(Seq::<char>::empty(), head, sp, "TIMING "@);
    lemma_find_none(t, "TIMING "@);
    assert forall|i: int| 0 <= i < t.len() implies #[trigger] t[i] != '\n' by {
        if i >= head.len() && t[i] != ' ' {
            lemma_tame_char(t[i]);
        }
    }
}

proof fn lemma_timing_line(sample: TickTimingSample, n: int)
    ensures
        ({
            let l = BoardLine::Timing(sample);
            &&& timing_line(line_text(l), n) == Some(
                Ok::<TickTimingSample, BoardTimingParseErrorView>(sample),
            )
            &&& trace_line(line_text(l), n) is None
            &&& no_newline(line_text(l))
        }),
{
    let l = BoardLine::Timing(sample);
    reveal_strlit("TIMING");
    reveal_strlit("TIMING ");
    reveal_strlit("TRACE ");
    reveal_strlit("TRACE");
    lemma_plain_keys();
    lemma_decimal_plain(sample.tick as nat);
    lemma_decimal_plain(sample.ts_start_us as nat);
    lemma_decimal_plain(sample.ts_end_us as nat);
    lemma_decimal_plain(sample.exec_us as nat);
    lemma_decimal_plain(sample.slack_us as nat);
    let f1 = field("tick"@, decimal(sample.tick as nat));
    let f2 = field("ts_start_us"@, decimal(sample.ts_start_us as nat));
    let f3 = field("ts_end_us"@, decimal(sample.ts_end_us as nat));
    let f4 = field("exec_us"@, decimal(sample.exec_us as nat));
    let f5 = field("slack_us"@, decimal(sample.slack_us as nat));
    let f6 = field("overrun"@, bool_text(sample.overrun));
    lemma_field_tame("tick"@, decimal(sample.tick as nat));
    lemma_field_tame("ts_start_us"@, decimal(sample.ts_start_us as nat));
    lemma_field_tame("ts_end_us"@, decimal(sample.ts_end_us as nat));
    lemma_field_tame("exec_us"@, decimal(sample.exec_us as nat));
    lemma_field_tame("slack_us"@, decimal(sample.slack_us as nat));
    lemma_field_tame("overrun"@, bool_text(sample.overrun));
    let fs = seq![f1, f2, f3, f4, f5, f6];
    assert forall|j: int| 0 <= j < fs.len() implies (#[trigger] fs[j]).len() > 0 && tame_text(fs[j]) by {
        if j == 0 {} else if j == 1 {} else if j == 2 {} else if j == 3 {} else if j == 4 {} else {}
    }
    let head = "TIMING"@;
    assert(no_ws(head));
    lemma_record_basics(head, fs);
    let t = record(head, fs);
    assert(line_text(l) == t);
    assert(t.subrange(0, 7) =~= "TIMING "@);
    lemma_find_at_start(t, "TIMING "@);
    assert(t.subrange(0, t.len() as int) =~= t);
    assert(skip_first(seq![head] + fs) =~= fs);
    lemma_timing_fields(sample, n, t);
    let sp = spaced(fs);
    assert forall|i: int| 0 <= i < sp.len() implies #[trigger] sp[i] != 'T' by {
        assert(t[head.len() + i] == sp[i]);
        if sp[i] != ' ' {
            lemma_tame_char(sp[i]);
        }
    }
    assert("TRACE "@.drop_last() =~= "TRACE"@);
    assert forall|k: int| !matches_at(head, k, "TRACE"@) by {
        if matches_at(head, k, "TRACE"@) {
            assert(head.subrange(k, k + 5)[0] == "TRACE"@[0]);
            assert(head.subrange(k, k + 5)[1] == "TRACE"@[1]);
        }
    }
    lemma_find_none(head, "TRACE"@);
    assert(Seq::<char>::empty() + head + sp =~= t);
    lemma_no_match_around(Seq::<char>::empty(), head, sp, "TRACE "@);
    lemma_find_none(t, "TRACE "@);
    assert forall|i: int| 0 <= i < t.len() implies #[trigger] t[i] != '\n' by {
        if i >= head.len() && t[i] != ' ' {
            lemma_tame_char(t[i]);
        }
    }
}

proof fn lemma_tick_line(tick: u64, ts_ms: u64, n: int)
    ensures
        ({
            let l = BoardLine::Tick { tick, ts_ms };
            &&& timing_line(line_text(l), n) is None
            &&& trace_line(line_text(l), n) is None
            &&& no_newline(line_text(l))
        }),
{
    let l = BoardLine::Tick { tick, ts_ms };
    reveal_strlit("TICK");
    reveal_strlit("TIMING ");
    reveal_strlit("TRACE ");
    reveal_strlit("TIMING");
    reveal_strlit("TRACE");
    lemma_plain_keys();
    lemma_decimal_plain(tick as nat);
    lemma_decimal_plain(ts_ms as nat);
    let f1 = field("tick"@, decimal(tick as nat));
    let f2 = field("ts_ms"@, decimal(ts_ms as nat));
    lemma_field_tame("tick"@, decimal(tick as nat));
    lemma_field_tame("ts_ms"@, decimal(ts_ms as nat));
    let fs = seq![f1, f2];
    assert forall|j: int| 0 <= j < fs.len() implies (#[trigger] fs[j]).len() > 0 && tame_text(fs[j]) by {
        if j == 0 {} else {}
    }
    let head = "TICK"@;
    assert(no_ws(head));
    lemma_record_basics(head, fs);
    let t = record(head, fs);
    assert(line_text(l) == t);
    let sp = spaced(fs);
    assert forall|i: int| 0 <= i < sp.len() implies #[trigger] sp[i] != 'T' by {
        assert(t[head.len() + i] == sp[i]);
        if sp[i] != ' ' {
            lemma_tame_char(sp[i]);
        }
    }
    assert(Seq::<char>::empty() + head + sp =~= t);
    assert("TRACE "@.drop_last() =~= "TRACE"@);
    assert("TIMING "@.drop_last() =~= "TIMING"@);
    lemma_no_match_around(Seq::<char>::empty(), head, sp, "TRACE "@);
    lemma_no_match_around(Seq::<char>::empty(), head, sp, "TIMING "@);
    lemma_find_none(t, "TRACE "@);
    lemma_find_none(t, "TIMING "@);
    assert forall|i: int| 0 <= i < t.len() implies #[trigger] t[i] != '\n' by {
        if i >= head.len() && t[i] != ' ' {
            lemma_tame_char(t[i]);
        }
    }
}

proof fn lemma_boot_line(n: int)
    ensures
        timing_line(line_text(BoardLine::Boot), n) is None,
        trace_line(line_text(BoardLine::Boot), n) is None,
        no_newline(line_text(BoardLine::Boot)),
{
    let t = "boot ok"@;
    reveal_strlit("boot ok");
    reveal_strlit("TIMING ");
    reveal_strlit("TRACE ");
    reveal_strlit("TIMING");
    reveal_strlit("TRACE");
    lemma_trim_keeps(t);
    assert("TRACE "@.drop_last() =~= "TRACE"@);
    assert("TIMING "@.drop_last() =~= "TIMING"@);
    assert(t + Seq::<char>::empty() + Seq::<char>::empty() =~= t);
    lemma_no_match_around(t, Seq::<char>::empty(), Seq::<char>::empty(), "TRACE "@);
    lemma_no_match_around(t, Seq::<char>::empty(), Seq::<char>::empty(), "TIMING "@);
    lemma_find_none(t, "TRACE "@);
    lemma_find_none(t, "TIMING "@);
}

/// A message that can stand in a `LOG` record without breaking the log
/// apart: it holds no line break, and neither `TRACE` nor `TIMING`.
pub open spec fn message_fits(m: Seq<char>) -> bool {
    &&& no_newline(m)
    &&& find(m, "TRACE"@) is None
    &&& find(m, "TIMING"@) is None
}

pub open spec fn line_fits(l: BoardLine) -> bool {
    match l {
        BoardLine::Log { message, .. } => message_fits(message),
        _ => true,
    }
}

proof fn lemma_log_line(
    tick: u64,
    task: usize,
    step: u16,
    message_id: u32,
    message: Seq<char>,
    ts_ms: u64,
    n: int,
)
    requires
        message_fits(message),
    ensures
        ({
            let l = BoardLine::Log { tick, task, step, message_id, message, ts_ms };
            &&& timing_line(line_text(l), n) is None
            &&& trace_line(line_text(l), n) is None
            &&& no_newline(line_text(l))
        }),
{
    let l = BoardLine::Log { tick, task, step, message_id, message, ts_ms };
    reveal_strlit("LOG");
    reveal_strlit("TIMING ");
    reveal_strlit("TRACE ");
    reveal_strlit("TIMING");
    reveal_strlit("TRACE");
    lemma_plain_keys();
    lemma_decimal_plain(tick as nat);
    lemma_decimal_plain(task as nat);
    lemma_decimal_plain(step as nat);
    lemma_decimal_plain(message_id as nat);
    lemma_decimal_plain(ts_ms as nat);
    let f1 = field("tick"@, decimal(tick as nat));
    let f2 = field("task"@, decimal(task as nat));
    let f3 = field("step"@, decimal(step as nat));
    let f4 = field("msg_id"@, decimal(message_id as nat));
    let f5 = field("msg"@, message);
    let f6 = field("ts_ms"@, decimal(ts_ms as nat));
    lemma_field_tame("tick"@, decimal(tick as nat));
    lemma_field_tame("task"@, decimal(task as nat));
    lemma_field_tame("step"@, decimal(step as nat));
    lemma_field_tame("msg_id"@, decimal(message_id as nat));
    lemma_field_tame("ts_ms"@, decimal(ts_ms as nat));
    let fs4 = seq![f1, f2, f3, f4];
    assert forall|j: int| 0 <= j < fs4.len() implies (#[trigger] fs4[j]).len() > 0 && tame_text(
        fs4[j],
    ) by {
        if j == 0 {} else if j == 1 {} else if j == 2 {} else {}
    }
    lemma_spaced_chars(fs4);
    let fs5 = fs4.push(f5);
    let fs6 = fs5.push(f6);
    assert(fs6 =~= seq![f1, f2, f3, f4, f5, f6]);
    lemma_spaced_push(fs4, f5);
    lemma_spaced_push(fs5, f6);
    let head = "LOG"@;
    let t = record(head, fs6);
    assert(line_text(l) == t);
    let sp4 = spaced(fs4);
    let a = head + sp4 + seq![' '] + "msg"@ + seq!['='];
    let b = seq![' '] + f6;
    assert(t =~= a + message + b);
    assert forall|i: int| 0 <= i < a.len() implies #[trigger] a[i] != 'T' && a[i] != '\n' by {
        if i < head.len() {
        } else if i < head.len() + sp4.len() {
            assert(a[i] == sp4[i - head.len()]);
            if sp4[i - head.len()] != ' ' {
                lemma_tame_char(sp4[i - head.len()]);
            }
        } else if i == head.len() + sp4.len() {
        } else if i < a.len() - 1 {
            assert(a[i] == "msg"@[i - head.len() - sp4.len() - 1]);
            lemma_tame_char("msg"@[i - head.len() - sp4.len() - 1]);
        }
    }
    assert forall|i: int| 0 <= i < b.len() implies #[trigger] b[i] != 'T' && b[i] != '\n' by {
        if i > 0 {
            assert(b[i] == f6[i - 1]);
            lemma_tame_char(f6[i - 1]);
        }
    }
    assert("TRACE "@.drop_last() =~= "TRACE"@);
    assert("TIMING "@.drop_last() =~= "TIMING"@);
    lemma_no_match_around(a, message, b, "TRACE "@);
    lemma_no_match_around(a, message, b, "TIMING "@);
    // trimming leaves the record as it is
    assert(t[0] == 'L');
    assert(t.last() == f6.last());
    lemma_tame_char(f6.last());
    lemma_trim_keeps(t);
    lemma_find_none(t, "TRACE "@);
    lemma_find_none(t, "TIMING "@);
    assert forall|i: int| 0 <= i < t.len() implies #[trigger] t[i] != '\n' by {
        if i < a.len() {
            assert(t[i] == a[i]);
        } else if i < a.len() + message.len() {
            assert(t[i] == message[i - a.len()]);
        } else {
            assert(t[i] == b[i - a.len() - message.len()]);
        }
    }
}

proof fn lemma_line_reads_back(l: BoardLine, n: int)
    requires
        line_fits(l),
    ensures
        trace_line(line_text(l), n) == match trace_row_of_line(l) {
            Some(r) => Some(Ok::<TraceRowView, TraceParseErrorView>(r)),
            None => None,
        },
        timing_line(line_text(l), n) == match timing_of_line(l) {
            Some(s) => Some(Ok::<TickTimingSample, BoardTimingParseErrorView>(s)),
            None => None,
        },
        no_newline(line_text(l)),
{
    match l {
        BoardLine::Boot => lemma_boot_line(n),
        BoardLine::Tick { tick, ts_ms } => lemma_tick_line(tick, ts_ms, n),
        BoardLine::Transition { tick, task, from_step, to_step, reason, ts_ms } => {
            lemma_transition_line(tick, task, from_step, to_step, reason, ts_ms, n)
        },
        BoardLine::Log { tick, task, step, message_id, message, ts_ms } => {
            lemma_log_line(tick, task, step, message_id, message, ts_ms, n)
        },
        BoardLine::Timing(sample) => lemma_timing_line(sample, n),
    }
}

proof fn lemma_split_acc_word(s: Seq<char>, w: Seq<char>)
    requires
        no_newline(w),
    ensures
        split_acc(s + w, '\n') == (split_acc(s, '\n').0, split_acc(s, '\n').1 + w),
    decreases w.len(),
{
    if w.len() == 0 {
        assert(s + w =~= s);
        assert(split_acc(s, '\n').1 + w =~= split_acc(s, '\n').1);
    } else {
        let w0 = w.drop_last();
        lemma_split_acc_word(s, w0);
        assert((s + w).drop_last() =~= s + w0);
        assert(w[w.len() - 1] != '\n');
        assert((split_acc(s, '\n').1 + w0).push(w.last()) =~= split_acc(s, '\n').1 + w);
    }
}

/// The texts of the lines.
pub open spec fn line_texts(ls: Seq<BoardLine>) -> Seq<Seq<char>> {
    ls.map_values(|l: BoardLine| line_text(l))
}

proof fn lemma_log_lines(ls: Seq<BoardLine>)
    requires
        forall|i: int| 0 <= i < ls.len() ==> no_newline(line_text(#[trigger] ls[i])),
    ensures
        split_acc(log_text(ls), '\n') == (line_texts(ls), Seq::<char>::empty()),
        lines(log_text(ls)) == line_texts(ls),
    decreases ls.len(),
{
    if ls.len() > 0 {
        let l0 = ls.drop_last();
        assert forall|i: int| 0 <= i < l0.len() implies no_newline(line_text(#[trigger] l0[i])) by {
            assert(l0[i] == ls[i]);
        }
        lemma_log_lines(l0);
        let x = log_text(l0);
        let t = line_text(ls.last());
        assert(ls.last() == ls[ls.len() - 1]);
        lemma_split_acc_word(x, t);
        let y = x + t + seq!['\n'];
        assert(y.drop_last() =~= x + t);
        assert(Seq::<char>::empty() + t =~= t);
        assert(line_texts(l0).push(t) =~= line_texts(ls));
    } else {
        assert(line_texts(ls) =~= Seq::<Seq<char>>::empty());
    }
}

/// The rows of the transitions among the lines, in order.
pub open spec fn trace_rows_of(ls: Seq<BoardLine>) -> Seq<TraceRowView>
    decreases ls.len(),
{
    if ls.len() == 0 {
        seq![]
    } else {
        match trace_row_of_line(ls.last()) {
            Some(r) => trace_rows_of(ls.drop_last()).push(r),
            None => trace_rows_of(ls.drop_last()),
        }
    }
}

proof fn lemma_rows_upto(ls: Seq<BoardLine>, n: int)
    requires
        0 <= n <= ls.len(),
        forall|i: int| 0 <= i < ls.len() ==> line_fits(#[trigger] ls[i]),
    ensures
        trace_rows_upto(line_texts(ls), n) == Ok::<Seq<TraceRowView>, TraceParseErrorView>(
            trace_rows_of(ls.subrange(0, n)),
        ),
        timing_rows_upto(line_texts(ls), n) == Ok::<Seq<TickTimingSample>, BoardTimingParseErrorView>(
            timing_rows_of(ls.subrange(0, n)),
        ),
    decreases n,
{
    if n > 0 {
        lemma_rows_upto(ls, n - 1);
        lemma_line_reads_back(ls[n - 1], n);
        assert(line_texts(ls)[n - 1] == line_text(ls[n - 1]));
        assert(ls.subrange(0, n).drop_last() =~= ls.subrange(0, n - 1));
        assert(ls.subrange(0, n).last() == ls[n - 1]);
    } else {
        assert(ls.subrange(0, 0) =~= Seq::<BoardLine>::empty());
    }
}

/// Reading back a log the virtual board wrote, with the board-log parsers,
/// gives exactly the transitions and the timing samples it recorded, in
/// order, as long as no logged message holds a line break, `TRACE` or
/// `TIMING`.
pub proof fn law_board_log_reads_back(ls: Seq<BoardLine>)
    requires
        forall|i: int| 0 <= i < ls.len() ==> line_fits(#[trigger] ls[i]),
    ensures
        spec_parse_trace_text(log_text(ls)) == Ok::<Seq<TraceRowView>, TraceParseErrorView>(
            trace_rows_of(ls),
        ),
        spec_parse_tick_timing_text(log_text(ls)) == Ok::<
            Seq<TickTimingSample>,
            BoardTimingParseErrorView,
        >(timing_rows_of(ls)),
{
    assert forall|i: int| 0 <= i < ls.len() implies no_newline(line_text(#[trigger] ls[i])) by {
        lemma_line_reads_back(ls[i], 0);
    }
    lemma_log_lines(ls);
    lemma_rows_upto(ls, ls.len() as int);
    assert(ls.subrange(0, ls.len() as int) =~= ls);
}

// ---------------------------------------------------------------------------
// A run of the board
// ---------------------------------------------------------------------------

proof fn lemma_log_text_concat(a: Seq<BoardLine>, b: Seq<BoardLine>)
    ensures
        log_text(a + b) == log_text(a) + log_text(b),
    decreases b.len(),
{
    if b.len() == 0 {
        assert(a + b =~= a);
        assert(log_text(a) + log_text(b) =~= log_text(a));
    } else {
        lemma_log_text_concat(a, b.drop_last());
        assert((a + b).drop_last() =~= a + b.drop_last());
        assert((a + b).last() == b.last());
        assert(log_text(a) + log_text(b) =~= log_text(a) + log_text(b.drop_last()) + line_text(
            b.last(),
        ) + seq!['\n']);
    }
}

proof fn lemma_timing_rows_concat(a: Seq<BoardLine>, b: Seq<BoardLine>)
    ensures
        timing_rows_of(a + b) == timing_rows_of(a) + timing_rows_of(b),
    decreases b.len(),
{
    if b.len() == 0 {
        assert(a + b =~= a);
        assert(timing_rows_of(a) + timing_rows_of(b) =~= timing_rows_of(a));
    } else {
        lemma_timing_rows_concat(a, b.drop_last());
        assert((a + b).drop_last() =~= a + b.drop_last());
        assert((a + b).last() == b.last());
        match b.last() {
            BoardLine::Timing(s) => {
                assert(timing_rows_of(a) + timing_rows_of(b) =~= (timing_rows_of(a)
                    + timing_rows_of(b.drop_last())).push(s));
            },
            _ => {},
        }
    }
}

proof fn lemma_event_lines_untimed(events: Seq<TickEvent>, tick_ms: u64)
    ensures
        timing_rows_of(event_lines(events, tick_ms)) == Seq::<TickTimingSample>::empty(),
        forall|i: int|
            0 <= i < event_lines(events, tick_ms).len() ==> !(#[trigger] event_lines(
                events,
                tick_ms,
            )[i] is Timing),
    decreases events.len(),
{
    if events.len() > 0 {
        lemma_event_lines_untimed(events.drop_last(), tick_ms);
        assert(event_lines(events, tick_ms).drop_last() =~= event_lines(events.drop_last(), tick_ms));
    }
}

/// The timing samples of one tick's lines are that tick's sample alone.
proof fn lemma_tick_lines_timing(tick: u64, tick_ms: u64, events: Seq<TickEvent>)
    ensures
        timing_rows_of(tick_lines(tick, tick_ms, events)) == seq![
            spec_tick_timing(tick, tick_ms, transitions_in(events) as int, logs_in(events) as int),
        ],
{
    let head = seq![BoardLine::Tick { tick, ts_ms: sat_mul(tick as int, tick_ms as int) }];
    let mid = event_lines(events, tick_ms);
    let s = spec_tick_timing(tick, tick_ms, transitions_in(events) as int, logs_in(events) as int);
    let tail = seq![BoardLine::Timing(s)];
    lemma_event_lines_untimed(events, tick_ms);
    lemma_timing_rows_concat(head, mid);
    lemma_timing_rows_concat(head + mid, tail);
    assert(head.drop_last() =~= Seq::<BoardLine>::empty());
    assert(tail.drop_last() =~= Seq::<BoardLine>::empty());
    assert(timing_rows_of(Seq::<BoardLine>::empty()) =~= Seq::<TickTimingSample>::empty());
    assert(head.last() is Tick);
    assert(timing_rows_of(head) =~= Seq::<TickTimingSample>::empty());
    assert(timing_rows_of(tail) =~= seq![s]);
}

/// Every logged message of the lines fits in a record.
pub open spec fn all_lines_fit(ls: Seq<BoardLine>) -> bool {
    forall|i: int| 0 <= i < ls.len() ==> line_fits(#[trigger] ls[i])
}

/// A run of the virtual board: the log it has written, starting with
/// `boot ok`, and the timing sample of each tick, in order.
pub struct VirtualBoardRun {
    log: String,
    timing_rows: Vec<TickTimingSample>,
    lines: Ghost<Seq<BoardLine>>,
}

impl View for VirtualBoardRun {
    type V = Seq<BoardLine>;

    /// The lines written so far.
    closed spec fn view(&self) -> Seq<BoardLine> {
        self.lines@
    }
}

impl VirtualBoardRun {
    /// The log is the text of the lines and the samples are those of their
    /// `TIMING` records.
    pub closed spec fn wf(&self) -> bool {
        &&& self.log@ == log_text(self.lines@)
        &&& self.timing_rows@ == timing_rows_of(self.lines@)
    }

    pub fn new() -> (r: Self)
        ensures
            r.wf(),
            r@ == seq![BoardLine::Boot],
    {
        let mut log = String::new();
        push_str(&mut log, "boot ok");
        push_char(&mut log, '\n');
        let ghost boot = seq![BoardLine::Boot];
        let lines: Ghost<Seq<BoardLine>> = Ghost(boot);
        let r = VirtualBoardRun { log, timing_rows: Vec::new(), lines };
        assert(boot.drop_last() =~= Seq::<BoardLine>::empty());
        assert(log_text(Seq::<BoardLine>::empty()) =~= Seq::<char>::empty());
        assert(timing_rows_of(Seq::<BoardLine>::empty()) =~= Seq::<TickTimingSample>::empty());
        assert(boot.last() is Boot);
        assert(r.log@ =~= log_text(seq![BoardLine::Boot]));
        assert(r.timing_rows@ =~= timing_rows_of(seq![BoardLine::Boot]));
        r
    }

    /// Writes one tick: its `TICK` record, a record for each event in the
    /// order the runtime reported them, and its `TIMING` record; returns
    /// the tick's timing sample, which is also kept.
    pub fn record_tick(&mut self, tick: u64, tick_ms: u64, events: &[TickEvent]) -> (sample:
        TickTimingSample)
        requires
            old(self).wf(),
        ensures
            final(self).wf(),
            final(self)@ == old(self)@ + tick_lines(tick, tick_ms, events@),
            sample == spec_tick_timing(
                tick,
                tick_ms,
                transitions_in(events@) as int,
                logs_in(events@) as int,
            ),
    {
        let (text, sample) = virtual_board_tick(tick, tick_ms, events);
        push_str(&mut self.log, text.as_str());
        self.timing_rows.push(sample);
        let ghost added = tick_lines(tick, tick_ms, events@);
        proof {
            lemma_log_text_concat(self.lines@, added);
            lemma_timing_rows_concat(self.lines@, added);
            lemma_tick_lines_timing(tick, tick_ms, events@);
        }
        let ghost grown = self.lines@ + added;
        let lines: Ghost<Seq<BoardLine>> = Ghost(grown);
        self.lines = lines;
        assert(self.timing_rows@ =~= timing_rows_of(self.lines@));
        sample
    }

    /// The log written so far.
    pub fn log(&self) -> (r: &str)
        requires
            self.wf(),
        ensures
            r@ == log_text(self@),
    {
        self.log.as_str()
    }

    /// The timing sample of each tick so far.
    pub fn timing_rows(&self) -> (r: &[TickTimingSample])
        requires
            self.wf(),
        ensures
            r@ == timing_rows_of(self@),
    {
        self.timing_rows.as_slice()
    }

    /// The transitions of the run, read back from its log; when every logged
    /// message fits in a record they are exactly the transitions recorded.
    pub fn trace_rows(&self) -> (r: Result<Vec<TraceRow>, TraceParseError>)
        requires
            self.wf(),
        ensures
            match r {
                Ok(rows) => spec_parse_trace_text(log_text(self@)) == Ok::<
                    Seq<TraceRowView>,
                    TraceParseErrorView,
                >(rows_view(rows@)),
                Err(e) => spec_parse_trace_text(log_text(self@)) == Err::<
                    Seq<TraceRowView>,
                    TraceParseErrorView,
                >(e@),
            },
            all_lines_fit(self@) ==> (r matches Ok(rows) && rows_view(rows@) == trace_rows_of(self@)),
    {
        let r = parse_trace_text(self.log.as_str());
        proof {
            if all_lines_fit(self@) {
                law_board_log_reads_back(self@);
            }
        }
        r
    }
}

} // verus!
