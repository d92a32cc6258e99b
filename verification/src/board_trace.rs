//! Parsing of the `TRACE` records that a board prints into its text log.
use vstd::prelude::*;
use crate::text::{
    chars_of, eq_chars, find, find_exec, lines, lines_of, owned, parse_unsigned, parse_unsigned_exec,
    split_once, split_once_exec, split_ws, split_ws_of, string_of, sub_chars, trim, trim_chars,
};

verus! {

/// One state transition reported by the board.
#[derive(Debug, Clone, PartialEq, Eq)]
pub struct TraceRow {
    pub tick: u64,
    pub task: usize,
    pub from_step: u16,
    pub to_step: u16,
    pub reason: String,
    pub timestamp_ms: u64,
}

pub struct TraceRowView {
    pub tick: u64,
    pub task: usize,
    pub from_step: u16,
    pub to_step: u16,
    pub reason: Seq<char>,
    pub timestamp_ms: u64,
}

impl View for TraceRow {
    type V = TraceRowView;

    open spec fn view(&self) -> TraceRowView {
        TraceRowView {
            tick: self.tick,
            task: self.task,
            from_step: self.from_step,
            to_step: self.to_step,
            reason: self.reason@,
            timestamp_ms: self.timestamp_ms,
        }
    }
}

/// Why a log could not be read as trace records; `line` counts from 1.
#[derive(Debug)]
pub enum TraceParseError {
    NotTrace { line: usize, text: String },
    InvalidField { line: usize, field: String, token: String },
    MissingField { line: usize, field: String },
}

pub enum TraceParseErrorView {
    NotTrace { line: int, text: Seq<char> },
    InvalidField { line: int, field: Seq<char>, token: Seq<char> },
    MissingField { line: int, field: Seq<char> },
}

impl View for TraceParseError {
    type V = TraceParseErrorView;

    open spec fn view(&self) -> TraceParseErrorView {
        match self {
            TraceParseError::NotTrace { line, text } => TraceParseErrorView::NotTrace {
                line: *line as int,
                text: text@,
            },
            TraceParseError::InvalidField { line, field, token } =>
                TraceParseErrorView::InvalidField { line: *line as int, field: field@, token: token@ },
            TraceParseError::MissingField { line, field } => TraceParseErrorView::MissingField {
                line: *line as int,
                field: field@,
            },
        }
    }
}

/// The fields of one record seen so far (a later `key=value` replaces an
/// earlier one with the same key).
pub struct TraceFields {
    pub tick: Option<u64>,
    pub task: Option<usize>,
    pub from_step: Option<u16>,
    pub to_step: Option<u16>,
    pub reason: Option<Seq<char>>,
    pub ts_ms: Option<u64>,
}

pub open spec fn no_trace_fields() -> TraceFields {
    TraceFields {
        tick: None,
        task: None,
        from_step: None,
        to_step: None,
        reason: None,
        ts_ms: None,
    }
}

/// The effect of one `key=value` token of a record whose text is `text`.
pub open spec fn trace_token_step(
    f: TraceFields,
    tok: Seq<char>,
    line: int,
    text: Seq<char>,
) -> Result<TraceFields, TraceParseErrorView> {
    match split_once(tok, '=') {
        None => Err(TraceParseErrorView::NotTrace { line, text }),
        Some((k, v)) => {
            let bad = |name: Seq<char>|
                TraceParseErrorView::InvalidField { line, field: name, token: tok };
            if k == "tick"@ {
                match parse_unsigned(v, u64::MAX as nat) {
                    Some(n) => Ok(TraceFields { tick: Some(n as u64), ..f }),
                    None => Err(bad("tick"@)),
                }
            } else if k == "task"@ {
                match parse_unsigned(v, usize::MAX as nat) {
                    Some(n) => Ok(TraceFields { task: Some(n as usize), ..f }),
                    None => Err(bad("task"@)),
                }
            } else if k == "from"@ {
                match parse_unsigned(v, u16::MAX as nat) {
                    Some(n) => Ok(TraceFields { from_step: Some(n as u16), ..f }),
                    None => Err(bad("from"@)),
                }
            } else if k == "to"@ {
                match parse_unsigned(v, u16::MAX as nat) {
                    Some(n) => Ok(TraceFields { to_step: Some(n as u16), ..f }),
                    None => Err(bad("to"@)),
                }
            } else if k == "reason"@ {
                Ok(TraceFields { reason: Some(v), ..f })
            } else if k == "ts_ms"@ {
                match parse_unsigned(v, u64::MAX as nat) {
                    Some(n) => Ok(TraceFields { ts_ms: Some(n as u64), ..f }),
                    None => Err(bad("ts_ms"@)),
                }
            } else {
                Ok(f)
            }
        },
    }
}

/// The tokens of a record taken in order; the first error stops the scan.
pub open spec fn trace_tokens(toks: Seq<Seq<char>>, line: int, text: Seq<char>) -> Result<
    TraceFields,
    TraceParseErrorView,
>
    decreases toks.len(),
{
    if toks.len() == 0 {
        Ok(no_trace_fields())
    } else {
        match trace_tokens(toks.drop_last(), line, text) {
            Err(e) => Err(e),
            Ok(f) => trace_token_step(f, toks.last(), line, text),
        }
    }
}

/// Once a prefix of the tokens fails, the whole record fails the same way.
pub proof fn lemma_trace_tokens_err_prefix(toks: Seq<Seq<char>>, n: int, line: int, text: Seq<char>)
    requires
        0 <= n <= toks.len(),
    ensures
        trace_tokens(toks.subrange(0, n), line, text) is Err ==> trace_tokens(toks, line, text)
            == trace_tokens(toks.subrange(0, n), line, text),
    decreases toks.len(),
{
    if n == toks.len() {
        assert(toks.subrange(0, n) =~= toks);
    } else {
        assert(toks.drop_last().subrange(0, n) =~= toks.subrange(0, n));
        lemma_trace_tokens_err_prefix(toks.drop_last(), n, line, text);
    }
}

/// The row that complete fields make; the first missing field, in the order
/// tick, task, from, to, reason, ts_ms, is the error otherwise.
pub open spec fn trace_row_of(f: TraceFields, line: int) -> Result<TraceRowView, TraceParseErrorView> {
    let missing = |name: Seq<char>| TraceParseErrorView::MissingField { line, field: name };
    if f.tick is None {
        Err(missing("tick"@))
    } else if f.task is None {
        Err(missing("task"@))
    } else if f.from_step is None {
        Err(missing("from"@))
    } else if f.to_step is None {
        Err(missing("to"@))
    } else if f.reason is None {
        Err(missing("reason"@))
    } else if f.ts_ms is None {
        Err(missing("ts_ms"@))
    } else {
        Ok(
            TraceRowView {
                tick: f.tick->0,
                task: f.task->0,
                from_step: f.from_step->0,
                to_step: f.to_step->0,
                reason: f.reason->0,
                timestamp_ms: f.ts_ms->0,
            },
        )
    }
}

/// The words after the first one (`Iterator::skip(1)`).
pub open spec fn skip_first<A>(s: Seq<A>) -> Seq<A> {
    if s.len() > 0 {
        s.drop_first()
    } else {
        s
    }
}

/// What one log line contributes: nothing when, trimmed, it is empty or holds
/// no `"TRACE "`; otherwise the record that starts at the first `"TRACE "`.
pub open spec fn trace_line(raw: Seq<char>, line: int) -> Option<
    Result<TraceRowView, TraceParseErrorView>,
> {
    let t = trim(raw);
    if t.len() == 0 {
        None
    } else {
        match find(t, "TRACE "@) {
            None => None,
            Some(start) => {
                let rec = t.subrange(start, t.len() as int);
                match trace_tokens(skip_first(split_ws(rec)), line, rec) {
                    Err(e) => Some(Err(e)),
                    Ok(f) => Some(trace_row_of(f, line)),
                }
            },
        }
    }
}

/// The rows of the first `n` lines, or the first error among them.
pub open spec fn trace_rows_upto(ls: Seq<Seq<char>>, n: int) -> Result<
    Seq<TraceRowView>,
    TraceParseErrorView,
>
    decreases n,
{
    if n <= 0 {
        Ok(seq![])
    } else {
        match trace_rows_upto(ls, n - 1) {
            Err(e) => Err(e),
            Ok(rows) => match trace_line(ls[n - 1], n) {
                None => Ok(rows),
                Some(Ok(r)) => Ok(rows.push(r)),
                Some(Err(e)) => Err(e),
            },
        }
    }
}

/// Once the first `m` lines fail, every longer prefix fails the same way.
pub proof fn lemma_trace_rows_err(ls: Seq<Seq<char>>, m: int, n: int)
    requires
        0 <= m <= n,
    ensures
        trace_rows_upto(ls, m) is Err ==> trace_rows_upto(ls, n) == trace_rows_upto(ls, m),
    decreases n,
{
    if n > m {
        lemma_trace_rows_err(ls, m, n - 1);
    }
}

/// The trace records of a whole log.
pub open spec fn spec_parse_trace_text(input: Seq<char>) -> Result<
    Seq<TraceRowView>,
    TraceParseErrorView,
> {
    trace_rows_upto(lines(input), lines(input).len() as int)
}

pub open spec fn rows_view(rows: Seq<TraceRow>) -> Seq<TraceRowView> {
    rows.map_values(|r: TraceRow| r@)
}

pub open spec fn fields_view(
    tick: Option<u64>,
    task: Option<usize>,
    from_step: Option<u16>,
    to_step: Option<u16>,
    reason: Option<Vec<char>>,
    ts_ms: Option<u64>,
) -> TraceFields {
    TraceFields {
        tick,
        task,
        from_step,
        to_step,
        reason: match reason {
            Some(r) => Some(r@),
            None => None,
        },
        ts_ms,
    }
}

fn parse_u64(line: usize, field: &str, token: &[char], v: &[char]) -> (r: Result<
    u64,
    TraceParseError,
>)
    ensures
        match r {
            Ok(n) => parse_unsigned(v@, u64::MAX as nat) == Some(n as nat),
            Err(e) => parse_unsigned(v@, u64::MAX as nat) is None && e@
                == (TraceParseErrorView::InvalidField {
                line: line as int,
                field: field@,
                token: token@,
            }),
        },
{
    match parse_unsigned_exec(v, u64::MAX) {
        Some(n) => Ok(n),
        None => Err(
            TraceParseError::InvalidField {
                line,
                field: owned(field),
                token: string_of(token),
            },
        ),
    }
}

fn parse_u16(line: usize, field: &str, token: &[char], v: &[char]) -> (r: Result<
    u16,
    TraceParseError,
>)
    ensures
        match r {
            Ok(n) => parse_unsigned(v@, u16::MAX as nat) == Some(n as nat),
            Err(e) => parse_unsigned(v@, u16::MAX as nat) is None && e@
                == (TraceParseErrorView::InvalidField {
                line: line as int,
                field: field@,
                token: token@,
            }),
        },
{
    match parse_unsigned_exec(v, 0xFFFF) {
        Some(n) => Ok(n as u16),
        None => Err(
            TraceParseError::InvalidField {
                line,
                field: owned(field),
                token: string_of(token),
            },
        ),
    }
}

fn parse_usize(line: usize, field: &str, token: &[char], v: &[char]) -> (r: Result<
    usize,
    TraceParseError,
>)
    ensures
        match r {
            Ok(n) => parse_unsigned(v@, usize::MAX as nat) == Some(n as nat),
            Err(e) => parse_unsigned(v@, usize::MAX as nat) is None && e@
                == (TraceParseErrorView::InvalidField {
                line: line as int,
                field: field@,
                token: token@,
            }),
        },
{
    match parse_unsigned_exec(v, usize::MAX as u64) {
        Some(n) => Ok(n as usize),
        None => Err(
            TraceParseError::InvalidField {
                line,
                field: owned(field),
                token: string_of(token),
            },
        ),
    }
}

fn missing_field(line: usize, field: &str) -> (e: TraceParseError)
    ensures
        e@ == (TraceParseErrorView::MissingField { line: line as int, field: field@ }),
{
    TraceParseError::MissingField { line, field: owned(field) }
}

/// One log line: `None` when it holds no record.
fn parse_trace_line(raw: &[char], line: usize) -> (r: Option<Result<TraceRow, TraceParseError>>)
    ensures
        match r {
            None => trace_line(raw@, line as int) is None,
            Some(Ok(row)) => trace_line(raw@, line as int) == Some(
                Ok::<TraceRowView, TraceParseErrorView>(row@),
            ),
            Some(Err(e)) => trace_line(raw@, line as int) == Some(
                Err::<TraceRowView, TraceParseErrorView>(e@),
            ),
        },
{
    let t = trim_chars(raw);
    if t.len() == 0 {
        return None;
    }
    let marker = chars_of("TRACE ");
    let start = match find_exec(t.as_slice(), marker.as_slice()) {
        None => return None,
        Some(s) => s,
    };
    let rec = sub_chars(t.as_slice(), start, t.len());
    let words = split_ws_of(rec.as_slice());
    let ghost toks = skip_first(split_ws(rec@));
    let k_tick = chars_of("tick");
    let k_task = chars_of("task");
    let k_from = chars_of("from");
    let k_to = chars_of("to");
    let k_reason = chars_of("reason");
    let k_ts = chars_of("ts_ms");
    let mut tick: Option<u64> = None;
    let mut task: Option<usize> = None;
    let mut from_step: Option<u16> = None;
    let mut to_step: Option<u16> = None;
    let mut reason: Option<Vec<char>> = None;
    let mut ts_ms: Option<u64> = None;
    let ghost words_v = words@.map_values(|x: Vec<char>| x@);
    let j0: usize = if words.len() > 0 {
        1
    } else {
        0
    };
    let mut j: usize = j0;
    assert(toks =~= words_v.subrange(j0 as int, words_v.len() as int));
    assert(words_v.subrange(j0 as int, j as int) =~= Seq::<Seq<char>>::empty());
    while j < words.len()
        invariant
            words_v == words@.map_values(|x: Vec<char>| x@),
            words_v == split_ws(rec@),
            toks == words_v.subrange(j0 as int, words_v.len() as int),
            toks == skip_first(words_v),
            j0 <= j <= words@.len(),
            t@ == trim(raw@),
            start <= t@.len(),
            rec@ == trim(raw@).subrange(start as int, trim(raw@).len() as int),
            find(trim(raw@), "TRACE "@) == Some(start as int),
            trim(raw@).len() > 0,
            k_tick@ == "tick"@,
            k_task@ == "task"@,
            k_from@ == "from"@,
            k_to@ == "to"@,
            k_reason@ == "reason"@,
            k_ts@ == "ts_ms"@,
            trace_tokens(words_v.subrange(j0 as int, j as int), line as int, rec@) == Ok::<
                TraceFields,
                TraceParseErrorView,
            >(fields_view(tick, task, from_step, to_step, reason, ts_ms)),
        decreases words@.len() - j,
    {
        let tok = &words[j];
        let ghost prefix = words_v.subrange(j0 as int, j + 1);
        assert(prefix.drop_last() =~= words_v.subrange(j0 as int, j as int));
        assert(prefix.last() == tok@);
        proof {
            assert(prefix =~= toks.subrange(0, j + 1 - j0));
            lemma_trace_tokens_err_prefix(toks, j + 1 - j0, line as int, rec@);
        }
        let (k, v) = match split_once_exec(tok.as_slice(), '=') {
            None => {
                let e = TraceParseError::NotTrace { line, text: string_of(rec.as_slice()) };
                assert(trace_tokens(prefix, line as int, rec@) == Err::<
                    TraceFields,
                    TraceParseErrorView,
                >(e@));
                return Some(Err(e));
            },
            Some(p) => p,
        };
        if eq_chars(k.as_slice(), k_tick.as_slice()) {
            match parse_u64(line, "tick", tok.as_slice(), v.as_slice()) {
                Ok(n) => tick = Some(n),
                Err(e) => return Some(Err(e)),
            }
        } else if eq_chars(k.as_slice(), k_task.as_slice()) {
            match parse_usize(line, "task", tok.as_slice(), v.as_slice()) {
                Ok(n) => task = Some(n),
                Err(e) => return Some(Err(e)),
            }
        } else if eq_chars(k.as_slice(), k_from.as_slice()) {
            match parse_u16(line, "from", tok.as_slice(), v.as_slice()) {
                Ok(n) => from_step = Some(n),
                Err(e) => return Some(Err(e)),
            }
        } else if eq_chars(k.as_slice(), k_to.as_slice()) {
            match parse_u16(line, "to", tok.as_slice(), v.as_slice()) {
                Ok(n) => to_step = Some(n),
                Err(e) => return Some(Err(e)),
            }
        } else if eq_chars(k.as_slice(), k_reason.as_slice()) {
            reason = Some(v);
        } else if eq_chars(k.as_slice(), k_ts.as_slice()) {
            match parse_u64(line, "ts_ms", tok.as_slice(), v.as_slice()) {
                Ok(n) => ts_ms = Some(n),
                Err(e) => return Some(Err(e)),
            }
        }
        j += 1;
    }
    assert(words_v.subrange(j0 as int, j as int) =~= toks);
    let tick = match tick {
        Some(x) => x,
        None => return Some(Err(missing_field(line, "tick"))),
    };
    let task = match task {
        Some(x) => x,
        None => return Some(Err(missing_field(line, "task"))),
    };
    let from_step = match from_step {
        Some(x) => x,
        None => return Some(Err(missing_field(line, "from"))),
    };
    let to_step = match to_step {
        Some(x) => x,
        None => return Some(Err(missing_field(line, "to"))),
    };
    let reason = match reason {
        Some(x) => x,
        None => return Some(Err(missing_field(line, "reason"))),
    };
    let timestamp_ms = match ts_ms {
        Some(x) => x,
        None => return Some(Err(missing_field(line, "ts_ms"))),
    };
    Some(
        Ok(
            TraceRow {
                tick,
                task,
                from_step,
                to_step,
                reason: string_of(reason.as_slice()),
                timestamp_ms,
            },
        ),
    )
}

/// Parse board text logs into structured trace events.
///
/// A record is `TRACE tick=<u64> task=<usize> from=<u16> to=<u16>
/// reason=<str> ts_ms=<u64>` with the fields in any order; it may follow a
/// log prefix on its line, and lines without one are skipped.
pub fn parse_trace_text(input: &str) -> (r: Result<Vec<TraceRow>, TraceParseError>)
    ensures
        match r {
            Ok(rows) => spec_parse_trace_text(input@) == Ok::<
                Seq<TraceRowView>,
                TraceParseErrorView,
            >(rows_view(rows@)),
            Err(e) => spec_parse_trace_text(input@) == Err::<Seq<TraceRowView>, TraceParseErrorView>(
                e@,
            ),
        },
{
    let v = chars_of(input);
    let ls = lines_of(v.as_slice());
    let ghost lv = ls@.map_values(|x: Vec<char>| x@);
    let mut out: Vec<TraceRow> = Vec::new();
    let mut i: usize = 0;
    assert(rows_view(out@) =~= Seq::<TraceRowView>::empty());
    while i < ls.len()
        invariant
            lv == ls@.map_values(|x: Vec<char>| x@),
            lv == lines(input@),
            i <= ls@.len(),
            trace_rows_upto(lv, i as int) == Ok::<Seq<TraceRowView>, TraceParseErrorView>(
                rows_view(out@),
            ),
        decreases ls@.len() - i,
    {
        assert(lv[i as int] == ls[i as int]@);
        let ghost before = out@;
        match parse_trace_line(ls[i].as_slice(), i + 1) {
            None => {
                assert(trace_rows_upto(lv, i + 1) == trace_rows_upto(lv, i as int));
            },
            Some(Ok(row)) => {
                out.push(row);
                assert(rows_view(out@) =~= rows_view(before).push(row@));
                assert(trace_rows_upto(lv, i + 1) == Ok::<Seq<TraceRowView>, TraceParseErrorView>(
                    rows_view(before).push(row@),
                ));
            },
            Some(Err(e)) => {
                proof {
                    lemma_trace_rows_err(lv, i + 1, lv.len() as int);
                }
                return Err(e);
            },
        }
        i += 1;
    }
    Ok(out)
}


// ---------------------------------------------------------------------------
// Field order within a record
// ---------------------------------------------------------------------------

/// Whether a token is accepted whatever came before it: it has a `=`, and
/// the value of a numeric field parses.
pub open spec fn trace_token_ok(tok: Seq<char>) -> bool {
    match split_once(tok, '=') {
        None => false,
        Some((k, v)) => {
            &&& k == "tick"@ ==> parse_unsigned(v, u64::MAX as nat) is Some
            &&& k == "task"@ ==> parse_unsigned(v, usize::MAX as nat) is Some
            &&& k == "from"@ ==> parse_unsigned(v, u16::MAX as nat) is Some
            &&& k == "to"@ ==> parse_unsigned(v, u16::MAX as nat) is Some
            &&& k == "ts_ms"@ ==> parse_unsigned(v, u64::MAX as nat) is Some
        },
    }
}

/// The value of the last token with key `k`.
pub open spec fn last_value(toks: Seq<Seq<char>>, k: Seq<char>) -> Option<Seq<char>>
    decreases toks.len(),
{
    if toks.len() == 0 {
        None
    } else {
        match split_once(toks.last(), '=') {
            Some((k2, v)) => if k2 == k {
                Some(v)
            } else {
                last_value(toks.drop_last(), k)
            },
            None => last_value(toks.drop_last(), k),
        }
    }
}

pub open spec fn parsed_value(v: Option<Seq<char>>, max: nat) -> Option<nat> {
    match v {
        Some(t) => parse_unsigned(t, max),
        None => None,
    }
}

/// The fields that the tokens set: for each key, the value of its last token.
pub open spec fn fields_from(toks: Seq<Seq<char>>) -> TraceFields {
    TraceFields {
        tick: match parsed_value(last_value(toks, "tick"@), u64::MAX as nat) {
            Some(n) => Some(n as u64),
            None => None,
        },
        task: match parsed_value(last_value(toks, "task"@), usize::MAX as nat) {
            Some(n) => Some(n as usize),
            None => None,
        },
        from_step: match parsed_value(last_value(toks, "from"@), u16::MAX as nat) {
            Some(n) => Some(n as u16),
            None => None,
        },
        to_step: match parsed_value(last_value(toks, "to"@), u16::MAX as nat) {
            Some(n) => Some(n as u16),
            None => None,
        },
        reason: last_value(toks, "reason"@),
        ts_ms: match parsed_value(last_value(toks, "ts_ms"@), u64::MAX as nat) {
            Some(n) => Some(n as u64),
            None => None,
        },
    }
}

/// No two tokens share a key.
pub open spec fn keys_distinct(toks: Seq<Seq<char>>) -> bool {
    forall|i: int, j: int|
        0 <= i < j < toks.len() && #[trigger] split_once(toks[i], '=') is Some && #[trigger] split_once(
            toks[j],
            '=',
        ) is Some ==> split_once(toks[i], '=').unwrap().0 != split_once(toks[j], '=').unwrap().0
}

proof fn lemma_token_step(f: TraceFields, tok: Seq<char>, line: int, text: Seq<char>, d: Seq<Seq<char>>)
    requires
        f == fields_from(d),
    ensures
        (trace_token_step(f, tok, line, text) is Ok) == trace_token_ok(tok),
        trace_token_step(f, tok, line, text) is Ok ==> trace_token_step(f, tok, line, text)->Ok_0
            == fields_from(d.push(tok)),
{
    reveal_strlit("tick");
    reveal_strlit("task");
    reveal_strlit("from");
    reveal_strlit("to");
    reveal_strlit("reason");
    reveal_strlit("ts_ms");
    assert("tick"@.len() == 4 && "task"@.len() == 4 && "from"@.len() == 4);
    assert("to"@.len() == 2 && "reason"@.len() == 6 && "ts_ms"@.len() == 5);
    assert("tick"@[1] == 'i' && "task"@[1] == 'a' && "from"@[1] == 'r');
    assert("tick"@ != "task"@ && "tick"@ != "from"@ && "task"@ != "from"@);
    let t = d.push(tok);
    assert(t.drop_last() =~= d);
    assert(t.last() == tok);
    match split_once(tok, '=') {
        None => {},
        Some((k, v)) => {
            assert(last_value(t, k) == Some(v));
            assert forall|k2: Seq<char>| k2 != k implies #[trigger] last_value(t, k2) == last_value(d, k2) by {}
        },
    }
}

proof fn lemma_tokens_ok(toks: Seq<Seq<char>>, line: int, text: Seq<char>)
    ensures
        (trace_tokens(toks, line, text) is Ok) == (forall|i: int| 0 <= i < toks.len() ==> #[trigger] trace_token_ok(toks[i])),
        trace_tokens(toks, line, text) is Ok ==> trace_tokens(toks, line, text)->Ok_0 == fields_from(toks),
    decreases toks.len(),
{
    if toks.len() > 0 {
        let d = toks.drop_last();
        lemma_tokens_ok(d, line, text);
        assert(d.push(toks.last()) =~= toks);
        if trace_tokens(d, line, text) is Ok {
            lemma_token_step(trace_tokens(d, line, text)->Ok_0, toks.last(), line, text, d);
        }
        if (forall|i: int| 0 <= i < toks.len() ==> #[trigger] trace_token_ok(toks[i])) {
            assert forall|i: int| 0 <= i < d.len() implies #[trigger] trace_token_ok(d[i]) by {
                assert(trace_token_ok(toks[i]));
            }
            assert(trace_token_ok(toks[toks.len() - 1]));
        } else {
            let i = choose|i: int| 0 <= i < toks.len() && !#[trigger] trace_token_ok(toks[i]);
            if i < d.len() {
                assert(!trace_token_ok(d[i]));
            }
        }
    } else {
        assert(fields_from(toks) == no_trace_fields());
    }
}

proof fn lemma_last_value_distinct(toks: Seq<Seq<char>>, k: Seq<char>, v: Seq<char>)
    requires
        keys_distinct(toks),
    ensures
        (last_value(toks, k) == Some(v)) == (exists|i: int| 0 <= i < toks.len() && #[trigger] split_once(toks[i], '=') == Some((k, v))),
    decreases toks.len(),
{
    if toks.len() > 0 {
        let d = toks.drop_last();
        assert forall|i: int, j: int|
            0 <= i < j < d.len() && #[trigger] split_once(d[i], '=') is Some && #[trigger] split_once(d[j], '=') is Some
            implies split_once(d[i], '=').unwrap().0 != split_once(d[j], '=').unwrap().0 by {
            assert(d[i] == toks[i] && d[j] == toks[j]);
        }
        lemma_last_value_distinct(d, k, v);
        let n = toks.len() - 1;
        if exists|i: int| 0 <= i < toks.len() && #[trigger] split_once(toks[i], '=') == Some((k, v)) {
            let i = choose|i: int| 0 <= i < toks.len() && #[trigger] split_once(toks[i], '=') == Some((k, v));
            if i < n {
                assert(d[i] == toks[i]);
                if split_once(toks[n], '=') is Some {
                    assert(split_once(toks[i], '=').unwrap().0 != split_once(toks[n], '=').unwrap().0);
                }
            }
        }
        if exists|i: int| 0 <= i < d.len() && #[trigger] split_once(d[i], '=') == Some((k, v)) {
            let i = choose|i: int| 0 <= i < d.len() && #[trigger] split_once(d[i], '=') == Some((k, v));
            assert(toks[i] == d[i]);
            if split_once(toks[n], '=') is Some {
                assert(split_once(toks[i], '=').unwrap().0 != split_once(toks[n], '=').unwrap().0);
            }
        }
    }
}

proof fn lemma_last_value_perm(a: Seq<Seq<char>>, b: Seq<Seq<char>>, k: Seq<char>)
    requires
        a.to_multiset() == b.to_multiset(),
        keys_distinct(a),
        keys_distinct(b),
    ensures
        last_value(a, k) == last_value(b, k),
{
    a.to_multiset_ensures();
    b.to_multiset_ensures();
    if last_value(a, k) is Some {
        let v = last_value(a, k)->0;
        lemma_last_value_distinct(a, k, v);
        let i = choose|i: int| 0 <= i < a.len() && #[trigger] split_once(a[i], '=') == Some((k, v));
        assert(a.contains(a[i]));
        assert(a.to_multiset().count(a[i]) > 0);
        assert(b.to_multiset().count(a[i]) > 0);
        assert(b.contains(a[i]));
        let j = choose|j: int| 0 <= j < b.len() && b[j] == a[i];
        assert(split_once(b[j], '=') == Some((k, v)));
        lemma_last_value_distinct(b, k, v);
    } else if last_value(b, k) is Some {
        let v = last_value(b, k)->0;
        lemma_last_value_distinct(b, k, v);
        let j = choose|j: int| 0 <= j < b.len() && #[trigger] split_once(b[j], '=') == Some((k, v));
        assert(b.contains(b[j]));
        assert(b.to_multiset().count(b[j]) > 0);
        assert(a.to_multiset().count(b[j]) > 0);
        assert(a.contains(b[j]));
        let i = choose|i: int| 0 <= i < a.len() && a[i] == b[j];
        assert(split_once(a[i], '=') == Some((k, v)));
        lemma_last_value_distinct(a, k, v);
    }
}

/// The fields of a record do not depend on the order of its tokens: when two
/// records hold the same tokens, no key twice, and the first one's tokens
/// are all accepted, the second one's are too and give the same fields.
pub proof fn law_trace_tokens_any_order(
    a: Seq<Seq<char>>,
    b: Seq<Seq<char>>,
    line: int,
    text_a: Seq<char>,
    text_b: Seq<char>,
)
    requires
        a.to_multiset() == b.to_multiset(),
        keys_distinct(a),
        keys_distinct(b),
        trace_tokens(a, line, text_a) is Ok,
    ensures
        trace_tokens(b, line, text_b) == trace_tokens(a, line, text_a),
{
    lemma_tokens_ok(a, line, text_a);
    lemma_tokens_ok(b, line, text_b);
    a.to_multiset_ensures();
    b.to_multiset_ensures();
    assert forall|j: int| 0 <= j < b.len() implies #[trigger] trace_token_ok(b[j]) by {
        assert(b.contains(b[j]));
        assert(b.to_multiset().count(b[j]) > 0);
        assert(a.to_multiset().count(b[j]) > 0);
        assert(a.contains(b[j]));
        let i = choose|i: int| 0 <= i < a.len() && a[i] == b[j];
        assert(trace_token_ok(a[i]));
    }
    lemma_last_value_perm(a, b, "tick"@);
    lemma_last_value_perm(a, b, "task"@);
    lemma_last_value_perm(a, b, "from"@);
    lemma_last_value_perm(a, b, "to"@);
    lemma_last_value_perm(a, b, "reason"@);
    lemma_last_value_perm(a, b, "ts_ms"@);
}

/// The tokens after `TRACE` of a log line that holds a record.
pub open spec fn record_tokens(raw: Seq<char>) -> Seq<Seq<char>> {
    let t = trim(raw);
    let start = find(t, "TRACE "@)->0;
    skip_first(split_ws(t.subrange(start, t.len() as int)))
}

/// Line `b` is line `a` with the `key=value` tokens of its record reordered
/// (and each record names every key at most once).
pub open spec fn reordered_record(a: Seq<char>, b: Seq<char>) -> bool {
    &&& find(trim(a), "TRACE "@) is Some
    &&& find(trim(b), "TRACE "@) is Some
    &&& record_tokens(a).to_multiset() == record_tokens(b).to_multiset()
    &&& keys_distinct(record_tokens(a))
    &&& keys_distinct(record_tokens(b))
}

proof fn lemma_reordered_line(a: Seq<char>, b: Seq<char>, line: int)
    requires
        reordered_record(a, b),
        !(trace_line(a, line) matches Some(Err(_))),
    ensures
        trace_line(b, line) == trace_line(a, line),
{
    let ta = trim(a);
    let tb = trim(b);
    let sa = find(ta, "TRACE "@)->0;
    let sb = find(tb, "TRACE "@)->0;
    lemma_find_nonempty(ta);
    lemma_find_nonempty(tb);
    let ra = ta.subrange(sa, ta.len() as int);
    let rb = tb.subrange(sb, tb.len() as int);
    law_trace_tokens_any_order(record_tokens(a), record_tokens(b), line, ra, rb);
}

proof fn lemma_find_nonempty(t: Seq<char>)
    requires
        find(t, "TRACE "@) is Some,
    ensures
        t.len() > 0,
{
    crate::text::lemma_find_from(t, "TRACE "@, 0);
    reveal_strlit("TRACE ");
}

/// Field order within a `TRACE` record does not matter: a log whose records
/// have their `key=value` tokens reordered (no key twice in a record) reads
/// as the same rows, wherever the first log reads without error.
pub proof fn law_trace_field_order_irrelevant(input_a: Seq<char>, input_b: Seq<char>)
    requires
        lines(input_b).len() == lines(input_a).len(),
        forall|i: int|
            0 <= i < lines(input_a).len() ==> #[trigger] lines(input_b)[i] == lines(input_a)[i]
                || reordered_record(lines(input_a)[i], lines(input_b)[i]),
        spec_parse_trace_text(input_a) is Ok,
    ensures
        spec_parse_trace_text(input_b) == spec_parse_trace_text(input_a),
{
    let la = lines(input_a);
    let lb = lines(input_b);
    lemma_rows_same(la, lb, la.len() as int);
}

proof fn lemma_rows_same(la: Seq<Seq<char>>, lb: Seq<Seq<char>>, n: int)
    requires
        0 <= n <= la.len() == lb.len(),
        forall|i: int| 0 <= i < la.len() ==> #[trigger] lb[i] == la[i] || reordered_record(la[i], lb[i]),
        trace_rows_upto(la, n) is Ok,
    ensures
        trace_rows_upto(lb, n) == trace_rows_upto(la, n),
    decreases n,
{
    if n > 0 {
        lemma_rows_same(la, lb, n - 1);
        if lb[n - 1] != la[n - 1] {
            assert(reordered_record(la[n - 1], lb[n - 1]));
            lemma_reordered_line(la[n - 1], lb[n - 1], n);
        }
    }
}

} // verus!
