//! Parsing of the `TIMING` records (one per scan tick) that a board prints
//! into its text log.
use vstd::prelude::*;
use crate::board_trace::skip_first;
use crate::text::{
    chars_of, eq_chars, find, find_exec, lines, lines_of, owned, parse_unsigned, parse_unsigned_exec,
    split_once, split_once_exec, split_ws, split_ws_of, string_of, sub_chars, trim, trim_chars,
};

verus! {

/// The timing of one scan tick as measured on the board.
#[derive(Debug, Clone, Copy, PartialEq, Eq)]
pub struct TickTimingSample {
    pub tick: u64,
    pub ts_start_us: u64,
    pub ts_end_us: u64,
    pub exec_us: u64,
    pub slack_us: u64,
    pub overrun: bool,
}

/// Why a log could not be read as timing records; `line` counts from 1.
#[derive(Debug)]
pub enum BoardTimingParseError {
    NotTiming { line: usize, text: String },
    InvalidField { line: usize, field: String, token: String },
    MissingField { line: usize, field: String },
}

pub enum BoardTimingParseErrorView {
    NotTiming { line: int, text: Seq<char> },
    InvalidField { line: int, field: Seq<char>, token: Seq<char> },
    MissingField { line: int, field: Seq<char> },
}

impl View for BoardTimingParseError {
    type V = BoardTimingParseErrorView;

    open spec fn view(&self) -> BoardTimingParseErrorView {
        match self {
            BoardTimingParseError::NotTiming { line, text } => BoardTimingParseErrorView::NotTiming {
                line: *line as int,
                text: text@,
            },
            BoardTimingParseError::InvalidField { line, field, token } =>
                BoardTimingParseErrorView::InvalidField {
                line: *line as int,
                field: field@,
                token: token@,
            },
            BoardTimingParseError::MissingField { line, field } =>
                BoardTimingParseErrorView::MissingField { line: *line as int, field: field@ },
        }
    }
}

/// `<bool as FromStr>::from_str`.
pub open spec fn parse_bool(v: Seq<char>) -> Option<bool> {
    if v == "true"@ {
        Some(true)
    } else if v == "false"@ {
        Some(false)
    } else {
        None
    }
}

/// The fields of one record seen so far (a later `key=value` replaces an
/// earlier one with the same key).
pub struct TimingFields {
    pub tick: Option<u64>,
    pub ts_start_us: Option<u64>,
    pub ts_end_us: Option<u64>,
    pub exec_us: Option<u64>,
    pub slack_us: Option<u64>,
    pub overrun: Option<bool>,
}

pub open spec fn no_timing_fields() -> TimingFields {
    TimingFields {
        tick: None,
        ts_start_us: None,
        ts_end_us: None,
        exec_us: None,
        slack_us: None,
        overrun: None,
    }
}

pub open spec fn u64_field(v: Seq<char>) -> Option<u64> {
    match parse_unsigned(v, u64::MAX as nat) {
        Some(n) => Some(n as u64),
        None => None,
    }
}

/// The effect of one `key=value` token of a record whose text is `text`.
pub open spec fn timing_token_step(
    f: TimingFields,
    tok: Seq<char>,
    line: int,
    text: Seq<char>,
) -> Result<TimingFields, BoardTimingParseErrorView> {
    match split_once(tok, '=') {
        None => Err(BoardTimingParseErrorView::NotTiming { line, text }),
        Some((k, v)) => {
            let bad = |name: Seq<char>|
                BoardTimingParseErrorView::InvalidField { line, field: name, token: tok };
            if k == "tick"@ {
                match u64_field(v) {
                    Some(n) => Ok(TimingFields { tick: Some(n), ..f }),
                    None => Err(bad("tick"@)),
                }
            } else if k == "ts_start_us"@ {
                match u64_field(v) {
                    Some(n) => Ok(TimingFields { ts_start_us: Some(n), ..f }),
                    None => Err(bad("ts_start_us"@)),
                }
            } else if k == "ts_end_us"@ {
                match u64_field(v) {
                    Some(n) => Ok(TimingFields { ts_end_us: Some(n), ..f }),
                    None => Err(bad("ts_end_us"@)),
                }
            } else if k == "exec_us"@ {
                match u64_field(v) {
                    Some(n) => Ok(TimingFields { exec_us: Some(n), ..f }),
                    None => Err(bad("exec_us"@)),
                }
            } else if k == "slack_us"@ {
                match u64_field(v) {
                    Some(n) => Ok(TimingFields { slack_us: Some(n), ..f }),
                    None => Err(bad("slack_us"@)),
                }
            } else if k == "overrun"@ {
                match parse_bool(v) {
                    Some(b) => Ok(TimingFields { overrun: Some(b), ..f }),
                    None => Err(bad("overrun"@)),
                }
            } else {
                Ok(f)
            }
        },
    }
}

/// The tokens of a record taken in order; the first error stops the scan.
pub open spec fn timing_tokens(toks: Seq<Seq<char>>, line: int, text: Seq<char>) -> Result<
    TimingFields,
    BoardTimingParseErrorView,
>
    decreases toks.len(),
{
    if toks.len() == 0 {
        Ok(no_timing_fields())
    } else {
        match timing_tokens(toks.drop_last(), line, text) {
            Err(e) => Err(e),
            Ok(f) => timing_token_step(f, toks.last(), line, text),
        }
    }
}

/// Once a prefix of the tokens fails, the whole record fails the same way.
pub proof fn lemma_timing_tokens_err_prefix(toks: Seq<Seq<char>>, n: int, line: int, text: Seq<char>)
    requires
        0 <= n <= toks.len(),
    ensures
        timing_tokens(toks.subrange(0, n), line, text) is Err ==> timing_tokens(toks, line, text)
            == timing_tokens(toks.subrange(0, n), line, text),
    decreases toks.len(),
{
    if n == toks.len() {
        assert(toks.subrange(0, n) =~= toks);
    } else {
        assert(toks.drop_last().subrange(0, n) =~= toks.subrange(0, n));
        lemma_timing_tokens_err_prefix(toks.drop_last(), n, line, text);
    }
}

/// The sample that complete fields make; the first missing field, in the
/// order tick, ts_start_us, ts_end_us, exec_us, slack_us, overrun, is the
/// error otherwise.
pub open spec fn timing_sample_of(f: TimingFields, line: int) -> Result<
    TickTimingSample,
    BoardTimingParseErrorView,
> {
    let missing = |name: Seq<char>| BoardTimingParseErrorView::MissingField { line, field: name };
    if f.tick is None {
        Err(missing("tick"@))
    } else if f.ts_start_us is None {
        Err(missing("ts_start_us"@))
    } else if f.ts_end_us is None {
        Err(missing("ts_end_us"@))
    } else if f.exec_us is None {
        Err(missing("exec_us"@))
    } else if f.slack_us is None {
        Err(missing("slack_us"@))
    } else if f.overrun is None {
        Err(missing("overrun"@))
    } else {
        Ok(
            TickTimingSample {
                tick: f.tick->0,
                ts_start_us: f.ts_start_us->0,
                ts_end_us: f.ts_end_us->0,
                exec_us: f.exec_us->0,
                slack_us: f.slack_us->0,
                overrun: f.overrun->0,
            },
        )
    }
}

/// What one log line contributes: nothing when, trimmed, it is empty or holds
/// no `"TIMING "`; otherwise the record that starts at the first `"TIMING "`.
pub open spec fn timing_line(raw: Seq<char>, line: int) -> Option<
    Result<TickTimingSample, BoardTimingParseErrorView>,
> {
    let t = trim(raw);
    if t.len() == 0 {
        None
    } else {
        match find(t, "TIMING "@) {
            None => None,
            Some(start) => {
                let rec = t.subrange(start, t.len() as int);
                match timing_tokens(skip_first(split_ws(rec)), line, rec) {
                    Err(e) => Some(Err(e)),
                    Ok(f) => Some(timing_sample_of(f, line)),
                }
            },
        }
    }
}

/// The samples of the first `n` lines, or the first error among them.
pub open spec fn timing_rows_upto(ls: Seq<Seq<char>>, n: int) -> Result<
    Seq<TickTimingSample>,
    BoardTimingParseErrorView,
>
    decreases n,
{
    if n <= 0 {
        Ok(seq![])
    } else {
        match timing_rows_upto(ls, n - 1) {
            Err(e) => Err(e),
            Ok(rows) => match timing_line(ls[n - 1], n) {
                None => Ok(rows),
                Some(Ok(r)) => Ok(rows.push(r)),
                Some(Err(e)) => Err(e),
            },
        }
    }
}

/// Once the first `m` lines fail, every longer prefix fails the same way.
pub proof fn lemma_timing_rows_err(ls: Seq<Seq<char>>, m: int, n: int)
    requires
        0 <= m <= n,
    ensures
        timing_rows_upto(ls, m) is Err ==> timing_rows_upto(ls, n) == timing_rows_upto(ls, m),
    decreases n,
{
    if n > m {
        lemma_timing_rows_err(ls, m, n - 1);
    }
}

/// The timing records of a whole log.
pub open spec fn spec_parse_tick_timing_text(input: Seq<char>) -> Result<
    Seq<TickTimingSample>,
    BoardTimingParseErrorView,
> {
    timing_rows_upto(lines(input), lines(input).len() as int)
}

pub open spec fn timing_fields_view(
    tick: Option<u64>,
    ts_start_us: Option<u64>,
    ts_end_us: Option<u64>,
    exec_us: Option<u64>,
    slack_us: Option<u64>,
    overrun: Option<bool>,
) -> TimingFields {
    TimingFields { tick, ts_start_us, ts_end_us, exec_us, slack_us, overrun }
}

fn parse_u64_field(line: usize, field: &str, token: &[char], v: &[char]) -> (r: Result<
    u64,
    BoardTimingParseError,
>)
    ensures
        match r {
            Ok(n) => u64_field(v@) == Some(n),
            Err(e) => u64_field(v@) is None && e@ == (BoardTimingParseErrorView::InvalidField {
                line: line as int,
                field: field@,
                token: token@,
            }),
        },
{
    match parse_unsigned_exec(v, u64::MAX) {
        Some(n) => Ok(n),
        None => Err(
            BoardTimingParseError::InvalidField {
                line,
                field: owned(field),
                token: string_of(token),
            },
        ),
    }
}

fn parse_bool_field(line: usize, token: &[char], v: &[char]) -> (r: Result<
    bool,
    BoardTimingParseError,
>)
    ensures
        match r {
            Ok(b) => parse_bool(v@) == Some(b),
            Err(e) => parse_bool(v@) is None && e@ == (BoardTimingParseErrorView::InvalidField {
                line: line as int,
                field: "overrun"@,
                token: token@,
            }),
        },
{
    let t = chars_of("true");
    let f = chars_of("false");
    if eq_chars(v, t.as_slice()) {
        Ok(true)
    } else if eq_chars(v, f.as_slice()) {
        Ok(false)
    } else {
        Err(
            BoardTimingParseError::InvalidField {
                line,
                field: owned("overrun"),
                token: string_of(token),
            },
        )
    }
}

fn missing_field(line: usize, field: &str) -> (e: BoardTimingParseError)
    ensures
        e@ == (BoardTimingParseErrorView::MissingField { line: line as int, field: field@ }),
{
    BoardTimingParseError::MissingField { line, field: owned(field) }
}

/// One log line: `None` when it holds no record.
fn parse_timing_line(raw: &[char], line: usize) -> (r: Option<
    Result<TickTimingSample, BoardTimingParseError>,
>)
    ensures
        match r {
            None => timing_line(raw@, line as int) is None,
            Some(Ok(row)) => timing_line(raw@, line as int) == Some(
                Ok::<TickTimingSample, BoardTimingParseErrorView>(row),
            ),
            Some(Err(e)) => timing_line(raw@, line as int) == Some(
                Err::<TickTimingSample, BoardTimingParseErrorView>(e@),
            ),
        },
{
    let t = trim_chars(raw);
    if t.len() == 0 {
        return None;
    }
    let marker = chars_of("TIMING ");
    let start = match find_exec(t.as_slice(), marker.as_slice()) {
        None => return None,
        Some(s) => s,
    };
    let rec = sub_chars(t.as_slice(), start, t.len());
    let words = split_ws_of(rec.as_slice());
    let ghost toks = skip_first(split_ws(rec@));
    let k_tick = chars_of("tick");
    let k_start = chars_of("ts_start_us");
    let k_end = chars_of("ts_end_us");
    let k_exec = chars_of("exec_us");
    let k_slack = chars_of("slack_us");
    let k_overrun = chars_of("overrun");
    let mut tick: Option<u64> = None;
    let mut ts_start_us: Option<u64> = None;
    let mut ts_end_us: Option<u64> = None;
    let mut exec_us: Option<u64> = None;
    let mut slack_us: Option<u64> = None;
    let mut overrun: Option<bool> = None;
    let ghost words_v = words@.map_values(|x: Vec<char>| x@);
    let j0: usize = if words.len() > 0 {
        1
    } else {
        0
    };
    let mut j: usize = j0;
    assert(toks =~= words_v.subrange(j0 as int, words_v.len() as int));
    assert(words_v.subrange(j0 as int, j as int) =~= Seq::<Seq<char>>::empty());
    while j < words.len()
        invariant
            words_v == words@.map_values(|x: Vec<char>| x@),
            words_v == split_ws(rec@),
            toks == words_v.subrange(j0 as int, words_v.len() as int),
            toks == skip_first(words_v),
            j0 <= j <= words@.len(),
            t@ == trim(raw@),
            start <= t@.len(),
            rec@ == trim(raw@).subrange(start as int, trim(raw@).len() as int),
            find(trim(raw@), "TIMING "@) == Some(start as int),
            trim(raw@).len() > 0,
            k_tick@ == "tick"@,
            k_start@ == "ts_start_us"@,
            k_end@ == "ts_end_us"@,
            k_exec@ == "exec_us"@,
            k_slack@ == "slack_us"@,
            k_overrun@ == "overrun"@,
            timing_tokens(words_v.subrange(j0 as int, j as int), line as int, rec@) == Ok::<
                TimingFields,
                BoardTimingParseErrorView,
            >(timing_fields_view(tick, ts_start_us, ts_end_us, exec_us, slack_us, overrun)),
        decreases words@.len() - j,
    {
        let tok = &words[j];
        let ghost prefix = words_v.subrange(j0 as int, j + 1);
        assert(prefix.drop_last() =~= words_v.subrange(j0 as int, j as int));
        assert(prefix.last() == tok@);
        proof {
            assert(prefix =~= toks.subrange(0, j + 1 - j0));
            lemma_timing_tokens_err_prefix(toks, j + 1 - j0, line as int, rec@);
        }
        let (k, v) = match split_once_exec(tok.as_slice(), '=') {
            None => {
                let e = BoardTimingParseError::NotTiming { line, text: string_of(rec.as_slice()) };
                assert(timing_tokens(prefix, line as int, rec@) == Err::<
                    TimingFields,
                    BoardTimingParseErrorView,
                >(e@));
                return Some(Err(e));
            },
            Some(p) => p,
        };
        if eq_chars(k.as_slice(), k_tick.as_slice()) {
            match parse_u64_field(line, "tick", tok.as_slice(), v.as_slice()) {
                Ok(n) => tick = Some(n),
                Err(e) => return Some(Err(e)),
            }
        } else if eq_chars(k.as_slice(), k_start.as_slice()) {
            match parse_u64_field(line, "ts_start_us", tok.as_slice(), v.as_slice()) {
                Ok(n) => ts_start_us = Some(n),
                Err(e) => return Some(Err(e)),
            }
        } else if eq_chars(k.as_slice(), k_end.as_slice()) {
            match parse_u64_field(line, "ts_end_us", tok.as_slice(), v.as_slice()) {
                Ok(n) => ts_end_us = Some(n),
                Err(e) => return Some(Err(e)),
            }
        } else if eq_chars(k.as_slice(), k_exec.as_slice()) {
            match parse_u64_field(line, "exec_us", tok.as_slice(), v.as_slice()) {
                Ok(n) => exec_us = Some(n),
                Err(e) => return Some(Err(e)),
            }
        } else if eq_chars(k.as_slice(), k_slack.as_slice()) {
            match parse_u64_field(line, "slack_us", tok.as_slice(), v.as_slice()) {
                Ok(n) => slack_us = Some(n),
                Err(e) => return Some(Err(e)),
            }
        } else if eq_chars(k.as_slice(), k_overrun.as_slice()) {
            match parse_bool_field(line, tok.as_slice(), v.as_slice()) {
                Ok(b) => overrun = Some(b),
                Err(e) => return Some(Err(e)),
            }
        }
        j += 1;
    }
    assert(words_v.subrange(j0 as int, j as int) =~= toks);
    let tick = match tick {
        Some(x) => x,
        None => return Some(Err(missing_field(line, "tick"))),
    };
    let ts_start_us = match ts_start_us {
        Some(x) => x,
        None => return Some(Err(missing_field(line, "ts_start_us"))),
    };
    let ts_end_us = match ts_end_us {
        Some(x) => x,
        None => return Some(Err(missing_field(line, "ts_end_us"))),
    };
    let exec_us = match exec_us {
        Some(x) => x,
        None => return Some(Err(missing_field(line, "exec_us"))),
    };
    let slack_us = match slack_us {
        Some(x) => x,
        None => return Some(Err(missing_field(line, "slack_us"))),
    };
    let overrun = match overrun {
        Some(x) => x,
        None => return Some(Err(missing_field(line, "overrun"))),
    };
    Some(Ok(TickTimingSample { tick, ts_start_us, ts_end_us, exec_us, slack_us, overrun }))
}

/// Parse the `TIMING tick=<u64> ts_start_us=<u64> ts_end_us=<u64>
/// exec_us=<u64> slack_us=<u64> overrun=<bool>` records of a board log
/// (fields in any order, an optional log prefix before `TIMING`); other
/// lines are skipped.
pub fn parse_tick_timing_text(input: &str) -> (r: Result<
    Vec<TickTimingSample>,
    BoardTimingParseError,
>)
    ensures
        match r {
            Ok(rows) => spec_parse_tick_timing_text(input@) == Ok::<
                Seq<TickTimingSample>,
                BoardTimingParseErrorView,
            >(rows@),
            Err(e) => spec_parse_tick_timing_text(input@) == Err::<
                Seq<TickTimingSample>,
                BoardTimingParseErrorView,
            >(e@),
        },
{
    let v = chars_of(input);
    let ls = lines_of(v.as_slice());
    let ghost lv = ls@.map_values(|x: Vec<char>| x@);
    let mut out: Vec<TickTimingSample> = Vec::new();
    let mut i: usize = 0;
    assert(out@ =~= Seq::<TickTimingSample>::empty());
    while i < ls.len()
        invariant
            lv == ls@.map_values(|x: Vec<char>| x@),
            lv == lines(input@),
            i <= ls@.len(),
            timing_rows_upto(lv, i as int) == Ok::<
                Seq<TickTimingSample>,
                BoardTimingParseErrorView,
            >(out@),
        decreases ls@.len() - i,
    {
        assert(lv[i as int] == ls[i as int]@);
        let ghost before = out@;
        match parse_timing_line(ls[i].as_slice(), i + 1) {
            None => {
                assert(timing_rows_upto(lv, i + 1) == timing_rows_upto(lv, i as int));
            },
            Some(Ok(row)) => {
                out.push(row);
                assert(timing_rows_upto(lv, i + 1) == Ok::<
                    Seq<TickTimingSample>,
                    BoardTimingParseErrorView,
                >(before.push(row)));
            },
            Some(Err(e)) => {
                proof {
                    lemma_timing_rows_err(lv, i + 1, lv.len() as int);
                }
                return Err(e);
            },
        }
        i += 1;
    }
    Ok(out)
}

} // verus!
