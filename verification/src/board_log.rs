//! The single entry point for reading a board text log that interleaves
//! `TRACE` and `TIMING` records.
use vstd::prelude::*;
use crate::board_trace::{
    parse_trace_text, rows_view, spec_parse_trace_text, TraceParseError, TraceParseErrorView,
    TraceRow, TraceRowView,
};
use crate::tick_timing::{
    parse_tick_timing_text, spec_parse_tick_timing_text, BoardTimingParseError,
    BoardTimingParseErrorView, TickTimingSample,
};

verus! {

#[derive(Debug, Clone, PartialEq, Eq)]
pub struct BoardLogParseOutput {
    pub trace_rows: Vec<TraceRow>,
    pub timing_rows: Vec<TickTimingSample>,
}

#[derive(Debug)]
pub enum BoardLogParseError {
    Trace(TraceParseError),
    Timing(BoardTimingParseError),
}

/// Parse a board text log that may contain interleaved `TRACE ...` and
/// `TIMING ...` records: the trace records, then the timing records; a
/// failure of the trace records is reported before one of the timing records.
pub fn parse_board_log_text(input: &str) -> (r: Result<BoardLogParseOutput, BoardLogParseError>)
    ensures
        match r {
            Ok(out) => spec_parse_trace_text(input@) == Ok::<
                Seq<TraceRowView>,
                TraceParseErrorView,
            >(rows_view(out.trace_rows@)) && spec_parse_tick_timing_text(input@) == Ok::<
                Seq<TickTimingSample>,
                BoardTimingParseErrorView,
            >(out.timing_rows@),
            Err(BoardLogParseError::Trace(e)) => spec_parse_trace_text(input@) == Err::<
                Seq<TraceRowView>,
                TraceParseErrorView,
            >(e@),
            Err(BoardLogParseError::Timing(e)) => spec_parse_trace_text(input@) is Ok
                && spec_parse_tick_timing_text(input@) == Err::<
                Seq<TickTimingSample>,
                BoardTimingParseErrorView,
            >(e@),
        },
{
    let trace_rows = match parse_trace_text(input) {
        Ok(rows) => rows,
        Err(e) => return Err(BoardLogParseError::Trace(e)),
    };
    let timing_rows = match parse_tick_timing_text(input) {
        Ok(rows) => rows,
        Err(e) => return Err(BoardLogParseError::Timing(e)),
    };
    Ok(BoardLogParseOutput { trace_rows, timing_rows })
}

} // verus!
