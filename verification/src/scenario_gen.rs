//! Scenario generation: the parameter space of generated scenarios, its
//! validation, and the order in which combinations are tried.
use vstd::prelude::*;
use vstd::relations::{sorted_by, total_ordering};
use crate::io_usage::{insert_sorted_unique, sorted_ids, strictly_increasing, law_ascending_list_is_sorted_ids};
use crate::text::{
    ascii_lower, ascii_lower_exec, chars_of, contains, contains_exec, decimal, ends_with,
    ends_with_exec, eq_chars, format_u64, format_usize, owned, push_chars, push_str, starts_with,
    starts_with_exec, string_of, trim, trim_chars,
};

verus! {

/// The parameters of `scenario-gen`, as read from its config file.
#[derive(Debug, Clone)]
pub struct ScenarioGenConfig {
    pub seed_base: Option<u64>,
    pub tick_ms: u64,
    pub duration_ms: Vec<u64>,
    pub start_pulse_ms: Vec<u64>,
    pub sensor_window_ms: Vec<u64>,
    pub inject_sensor_stuck: Vec<bool>,
    pub max_cases: usize,
}

pub fn scenario_gen_default_tick_ms() -> (r: u64)
    ensures
        r == 10,
{
    10
}

/// Where the scenario template library is read from by default, relative
/// to the working directory.
pub fn scenario_gen_default_template_library_path() -> (r: &'static str)
    ensures
        r@ == "scenarios/templates/metadata.json"@,
{
    "scenarios/templates/metadata.json"
}

pub fn scenario_gen_default_max_cases() -> (r: usize)
    ensures
        r == 16,
{
    16
}

/// The first position at or after `i` whose value is 0 or below `floor`.
pub open spec fn first_below_from(s: Seq<u64>, floor: u64, i: int) -> Option<int>
    decreases s.len() - i,
{
    if i < 0 || i >= s.len() {
        None
    } else if s[i] == 0 || s[i] < floor {
        Some(i)
    } else {
        first_below_from(s, floor, i + 1)
    }
}

pub open spec fn first_below(s: Seq<u64>, floor: u64) -> Option<int> {
    first_below_from(s, floor, 0)
}

pub proof fn lemma_first_below(s: Seq<u64>, floor: u64, j: int)
    requires
        0 <= j,
    ensures
        first_below_from(s, floor, j) matches Some(i) ==> j <= i < s.len() && (s[i] == 0 || s[i]
            < floor),
        first_below_from(s, floor, j) is None ==> forall|k: int|
            j <= k < s.len() ==> s[k] != 0 && s[k] >= floor,
    decreases s.len() - j,
{
    if j < s.len() && !(s[j] == 0 || s[j] < floor) {
        lemma_first_below(s, floor, j + 1);
    }
}

fn first_below_exec(v: &Vec<u64>, floor: u64) -> (r: Option<usize>)
    ensures
        match r {
            Some(i) => first_below(v@, floor) == Some(i as int),
            None => first_below(v@, floor) is None,
        },
{
    let mut i: usize = 0;
    while i < v.len()
        invariant
            i <= v@.len(),
            first_below(v@, floor) == first_below_from(v@, floor, i as int),
        decreases v@.len() - i,
    {
        if v[i] == 0 || v[i] < floor {
            return Some(i);
        }
        i += 1;
    }
    None
}

/// `<name>[<index>] must be > 0`.
pub open spec fn not_positive_message(name: Seq<char>, i: int) -> Seq<char> {
    name + "["@ + decimal(i as nat) + "] must be > 0"@
}

/// What `ScenarioGenConfig::validate` reports: the first failing check among
/// tick_ms > 0, max_cases > 0, every duration > 0 and >= tick_ms, every
/// start pulse > 0, every sensor window > 0.
pub open spec fn spec_validate_config(c: ScenarioGenConfig) -> Result<(), Seq<char>> {
    if c.tick_ms == 0 {
        Err("tick_ms must be > 0"@)
    } else if c.max_cases == 0 {
        Err("max_cases must be > 0"@)
    } else if first_below(c.duration_ms@, c.tick_ms) is Some {
        let i = first_below(c.duration_ms@, c.tick_ms)->0;
        let d = c.duration_ms@[i];
        if d == 0 {
            Err(not_positive_message("duration_ms"@, i))
        } else {
            Err(
                "duration_ms["@ + decimal(i as nat) + "] ("@ + decimal(d as nat)
                    + ") must be >= tick_ms ("@ + decimal(c.tick_ms as nat) + ")"@,
            )
        }
    } else if first_below(c.start_pulse_ms@, 0) is Some {
        Err(not_positive_message("start_pulse_ms"@, first_below(c.start_pulse_ms@, 0)->0))
    } else if first_below(c.sensor_window_ms@, 0) is Some {
        Err(not_positive_message("sensor_window_ms"@, first_below(c.sensor_window_ms@, 0)->0))
    } else {
        Ok(())
    }
}

fn not_positive(name: &str, i: usize) -> (r: String)
    ensures
        r@ == not_positive_message(name@, i as int),
{
    let mut out = owned(name);
    push_str(&mut out, "[");
    let n = format_usize(i);
    push_str(&mut out, n.as_str());
    push_str(&mut out, "] must be > 0");
    out
}

/// The smallest value of `s`, or `d` when it is empty.
pub open spec fn seq_min_or(s: Seq<u64>, d: u64) -> u64
    decreases s.len(),
{
    if s.len() == 0 {
        d
    } else if s.len() == 1 {
        s[0]
    } else {
        let m = seq_min_or(s.drop_last(), d);
        if s.last() < m {
            s.last()
        } else {
            m
        }
    }
}

/// The largest value of `s`, or `d` when it is empty.
pub open spec fn seq_max_or(s: Seq<u64>, d: u64) -> u64
    decreases s.len(),
{
    if s.len() == 0 {
        d
    } else if s.len() == 1 {
        s[0]
    } else {
        let m = seq_max_or(s.drop_last(), d);
        if s.last() > m {
            s.last()
        } else {
            m
        }
    }
}

/// `s` without the later copies of a value, first occurrences in order.
pub open spec fn dedup<T>(s: Seq<T>) -> Seq<T>
    decreases s.len(),
{
    if s.len() == 0 {
        seq![]
    } else {
        let d = dedup(s.drop_last());
        if d.contains(s.last()) {
            d
        } else {
            d.push(s.last())
        }
    }
}

/// The values, or the defaults when there are none.
pub open spec fn or_default<T>(values: Seq<T>, default: Seq<T>) -> Seq<T> {
    if values.len() == 0 {
        default
    } else {
        values
    }
}

pub fn dedup_u64_preserve_order_with_default(values: &[u64], default: &[u64]) -> (r: Vec<u64>)
    ensures
        r@ == dedup(or_default(values@, default@)),
{
    let src: &[u64] = if values.len() == 0 {
        default
    } else {
        values
    };
    let mut out: Vec<u64> = Vec::new();
    let mut i: usize = 0;
    while i < src.len()
        invariant
            i <= src@.len(),
            src@ == or_default(values@, default@),
            out@ == dedup(src@.subrange(0, i as int)),
        decreases src@.len() - i,
    {
        let x = src[i];
        let mut seen = false;
        let mut k: usize = 0;
        while k < out.len()
            invariant
                k <= out@.len(),
                seen == (exists|m: int| 0 <= m < k && out@[m] == x),
            decreases out@.len() - k,
        {
            if out[k] == x {
                seen = true;
            }
            k += 1;
        }
        assert(src@.subrange(0, i + 1).drop_last() =~= src@.subrange(0, i as int));
        if !seen {
            out.push(x);
        } else {
            proof {
                let m = choose|m: int| 0 <= m < out@.len() && out@[m] == x;
                assert(out@.contains(x));
            }
        }
        i += 1;
    }
    assert(src@.subrange(0, src@.len() as int) =~= src@);
    out
}

pub fn dedup_bool_preserve_order_with_default(values: &[bool], default: &[bool]) -> (r: Vec<bool>)
    ensures
        r@ == dedup(or_default(values@, default@)),
{
    let src: &[bool] = if values.len() == 0 {
        default
    } else {
        values
    };
    let mut out: Vec<bool> = Vec::new();
    let mut i: usize = 0;
    while i < src.len()
        invariant
            i <= src@.len(),
            src@ == or_default(values@, default@),
            out@ == dedup(src@.subrange(0, i as int)),
        decreases src@.len() - i,
    {
        let x = src[i];
        let mut seen = false;
        let mut k: usize = 0;
        while k < out.len()
            invariant
                k <= out@.len(),
                seen == (exists|m: int| 0 <= m < k && out@[m] == x),
            decreases out@.len() - k,
        {
            if out[k] == x {
                seen = true;
            }
            k += 1;
        }
        assert(src@.subrange(0, i + 1).drop_last() =~= src@.subrange(0, i as int));
        if !seen {
            out.push(x);
        } else {
            proof {
                let m = choose|m: int| 0 <= m < out@.len() && out@[m] == x;
                assert(out@.contains(x));
            }
        }
        i += 1;
    }
    assert(src@.subrange(0, src@.len() as int) =~= src@);
    out
}

/// Deduplication keeps exactly the values of its input, each once.
pub proof fn law_dedup_keeps_each_value_once<T>(s: Seq<T>)
    ensures
        forall|x: T| dedup(s).contains(x) <==> s.contains(x),
        forall|i: int, j: int|
            0 <= i < j < dedup(s).len() ==> dedup(s)[i] != dedup(s)[j],
    decreases s.len(),
{
    if s.len() > 0 {
        law_dedup_keeps_each_value_once(s.drop_last());
        let d = dedup(s.drop_last());
        let y = s.last();
        assert(dedup(s).contains(y)) by {
            if !d.contains(y) {
                assert(d.push(y)[d.len() as int] == y);
            }
        }
        assert forall|x: T| dedup(s).contains(x) <==> s.contains(x) by {
            if s.contains(x) {
                let k = choose|k: int| 0 <= k < s.len() && s[k] == x;
                if k < s.len() - 1 {
                    assert(s.drop_last()[k] == x);
                    assert(s.drop_last().contains(x));
                    let m = choose|m: int| 0 <= m < d.len() && d[m] == x;
                    if !d.contains(y) {
                        assert(d.push(y)[m] == x);
                    }
                }
            }
            if dedup(s).contains(x) {
                if d.contains(x) {
                    assert(s.drop_last().contains(x));
                    let k = choose|k: int| 0 <= k < s.drop_last().len() && s.drop_last()[k] == x;
                    assert(s[k] == x);
                } else {
                    let m = choose|m: int| 0 <= m < dedup(s).len() && dedup(s)[m] == x;
                    assert(m == d.len());
                    assert(s[s.len() - 1] == x);
                }
            }
        }
        if !d.contains(s.last()) {
            assert forall|i: int, j: int|
                0 <= i < j < dedup(s).len() implies dedup(s)[i] != dedup(s)[j] by {
                if j == d.len() {
                    assert(d[i] == dedup(s)[i]);
                }
            }
        }
    }
}

/// Deduplicating twice changes nothing.
pub proof fn law_dedup_idempotent<T>(s: Seq<T>)
    ensures
        dedup(dedup(s)) == dedup(s),
{
    law_dedup_keeps_each_value_once(s);
    lemma_dedup_of_distinct(dedup(s));
}

proof fn lemma_dedup_of_distinct<T>(s: Seq<T>)
    requires
        forall|i: int, j: int| 0 <= i < j < s.len() ==> s[i] != s[j],
    ensures
        dedup(s) == s,
    decreases s.len(),
{
    if s.len() > 0 {
        lemma_dedup_of_distinct(s.drop_last());
        assert(!s.drop_last().contains(s.last()));
        assert(s.drop_last().push(s.last()) =~= s);
    }
}

impl ScenarioGenConfig {
    pub fn validate(&self) -> (r: Result<(), String>)
        ensures
            match r {
                Ok(()) => spec_validate_config(*self) == Ok::<(), Seq<char>>(()),
                Err(m) => spec_validate_config(*self) == Err::<(), Seq<char>>(m@),
            },
    {
        if self.tick_ms == 0 {
            return Err(owned("tick_ms must be > 0"));
        }
        if self.max_cases == 0 {
            return Err(owned("max_cases must be > 0"));
        }
        match first_below_exec(&self.duration_ms, self.tick_ms) {
            Some(i) => {
                proof {
                    lemma_first_below(self.duration_ms@, self.tick_ms, 0);
                }
                let d = self.duration_ms[i];
                if d == 0 {
                    return Err(not_positive("duration_ms", i));
                }
                let mut out = owned("duration_ms[");
                let si = format_usize(i);
                push_str(&mut out, si.as_str());
                push_str(&mut out, "] (");
                let sd = format_u64(d);
                push_str(&mut out, sd.as_str());
                push_str(&mut out, ") must be >= tick_ms (");
                let st = format_u64(self.tick_ms);
                push_str(&mut out, st.as_str());
                push_str(&mut out, ")");
                return Err(out);
            },
            None => {},
        }
        match first_below_exec(&self.start_pulse_ms, 0) {
            Some(i) => {
                return Err(not_positive("start_pulse_ms", i));
            },
            None => {},
        }
        match first_below_exec(&self.sensor_window_ms, 0) {
            Some(i) => {
                return Err(not_positive("sensor_window_ms", i));
            },
            None => {},
        }
        Ok(())
    }

    pub fn seed_base_value(&self) -> (r: u64)
        ensures
            r == match self.seed_base {
                Some(s) => s,
                None => 42,
            },
    {
        match self.seed_base {
            Some(s) => s,
            None => 42,
        }
    }

    /// The configured durations without repeats, or 1000, 2000, 3000 ms.
    pub fn duration_values(&self) -> (r: Vec<u64>)
        ensures
            r@ == dedup(or_default(self.duration_ms@, seq![1000u64, 2000, 3000])),
    {
        let d: [u64; 3] = [1000, 2000, 3000];
        assert(d@ =~= seq![1000u64, 2000, 3000]);
        dedup_u64_preserve_order_with_default(self.duration_ms.as_slice(), &d)
    }

    /// The configured start pulses without repeats, or 30, 50 ms.
    pub fn start_pulse_values(&self) -> (r: Vec<u64>)
        ensures
            r@ == dedup(or_default(self.start_pulse_ms@, seq![30u64, 50])),
    {
        let d: [u64; 2] = [30, 50];
        assert(d@ =~= seq![30u64, 50]);
        dedup_u64_preserve_order_with_default(self.start_pulse_ms.as_slice(), &d)
    }

    /// The configured sensor windows without repeats, or 20, 40 ms.
    pub fn sensor_window_values(&self) -> (r: Vec<u64>)
        ensures
            r@ == dedup(or_default(self.sensor_window_ms@, seq![20u64, 40])),
    {
        let d: [u64; 2] = [20, 40];
        assert(d@ =~= seq![20u64, 40]);
        dedup_u64_preserve_order_with_default(self.sensor_window_ms.as_slice(), &d)
    }

    /// The configured fault switches without repeats, or false, true.
    pub fn fault_values(&self) -> (r: Vec<bool>)
        ensures
            r@ == dedup(or_default(self.inject_sensor_stuck@, seq![false, true])),
    {
        let d: [bool; 2] = [false, true];
        assert(d@ =~= seq![false, true]);
        dedup_bool_preserve_order_with_default(self.inject_sensor_stuck.as_slice(), &d)
    }
}

// ---------------------------------------------------------------------------
// Tick alignment
// ---------------------------------------------------------------------------

pub open spec fn spec_round_up(ms: u64, tick: u64) -> u64 {
    if tick == 0 {
        ms
    } else {
        (((ms + tick - 1) / tick as int) * tick) as u64
    }
}

pub open spec fn spec_round_down(ms: u64, tick: u64) -> u64 {
    if tick == 0 {
        ms
    } else {
        ((ms / tick) * tick) as u64
    }
}

/// The smallest multiple of `tick_ms` not below `ms` (`ms` itself for a
/// zero tick).
pub fn round_up_to_tick(ms: u64, tick_ms: u64) -> (r: u64)
    requires
        ms as int + tick_ms as int - 1 <= u64::MAX as int,
    ensures
        r == spec_round_up(ms, tick_ms),
{
    if tick_ms == 0 {
        return ms;
    }
    let q = (ms + (tick_ms - 1)) / tick_ms;
    proof {
        assert(q * tick_ms <= ms + tick_ms - 1) by (nonlinear_arith)
            requires
                q == (ms + tick_ms - 1) / tick_ms as int,
                tick_ms > 0,
        ;
    }
    q * tick_ms
}

/// The largest multiple of `tick_ms` not above `ms` (`ms` itself for a zero
/// tick).
pub fn round_down_to_tick(ms: u64, tick_ms: u64) -> (r: u64)
    ensures
        r == spec_round_down(ms, tick_ms),
{
    if tick_ms == 0 {
        return ms;
    }
    let q = ms / tick_ms;
    proof {
        assert(q * tick_ms <= ms) by (nonlinear_arith)
            requires
                q == ms / tick_ms,
                tick_ms > 0,
        ;
    }
    q * tick_ms
}

/// Rounding to a tick lands on a multiple of it, no more than one tick away:
/// down never goes above and up never goes below.
pub proof fn law_tick_rounding(ms: u64, tick: u64)
    requires
        tick > 0,
        ms as int + tick as int - 1 <= u64::MAX as int,
    ensures
        spec_round_down(ms, tick) <= ms <= spec_round_up(ms, tick),
        spec_round_down(ms, tick) % tick == 0,
        spec_round_up(ms, tick) % tick == 0,
        ms - spec_round_down(ms, tick) < tick,
        spec_round_up(ms, tick) - ms < tick,
{
    let q = ms / tick;
    let p = (ms + tick - 1) / tick as int;
    assert(q * tick <= ms && ms < q * tick + tick && (q * tick) % (tick as int) == 0)
        by (nonlinear_arith)
        requires
            q == ms / tick,
            tick > 0,
    ;
    assert(p * tick <= ms + tick - 1 && ms + tick - 1 < p * tick + tick && (p * tick) % (
    tick as int) == 0 && p * tick >= 0) by (nonlinear_arith)
        requires
            p == (ms + tick - 1) / tick as int,
            tick > 0,
            ms >= 0,
    ;
}

// ---------------------------------------------------------------------------
// Coverage mode
// ---------------------------------------------------------------------------

#[derive(Debug, Clone, Copy, PartialEq, Eq, Structural)]
pub enum ScenarioCoverageMode {
    Pairwise,
    BoundaryFirst,
    RiskFirst,
}

pub open spec fn coverage_mode_name(m: ScenarioCoverageMode) -> Seq<char> {
    match m {
        ScenarioCoverageMode::Pairwise => "pairwise"@,
        ScenarioCoverageMode::BoundaryFirst => "boundary-first"@,
        ScenarioCoverageMode::RiskFirst => "risk-first"@,
    }
}

/// The mode named by `raw`, trimmed and lower-cased (ASCII); otherwise the
/// message naming the normalized value.
pub open spec fn spec_parse_coverage_mode(raw: Seq<char>) -> Result<ScenarioCoverageMode, Seq<char>> {
    let v = ascii_lower(trim(raw));
    if v == "pairwise"@ {
        Ok(ScenarioCoverageMode::Pairwise)
    } else if v == "boundary-first"@ {
        Ok(ScenarioCoverageMode::BoundaryFirst)
    } else if v == "risk-first"@ {
        Ok(ScenarioCoverageMode::RiskFirst)
    } else {
        Err(
            "Invalid --coverage-mode `"@ + v
                + "` (expected pairwise|boundary-first|risk-first)"@,
        )
    }
}

impl ScenarioCoverageMode {
    pub fn parse(raw: &str) -> (r: Result<Self, String>)
        ensures
            match r {
                Ok(m) => spec_parse_coverage_mode(raw@) == Ok::<ScenarioCoverageMode, Seq<char>>(m),
                Err(e) => spec_parse_coverage_mode(raw@) == Err::<ScenarioCoverageMode, Seq<char>>(
                    e@,
                ),
            },
    {
        let c = chars_of(raw);
        let t = trim_chars(c.as_slice());
        let v = ascii_lower_exec(t.as_slice());
        let a = chars_of("pairwise");
        let b = chars_of("boundary-first");
        let d = chars_of("risk-first");
        if eq_chars(v.as_slice(), a.as_slice()) {
            Ok(ScenarioCoverageMode::Pairwise)
        } else if eq_chars(v.as_slice(), b.as_slice()) {
            Ok(ScenarioCoverageMode::BoundaryFirst)
        } else if eq_chars(v.as_slice(), d.as_slice()) {
            Ok(ScenarioCoverageMode::RiskFirst)
        } else {
            let mut out = owned("Invalid --coverage-mode `");
            push_chars(&mut out, v.as_slice());
            push_str(&mut out, "` (expected pairwise|boundary-first|risk-first)");
            Err(out)
        }
    }

    pub fn as_str(self) -> (r: &'static str)
        ensures
            r@ == coverage_mode_name(self),
    {
        match self {
            ScenarioCoverageMode::Pairwise => "pairwise",
            ScenarioCoverageMode::BoundaryFirst => "boundary-first",
            ScenarioCoverageMode::RiskFirst => "risk-first",
        }
    }
}

/// Parsing the name of a mode gives that mode back.
pub proof fn law_coverage_mode_round_trip(m: ScenarioCoverageMode)
    ensures
        spec_parse_coverage_mode(coverage_mode_name(m)) == Ok::<ScenarioCoverageMode, Seq<char>>(m),
{
    reveal_strlit("pairwise");
    reveal_strlit("boundary-first");
    reveal_strlit("risk-first");
    let n = coverage_mode_name(m);
    assert(trim_start_is_id(n)) by {
        lemma_no_ws_trim(n);
    };
    assert(ascii_lower(n) =~= n);
}

spec fn trim_start_is_id(s: Seq<char>) -> bool {
    trim(s) == s
}

proof fn lemma_no_ws_trim(s: Seq<char>)
    requires
        s.len() > 0,
        !crate::text::is_ws(s[0]),
        !crate::text::is_ws(s.last()),
    ensures
        trim(s) == s,
{
}

// ---------------------------------------------------------------------------
// Templates and doctor categories
// ---------------------------------------------------------------------------

#[derive(Debug, Clone, PartialEq, Eq)]
pub struct ScenarioTemplateMeta {
    pub id: String,
    pub path: String,
    pub kind: String,
    pub description: String,
    pub parameters: Vec<String>,
}

#[derive(Debug, Clone, PartialEq, Eq)]
pub struct ScenarioTemplateLibrary {
    pub schema_version: u32,
    pub templates: Vec<ScenarioTemplateMeta>,
}

/// One combination of generated-scenario parameters.
#[derive(Debug, Clone, Copy, PartialEq, Eq, Structural)]
pub struct ScenarioGenCombo {
    pub duration_ms: u64,
    pub start_pulse_ms: u64,
    pub sensor_window_ms: u64,
    pub inject_sensor_stuck: bool,
}

// ---------------------------------------------------------------------------
// Combinations
// ---------------------------------------------------------------------------

pub open spec fn combo(d: u64, p: u64, w: u64, f: bool) -> ScenarioGenCombo {
    ScenarioGenCombo { duration_ms: d, start_pulse_ms: p, sensor_window_ms: w, inject_sensor_stuck: f }
}

pub open spec fn prod1(d: u64, p: u64, w: u64, fs: Seq<bool>) -> Seq<ScenarioGenCombo>
    decreases fs.len(),
{
    if fs.len() == 0 {
        seq![]
    } else {
        prod1(d, p, w, fs.drop_last()).push(combo(d, p, w, fs.last()))
    }
}

pub open spec fn prod2(d: u64, p: u64, ws: Seq<u64>, fs: Seq<bool>) -> Seq<ScenarioGenCombo>
    decreases ws.len(),
{
    if ws.len() == 0 {
        seq![]
    } else {
        prod2(d, p, ws.drop_last(), fs) + prod1(d, p, ws.last(), fs)
    }
}

pub open spec fn prod3(d: u64, ps: Seq<u64>, ws: Seq<u64>, fs: Seq<bool>) -> Seq<ScenarioGenCombo>
    decreases ps.len(),
{
    if ps.len() == 0 {
        seq![]
    } else {
        prod3(d, ps.drop_last(), ws, fs) + prod2(d, ps.last(), ws, fs)
    }
}

/// Every combination of a duration, a start pulse, a sensor window and a
/// fault switch, durations varying slowest and fault switches fastest.
pub open spec fn combo_product(ds: Seq<u64>, ps: Seq<u64>, ws: Seq<u64>, fs: Seq<bool>) -> Seq<
    ScenarioGenCombo,
>
    decreases ds.len(),
{
    if ds.len() == 0 {
        seq![]
    } else {
        combo_product(ds.drop_last(), ps, ws, fs) + prod3(ds.last(), ps, ws, fs)
    }
}

/// The smallest and largest value of each list (0 for an empty list).
#[derive(Debug, Clone, Copy)]
pub struct ComboBounds {
    pub dmin: u64,
    pub dmax: u64,
    pub pmin: u64,
    pub pmax: u64,
    pub wmin: u64,
    pub wmax: u64,
}

pub open spec fn bounds_of(ds: Seq<u64>, ps: Seq<u64>, ws: Seq<u64>) -> ComboBounds {
    ComboBounds {
        dmin: seq_min_or(ds, 0),
        dmax: seq_max_or(ds, 0),
        pmin: seq_min_or(ps, 0),
        pmax: seq_max_or(ps, 0),
        wmin: seq_min_or(ws, 0),
        wmax: seq_max_or(ws, 0),
    }
}

/// How much of the parameter range's edges a combination touches.
pub open spec fn boundary_score(b: ComboBounds, c: ScenarioGenCombo) -> int {
    (if c.duration_ms == b.dmin || c.duration_ms == b.dmax {
        2int
    } else {
        0int
    }) + (if c.start_pulse_ms == b.pmin || c.start_pulse_ms == b.pmax {
        2int
    } else {
        0int
    }) + (if c.sensor_window_ms == b.wmin || c.sensor_window_ms == b.wmax {
        2int
    } else {
        0int
    }) + (if c.inject_sensor_stuck {
        1int
    } else {
        0int
    })
}

/// How risky a combination is: a stuck sensor, the shortest duration, the
/// longest start pulse and the longest sensor window, in falling weight.
pub open spec fn risk_score(b: ComboBounds, c: ScenarioGenCombo) -> int {
    (if c.inject_sensor_stuck {
        100int
    } else {
        0int
    }) + (if c.duration_ms == b.dmin {
        30int
    } else {
        0int
    }) + (if c.start_pulse_ms == b.pmax {
        20int
    } else {
        0int
    }) + (if c.sensor_window_ms == b.wmax {
        10int
    } else {
        0int
    })
}

pub open spec fn bool_int(b: bool) -> int {
    if b {
        1
    } else {
        0
    }
}

/// The sort key of a combination: boundary-first puts higher boundary scores
/// first, then shorter durations, pulses and windows, then stuck sensors;
/// risk-first puts higher risk first, then shorter durations, stuck sensors,
/// then longer pulses and windows.
pub open spec fn combo_key(mode: ScenarioCoverageMode, b: ComboBounds, c: ScenarioGenCombo) -> (
    int,
    int,
    int,
    int,
    int,
) {
    match mode {
        ScenarioCoverageMode::RiskFirst => (
            -risk_score(b, c),
            c.duration_ms as int,
            -bool_int(c.inject_sensor_stuck),
            -(c.start_pulse_ms as int),
            -(c.sensor_window_ms as int),
        ),
        _ => (
            -boundary_score(b, c),
            c.duration_ms as int,
            c.start_pulse_ms as int,
            c.sensor_window_ms as int,
            -bool_int(c.inject_sensor_stuck),
        ),
    }
}

pub open spec fn lex_le(x: (int, int, int, int, int), y: (int, int, int, int, int)) -> bool {
    x.0 < y.0 || (x.0 == y.0 && (x.1 < y.1 || (x.1 == y.1 && (x.2 < y.2 || (x.2 == y.2 && (x.3
        < y.3 || (x.3 == y.3 && x.4 <= y.4)))))))
}

pub open spec fn combo_le(mode: ScenarioCoverageMode, b: ComboBounds) -> spec_fn(
    ScenarioGenCombo,
    ScenarioGenCombo,
) -> bool {
    |x: ScenarioGenCombo, y: ScenarioGenCombo| lex_le(combo_key(mode, b, x), combo_key(mode, b, y))
}

/// The order of each coverage mode is total: every two combinations are
/// comparable, and only equal ones compare both ways.
pub proof fn law_combo_order_total(mode: ScenarioCoverageMode, b: ComboBounds)
    ensures
        total_ordering(combo_le(mode, b)),
{
    let le = combo_le(mode, b);
    assert forall|x: ScenarioGenCombo, y: ScenarioGenCombo| #[trigger] le(x, y) && #[trigger] le(
        y,
        x,
    ) implies x == y by {
        assert(combo_key(mode, b, x) == combo_key(mode, b, y));
        assert(x.inject_sensor_stuck == y.inject_sensor_stuck);
    }
    assert forall|x: ScenarioGenCombo, y: ScenarioGenCombo, z: ScenarioGenCombo| #[trigger] le(
        x,
        y,
    ) && #[trigger] le(y, z) implies le(x, z) by {}
}

/// The combinations of `scenario-gen` in the order they are tried: the
/// product as is for pairwise coverage, sorted by the mode's key otherwise.
pub open spec fn spec_scenario_gen_combos(
    ds: Seq<u64>,
    ps: Seq<u64>,
    ws: Seq<u64>,
    fs: Seq<bool>,
    mode: ScenarioCoverageMode,
) -> Seq<ScenarioGenCombo> {
    match mode {
        ScenarioCoverageMode::Pairwise => combo_product(ds, ps, ws, fs),
        _ => combo_product(ds, ps, ws, fs).sort_by(combo_le(mode, bounds_of(ds, ps, ws))),
    }
}

fn min_or_zero(s: &[u64]) -> (r: u64)
    ensures
        r == seq_min_or(s@, 0),
{
    let mut m: u64 = 0;
    let mut i: usize = 0;
    while i < s.len()
        invariant
            i <= s@.len(),
            m == seq_min_or(s@.subrange(0, i as int), 0),
        decreases s@.len() - i,
    {
        assert(s@.subrange(0, i + 1).drop_last() =~= s@.subrange(0, i as int));
        if i == 0 || s[i] < m {
            m = s[i];
        }
        i += 1;
    }
    assert(s@.subrange(0, s@.len() as int) =~= s@);
    m
}

fn max_or_zero(s: &[u64]) -> (r: u64)
    ensures
        r == seq_max_or(s@, 0),
{
    let mut m: u64 = 0;
    let mut i: usize = 0;
    while i < s.len()
        invariant
            i <= s@.len(),
            m == seq_max_or(s@.subrange(0, i as int), 0),
        decreases s@.len() - i,
    {
        assert(s@.subrange(0, i + 1).drop_last() =~= s@.subrange(0, i as int));
        if i == 0 || s[i] > m {
            m = s[i];
        }
        i += 1;
    }
    assert(s@.subrange(0, s@.len() as int) =~= s@);
    m
}

fn boundary_score_exec(b: &ComboBounds, c: &ScenarioGenCombo) -> (r: u32)
    ensures
        r as int == boundary_score(*b, *c),
{
    let mut score: u32 = 0;
    if c.duration_ms == b.dmin || c.duration_ms == b.dmax {
        score += 2;
    }
    if c.start_pulse_ms == b.pmin || c.start_pulse_ms == b.pmax {
        score += 2;
    }
    if c.sensor_window_ms == b.wmin || c.sensor_window_ms == b.wmax {
        score += 2;
    }
    if c.inject_sensor_stuck {
        score += 1;
    }
    score
}

fn risk_score_exec(b: &ComboBounds, c: &ScenarioGenCombo) -> (r: u32)
    ensures
        r as int == risk_score(*b, *c),
{
    let mut score: u32 = 0;
    if c.inject_sensor_stuck {
        score += 100;
    }
    if c.duration_ms == b.dmin {
        score += 30;
    }
    if c.start_pulse_ms == b.pmax {
        score += 20;
    }
    if c.sensor_window_ms == b.wmax {
        score += 10;
    }
    score
}

/// Whether `x` comes no later than `y` in the mode's order.
fn combo_le_exec(mode: ScenarioCoverageMode, b: &ComboBounds, x: &ScenarioGenCombo, y: &ScenarioGenCombo) -> (r: bool)
    ensures
        r == combo_le(mode, *b)(*x, *y),
{
    match mode {
        ScenarioCoverageMode::RiskFirst => {
            let sx = risk_score_exec(b, x);
            let sy = risk_score_exec(b, y);
            if sx != sy {
                return sx > sy;
            }
            if x.duration_ms != y.duration_ms {
                return x.duration_ms < y.duration_ms;
            }
            if x.inject_sensor_stuck != y.inject_sensor_stuck {
                return x.inject_sensor_stuck;
            }
            if x.start_pulse_ms != y.start_pulse_ms {
                return x.start_pulse_ms > y.start_pulse_ms;
            }
            x.sensor_window_ms >= y.sensor_window_ms
        },
        _ => {
            let sx = boundary_score_exec(b, x);
            let sy = boundary_score_exec(b, y);
            if sx != sy {
                return sx > sy;
            }
            if x.duration_ms != y.duration_ms {
                return x.duration_ms < y.duration_ms;
            }
            if x.start_pulse_ms != y.start_pulse_ms {
                return x.start_pulse_ms < y.start_pulse_ms;
            }
            if x.sensor_window_ms != y.sensor_window_ms {
                return x.sensor_window_ms < y.sensor_window_ms;
            }
            x.inject_sensor_stuck || !y.inject_sensor_stuck
        },
    }
}

fn product_exec(ds: &[u64], ps: &[u64], ws: &[u64], fs: &[bool]) -> (r: Vec<ScenarioGenCombo>)
    ensures
        r@ == combo_product(ds@, ps@, ws@, fs@),
{
    let mut out: Vec<ScenarioGenCombo> = Vec::new();
    let mut a: usize = 0;
    while a < ds.len()
        invariant
            a <= ds@.len(),
            out@ == combo_product(ds@.subrange(0, a as int), ps@, ws@, fs@),
        decreases ds@.len() - a,
    {
        let d = ds[a];
        let ghost base4 = out@;
        let mut b: usize = 0;
        assert(ps@.subrange(0, 0) =~= Seq::<u64>::empty());
        assert(out@ =~= base4 + prod3(d, ps@.subrange(0, 0), ws@, fs@));
        while b < ps.len()
            invariant
                b <= ps@.len(),
                out@ == base4 + prod3(d, ps@.subrange(0, b as int), ws@, fs@),
            decreases ps@.len() - b,
        {
            let p = ps[b];
            let ghost base3 = out@;
            let mut c: usize = 0;
            assert(ws@.subrange(0, 0) =~= Seq::<u64>::empty());
            assert(out@ =~= base3 + prod2(d, p, ws@.subrange(0, 0), fs@));
            while c < ws.len()
                invariant
                    c <= ws@.len(),
                    out@ == base3 + prod2(d, p, ws@.subrange(0, c as int), fs@),
                decreases ws@.len() - c,
            {
                let w = ws[c];
                let ghost base2 = out@;
                let mut e: usize = 0;
                assert(fs@.subrange(0, 0) =~= Seq::<bool>::empty());
                assert(out@ =~= base2 + prod1(d, p, w, fs@.subrange(0, 0)));
                while e < fs.len()
                    invariant
                        e <= fs@.len(),
                        out@ == base2 + prod1(d, p, w, fs@.subrange(0, e as int)),
                    decreases fs@.len() - e,
                {
                    out.push(
                        ScenarioGenCombo {
                            duration_ms: d,
                            start_pulse_ms: p,
                            sensor_window_ms: w,
                            inject_sensor_stuck: fs[e],
                        },
                    );
                    assert(fs@.subrange(0, e + 1).drop_last() =~= fs@.subrange(0, e as int));
                    e += 1;
                    assert(out@ =~= base2 + prod1(d, p, w, fs@.subrange(0, e as int)));
                }
                assert(fs@.subrange(0, fs@.len() as int) =~= fs@);
                assert(ws@.subrange(0, c + 1).drop_last() =~= ws@.subrange(0, c as int));
                c += 1;
                assert(out@ =~= base3 + prod2(d, p, ws@.subrange(0, c as int), fs@));
            }
            assert(ws@.subrange(0, ws@.len() as int) =~= ws@);
            assert(ps@.subrange(0, b + 1).drop_last() =~= ps@.subrange(0, b as int));
            b += 1;
            assert(out@ =~= base4 + prod3(d, ps@.subrange(0, b as int), ws@, fs@));
        }
        assert(ps@.subrange(0, ps@.len() as int) =~= ps@);
        assert(ds@.subrange(0, a + 1).drop_last() =~= ds@.subrange(0, a as int));
        a += 1;
        assert(out@ =~= combo_product(ds@.subrange(0, a as int), ps@, ws@, fs@));
    }
    assert(ds@.subrange(0, ds@.len() as int) =~= ds@);
    out
}

/// Every combination of the given parameter values, in the order the
/// coverage mode tries them.
pub fn build_scenario_gen_combos(
    durations: &[u64],
    start_pulses: &[u64],
    sensor_windows: &[u64],
    fault_values: &[bool],
    mode: ScenarioCoverageMode,
) -> (r: Vec<ScenarioGenCombo>)
    ensures
        r@ == spec_scenario_gen_combos(
            durations@,
            start_pulses@,
            sensor_windows@,
            fault_values@,
            mode,
        ),
{
    let combos = product_exec(durations, start_pulses, sensor_windows, fault_values);
    if mode == ScenarioCoverageMode::Pairwise {
        return combos;
    }
    let b = ComboBounds {
        dmin: min_or_zero(durations),
        dmax: max_or_zero(durations),
        pmin: min_or_zero(start_pulses),
        pmax: max_or_zero(start_pulses),
        wmin: min_or_zero(sensor_windows),
        wmax: max_or_zero(sensor_windows),
    };
    let ghost le = combo_le(mode, b);
    proof {
        law_combo_order_total(mode, b);
    }
    let mut out: Vec<ScenarioGenCombo> = Vec::new();
    let mut i: usize = 0;
    assert(out@ =~= combos@.subrange(0, 0));
    while i < combos.len()
        invariant
            i <= combos@.len(),
            le == combo_le(mode, b),
            total_ordering(le),
            sorted_by(out@, le),
            out@.to_multiset() == combos@.subrange(0, i as int).to_multiset(),
        decreases combos@.len() - i,
    {
        let x = combos[i];
        let mut pos: usize = 0;
        while pos < out.len() && combo_le_exec(mode, &b, &out[pos], &x)
            invariant
                pos <= out@.len(),
                le == combo_le(mode, b),
                forall|k: int| 0 <= k < pos ==> le(out@[k], x),
            decreases out@.len() - pos,
        {
            pos += 1;
        }
        let ghost before = out@;
        out.insert(pos, x);
        proof {
            broadcast use vstd::seq_lib::to_multiset_insert;
            assert(combos@.subrange(0, i + 1) =~= combos@.subrange(0, i as int).push(x));
            broadcast use vstd::seq_lib::to_multiset_build;
            assert(out@.to_multiset() =~= before.to_multiset().insert(x));
            assert forall|p: int, q: int| 0 <= p < q < out@.len() implies #[trigger] le(
                out@[p],
                out@[q],
            ) by {
                if q < pos {
                    assert(le(before[p], before[q]));
                } else if q == pos {
                    assert(le(before[p], x));
                } else if p < pos {
                    assert(le(before[p], x));
                    assert(!le(before[pos as int], x));
                    assert(le(x, before[pos as int]));
                    if q - 1 > pos {
                        assert(le(before[pos as int], before[q - 1]));
                    }
                } else if p == pos {
                    assert(!le(before[pos as int], x));
                    assert(le(x, before[pos as int]));
                    if q - 1 > pos {
                        assert(le(before[pos as int], before[q - 1]));
                    }
                } else {
                    assert(le(before[p - 1], before[q - 1]));
                }
            }
        }
        i += 1;
    }
    proof {
        assert(combos@.subrange(0, combos@.len() as int) =~= combos@);
        combos@.lemma_sort_by_ensures(le);
        vstd::seq_lib::lemma_sorted_unique(out@, combos@.sort_by(le), le);
    }
    out
}

/// The first position at or after `i` whose template kind equals `kind`
/// ignoring ASCII case.
pub open spec fn first_kind_from(ts: Seq<ScenarioTemplateMeta>, kind: Seq<char>, i: int) -> Option<
    int,
>
    decreases ts.len() - i,
{
    if i < 0 || i >= ts.len() {
        None
    } else if ascii_lower(ts[i].kind@) == ascii_lower(kind) {
        Some(i)
    } else {
        first_kind_from(ts, kind, i + 1)
    }
}

/// The template for a combination: the first of kind `fault` (stuck sensor)
/// or `nominal` (otherwise), else the first template, else `unassigned`.
pub open spec fn spec_select_template_id(combo: ScenarioGenCombo, ts: Seq<ScenarioTemplateMeta>) -> Seq<
    char,
> {
    let kind = if combo.inject_sensor_stuck {
        "fault"@
    } else {
        "nominal"@
    };
    match first_kind_from(ts, kind, 0) {
        Some(i) => ts[i].id@,
        None => if ts.len() > 0 {
            ts[0].id@
        } else {
            "unassigned"@
        },
    }
}

pub fn select_template_id(combo: &ScenarioGenCombo, lib: &ScenarioTemplateLibrary) -> (r: String)
    ensures
        r@ == spec_select_template_id(*combo, lib.templates@),
{
    let kind = if combo.inject_sensor_stuck {
        chars_of("fault")
    } else {
        chars_of("nominal")
    };
    let want = ascii_lower_exec(kind.as_slice());
    let ts = &lib.templates;
    let mut i: usize = 0;
    while i < ts.len()
        invariant
            i <= ts@.len(),
            ts@ == lib.templates@,
            want@ == ascii_lower(kind@),
            kind@ == (if combo.inject_sensor_stuck {
                "fault"@
            } else {
                "nominal"@
            }),
            first_kind_from(ts@, kind@, 0) == first_kind_from(ts@, kind@, i as int),
        decreases ts@.len() - i,
    {
        let k = chars_of(ts[i].kind.as_str());
        let kl = ascii_lower_exec(k.as_slice());
        if eq_chars(kl.as_slice(), want.as_slice()) {
            assert(first_kind_from(ts@, kind@, i as int) == Some(i as int));
            assert(first_kind_from(lib.templates@, kind@, 0) == Some(i as int));
            assert(spec_select_template_id(*combo, lib.templates@) == lib.templates@[i as int].id@);
            let id = owned(ts[i].id.as_str());
            assert(id@ == lib.templates@[i as int].id@);
            return id;
        }
        i += 1;
    }
    if ts.len() > 0 {
        owned(ts[0].id.as_str())
    } else {
        owned("unassigned")
    }
}

/// The doctor category of a finding tag: tick alignment for `*.at_ms` and
/// `duration_ms`; device mapping for tags naming an I/O table or a
/// scenario/PLC mismatch; same-tick risk for `risk.*` and `runtime.probe`;
/// general otherwise.
pub open spec fn spec_doctor_category(tag: Seq<char>) -> Seq<char> {
    if ends_with(tag, ".at_ms"@) || tag == "duration_ms"@ {
        "tick_alignment"@
    } else if contains(tag, "digital_inputs"@) || contains(tag, "analog_inputs"@) || contains(
        tag,
        "digital_outputs"@,
    ) || contains(tag, "analog_outputs"@) || contains(tag, "scenario_plc_mismatch"@) {
        "device_mapping"@
    } else if starts_with(tag, "risk."@) || tag == "runtime.probe"@ {
        "same_tick_risk"@
    } else {
        "general"@
    }
}

pub fn doctor_category_from_tag(tag: &str) -> (r: &'static str)
    ensures
        r@ == spec_doctor_category(tag@),
{
    let t = chars_of(tag);
    let at = chars_of(".at_ms");
    let dur = chars_of("duration_ms");
    if ends_with_exec(t.as_slice(), at.as_slice()) || eq_chars(t.as_slice(), dur.as_slice()) {
        return "tick_alignment";
    }
    let a = chars_of("digital_inputs");
    let b = chars_of("analog_inputs");
    let c = chars_of("digital_outputs");
    let d = chars_of("analog_outputs");
    let e = chars_of("scenario_plc_mismatch");
    if contains_exec(t.as_slice(), a.as_slice()) || contains_exec(t.as_slice(), b.as_slice())
        || contains_exec(t.as_slice(), c.as_slice()) || contains_exec(t.as_slice(), d.as_slice())
        || contains_exec(t.as_slice(), e.as_slice()) {
        return "device_mapping";
    }
    let r = chars_of("risk.");
    let p = chars_of("runtime.probe");
    if starts_with_exec(t.as_slice(), r.as_slice()) || eq_chars(t.as_slice(), p.as_slice()) {
        return "same_tick_risk";
    }
    "general"
}

// ---------------------------------------------------------------------------
// Start and sensor inputs
// ---------------------------------------------------------------------------

/// The first digital input, in id order, whose aliases name a start signal.
pub open spec fn first_start_id(inputs: Seq<(u16, bool, bool)>) -> Option<u16>
    decreases inputs.len(),
{
    if inputs.len() == 0 {
        None
    } else if inputs[0].1 {
        Some(inputs[0].0)
    } else {
        first_start_id(inputs.drop_first())
    }
}

/// The digital inputs whose aliases name a sensor.
pub open spec fn sensor_id_set(inputs: Seq<(u16, bool, bool)>) -> Set<u16> {
    Set::new(|id: u16| exists|i: int| 0 <= i < inputs.len() && inputs[i].0 == id && inputs[i].2)
}

/// Each digital input is given, in id order, with whether its aliases name
/// a start signal and whether they name a sensor. The result is the first
/// start input and the sensor inputs in increasing order, each once.
pub fn discover_start_and_sensor_ids(inputs: &[(u16, bool, bool)]) -> (r: (Option<u16>, Vec<u16>))
    ensures
        r.0 == first_start_id(inputs@),
        r.1@ == sorted_ids(sensor_id_set(inputs@)),
{
    let mut start: Option<u16> = None;
    let mut i: usize = 0;
    assert(inputs@.subrange(0, inputs@.len() as int) =~= inputs@);
    while i < inputs.len()
        invariant_except_break
            start is None,
        invariant
            i <= inputs@.len(),
            first_start_id(inputs@) == first_start_id(inputs@.subrange(i as int, inputs@.len() as int)),
        ensures
            start == first_start_id(inputs@),
        decreases inputs@.len() - i,
    {
        assert(inputs@.subrange(i as int, inputs@.len() as int).drop_first() =~= inputs@.subrange(
            i + 1,
            inputs@.len() as int,
        ));
        if inputs[i].1 {
            start = Some(inputs[i].0);
            break;
        }
        i += 1;
        if i == inputs.len() {
            assert(inputs@.subrange(i as int, inputs@.len() as int) =~= Seq::<(u16, bool, bool)>::empty());
        }
    }
    let mut sensors: Vec<u16> = Vec::new();
    let mut k: usize = 0;
    while k < inputs.len()
        invariant
            k <= inputs@.len(),
            strictly_increasing(sensors@),
            forall|y: u16| sensors@.contains(y) <==> (exists|j: int| 0 <= j < k && inputs@[j].0 == y && inputs@[j].2),
        decreases inputs@.len() - k,
    {
        if inputs[k].2 {
            insert_sorted_unique(&mut sensors, inputs[k].0);
        }
        proof {
            assert forall|y: u16| sensors@.contains(y) implies (exists|j: int| 0 <= j < k + 1 && inputs@[j].0 == y && inputs@[j].2) by {
                if y != inputs@[k as int].0 || !inputs@[k as int].2 {
                    let j = choose|j: int| 0 <= j < k && inputs@[j].0 == y && inputs@[j].2;
                }
            }
            assert forall|y: u16| (exists|j: int| 0 <= j < k + 1 && inputs@[j].0 == y && inputs@[j].2) implies sensors@.contains(y) by {
                let j = choose|j: int| 0 <= j < k + 1 && inputs@[j].0 == y && inputs@[j].2;
                if j < k {
                    assert(exists|j2: int| 0 <= j2 < k && inputs@[j2].0 == y && inputs@[j2].2);
                }
            }
        }
        k += 1;
    }
    proof {
        law_ascending_list_is_sorted_ids(sensors@, sensor_id_set(inputs@));
    }
    (start, sensors)
}

} // verus!
