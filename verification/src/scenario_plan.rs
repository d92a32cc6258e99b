//! The plan of one generated scenario: from a combination of durations and
//! the program's start and sensor inputs, when each digital input changes
//! and which sensor gets stuck.
use vstd::prelude::*;
use crate::io_usage::{
    insert_sorted_unique, law_ascending_list_is_sorted_ids, sorted_ids, strictly_increasing,
};
use crate::realtime_gate::{args_view, is_lit, opt_view, take_value, value_or};
use crate::scenario_gen::{
    round_down_to_tick, round_up_to_tick, scenario_gen_default_template_library_path,
    select_template_id, spec_parse_coverage_mode, spec_round_down, spec_round_up,
    spec_select_template_id, ScenarioCoverageMode, ScenarioGenCombo, ScenarioTemplateLibrary,
};
use crate::text::{decimal, format_u64, owned, push_str};

verus! {

/// A change of digital inputs at a point in time: each listed input takes
/// the listed value (ids ascending, each at most once).
#[derive(Debug, Clone, PartialEq, Eq)]
pub struct PlannedInput {
    pub at_ms: u64,
    pub digital: Vec<(u16, bool)>,
}

pub struct PlannedInputView {
    pub at_ms: u64,
    pub digital: Seq<(u16, bool)>,
}

impl View for PlannedInput {
    type V = PlannedInputView;

    open spec fn view(&self) -> PlannedInputView {
        PlannedInputView { at_ms: self.at_ms, digital: self.digital@ }
    }
}

/// A sensor stuck at a value from a point in time on.
#[derive(Debug, Clone, Copy, PartialEq, Eq)]
pub struct PlannedFault {
    pub at_ms: u64,
    pub target: u16,
    pub value: bool,
}

/// A generated scenario: its seed, tick and duration, its input changes in
/// time order, and its faults.
#[derive(Debug, Clone, PartialEq, Eq)]
pub struct PlannedScenario {
    pub seed: u64,
    pub tick_ms: u64,
    pub duration_ms: u64,
    pub inputs: Vec<PlannedInput>,
    pub faults: Vec<PlannedFault>,
}

pub struct PlannedScenarioView {
    pub seed: u64,
    pub tick_ms: u64,
    pub duration_ms: u64,
    pub inputs: Seq<PlannedInputView>,
    pub faults: Seq<PlannedFault>,
}

pub open spec fn inputs_view(v: Seq<PlannedInput>) -> Seq<PlannedInputView> {
    v.map_values(|p: PlannedInput| p@)
}

impl View for PlannedScenario {
    type V = PlannedScenarioView;

    open spec fn view(&self) -> PlannedScenarioView {
        PlannedScenarioView {
            seed: self.seed,
            tick_ms: self.tick_ms,
            duration_ms: self.duration_ms,
            inputs: inputs_view(self.inputs@),
            faults: self.faults@,
        }
    }
}

// ---------------------------------------------------------------------------
// Timing
// ---------------------------------------------------------------------------

pub open spec fn max_u64(a: u64, b: u64) -> u64 {
    if a >= b {
        a
    } else {
        b
    }
}

/// `u64::saturating_sub`.
pub open spec fn sat_sub(a: u64, b: u64) -> u64 {
    if a >= b {
        (a - b) as u64
    } else {
        0
    }
}

/// `u64::saturating_add`.
pub open spec fn sat_add(a: u64, b: u64) -> u64 {
    if a + b > u64::MAX {
        u64::MAX
    } else {
        (a + b) as u64
    }
}

/// `t` unless it is not before the end of the run, in which case the last
/// whole tick before the end.
pub open spec fn within_run(t: u64, duration: u64, tick: u64) -> u64 {
    if t >= duration {
        spec_round_down(sat_sub(duration, tick), tick)
    } else {
        t
    }
}

/// When the start input is released: after the pulse (at least one tick),
/// rounded up to a tick, kept within the run.
pub open spec fn release_time(pulse: u64, duration: u64, tick: u64) -> u64 {
    within_run(spec_round_up(max_u64(pulse, tick), tick), duration, tick)
}

/// The gap between two sensor inputs: the sensor window (at least one
/// tick), rounded up to a tick.
pub open spec fn sensor_spacing(window: u64, tick: u64) -> u64 {
    spec_round_up(max_u64(window, tick), tick)
}

/// When the first sensor fires: after the pulse and one gap, rounded up to
/// a tick, and not before the first tick.
pub open spec fn sensor_start(pulse: u64, spacing: u64, tick: u64) -> u64 {
    max_u64(spec_round_up(sat_add(pulse, spacing), tick), tick)
}

/// When an injected fault starts: 200 ms rounded up to a tick, kept within
/// the run.
pub open spec fn fault_time(duration: u64, tick: u64) -> u64 {
    within_run(spec_round_up(200, tick), duration, tick)
}

// ---------------------------------------------------------------------------
// The inputs of a case
// ---------------------------------------------------------------------------

pub open spec fn input(at_ms: u64, digital: Seq<(u16, bool)>) -> PlannedInputView {
    PlannedInputView { at_ms, digital }
}

/// The input that starts the machine: the start input itself, or else the
/// first digital input of the program.
pub open spec fn primary_start(start_id: Option<u16>, first_digital: Option<u16>) -> Option<u16> {
    if start_id is Some {
        start_id
    } else {
        first_digital
    }
}

/// The start input pressed at 0 and released after the pulse when that
/// falls strictly inside the run.
pub open spec fn start_inputs(start: Option<u16>, pulse: u64, duration: u64, tick: u64) -> Seq<
    PlannedInputView,
> {
    match start {
        None => seq![],
        Some(s) => {
            let r = release_time(pulse, duration, tick);
            seq![input(0, seq![(s, true)])] + if 0 < r && r < duration {
                seq![input(r, seq![(s, false)])]
            } else {
                seq![]
            }
        },
    }
}

/// The sensors other than the start input, in order.
pub open spec fn other_sensors(ids: Seq<u16>, start_id: Option<u16>) -> Seq<u16>
    decreases ids.len(),
{
    if ids.len() == 0 {
        seq![]
    } else {
        other_sensors(ids.drop_last(), start_id) + if start_id == Some(ids.last()) {
            seq![]
        } else {
            seq![ids.last()]
        }
    }
}

/// At most the first eight of a list.
pub open spec fn first_eight(s: Seq<u16>) -> Seq<u16> {
    if s.len() > 8 {
        s.take(8)
    } else {
        s
    }
}

/// The sensors that a case drives: the first eight other than the start
/// input.
pub open spec fn sensor_targets(ids: Seq<u16>, start_id: Option<u16>) -> Seq<u16> {
    first_eight(other_sensors(ids, start_id))
}

/// Each target fires in turn, one gap apart from `at` on, while that is
/// inside the run.
pub open spec fn sensor_inputs(targets: Seq<u16>, at: u64, duration: u64, spacing: u64) -> Seq<
    PlannedInputView,
>
    decreases targets.len(),
{
    if targets.len() == 0 || at >= duration {
        seq![]
    } else {
        seq![input(at, seq![(targets[0], true)])] + sensor_inputs(
            targets.drop_first(),
            sat_add(at, spacing),
            duration,
            spacing,
        )
    }
}

/// Every target off at 0, then the targets firing in turn.
pub open spec fn sensor_part(
    targets: Seq<u16>,
    pulse: u64,
    window: u64,
    duration: u64,
    tick: u64,
) -> Seq<PlannedInputView> {
    if targets.len() == 0 {
        seq![]
    } else {
        let spacing = sensor_spacing(window, tick);
        seq![input(0, sorted_ids(targets.to_set()).map_values(|id: u16| (id, false)))]
            + sensor_inputs(targets, sensor_start(pulse, spacing, tick), duration, spacing)
    }
}

/// Inserts `e` after every element that is not later than it.
pub open spec fn insert_by_time(s: Seq<PlannedInputView>, e: PlannedInputView) -> Seq<
    PlannedInputView,
>
    decreases s.len(),
{
    if s.len() == 0 || s.last().at_ms <= e.at_ms {
        s.push(e)
    } else {
        insert_by_time(s.drop_last(), e).push(s.last())
    }
}

/// The inputs in time order, those at the same time in their given order
/// (a stable sort by time).
pub open spec fn sort_by_time(s: Seq<PlannedInputView>) -> Seq<PlannedInputView>
    decreases s.len(),
{
    if s.len() == 0 {
        seq![]
    } else {
        insert_by_time(sort_by_time(s.drop_last()), s.last())
    }
}

/// The sensor that an injected fault sticks: the first sensor, else the
/// start input, else the first digital input, else input 0.
pub open spec fn fault_target(
    sensor_ids: Seq<u16>,
    start_id: Option<u16>,
    first_digital: Option<u16>,
) -> u16 {
    if sensor_ids.len() > 0 {
        sensor_ids[0]
    } else if start_id is Some {
        start_id->0
    } else if first_digital is Some {
        first_digital->0
    } else {
        0
    }
}

/// The scenario of case `case_idx` (from 0) for a combination.
pub open spec fn spec_plan_case(
    case_idx: usize,
    seed_base: u64,
    tick: u64,
    c: ScenarioGenCombo,
    start_id: Option<u16>,
    sensor_ids: Seq<u16>,
    first_digital: Option<u16>,
) -> PlannedScenarioView {
    let duration = c.duration_ms;
    let events = start_inputs(
        primary_start(start_id, first_digital),
        c.start_pulse_ms,
        duration,
        tick,
    ) + sensor_part(
        sensor_targets(sensor_ids, start_id),
        c.start_pulse_ms,
        c.sensor_window_ms,
        duration,
        tick,
    );
    PlannedScenarioView {
        seed: (seed_base + case_idx) as u64,
        tick_ms: tick,
        duration_ms: duration,
        inputs: sort_by_time(events),
        faults: if c.inject_sensor_stuck {
            seq![
                PlannedFault {
                    at_ms: fault_time(duration, tick),
                    target: fault_target(sensor_ids, start_id, first_digital),
                    value: true,
                },
            ]
        } else {
            seq![]
        },
    }
}

/// The roundings of a case stay within `u64`.
pub open spec fn plan_fits(
    case_idx: usize,
    seed_base: u64,
    tick: u64,
    c: ScenarioGenCombo,
    start_id: Option<u16>,
    sensor_ids: Seq<u16>,
    first_digital: Option<u16>,
) -> bool {
    &&& seed_base + case_idx <= u64::MAX
    &&& max_u64(c.sensor_window_ms, tick) + tick - 1 <= u64::MAX
    &&& primary_start(start_id, first_digital) is Some ==> max_u64(c.start_pulse_ms, tick) + tick - 1
        <= u64::MAX
    &&& sensor_targets(sensor_ids, start_id).len() > 0 ==> sat_add(
        c.start_pulse_ms,
        sensor_spacing(c.sensor_window_ms, tick),
    ) + tick - 1 <= u64::MAX
    &&& c.inject_sensor_stuck ==> 200 + tick - 1 <= u64::MAX
}

// ---------------------------------------------------------------------------
// Planning
// ---------------------------------------------------------------------------

fn within_run_exec(t: u64, duration: u64, tick: u64) -> (r: u64)
    ensures
        r == within_run(t, duration, tick),
{
    if t >= duration {
        round_down_to_tick(duration.saturating_sub(tick), tick)
    } else {
        t
    }
}

proof fn lemma_other_sensors_push(ids: Seq<u16>, x: u16, start_id: Option<u16>)
    ensures
        other_sensors(ids.push(x), start_id) == other_sensors(ids, start_id) + if start_id == Some(
            x,
        ) {
            Seq::<u16>::empty()
        } else {
            seq![x]
        },
{
    assert(ids.push(x).drop_last() =~= ids);
}

/// The first eight sensors other than the start input.
pub fn sensor_targets_of(ids: &[u16], start_id: Option<u16>) -> (r: Vec<u16>)
    ensures
        r@ == sensor_targets(ids@, start_id),
{
    let mut out: Vec<u16> = Vec::new();
    let mut i: usize = 0;
    while i < ids.len()
        invariant
            i <= ids@.len(),
            out@ == first_eight(other_sensors(ids@.subrange(0, i as int), start_id)),
        decreases ids@.len() - i,
    {
        let x = ids[i];
        let ghost prev = other_sensors(ids@.subrange(0, i as int), start_id);
        proof {
            assert(ids@.subrange(0, i + 1) =~= ids@.subrange(0, i as int).push(x));
            lemma_other_sensors_push(ids@.subrange(0, i as int), x, start_id);
        }
        let keep = match start_id {
            Some(s) => s != x,
            None => true,
        };
        if keep && out.len() < 8 {
            out.push(x);
            assert(out@ =~= first_eight(prev + seq![x]));
        } else if keep {
            assert(first_eight(prev + seq![x]) =~= first_eight(prev));
        } else {
            assert(prev + Seq::<u16>::empty() =~= prev);
        }
        i += 1;
    }
    assert(ids@.subrange(0, ids@.len() as int) =~= ids@);
    out
}

proof fn lemma_insert_at(s: Seq<PlannedInputView>, e: PlannedInputView, j: int)
    requires
        0 <= j <= s.len(),
        forall|k: int| j <= k < s.len() ==> s[k].at_ms > e.at_ms,
        j > 0 ==> s[j - 1].at_ms <= e.at_ms,
    ensures
        insert_by_time(s, e) == s.subrange(0, j).push(e) + s.subrange(j, s.len() as int),
    decreases s.len() - j,
{
    if j == s.len() {
        assert(s.subrange(0, j) =~= s);
        assert(s.push(e) + s.subrange(j, s.len() as int) =~= s.push(e));
    } else {
        let s0 = s.drop_last();
        lemma_insert_at(s0, e, j);
        assert(s0.subrange(0, j) =~= s.subrange(0, j));
        assert((s0.subrange(0, j).push(e) + s0.subrange(j, s0.len() as int)).push(s.last()) =~= s.subrange(
            0,
            j,
        ).push(e) + s.subrange(j, s.len() as int));
    }
}

/// Adds the next input of a case, keeping the inputs in time order.
fn add_input(sorted: &mut Vec<PlannedInput>, e: PlannedInput, Ghost(events): Ghost<Seq<PlannedInputView>>)
    requires
        inputs_view(old(sorted)@) == sort_by_time(events),
    ensures
        inputs_view(final(sorted)@) == sort_by_time(events.push(e@)),
{
    let ghost s = inputs_view(sorted@);
    let mut j: usize = sorted.len();
    while j > 0 && sorted[j - 1].at_ms > e.at_ms
        invariant
            j <= sorted@.len(),
            s == inputs_view(sorted@),
            sorted@ == old(sorted)@,
            forall|k: int| j <= k < s.len() ==> s[k].at_ms > e.at_ms,
        decreases j,
    {
        j -= 1;
    }
    proof {
        lemma_insert_at(s, e@, j as int);
        assert(events.push(e@).drop_last() =~= events);
    }
    let ghost ev = e@;
    sorted.insert(j, e);
    assert(inputs_view(sorted@) =~= s.subrange(0, j as int).push(ev) + s.subrange(j as int, s.len() as int));
}

proof fn lemma_sensor_inputs_step(targets: Seq<u16>, k: int, at: u64, duration: u64, spacing: u64)
    requires
        0 <= k < targets.len(),
        at < duration,
    ensures
        sensor_inputs(targets.subrange(k, targets.len() as int), at, duration, spacing) == seq![
            input(at, seq![(targets[k], true)]),
        ] + sensor_inputs(
            targets.subrange(k + 1, targets.len() as int),
            sat_add(at, spacing),
            duration,
            spacing,
        ),
{
    assert(targets.subrange(k, targets.len() as int).drop_first() =~= targets.subrange(
        k + 1,
        targets.len() as int,
    ));
}

/// Every target off: the targets once each, ascending.
fn baseline_input(targets: &Vec<u16>) -> (r: PlannedInput)
    ensures
        r@ == input(0, sorted_ids(targets@.to_set()).map_values(|id: u16| (id, false))),
{
    let mut ids: Vec<u16> = Vec::new();
    let mut k: usize = 0;
    while k < targets.len()
        invariant
            k <= targets@.len(),
            strictly_increasing(ids@),
            forall|y: u16| ids@.contains(y) <==> targets@.subrange(0, k as int).contains(y),
        decreases targets@.len() - k,
    {
        insert_sorted_unique(&mut ids, targets[k]);
        proof {
            let p0 = targets@.subrange(0, k as int);
            let p1 = targets@.subrange(0, k + 1);
            assert(p1 =~= p0.push(targets@[k as int]));
            assert forall|y: u16| ids@.contains(y) <==> p1.contains(y) by {
                if p1.contains(y) {
                    let j = choose|j: int| 0 <= j < p1.len() && #[trigger] p1[j] == y;
                    if j < k {
                        assert(p0[j] == y);
                    }
                }
                if p0.contains(y) {
                    let j = choose|j: int| 0 <= j < p0.len() && #[trigger] p0[j] == y;
                    assert(p1[j] == y);
                }
                if y == targets@[k as int] {
                    assert(p1[k as int] == y);
                }
            }
        }
        k += 1;
    }
    proof {
        assert(targets@.subrange(0, targets@.len() as int) =~= targets@);
        assert forall|y: u16| ids@.contains(y) <==> targets@.to_set().contains(y) by {}
        law_ascending_list_is_sorted_ids(ids@, targets@.to_set());
    }
    let mut digital: Vec<(u16, bool)> = Vec::new();
    let mut m: usize = 0;
    while m < ids.len()
        invariant
            m <= ids@.len(),
            digital@ == ids@.subrange(0, m as int).map_values(|id: u16| (id, false)),
        decreases ids@.len() - m,
    {
        digital.push((ids[m], false));
        m += 1;
        assert(digital@ =~= ids@.subrange(0, m as int).map_values(|id: u16| (id, false)));
    }
    assert(ids@.subrange(0, ids@.len() as int) =~= ids@);
    PlannedInput { at_ms: 0, digital }
}

/// The scenario of case `case_idx` (from 0) for a combination: the start
/// input pressed at 0 and released after the pulse; every driven sensor
/// off at 0 and then firing in turn one gap apart while inside the run;
/// the inputs in time order; and, when the combination injects a fault,
/// the first sensor stuck on from 200 ms.
pub fn plan_scenario_case(
    case_idx: usize,
    seed_base: u64,
    tick_ms: u64,
    c: &ScenarioGenCombo,
    start_id: Option<u16>,
    sensor_ids: &[u16],
    first_digital: Option<u16>,
) -> (r: PlannedScenario)
    requires
        plan_fits(case_idx, seed_base, tick_ms, *c, start_id, sensor_ids@, first_digital),
    ensures
        r@ == spec_plan_case(case_idx, seed_base, tick_ms, *c, start_id, sensor_ids@, first_digital),
{
    let duration = c.duration_ms;
    let pulse = c.start_pulse_ms;
    let window = c.sensor_window_ms;
    let tick = tick_ms;
    let mut sorted: Vec<PlannedInput> = Vec::new();
    let ghost mut events: Seq<PlannedInputView> = seq![];
    let primary = match start_id {
        Some(s) => Some(s),
        None => first_digital,
    };
    assert(primary == primary_start(start_id, first_digital));
    assert(inputs_view(sorted@) =~= sort_by_time(events));
    if let Some(start) = primary {
        let e = PlannedInput { at_ms: 0, digital: vec![(start, true)] };
        let ghost ev = e@;
        assert(ev.digital =~= seq![(start, true)]);
        add_input(&mut sorted, e, Ghost(events));
        proof {
            events = events.push(ev);
        }
        let up = round_up_to_tick(if pulse >= tick { pulse } else { tick }, tick);
        let release = within_run_exec(up, duration, tick);
        if release > 0 && release < duration {
            let e = PlannedInput { at_ms: release, digital: vec![(start, false)] };
            let ghost ev = e@;
            assert(ev.digital =~= seq![(start, false)]);
            add_input(&mut sorted, e, Ghost(events));
            proof {
                events = events.push(ev);
            }
        }
    }
    let ghost start_part = events;
    assert(start_part =~= start_inputs(primary, pulse, duration, tick));
    let spacing = round_up_to_tick(if window >= tick { window } else { tick }, tick);
    let targets = sensor_targets_of(sensor_ids, start_id);
    if targets.len() > 0 {
        let base = baseline_input(&targets);
        let ghost bv = base@;
        add_input(&mut sorted, base, Ghost(events));
        proof {
            events = events.push(bv);
        }
        let first = round_up_to_tick(pulse.saturating_add(spacing), tick);
        let mut at = if first >= tick { first } else { tick };
        let ghost base_part = events;
        assert(spacing == sensor_spacing(window, tick));
        assert(at == sensor_start(pulse, spacing, tick));
        assert(targets@.subrange(0, targets@.len() as int) =~= targets@);
        let mut k: usize = 0;
        while k < targets.len()
            invariant
                k <= targets@.len(),
                inputs_view(sorted@) == sort_by_time(events),
                events + sensor_inputs(targets@.subrange(k as int, targets@.len() as int), at, duration, spacing)
                    == base_part + sensor_inputs(targets@, sensor_start(pulse, spacing, tick), duration, spacing),
            ensures
                inputs_view(sorted@) == sort_by_time(events),
                events + sensor_inputs(targets@.subrange(k as int, targets@.len() as int), at, duration, spacing)
                    == base_part + sensor_inputs(targets@, sensor_start(pulse, spacing, tick), duration, spacing),
                sensor_inputs(targets@.subrange(k as int, targets@.len() as int), at, duration, spacing)
                    == Seq::<PlannedInputView>::empty(),
            decreases targets@.len() - k,
        {
            if at >= duration {
                break;
            }
            proof {
                lemma_sensor_inputs_step(targets@, k as int, at, duration, spacing);
            }
            let e = PlannedInput { at_ms: at, digital: vec![(targets[k], true)] };
            let ghost ev = e@;
            assert(ev.digital =~= seq![(targets@[k as int], true)]);
            add_input(&mut sorted, e, Ghost(events));
            proof {
                assert(events.push(ev) + sensor_inputs(
                    targets@.subrange(k + 1, targets@.len() as int),
                    sat_add(at, spacing),
                    duration,
                    spacing,
                ) =~= events + (seq![ev] + sensor_inputs(
                    targets@.subrange(k + 1, targets@.len() as int),
                    sat_add(at, spacing),
                    duration,
                    spacing,
                )));
                events = events.push(ev);
            }
            at = at.saturating_add(spacing);
            k += 1;
        }
        proof {
            assert(events + Seq::<PlannedInputView>::empty() =~= events);
            assert(base_part == start_part.push(bv));
            assert(events =~= start_part + sensor_part(targets@, pulse, window, duration, tick));
        }
    } else {
        assert(events =~= start_part + sensor_part(targets@, pulse, window, duration, tick));
    }
    let mut faults: Vec<PlannedFault> = Vec::new();
    if c.inject_sensor_stuck {
        let target = if sensor_ids.len() > 0 {
            sensor_ids[0]
        } else {
            match start_id {
                Some(s) => s,
                None => match first_digital {
                    Some(d) => d,
                    None => 0,
                },
            }
        };
        let at = within_run_exec(round_up_to_tick(200, tick), duration, tick);
        faults.push(PlannedFault { at_ms: at, target, value: true });
    }
    let r = PlannedScenario {
        seed: seed_base + case_idx as u64,
        tick_ms: tick,
        duration_ms: duration,
        inputs: sorted,
        faults,
    };
    assert(r.faults@ =~= spec_plan_case(case_idx, seed_base, tick_ms, *c, start_id, sensor_ids@, first_digital).faults);
    r
}

// ---------------------------------------------------------------------------
// Properties of a plan
// ---------------------------------------------------------------------------

pub open spec fn in_time_order(s: Seq<PlannedInputView>) -> bool {
    forall|i: int, j: int| 0 <= i <= j < s.len() ==> s[i].at_ms <= s[j].at_ms
}

proof fn lemma_insert_keeps_order(s: Seq<PlannedInputView>, e: PlannedInputView)
    requires
        in_time_order(s),
    ensures
        in_time_order(insert_by_time(s, e)),
        insert_by_time(s, e).len() == s.len() + 1,
        forall|x: PlannedInputView| #[trigger] insert_by_time(s, e).contains(x) ==> s.contains(x) || x == e,
    decreases s.len(),
{
    let r = insert_by_time(s, e);
    if s.len() == 0 || s.last().at_ms <= e.at_ms {
        assert forall|x: PlannedInputView| #[trigger] r.contains(x) implies s.contains(x) || x == e by {
            let k = choose|k: int| 0 <= k < r.len() && r[k] == x;
            if k < s.len() {
                assert(s[k] == x);
            }
        }
    } else {
        let s0 = s.drop_last();
        lemma_insert_keeps_order(s0, e);
        let r0 = insert_by_time(s0, e);
        assert(r == r0.push(s.last()));
        assert forall|k: int| 0 <= k < r0.len() implies #[trigger] r0[k].at_ms <= s.last().at_ms by {
            assert(r0.contains(r0[k]));
            if r0[k] != e {
                let m = choose|m: int| 0 <= m < s0.len() && s0[m] == r0[k];
                assert(s[m] == s0[m]);
            }
        }
        assert forall|x: PlannedInputView| #[trigger] r.contains(x) implies s.contains(x) || x == e by {
            let k = choose|k: int| 0 <= k < r.len() && r[k] == x;
            if k < r0.len() {
                assert(r0[k] == x);
                assert(r0.contains(x));
                if x != e {
                    let m = choose|m: int| 0 <= m < s0.len() && s0[m] == x;
                    assert(s[m] == x);
                }
            } else {
                assert(s[s.len() - 1] == x);
            }
        }
    }
}

proof fn lemma_sort_in_order(s: Seq<PlannedInputView>)
    ensures
        in_time_order(sort_by_time(s)),
        sort_by_time(s).len() == s.len(),
        forall|x: PlannedInputView| #[trigger] sort_by_time(s).contains(x) ==> s.contains(x),
    decreases s.len(),
{
    if s.len() > 0 {
        let s0 = s.drop_last();
        lemma_sort_in_order(s0);
        lemma_insert_keeps_order(sort_by_time(s0), s.last());
        assert forall|x: PlannedInputView| #[trigger] sort_by_time(s).contains(x) implies s.contains(x) by {
            if sort_by_time(s0).contains(x) {
                let m = choose|m: int| 0 <= m < s0.len() && s0[m] == x;
                assert(s[m] == x);
            } else {
                assert(s[s.len() - 1] == x);
            }
        }
    }
}

proof fn lemma_sensor_inputs_inside(targets: Seq<u16>, at: u64, duration: u64, spacing: u64)
    ensures
        forall|x: PlannedInputView| #[trigger] sensor_inputs(targets, at, duration, spacing).contains(x) ==> x.at_ms < duration,
    decreases targets.len(),
{
    if targets.len() > 0 && at < duration {
        lemma_sensor_inputs_inside(targets.drop_first(), sat_add(at, spacing), duration, spacing);
        let rest = sensor_inputs(targets.drop_first(), sat_add(at, spacing), duration, spacing);
        let all = sensor_inputs(targets, at, duration, spacing);
        assert forall|x: PlannedInputView| #[trigger] all.contains(x) implies x.at_ms < duration by {
            let k = choose|k: int| 0 <= k < all.len() && all[k] == x;
            if k > 0 {
                assert(rest[k - 1] == x);
                assert(rest.contains(x));
            }
        }
    }
}

/// The inputs of a planned case come in time order, one for each change
/// the plan makes; with a positive tick and a positive run length, every
/// input and every fault lies inside the run.
pub proof fn law_plan_in_time_order_within_run(
    case_idx: usize,
    seed_base: u64,
    tick: u64,
    c: ScenarioGenCombo,
    start_id: Option<u16>,
    sensor_ids: Seq<u16>,
    first_digital: Option<u16>,
)
    ensures
        ({
            let p = spec_plan_case(case_idx, seed_base, tick, c, start_id, sensor_ids, first_digital);
            &&& in_time_order(p.inputs)
            &&& (tick > 0 && c.duration_ms > 0) ==> (forall|i: int|
                0 <= i < p.inputs.len() ==> #[trigger] p.inputs[i].at_ms < c.duration_ms)
            &&& (tick > 0 && c.duration_ms > 0) ==> (forall|i: int|
                0 <= i < p.faults.len() ==> #[trigger] p.faults[i].at_ms < c.duration_ms)
        }),
{
    let duration = c.duration_ms;
    let sp = start_inputs(primary_start(start_id, first_digital), c.start_pulse_ms, duration, tick);
    let targets = sensor_targets(sensor_ids, start_id);
    let sn = sensor_part(targets, c.start_pulse_ms, c.sensor_window_ms, duration, tick);
    let events = sp + sn;
    lemma_sort_in_order(events);
    let p = spec_plan_case(case_idx, seed_base, tick, c, start_id, sensor_ids, first_digital);
    if tick > 0 && duration > 0 {
        if targets.len() > 0 {
            let spacing = sensor_spacing(c.sensor_window_ms, tick);
            lemma_sensor_inputs_inside(targets, sensor_start(c.start_pulse_ms, spacing, tick), duration, spacing);
        }
        assert forall|x: PlannedInputView| #[trigger] events.contains(x) implies x.at_ms < duration by {
            let k = choose|k: int| 0 <= k < events.len() && events[k] == x;
            if k >= sp.len() {
                assert(sn[k - sp.len()] == x);
                if k - sp.len() > 0 {
                    let spacing = sensor_spacing(c.sensor_window_ms, tick);
                    let rest = sensor_inputs(targets, sensor_start(c.start_pulse_ms, spacing, tick), duration, spacing);
                    assert(rest[k - sp.len() - 1] == x);
                    assert(rest.contains(x));
                }
            }
        }
        assert forall|i: int| 0 <= i < p.inputs.len() implies #[trigger] p.inputs[i].at_ms < duration by {
            assert(p.inputs.contains(p.inputs[i]));
        }
        let ft = fault_time(duration, tick);
        assert(ft < duration) by {
            let down = spec_round_down(sat_sub(duration, tick), tick);
            assert(down <= sat_sub(duration, tick)) by (nonlinear_arith)
                requires
                    down == ((sat_sub(duration, tick) / tick) * tick) as u64,
                    tick > 0,
            ;
        }
    }
}

// ---------------------------------------------------------------------------
// Names of the cases
// ---------------------------------------------------------------------------

/// The decimal digits of `n`, with zeros in front to make at least four
/// (`format!("{:04}", n)`).
pub open spec fn zero_padded4(n: nat) -> Seq<char> {
    let d = decimal(n);
    if d.len() >= 4 {
        d
    } else {
        Seq::new((4 - d.len()) as nat, |i: int| '0') + d
    }
}

fn padded4(n: u64) -> (r: String)
    ensures
        r@ == zero_padded4(n as nat),
{
    let d = format_u64(n);
    let mut out = String::new();
    let len = d.as_str().unicode_len();
    if len < 4 {
        let mut k: usize = len;
        while k < 4
            invariant
                len <= k <= 4,
                out@ == Seq::new((k - len) as nat, |i: int| '0'),
            decreases 4 - k,
        {
            push_str(&mut out, "0");
            proof {
                reveal_strlit("0");
            }
            k += 1;
            assert(out@ =~= Seq::new((k - len) as nat, |i: int| '0'));
        }
    }
    push_str(&mut out, d.as_str());
    assert(out@ =~= zero_padded4(n as nat));
    out
}

/// The name of case `case_idx` (from 0): `case_` and its number from 1,
/// padded to four digits.
pub fn scenario_case_name(case_idx: usize) -> (r: String)
    requires
        case_idx + 1 <= usize::MAX,
    ensures
        r@ == "case_"@ + zero_padded4(case_idx as nat + 1),
{
    let mut out = owned("case_");
    push_str(&mut out, padded4((case_idx + 1) as u64).as_str());
    out
}

/// The file of case `case_idx` (from 0): `scenario_`, its number from 1
/// padded to four digits, and `.yaml`.
pub fn scenario_case_file_name(case_idx: usize) -> (r: String)
    requires
        case_idx + 1 <= usize::MAX,
    ensures
        r@ == "scenario_"@ + zero_padded4(case_idx as nat + 1) + ".yaml"@,
{
    let mut out = owned("scenario_");
    push_str(&mut out, padded4((case_idx + 1) as u64).as_str());
    push_str(&mut out, ".yaml");
    out
}

/// One generated case: its scenario, its name and file, and the template
/// that the combination selects.
pub struct PlannedCase {
    pub scenario: PlannedScenario,
    pub name: String,
    pub file_name: String,
    pub template_id: String,
}

/// How many cases a run generates: the combinations, at most `max_cases`.
pub open spec fn case_count(combos: nat, max_cases: nat) -> nat {
    if combos <= max_cases {
        combos
    } else {
        max_cases
    }
}

/// Every case a run generates can be planned without overflow.
pub open spec fn cases_fit(
    combos: Seq<ScenarioGenCombo>,
    max_cases: usize,
    seed_base: u64,
    tick: u64,
    start_id: Option<u16>,
    sensor_ids: Seq<u16>,
    first_digital: Option<u16>,
) -> bool {
    forall|k: int|
        0 <= k < case_count(combos.len(), max_cases as nat) ==> plan_fits(
            k as usize,
            seed_base,
            tick,
            #[trigger] combos[k],
            start_id,
            sensor_ids,
            first_digital,
        )
}

/// The cases of a scenario-generation run: one for each of the first
/// `max_cases` combinations, in order.
pub fn plan_scenario_cases(
    combos: &Vec<ScenarioGenCombo>,
    max_cases: usize,
    seed_base: u64,
    tick_ms: u64,
    start_id: Option<u16>,
    sensor_ids: &[u16],
    first_digital: Option<u16>,
    lib: &ScenarioTemplateLibrary,
) -> (r: Vec<PlannedCase>)
    requires
        cases_fit(combos@, max_cases, seed_base, tick_ms, start_id, sensor_ids@, first_digital),
    ensures
        r@.len() == case_count(combos@.len(), max_cases as nat),
        forall|k: int|
            0 <= k < r@.len() ==> {
                &&& (#[trigger] r@[k]).scenario@ == spec_plan_case(
                    k as usize,
                    seed_base,
                    tick_ms,
                    combos@[k],
                    start_id,
                    sensor_ids@,
                    first_digital,
                )
                &&& r@[k].name@ == "case_"@ + zero_padded4(k as nat + 1)
                &&& r@[k].file_name@ == "scenario_"@ + zero_padded4(k as nat + 1) + ".yaml"@
                &&& r@[k].template_id@ == spec_select_template_id(combos@[k], lib.templates@)
            },
{
    let mut out: Vec<PlannedCase> = Vec::new();
    let mut i: usize = 0;
    while i < combos.len() && i < max_cases
        invariant
            i <= combos@.len(),
            i <= max_cases,
            out@.len() == i,
            cases_fit(combos@, max_cases, seed_base, tick_ms, start_id, sensor_ids@, first_digital),
            forall|k: int|
                0 <= k < i ==> {
                    &&& (#[trigger] out@[k]).scenario@ == spec_plan_case(
                        k as usize,
                        seed_base,
                        tick_ms,
                        combos@[k],
                        start_id,
                        sensor_ids@,
                        first_digital,
                    )
                    &&& out@[k].name@ == "case_"@ + zero_padded4(k as nat + 1)
                    &&& out@[k].file_name@ == "scenario_"@ + zero_padded4(k as nat + 1) + ".yaml"@
                    &&& out@[k].template_id@ == spec_select_template_id(combos@[k], lib.templates@)
                },
        decreases combos@.len() - i,
    {
        assert(plan_fits(i, seed_base, tick_ms, combos@[i as int], start_id, sensor_ids@, first_digital));
        let scenario = plan_scenario_case(
            i,
            seed_base,
            tick_ms,
            &combos[i],
            start_id,
            sensor_ids,
            first_digital,
        );
        let name = scenario_case_name(i);
        let file_name = scenario_case_file_name(i);
        let template_id = select_template_id(&combos[i], lib);
        out.push(PlannedCase { scenario, name, file_name, template_id });
        i += 1;
    }
    out
}

// ---------------------------------------------------------------------------
// The command line of scenario generation
// ---------------------------------------------------------------------------

/// What the command line of `scenario-gen` asks for.
#[derive(Debug, Clone, PartialEq, Eq)]
pub struct ScenarioGenArgs {
    pub plc_path: String,
    pub config_path: String,
    pub out_dir: String,
    pub coverage_mode: ScenarioCoverageMode,
    pub dry_run: bool,
    pub template_library_path: String,
}

pub struct ScenarioGenArgsView {
    pub plc_path: Seq<char>,
    pub config_path: Seq<char>,
    pub out_dir: Seq<char>,
    pub coverage_mode: ScenarioCoverageMode,
    pub dry_run: bool,
    pub template_library_path: Seq<char>,
}

impl View for ScenarioGenArgs {
    type V = ScenarioGenArgsView;

    open spec fn view(&self) -> ScenarioGenArgsView {
        ScenarioGenArgsView {
            plc_path: self.plc_path@,
            config_path: self.config_path@,
            out_dir: self.out_dir@,
            coverage_mode: self.coverage_mode,
            dry_run: self.dry_run,
            template_library_path: self.template_library_path@,
        }
    }
}

/// The options of `scenario-gen` read so far.
pub struct GenScan {
    pub plc: Option<Seq<char>>,
    pub config: Option<Seq<char>>,
    pub out_dir: Option<Seq<char>>,
    pub mode: ScenarioCoverageMode,
    pub dry_run: bool,
    pub template: Option<Seq<char>>,
}

/// The options from position `i` on; the PLC source, the configuration and
/// the output directory must be given, and the template library defaults to
/// `scenarios/templates/metadata.json`.
pub open spec fn scan_gen_args(args: Seq<Seq<char>>, i: int, st: GenScan, usage: Seq<char>) -> Result<
    ScenarioGenArgsView,
    Seq<char>,
>
    decreases args.len() - i,
{
    if i < 0 || i >= args.len() {
        if st.plc is None || st.config is None || st.out_dir is None {
            Err(usage)
        } else {
            Ok(
                ScenarioGenArgsView {
                    plc_path: st.plc->0,
                    config_path: st.config->0,
                    out_dir: st.out_dir->0,
                    coverage_mode: st.mode,
                    dry_run: st.dry_run,
                    template_library_path: match st.template {
                        Some(t) => t,
                        None => "scenarios/templates/metadata.json"@,
                    },
                },
            )
        }
    } else {
        let a = args[i];
        if a == "--plc"@ {
            match value_or(args, i + 1, "Missing value for --plc <file.plc>"@) {
                Err(e) => Err(e),
                Ok(v) => scan_gen_args(args, i + 2, GenScan { plc: Some(v), ..st }, usage),
            }
        } else if a == "--config"@ {
            match value_or(args, i + 1, "Missing value for --config <gen.yaml>"@) {
                Err(e) => Err(e),
                Ok(v) => scan_gen_args(args, i + 2, GenScan { config: Some(v), ..st }, usage),
            }
        } else if a == "--out-dir"@ {
            match value_or(args, i + 1, "Missing value for --out-dir <dir>"@) {
                Err(e) => Err(e),
                Ok(v) => scan_gen_args(args, i + 2, GenScan { out_dir: Some(v), ..st }, usage),
            }
        } else if a == "--coverage-mode"@ {
            match value_or(
                args,
                i + 1,
                "Missing value for --coverage-mode <pairwise|boundary-first|risk-first>"@,
            ) {
                Err(e) => Err(e),
                Ok(v) => match spec_parse_coverage_mode(v) {
                    Err(e) => Err(e),
                    Ok(m) => scan_gen_args(args, i + 2, GenScan { mode: m, ..st }, usage),
                },
            }
        } else if a == "--dry-run"@ {
            scan_gen_args(args, i + 1, GenScan { dry_run: true, ..st }, usage)
        } else if a == "--template-library"@ {
            match value_or(args, i + 1, "Missing value for --template-library <metadata.json>"@) {
                Err(e) => Err(e),
                Ok(v) => scan_gen_args(args, i + 2, GenScan { template: Some(v), ..st }, usage),
            }
        } else if a == "-h"@ || a == "--help"@ {
            Err(usage)
        } else {
            Err("Unknown argument for scenario-gen: "@ + a)
        }
    }
}

pub open spec fn spec_scenario_gen_args(args: Seq<Seq<char>>, usage: Seq<char>) -> Result<
    ScenarioGenArgsView,
    Seq<char>,
> {
    scan_gen_args(
        args,
        0,
        GenScan {
            plc: None,
            config: None,
            out_dir: None,
            mode: ScenarioCoverageMode::Pairwise,
            dry_run: false,
            template: None,
        },
        usage,
    )
}

/// The command line of `scenario-gen` (after the command's name).
pub fn parse_scenario_gen_args(args: &[String], usage: &str) -> (r: Result<ScenarioGenArgs, String>)
    ensures
        match r {
            Ok(a) => spec_scenario_gen_args(args_view(args@), usage@) == Ok::<
                ScenarioGenArgsView,
                Seq<char>,
            >(a@),
            Err(e) => spec_scenario_gen_args(args_view(args@), usage@) == Err::<
                ScenarioGenArgsView,
                Seq<char>,
            >(e@),
        },
{
    let ghost av = args_view(args@);
    let mut plc: Option<String> = None;
    let mut config: Option<String> = None;
    let mut out_dir: Option<String> = None;
    let mut mode = ScenarioCoverageMode::Pairwise;
    let mut dry_run = false;
    let mut template: Option<String> = None;
    let mut i: usize = 0;
    while i < args.len()
        invariant
            i <= args@.len() + 1,
            av == args_view(args@),
            spec_scenario_gen_args(av, usage@) == scan_gen_args(
                av,
                i as int,
                GenScan {
                    plc: opt_view(plc),
                    config: opt_view(config),
                    out_dir: opt_view(out_dir),
                    mode,
                    dry_run,
                    template: opt_view(template),
                },
                usage@,
            ),
        decreases args@.len() + 1 - i,
    {
        let a = args[i].as_str();
        assert(a@ == av[i as int]);
        if is_lit(a, "--plc") {
            plc = Some(take_value(args, i + 1, "Missing value for --plc <file.plc>")?);
        } else if is_lit(a, "--config") {
            config = Some(take_value(args, i + 1, "Missing value for --config <gen.yaml>")?);
        } else if is_lit(a, "--out-dir") {
            out_dir = Some(take_value(args, i + 1, "Missing value for --out-dir <dir>")?);
        } else if is_lit(a, "--coverage-mode") {
            let raw = take_value(
                args,
                i + 1,
                "Missing value for --coverage-mode <pairwise|boundary-first|risk-first>",
            )?;
            mode = ScenarioCoverageMode::parse(raw.as_str())?;
        } else if is_lit(a, "--dry-run") {
            dry_run = true;
            i += 1;
            continue;
        } else if is_lit(a, "--template-library") {
            template = Some(
                take_value(args, i + 1, "Missing value for --template-library <metadata.json>")?,
            );
        } else if is_lit(a, "-h") || is_lit(a, "--help") {
            return Err(owned(usage));
        } else {
            let mut out = owned("Unknown argument for scenario-gen: ");
            push_str(&mut out, a);
            return Err(out);
        }
        i += 2;
    }
    match (plc, config, out_dir) {
        (Some(plc_path), Some(config_path), Some(out_dir)) => {
            let template_library_path = match template {
                Some(t) => t,
                None => owned(scenario_gen_default_template_library_path()),
            };
            Ok(
                ScenarioGenArgs {
                    plc_path,
                    config_path,
                    out_dir,
                    coverage_mode: mode,
                    dry_run,
                    template_library_path,
                },
            )
        },
        _ => Err(owned(usage)),
    }
}

} // verus!
