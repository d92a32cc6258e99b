//! The per-tick runtime budget of a compiled program and its time estimate.
use vstd::prelude::*;

verus! {

#[derive(Debug, Clone, Copy, PartialEq, Eq, Structural)]
pub enum TransitionBudgetScope {
    PerTaskPerTick,
}

#[derive(Debug, Clone, Copy, PartialEq, Eq, Structural)]
pub struct BudgetTimeEstimate {
    pub action_cost_us: u64,
    pub transition_cost_us: u64,
    pub parallel_expand_cost_us: u64,
    pub action_component_us: u64,
    pub transition_component_us: u64,
    pub parallel_component_us: u64,
    pub total_estimate_us: u64,
    pub max_allowed_us: u64,
    pub exceeds_budget: bool,
}

#[derive(Debug, Clone, Copy, PartialEq, Eq, Structural)]
pub struct RuntimeBudget {
    pub transition_budget_scope: TransitionBudgetScope,
    pub max_transitions_per_tick_cap: usize,
    pub active_task_count: usize,
    pub max_transitions_all_tasks_per_tick_upper_bound: usize,
    pub max_transitions_same_tick_upper_bound: usize,
    pub max_actions_per_transition: usize,
    pub max_actions_per_tick_upper_bound: usize,
    pub max_parallel_branches: usize,
    pub max_race_branches: usize,
    pub has_same_tick_cycle: bool,
    pub budget_time_estimate: BudgetTimeEstimate,
}

#[derive(Debug, Clone, Copy)]
pub struct RuntimeBudgetTimeSummary {
    pub action_cost_us: u64,
    pub transition_cost_us: u64,
    pub parallel_expand_cost_us: u64,
    pub action_component_us: u64,
    pub transition_component_us: u64,
    pub parallel_component_us: u64,
    pub total_estimate_us: u64,
    pub max_allowed_us: u64,
    pub exceeds_budget: bool,
}

#[derive(Debug, Clone, Copy)]
pub struct RuntimeBudgetSummary {
    pub transition_budget_scope: &'static str,
    pub max_transitions_per_tick_cap: usize,
    pub active_task_count: usize,
    pub max_transitions_all_tasks_per_tick_upper_bound: usize,
    pub max_transitions_same_tick_upper_bound: usize,
    pub max_actions_per_transition: usize,
    pub max_actions_per_tick_upper_bound: usize,
    pub max_parallel_branches: usize,
    pub max_race_branches: usize,
    pub has_same_tick_cycle: bool,
    pub budget_time_estimate: RuntimeBudgetTimeSummary,
}

/// The cost per action, per transition and per extra branch, and the
/// largest estimate allowed.
#[derive(Debug, Clone, Copy, PartialEq, Eq, Structural)]
pub struct RuntimeBudgetThresholds {
    pub action_cost_us: u64,
    pub transition_cost_us: u64,
    pub parallel_expand_cost_us: u64,
    pub max_budget_time_estimate_us: u64,
}

impl RuntimeBudgetThresholds {
    /// 8 us per action, 5 us per transition, 12 us per extra branch, 2000 us
    /// in all.
    pub fn default_thresholds() -> (r: Self)
        ensures
            r.action_cost_us == 8,
            r.transition_cost_us == 5,
            r.parallel_expand_cost_us == 12,
            r.max_budget_time_estimate_us == 2000,
    {
        RuntimeBudgetThresholds {
            action_cost_us: 8,
            transition_cost_us: 5,
            parallel_expand_cost_us: 12,
            max_budget_time_estimate_us: 2_000,
        }
    }
}

/// `u64::saturating_mul`.
pub open spec fn sat_mul(a: int, b: int) -> u64 {
    if a * b > u64::MAX {
        u64::MAX
    } else {
        (a * b) as u64
    }
}

/// `u64::saturating_add`.
pub open spec fn sat_add(a: int, b: int) -> u64 {
    if a + b > u64::MAX {
        u64::MAX
    } else {
        (a + b) as u64
    }
}

/// `usize::saturating_sub(1)` as a number.
pub open spec fn minus_one(a: usize) -> int {
    if a == 0 {
        0
    } else {
        a - 1
    }
}

/// The time estimate of a budget: each cost times its worst-case count
/// (actions per tick, same-tick transitions, extra parallel and race
/// branches), saturating, summed, and compared with the allowance.
pub open spec fn spec_estimate(
    b: RuntimeBudget,
    action_cost_us: u64,
    transition_cost_us: u64,
    parallel_expand_cost_us: u64,
    max_allowed_us: u64,
) -> BudgetTimeEstimate {
    let a = sat_mul(b.max_actions_per_tick_upper_bound as int, action_cost_us as int);
    let t = sat_mul(b.max_transitions_same_tick_upper_bound as int, transition_cost_us as int);
    let expansion = if minus_one(b.max_parallel_branches) + minus_one(b.max_race_branches)
        > usize::MAX {
        usize::MAX as int
    } else {
        minus_one(b.max_parallel_branches) + minus_one(b.max_race_branches)
    };
    let p = sat_mul(expansion, parallel_expand_cost_us as int);
    let total = sat_add(sat_add(a as int, t as int) as int, p as int);
    BudgetTimeEstimate {
        action_cost_us,
        transition_cost_us,
        parallel_expand_cost_us,
        action_component_us: a,
        transition_component_us: t,
        parallel_component_us: p,
        total_estimate_us: total,
        max_allowed_us,
        exceeds_budget: total > max_allowed_us,
    }
}

pub(crate) fn sat_mul_exec(a: u64, b: u64) -> (r: u64)
    ensures
        r == sat_mul(a as int, b as int),
{
    match a.checked_mul(b) {
        Some(v) => v,
        None => u64::MAX,
    }
}

pub fn estimate_budget_time_values(
    budget: &RuntimeBudget,
    action_cost_us: u64,
    transition_cost_us: u64,
    parallel_expand_cost_us: u64,
    max_allowed_us: u64,
) -> (r: BudgetTimeEstimate)
    ensures
        r == spec_estimate(
            *budget,
            action_cost_us,
            transition_cost_us,
            parallel_expand_cost_us,
            max_allowed_us,
        ),
{
    let action_component_us = sat_mul_exec(
        budget.max_actions_per_tick_upper_bound as u64,
        action_cost_us,
    );
    let transition_component_us = sat_mul_exec(
        budget.max_transitions_same_tick_upper_bound as u64,
        transition_cost_us,
    );
    let parallel_expansion = budget.max_parallel_branches.saturating_sub(1).saturating_add(
        budget.max_race_branches.saturating_sub(1),
    ) as u64;
    let parallel_component_us = sat_mul_exec(parallel_expansion, parallel_expand_cost_us);
    let total_estimate_us = action_component_us.saturating_add(transition_component_us).saturating_add(
        parallel_component_us,
    );
    BudgetTimeEstimate {
        action_cost_us,
        transition_cost_us,
        parallel_expand_cost_us,
        action_component_us,
        transition_component_us,
        parallel_component_us,
        total_estimate_us,
        max_allowed_us,
        exceeds_budget: total_estimate_us > max_allowed_us,
    }
}

pub fn estimate_budget_time(budget: &RuntimeBudget, thresholds: &RuntimeBudgetThresholds) -> (r:
    BudgetTimeEstimate)
    ensures
        r == spec_estimate(
            *budget,
            thresholds.action_cost_us,
            thresholds.transition_cost_us,
            thresholds.parallel_expand_cost_us,
            thresholds.max_budget_time_estimate_us,
        ),
{
    estimate_budget_time_values(
        budget,
        thresholds.action_cost_us,
        thresholds.transition_cost_us,
        thresholds.parallel_expand_cost_us,
        thresholds.max_budget_time_estimate_us,
    )
}

impl RuntimeBudget {
    /// Replace the time estimate by one made with the given costs; nothing
    /// else changes.
    pub fn recompute_time_estimate(
        &mut self,
        action_cost_us: u64,
        transition_cost_us: u64,
        parallel_expand_cost_us: u64,
        max_allowed_us: u64,
    )
        ensures
            *final(self) == (RuntimeBudget {
                budget_time_estimate: spec_estimate(
                    *old(self),
                    action_cost_us,
                    transition_cost_us,
                    parallel_expand_cost_us,
                    max_allowed_us,
                ),
                ..*old(self)
            }),
    {
        self.budget_time_estimate = estimate_budget_time_values(
            self,
            action_cost_us,
            transition_cost_us,
            parallel_expand_cost_us,
            max_allowed_us,
        );
    }

    /// The budget as reported: the same numbers, the scope by its name.
    pub fn summary(&self) -> (r: RuntimeBudgetSummary)
        ensures
            r.transition_budget_scope@ == "per_task_per_tick"@,
            r.max_transitions_per_tick_cap == self.max_transitions_per_tick_cap,
            r.active_task_count == self.active_task_count,
            r.max_transitions_all_tasks_per_tick_upper_bound
                == self.max_transitions_all_tasks_per_tick_upper_bound,
            r.max_transitions_same_tick_upper_bound == self.max_transitions_same_tick_upper_bound,
            r.max_actions_per_transition == self.max_actions_per_transition,
            r.max_actions_per_tick_upper_bound == self.max_actions_per_tick_upper_bound,
            r.max_parallel_branches == self.max_parallel_branches,
            r.max_race_branches == self.max_race_branches,
            r.has_same_tick_cycle == self.has_same_tick_cycle,
            r.budget_time_estimate.action_cost_us == self.budget_time_estimate.action_cost_us,
            r.budget_time_estimate.transition_cost_us
                == self.budget_time_estimate.transition_cost_us,
            r.budget_time_estimate.parallel_expand_cost_us
                == self.budget_time_estimate.parallel_expand_cost_us,
            r.budget_time_estimate.action_component_us
                == self.budget_time_estimate.action_component_us,
            r.budget_time_estimate.transition_component_us
                == self.budget_time_estimate.transition_component_us,
            r.budget_time_estimate.parallel_component_us
                == self.budget_time_estimate.parallel_component_us,
            r.budget_time_estimate.total_estimate_us == self.budget_time_estimate.total_estimate_us,
            r.budget_time_estimate.max_allowed_us == self.budget_time_estimate.max_allowed_us,
            r.budget_time_estimate.exceeds_budget == self.budget_time_estimate.exceeds_budget,
    {
        RuntimeBudgetSummary {
            transition_budget_scope: match self.transition_budget_scope {
                TransitionBudgetScope::PerTaskPerTick => "per_task_per_tick",
            },
            max_transitions_per_tick_cap: self.max_transitions_per_tick_cap,
            active_task_count: self.active_task_count,
            max_transitions_all_tasks_per_tick_upper_bound:
                self.max_transitions_all_tasks_per_tick_upper_bound,
            max_transitions_same_tick_upper_bound: self.max_transitions_same_tick_upper_bound,
            max_actions_per_transition: self.max_actions_per_transition,
            max_actions_per_tick_upper_bound: self.max_actions_per_tick_upper_bound,
            max_parallel_branches: self.max_parallel_branches,
            max_race_branches: self.max_race_branches,
            has_same_tick_cycle: self.has_same_tick_cycle,
            budget_time_estimate: RuntimeBudgetTimeSummary {
                action_cost_us: self.budget_time_estimate.action_cost_us,
                transition_cost_us: self.budget_time_estimate.transition_cost_us,
                parallel_expand_cost_us: self.budget_time_estimate.parallel_expand_cost_us,
                action_component_us: self.budget_time_estimate.action_component_us,
                transition_component_us: self.budget_time_estimate.transition_component_us,
                parallel_component_us: self.budget_time_estimate.parallel_component_us,
                total_estimate_us: self.budget_time_estimate.total_estimate_us,
                max_allowed_us: self.budget_time_estimate.max_allowed_us,
                exceeds_budget: self.budget_time_estimate.exceeds_budget,
            },
        }
    }
}

/// An estimate exceeds the budget exactly when its total is above the
/// allowance, and the total is never below any of its components.
pub proof fn law_estimate_total_bounds(
    b: RuntimeBudget,
    action_cost_us: u64,
    transition_cost_us: u64,
    parallel_expand_cost_us: u64,
    max_allowed_us: u64,
)
    ensures
        ({
            let e = spec_estimate(
                b,
                action_cost_us,
                transition_cost_us,
                parallel_expand_cost_us,
                max_allowed_us,
            );
            &&& e.exceeds_budget == (e.total_estimate_us > max_allowed_us)
            &&& e.total_estimate_us >= e.action_component_us
            &&& e.total_estimate_us >= e.transition_component_us
            &&& e.total_estimate_us >= e.parallel_component_us
        }),
{
}

/// Raising the allowance never turns a budget that fits into one that
/// exceeds.
pub proof fn law_estimate_monotone_in_allowance(
    b: RuntimeBudget,
    action_cost_us: u64,
    transition_cost_us: u64,
    parallel_expand_cost_us: u64,
    small: u64,
    large: u64,
)
    requires
        small <= large,
    ensures
        !spec_estimate(b, action_cost_us, transition_cost_us, parallel_expand_cost_us, small).exceeds_budget
            ==> !spec_estimate(
            b,
            action_cost_us,
            transition_cost_us,
            parallel_expand_cost_us,
            large,
        ).exceeds_budget,
{
}

} // verus!
