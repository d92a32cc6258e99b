//! The messages the component commands fail with: a headline with the
//! number of issues, the first few issues one per line, and a count of the
//! rest.
use vstd::prelude::*;
use crate::text::{chars_of, decimal, format_usize, owned, push_str, starts_with, starts_with_exec};

verus! {

/// One issue a component check reports.
pub struct ComponentIssue {
    pub code: String,
    pub path: String,
    pub message: String,
}

pub open spec fn issue_line(i: ComponentIssue) -> Seq<char> {
    "\n- ["@ + i.code@ + "] "@ + i.path@ + ": "@ + i.message@
}

/// The lines of the first `k` issues.
pub open spec fn issue_lines(issues: Seq<ComponentIssue>, k: int) -> Seq<char>
    decreases k,
{
    if k <= 0 {
        seq![]
    } else {
        issue_lines(issues, k - 1) + issue_line(issues[k - 1])
    }
}

pub open spec fn min_int(a: int, b: int) -> int {
    if a <= b {
        a
    } else {
        b
    }
}

/// The line that counts the issues beyond the first `limit`, if any.
pub open spec fn overflow_line(n: nat, limit: nat) -> Seq<char> {
    if n > limit {
        "\n- ... "@ + decimal((n - limit) as nat) + " more issue(s)"@
    } else {
        seq![]
    }
}

/// Appends the lines of the first `limit` issues.
fn push_issue_lines(out: &mut String, issues: &[ComponentIssue], limit: usize)
    ensures
        final(out)@ == old(out)@ + issue_lines(
            issues@,
            min_int(issues@.len() as int, limit as int),
        ),
{
    let mut i: usize = 0;
    while i < issues.len() && i < limit
        invariant
            i <= issues@.len(),
            i <= limit,
            out@ == old(out)@ + issue_lines(issues@, i as int),
        decreases issues@.len() - i,
    {
        let is = &issues[i];
        push_str(out, "\n- [");
        push_str(out, is.code.as_str());
        push_str(out, "] ");
        push_str(out, is.path.as_str());
        push_str(out, ": ");
        push_str(out, is.message.as_str());
        i += 1;
        assert(out@ =~= old(out)@ + issue_lines(issues@, i as int));
    }
}

fn push_overflow(out: &mut String, n: usize, limit: usize)
    ensures
        final(out)@ == old(out)@ + overflow_line(n as nat, limit as nat),
{
    if n > limit {
        push_str(out, "\n- ... ");
        let k = format_usize(n - limit);
        push_str(out, k.as_str());
        push_str(out, " more issue(s)");
    } else {
        assert(old(out)@ + overflow_line(n as nat, limit as nat) =~= old(out)@);
    }
}

pub open spec fn spec_topology_validate_error(path: Seq<char>, issues: Seq<ComponentIssue>) -> Seq<char> {
    "component topology validation failed for "@ + path + " ("@ + decimal(issues.len())
        + " issue(s))"@ + issue_lines(issues, min_int(issues.len() as int, 8))
        + overflow_line(issues.len(), 8)
}

/// The message of a failed component topology validation of the file shown
/// as `path`: up to eight issues listed.
pub fn format_component_topology_validate_error(path: &str, issues: &[ComponentIssue]) -> (r: String)
    ensures
        r@ == spec_topology_validate_error(path@, issues@),
{
    let mut msg = owned("component topology validation failed for ");
    push_str(&mut msg, path);
    push_str(&mut msg, " (");
    let n = format_usize(issues.len());
    push_str(&mut msg, n.as_str());
    push_str(&mut msg, " issue(s))");
    push_issue_lines(&mut msg, issues, 8);
    push_overflow(&mut msg, issues.len(), 8);
    msg
}

/// Whether an issue is about a legacy scenario field (`CSCN-MIG-` codes).
pub open spec fn any_migration_issue(issues: Seq<ComponentIssue>) -> bool {
    exists|i: int| 0 <= i < issues.len() && starts_with((#[trigger] issues[i]).code@, "CSCN-MIG-"@)
}

pub open spec fn migration_hint_line() -> Seq<char> {
    "\nMigration hint: replace legacy `faults.sensor_stuck` and `forces` with `component_faults` events targeted by component ID."@
}

pub open spec fn spec_scenario_validate_error(path: Seq<char>, issues: Seq<ComponentIssue>) -> Seq<char> {
    "component scenario validation failed for "@ + path + " ("@ + decimal(issues.len())
        + " issue(s))"@ + issue_lines(issues, min_int(issues.len() as int, 10)) + (if any_migration_issue(
        issues,
    ) {
        migration_hint_line()
    } else {
        seq![]
    }) + overflow_line(issues.len(), 10)
}

fn has_migration_issue(issues: &[ComponentIssue]) -> (r: bool)
    ensures
        r == any_migration_issue(issues@),
{
    let p = chars_of("CSCN-MIG-");
    let mut i: usize = 0;
    while i < issues.len()
        invariant
            i <= issues@.len(),
            p@ == "CSCN-MIG-"@,
            forall|q: int| 0 <= q < i ==> !starts_with((#[trigger] issues@[q]).code@, "CSCN-MIG-"@),
        decreases issues@.len() - i,
    {
        let c = chars_of(issues[i].code.as_str());
        if starts_with_exec(c.as_slice(), p.as_slice()) {
            return true;
        }
        i += 1;
    }
    false
}

/// The message of a failed component scenario validation of the file shown
/// as `path`: up to ten issues listed, and a hint when some concern legacy
/// fields.
pub fn format_component_scenario_validate_error(path: &str, issues: &[ComponentIssue]) -> (r: String)
    ensures
        r@ == spec_scenario_validate_error(path@, issues@),
{
    let mut msg = owned("component scenario validation failed for ");
    push_str(&mut msg, path);
    push_str(&mut msg, " (");
    let n = format_usize(issues.len());
    push_str(&mut msg, n.as_str());
    push_str(&mut msg, " issue(s))");
    push_issue_lines(&mut msg, issues, 10);
    if has_migration_issue(issues) {
        push_str(
            &mut msg,
            "\nMigration hint: replace legacy `faults.sensor_stuck` and `forces` with `component_faults` events targeted by component ID.",
        );
    }
    push_overflow(&mut msg, issues.len(), 10);
    msg
}

pub open spec fn spec_component_sim_error(issues: Seq<ComponentIssue>) -> Seq<char> {
    "component simulation failed ("@ + decimal(issues.len()) + " issue(s))"@ + issue_lines(
        issues,
        min_int(issues.len() as int, 10),
    ) + overflow_line(issues.len(), 10)
}

/// The message of a failed component simulation: up to ten issues listed.
pub fn format_component_sim_error(issues: &[ComponentIssue]) -> (r: String)
    ensures
        r@ == spec_component_sim_error(issues@),
{
    let mut msg = owned("component simulation failed (");
    let n = format_usize(issues.len());
    push_str(&mut msg, n.as_str());
    push_str(&mut msg, " issue(s))");
    push_issue_lines(&mut msg, issues, 10);
    push_overflow(&mut msg, issues.len(), 10);
    msg
}

} // verus!
