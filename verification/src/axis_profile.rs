//! Axis device kinds, and the resolution of an axis device's catalogue
//! references: the model and config it names, the family of the model, the
//! motor class of the family, and the motion parameter set it may name.
//!
//! The catalogue files also carry numeric limits (speeds, accelerations,
//! soft limits); those are floating-point values and are checked by the
//! caller between the two steps of the resolution. What is resolved here is
//! every check that reads names and units.
use vstd::prelude::*;
use crate::task_svg::{text_lt, text_lt_exec};
use crate::text::{
    chars_of, eq_chars, join, join_exec, owned, push_chars, push_str, string_of, trim, trim_chars,
};

verus! {

/// The kind of drive behind a motion axis.
#[derive(Debug, Clone, Copy, PartialEq, Eq, Structural)]
pub enum AxisDeviceType {
    StepperMotor,
    ServoDrive,
}

pub open spec fn axis_type_label(t: AxisDeviceType) -> Seq<char> {
    match t {
        AxisDeviceType::StepperMotor => "stepper_motor"@,
        AxisDeviceType::ServoDrive => "servo_drive"@,
    }
}

/// The name under which profile files refer to an axis kind.
pub fn axis_type_name(axis_type: &AxisDeviceType) -> (r: &'static str)
    ensures
        r@ == axis_type_label(*axis_type),
{
    match axis_type {
        AxisDeviceType::StepperMotor => "stepper_motor",
        AxisDeviceType::ServoDrive => "servo_drive",
    }
}

// ---------------------------------------------------------------------------
// Declarations and catalogue entries
// ---------------------------------------------------------------------------

/// What the resolution reads of an axis device declaration.
pub struct AxisDeviceRefs {
    pub name: String,
    pub device_type: AxisDeviceType,
    /// Names of the legacy inline axis parameters the declaration carries.
    pub inline_params: Vec<String>,
    pub model_ref: Option<String>,
    pub config_ref: Option<String>,
    pub motion_param_set: Option<String>,
}

/// The naming fields of an axis model file.
pub struct AxisModelEntry {
    pub name: String,
    pub device_type: String,
    pub family_id: String,
    pub position_unit: String,
}

/// The naming fields of an axis config file.
pub struct AxisConfigEntry {
    pub name: String,
    pub model_id: String,
    pub position_unit: String,
}

/// The naming fields of an axis family file.
pub struct AxisFamilyEntry {
    pub name: String,
    pub motor_class_id: String,
}

/// The naming fields of a motion parameter set file.
pub struct AxisParamSetEntry {
    pub name: String,
    pub config_id: String,
}

/// The loaded axis catalogue, one list per kind of file. A name is looked
/// up as the first entry of its kind that carries it (the loader refuses a
/// name given twice, so the first is the only one).
pub struct AxisCatalog {
    pub motor_classes: Vec<String>,
    pub families: Vec<AxisFamilyEntry>,
    pub models: Vec<AxisModelEntry>,
    pub configs: Vec<AxisConfigEntry>,
    pub param_sets: Vec<AxisParamSetEntry>,
}

/// The entries a device's references resolve to, by position in the
/// catalogue, with the two references as they were read.
pub struct AxisRefChain {
    pub model_ref: String,
    pub config_ref: String,
    pub model: usize,
    pub config: usize,
    pub family: usize,
    pub motor_class: usize,
}

/// Why a device could not be resolved: the message (which starts with the
/// rule's code) and the advice that goes with it.
pub struct AxisIssue {
    pub message: String,
    pub reason: String,
}

// ---------------------------------------------------------------------------
// Looking names up
// ---------------------------------------------------------------------------

/// A reference as the resolution reads it: trimmed, and absent when blank.
pub open spec fn given_ref(o: Option<String>) -> Option<Seq<char>> {
    match o {
        Some(s) => if trim(s@).len() > 0 {
            Some(trim(s@))
        } else {
            None
        },
        None => None,
    }
}

/// The first position at or after `i` whose name is `k`.
pub open spec fn find_name_from(names: Seq<Seq<char>>, k: Seq<char>, i: int) -> Option<int>
    decreases names.len() - i,
{
    if i < 0 || i >= names.len() {
        None
    } else if names[i] == k {
        Some(i)
    } else {
        find_name_from(names, k, i + 1)
    }
}

/// The first position whose name is `k`.
pub open spec fn find_name(names: Seq<Seq<char>>, k: Seq<char>) -> Option<int> {
    find_name_from(names, k, 0)
}

pub open spec fn class_names(c: AxisCatalog) -> Seq<Seq<char>> {
    c.motor_classes@.map_values(|s: String| s@)
}

pub open spec fn family_names(c: AxisCatalog) -> Seq<Seq<char>> {
    c.families@.map_values(|f: AxisFamilyEntry| f.name@)
}

pub open spec fn model_names(c: AxisCatalog) -> Seq<Seq<char>> {
    c.models@.map_values(|m: AxisModelEntry| m.name@)
}

pub open spec fn config_names(c: AxisCatalog) -> Seq<Seq<char>> {
    c.configs@.map_values(|g: AxisConfigEntry| g.name@)
}

pub open spec fn set_names(c: AxisCatalog) -> Seq<Seq<char>> {
    c.param_sets@.map_values(|p: AxisParamSetEntry| p.name@)
}

pub open spec fn opt_index(r: Option<usize>) -> Option<int> {
    match r {
        Some(i) => Some(i as int),
        None => None,
    }
}

proof fn lemma_find_name_found(names: Seq<Seq<char>>, k: Seq<char>, i: int)
    requires
        0 <= i,
        find_name_from(names, k, i) is Some,
    ensures
        ({
            let j = find_name_from(names, k, i)->0;
            &&& i <= j < names.len()
            &&& names[j] == k
        }),
    decreases names.len() - i,
{
    if i < names.len() && names[i] != k {
        lemma_find_name_found(names, k, i + 1);
    }
}

fn given_ref_exec(o: &Option<String>) -> (r: Option<Vec<char>>)
    ensures
        match r {
            Some(v) => given_ref(*o) == Some(v@),
            None => given_ref(*o) is None,
        },
{
    match o {
        Some(s) => {
            let cs = chars_of(s.as_str());
            let t = trim_chars(cs.as_slice());
            if t.len() > 0 {
                Some(t)
            } else {
                None
            }
        },
        None => None,
    }
}

/// Looks `k` up among `names` (given as character vectors).
fn find_in(names: &Vec<Vec<char>>, k: &[char]) -> (r: Option<usize>)
    ensures
        opt_index(r) == find_name(names@.map_values(|x: Vec<char>| x@), k@),
        r matches Some(i) ==> i < names@.len(),
{
    let ghost nv = names@.map_values(|x: Vec<char>| x@);
    let mut i: usize = 0;
    while i < names.len()
        invariant
            i <= names@.len(),
            nv == names@.map_values(|x: Vec<char>| x@),
            find_name(nv, k@) == find_name_from(nv, k@, i as int),
        decreases names@.len() - i,
    {
        if eq_chars(names[i].as_slice(), k) {
            return Some(i);
        }
        i += 1;
    }
    None
}

fn class_name_chars(c: &AxisCatalog) -> (r: Vec<Vec<char>>)
    ensures
        r@.map_values(|x: Vec<char>| x@) == class_names(*c),
{
    let mut out: Vec<Vec<char>> = Vec::new();
    let mut i: usize = 0;
    while i < c.motor_classes.len()
        invariant
            i <= c.motor_classes@.len(),
            out@.len() == i,
            forall|j: int| 0 <= j < i ==> #[trigger] out@[j]@ == c.motor_classes@[j]@,
        decreases c.motor_classes@.len() - i,
    {
        out.push(chars_of(c.motor_classes[i].as_str()));
        i += 1;
    }
    assert(out@.map_values(|x: Vec<char>| x@) =~= class_names(*c));
    out
}

fn family_name_chars(c: &AxisCatalog) -> (r: Vec<Vec<char>>)
    ensures
        r@.map_values(|x: Vec<char>| x@) == family_names(*c),
{
    let mut out: Vec<Vec<char>> = Vec::new();
    let mut i: usize = 0;
    while i < c.families.len()
        invariant
            i <= c.families@.len(),
            out@.len() == i,
            forall|j: int| 0 <= j < i ==> #[trigger] out@[j]@ == c.families@[j].name@,
        decreases c.families@.len() - i,
    {
        out.push(chars_of(c.families[i].name.as_str()));
        i += 1;
    }
    assert(out@.map_values(|x: Vec<char>| x@) =~= family_names(*c));
    out
}

fn model_name_chars(c: &AxisCatalog) -> (r: Vec<Vec<char>>)
    ensures
        r@.map_values(|x: Vec<char>| x@) == model_names(*c),
{
    let mut out: Vec<Vec<char>> = Vec::new();
    let mut i: usize = 0;
    while i < c.models.len()
        invariant
            i <= c.models@.len(),
            out@.len() == i,
            forall|j: int| 0 <= j < i ==> #[trigger] out@[j]@ == c.models@[j].name@,
        decreases c.models@.len() - i,
    {
        out.push(chars_of(c.models[i].name.as_str()));
        i += 1;
    }
    assert(out@.map_values(|x: Vec<char>| x@) =~= model_names(*c));
    out
}

fn config_name_chars(c: &AxisCatalog) -> (r: Vec<Vec<char>>)
    ensures
        r@.map_values(|x: Vec<char>| x@) == config_names(*c),
{
    let mut out: Vec<Vec<char>> = Vec::new();
    let mut i: usize = 0;
    while i < c.configs.len()
        invariant
            i <= c.configs@.len(),
            out@.len() == i,
            forall|j: int| 0 <= j < i ==> #[trigger] out@[j]@ == c.configs@[j].name@,
        decreases c.configs@.len() - i,
    {
        out.push(chars_of(c.configs[i].name.as_str()));
        i += 1;
    }
    assert(out@.map_values(|x: Vec<char>| x@) =~= config_names(*c));
    out
}

fn set_name_chars(c: &AxisCatalog) -> (r: Vec<Vec<char>>)
    ensures
        r@.map_values(|x: Vec<char>| x@) == set_names(*c),
{
    let mut out: Vec<Vec<char>> = Vec::new();
    let mut i: usize = 0;
    while i < c.param_sets.len()
        invariant
            i <= c.param_sets@.len(),
            out@.len() == i,
            forall|j: int| 0 <= j < i ==> #[trigger] out@[j]@ == c.param_sets@[j].name@,
        decreases c.param_sets@.len() - i,
    {
        out.push(chars_of(c.param_sets[i].name.as_str()));
        i += 1;
    }
    assert(out@.map_values(|x: Vec<char>| x@) =~= set_names(*c));
    out
}

// ---------------------------------------------------------------------------
// Sorting names
// ---------------------------------------------------------------------------

/// Inserts `x` into a sorted list after every name that does not come after it.
pub open spec fn insert_text(s: Seq<Seq<char>>, x: Seq<char>) -> Seq<Seq<char>>
    decreases s.len(),
{
    if s.len() == 0 {
        seq![x]
    } else if text_lt(x, s.last()) {
        insert_text(s.drop_last(), x).push(s.last())
    } else {
        s.push(x)
    }
}

/// `names` in ascending order (`slice::sort` on strings).
pub open spec fn sort_texts(s: Seq<Seq<char>>) -> Seq<Seq<char>>
    decreases s.len(),
{
    if s.len() == 0 {
        seq![]
    } else {
        insert_text(sort_texts(s.drop_last()), s.last())
    }
}

fn insert_text_exec(list: &mut Vec<Vec<char>>, x: Vec<char>)
    ensures
        final(list)@.map_values(|v: Vec<char>| v@) == insert_text(
            old(list)@.map_values(|v: Vec<char>| v@),
            x@,
        ),
{
    let ghost l0 = old(list)@.map_values(|v: Vec<char>| v@);
    let mut p: usize = list.len();
    assert(l0.subrange(0, l0.len() as int) =~= l0);
    assert(insert_text(l0, x@) + l0.subrange(l0.len() as int, l0.len() as int) =~= insert_text(
        l0,
        x@,
    ));
    while p > 0 && text_lt_exec(x.as_slice(), list[p - 1].as_slice())
        invariant
            p <= list@.len(),
            list@ == old(list)@,
            l0 == old(list)@.map_values(|v: Vec<char>| v@),
            insert_text(l0, x@) == insert_text(l0.subrange(0, p as int), x@) + l0.subrange(
                p as int,
                l0.len() as int,
            ),
        decreases p,
    {
        assert(l0.subrange(0, p as int).drop_last() =~= l0.subrange(0, p - 1));
        assert(l0.subrange(0, p as int).last() == l0[p - 1]);
        assert(insert_text(l0.subrange(0, p as int), x@) == insert_text(
            l0.subrange(0, p - 1),
            x@,
        ).push(l0[p - 1]));
        assert(insert_text(l0.subrange(0, p - 1), x@).push(l0[p - 1]) + l0.subrange(
            p as int,
            l0.len() as int,
        ) =~= insert_text(l0.subrange(0, p - 1), x@) + l0.subrange(p - 1, l0.len() as int));
        p -= 1;
    }
    proof {
        if p > 0 {
            assert(l0.subrange(0, p as int).last() == l0[p - 1]);
        }
        assert(insert_text(l0.subrange(0, p as int), x@) =~= l0.subrange(0, p as int).push(x@));
    }
    let ghost xv = x@;
    list.insert(p, x);
    assert(list@.map_values(|v: Vec<char>| v@) =~= l0.subrange(0, p as int).push(xv)
        + l0.subrange(p as int, l0.len() as int));
}

/// The names, sorted.
pub(crate) fn sorted_names(names: &Vec<String>) -> (r: Vec<Vec<char>>)
    ensures
        r@.map_values(|v: Vec<char>| v@) == sort_texts(names@.map_values(|s: String| s@)),
{
    let ghost nv = names@.map_values(|s: String| s@);
    let mut out: Vec<Vec<char>> = Vec::new();
    let mut i: usize = 0;
    assert(nv.subrange(0, 0) =~= Seq::<Seq<char>>::empty());
    while i < names.len()
        invariant
            i <= names@.len(),
            nv == names@.map_values(|s: String| s@),
            out@.map_values(|v: Vec<char>| v@) == sort_texts(nv.subrange(0, i as int)),
        decreases names@.len() - i,
    {
        let x = chars_of(names[i].as_str());
        insert_text_exec(&mut out, x);
        assert(nv.subrange(0, i + 1).drop_last() =~= nv.subrange(0, i as int));
        i += 1;
    }
    assert(nv.subrange(0, i as int) =~= nv);
    out
}

// ---------------------------------------------------------------------------
// What a refused device is told
// ---------------------------------------------------------------------------

pub open spec fn issue_view(i: AxisIssue) -> (Seq<char>, Seq<char>) {
    (i.message@, i.reason@)
}

pub open spec fn inline_params_issue(d: Seq<char>, names: Seq<Seq<char>>) -> (Seq<char>, Seq<char>) {
    (
        "[AXP-006] axis device '"@ + d + "' no longer accepts inline axis params: "@ + join(
            sort_texts(names),
            ", "@,
        ),
        "请删除这些旧字段，并改为在设备上声明 model_ref/config_ref。"@,
    )
}

pub open spec fn missing_model_issue(d: Seq<char>) -> (Seq<char>, Seq<char>) {
    (
        "[AXP-001] axis device '"@ + d + "' is missing model_ref."@,
        "请在轴设备上声明 model_ref: \"<axis_model_name>\"。"@,
    )
}

pub open spec fn missing_config_issue(d: Seq<char>) -> (Seq<char>, Seq<char>) {
    (
        "[AXP-002] axis device '"@ + d + "' is missing config_ref."@,
        "请在轴设备上声明 config_ref: \"<axis_config_name>\"。"@,
    )
}

pub open spec fn unknown_model_issue(mr: Seq<char>, d: Seq<char>) -> (Seq<char>, Seq<char>) {
    (
        "[AXP-003] axis model '"@ + mr + "' referenced by '"@ + d + "' is not found."@,
        "请在 axis_models/"@ + mr + ".toml 中定义该型号，或修正 model_ref。"@,
    )
}

pub open spec fn unknown_config_issue(cr: Seq<char>, d: Seq<char>) -> (Seq<char>, Seq<char>) {
    (
        "[AXP-004] axis config '"@ + cr + "' referenced by '"@ + d + "' is not found."@,
        "请在 axis_configs/"@ + cr + ".toml 中定义该配置，或修正 config_ref。"@,
    )
}

pub open spec fn type_mismatch_issue(mr: Seq<char>, d: Seq<char>, expected: Seq<char>, got: Seq<char>) -> (
    Seq<char>,
    Seq<char>,
) {
    (
        "[AXP-003] model '"@ + mr + "' type mismatch for '"@ + d + "': expected "@ + expected
            + ", got "@ + got + "."@,
        "请为该设备选择同类型轴型号。"@,
    )
}

pub open spec fn unknown_family_issue(mr: Seq<char>, fid: Seq<char>, d: Seq<char>) -> (
    Seq<char>,
    Seq<char>,
) {
    (
        "[AXP-007] axis model '"@ + mr + "' references unknown family_id '"@ + fid + "' for '"@
            + d + "'."@,
        "请在 axis_families/"@ + fid + ".toml 中定义该 family，或修正 model.family_id。"@,
    )
}

pub open spec fn unknown_class_issue(family: Seq<char>, cid: Seq<char>, d: Seq<char>) -> (
    Seq<char>,
    Seq<char>,
) {
    (
        "[AXP-008] axis family '"@ + family + "' references unknown motor_class_id '"@ + cid
            + "' for '"@ + d + "'."@,
        "请在 axis_motor_classes/"@ + cid + ".toml 中定义该 motor_class，或修正 family.motor_class_id。"@,
    )
}

pub open spec fn unit_mismatch_issue(
    d: Seq<char>,
    mr: Seq<char>,
    model_unit: Seq<char>,
    cr: Seq<char>,
    config_unit: Seq<char>,
) -> (Seq<char>, Seq<char>) {
    (
        "[AXP-005] axis unit mismatch on '"@ + d + "': model '"@ + mr + "' uses "@ + model_unit
            + ", config '"@ + cr + "' uses "@ + config_unit + "."@,
        "请统一 model_ref/config_ref 的 position_unit。"@,
    )
}

pub open spec fn config_model_issue(cr: Seq<char>, model_id: Seq<char>, d: Seq<char>, mr: Seq<char>) -> (
    Seq<char>,
    Seq<char>,
) {
    (
        "[AXP-009] axis config '"@ + cr + "' is bound to model '"@ + model_id + "' but '"@ + d
            + "' uses model_ref '"@ + mr + "'."@,
        "请确保 config.model_id 与设备上的 model_ref 完全一致。"@,
    )
}

pub open spec fn unknown_set_issue(d: Seq<char>, sn: Seq<char>) -> (Seq<char>, Seq<char>) {
    (
        "[AXP-010] axis device '"@ + d + "' references unknown motion_param_set '"@ + sn + "'."@,
        "请在 axis_motion_param_sets/"@ + sn + ".toml 中定义该参数集，或修正 motion_param_set。"@,
    )
}

pub open spec fn set_config_issue(sn: Seq<char>, config_id: Seq<char>, d: Seq<char>, cr: Seq<char>) -> (
    Seq<char>,
    Seq<char>,
) {
    (
        "[AXP-010] motion_param_set '"@ + sn + "' is bound to config '"@ + config_id + "' but '"@
            + d + "' uses config_ref '"@ + cr + "'."@,
        "请确保 motion_param_set.config_id 与设备上的 config_ref 一致。"@,
    )
}

fn inline_params_issue_exec(d: &str, names: &Vec<String>) -> (r: AxisIssue)
    ensures
        issue_view(r) == inline_params_issue(d@, names@.map_values(|s: String| s@)),
{
    let sorted = sorted_names(names);
    let joined = join_exec(&sorted, ", ");
    let mut m = owned("[AXP-006] axis device '");
    push_str(&mut m, d);
    push_str(&mut m, "' no longer accepts inline axis params: ");
    push_str(&mut m, joined.as_str());
    AxisIssue { message: m, reason: owned("请删除这些旧字段，并改为在设备上声明 model_ref/config_ref。") }
}

fn missing_model_issue_exec(d: &str) -> (r: AxisIssue)
    ensures
        issue_view(r) == missing_model_issue(d@),
{
    let mut m = owned("[AXP-001] axis device '");
    push_str(&mut m, d);
    push_str(&mut m, "' is missing model_ref.");
    AxisIssue { message: m, reason: owned("请在轴设备上声明 model_ref: \"<axis_model_name>\"。") }
}

fn missing_config_issue_exec(d: &str) -> (r: AxisIssue)
    ensures
        issue_view(r) == missing_config_issue(d@),
{
    let mut m = owned("[AXP-002] axis device '");
    push_str(&mut m, d);
    push_str(&mut m, "' is missing config_ref.");
    AxisIssue { message: m, reason: owned("请在轴设备上声明 config_ref: \"<axis_config_name>\"。") }
}

fn unknown_model_issue_exec(mr: &[char], d: &str) -> (r: AxisIssue)
    ensures
        issue_view(r) == unknown_model_issue(mr@, d@),
{
    let mut m = owned("[AXP-003] axis model '");
    push_chars(&mut m, mr);
    push_str(&mut m, "' referenced by '");
    push_str(&mut m, d);
    push_str(&mut m, "' is not found.");
    let mut h = owned("请在 axis_models/");
    push_chars(&mut h, mr);
    push_str(&mut h, ".toml 中定义该型号，或修正 model_ref。");
    AxisIssue { message: m, reason: h }
}

fn unknown_config_issue_exec(cr: &[char], d: &str) -> (r: AxisIssue)
    ensures
        issue_view(r) == unknown_config_issue(cr@, d@),
{
    let mut m = owned("[AXP-004] axis config '");
    push_chars(&mut m, cr);
    push_str(&mut m, "' referenced by '");
    push_str(&mut m, d);
    push_str(&mut m, "' is not found.");
    let mut h = owned("请在 axis_configs/");
    push_chars(&mut h, cr);
    push_str(&mut h, ".toml 中定义该配置，或修正 config_ref。");
    AxisIssue { message: m, reason: h }
}

fn type_mismatch_issue_exec(mr: &[char], d: &str, expected: &str, got: &str) -> (r: AxisIssue)
    ensures
        issue_view(r) == type_mismatch_issue(mr@, d@, expected@, got@),
{
    let mut m = owned("[AXP-003] model '");
    push_chars(&mut m, mr);
    push_str(&mut m, "' type mismatch for '");
    push_str(&mut m, d);
    push_str(&mut m, "': expected ");
    push_str(&mut m, expected);
    push_str(&mut m, ", got ");
    push_str(&mut m, got);
    push_str(&mut m, ".");
    AxisIssue { message: m, reason: owned("请为该设备选择同类型轴型号。") }
}

fn unknown_family_issue_exec(mr: &[char], fid: &str, d: &str) -> (r: AxisIssue)
    ensures
        issue_view(r) == unknown_family_issue(mr@, fid@, d@),
{
    let mut m = owned("[AXP-007] axis model '");
    push_chars(&mut m, mr);
    push_str(&mut m, "' references unknown family_id '");
    push_str(&mut m, fid);
    push_str(&mut m, "' for '");
    push_str(&mut m, d);
    push_str(&mut m, "'.");
    let mut h = owned("请在 axis_families/");
    push_str(&mut h, fid);
    push_str(&mut h, ".toml 中定义该 family，或修正 model.family_id。");
    AxisIssue { message: m, reason: h }
}

fn unknown_class_issue_exec(family: &str, cid: &str, d: &str) -> (r: AxisIssue)
    ensures
        issue_view(r) == unknown_class_issue(family@, cid@, d@),
{
    let mut m = owned("[AXP-008] axis family '");
    push_str(&mut m, family);
    push_str(&mut m, "' references unknown motor_class_id '");
    push_str(&mut m, cid);
    push_str(&mut m, "' for '");
    push_str(&mut m, d);
    push_str(&mut m, "'.");
    let mut h = owned("请在 axis_motor_classes/");
    push_str(&mut h, cid);
    push_str(&mut h, ".toml 中定义该 motor_class，或修正 family.motor_class_id。");
    AxisIssue { message: m, reason: h }
}

fn unit_mismatch_issue_exec(d: &str, mr: &[char], model_unit: &str, cr: &[char], config_unit: &str) -> (r:
    AxisIssue)
    ensures
        issue_view(r) == unit_mismatch_issue(d@, mr@, model_unit@, cr@, config_unit@),
{
    let mut m = owned("[AXP-005] axis unit mismatch on '");
    push_str(&mut m, d);
    push_str(&mut m, "': model '");
    push_chars(&mut m, mr);
    push_str(&mut m, "' uses ");
    push_str(&mut m, model_unit);
    push_str(&mut m, ", config '");
    push_chars(&mut m, cr);
    push_str(&mut m, "' uses ");
    push_str(&mut m, config_unit);
    push_str(&mut m, ".");
    AxisIssue { message: m, reason: owned("请统一 model_ref/config_ref 的 position_unit。") }
}

fn config_model_issue_exec(cr: &[char], model_id: &str, d: &str, mr: &[char]) -> (r: AxisIssue)
    ensures
        issue_view(r) == config_model_issue(cr@, model_id@, d@, mr@),
{
    let mut m = owned("[AXP-009] axis config '");
    push_chars(&mut m, cr);
    push_str(&mut m, "' is bound to model '");
    push_str(&mut m, model_id);
    push_str(&mut m, "' but '");
    push_str(&mut m, d);
    push_str(&mut m, "' uses model_ref '");
    push_chars(&mut m, mr);
    push_str(&mut m, "'.");
    AxisIssue { message: m, reason: owned("请确保 config.model_id 与设备上的 model_ref 完全一致。") }
}

fn unknown_set_issue_exec(d: &str, sn: &[char]) -> (r: AxisIssue)
    ensures
        issue_view(r) == unknown_set_issue(d@, sn@),
{
    let mut m = owned("[AXP-010] axis device '");
    push_str(&mut m, d);
    push_str(&mut m, "' references unknown motion_param_set '");
    push_chars(&mut m, sn);
    push_str(&mut m, "'.");
    let mut h = owned("请在 axis_motion_param_sets/");
    push_chars(&mut h, sn);
    push_str(&mut h, ".toml 中定义该参数集，或修正 motion_param_set。");
    AxisIssue { message: m, reason: h }
}

fn set_config_issue_exec(sn: &[char], config_id: &str, d: &str, cr: &str) -> (r: AxisIssue)
    ensures
        issue_view(r) == set_config_issue(sn@, config_id@, d@, cr@),
{
    let mut m = owned("[AXP-010] motion_param_set '");
    push_chars(&mut m, sn);
    push_str(&mut m, "' is bound to config '");
    push_str(&mut m, config_id);
    push_str(&mut m, "' but '");
    push_str(&mut m, d);
    push_str(&mut m, "' uses config_ref '");
    push_str(&mut m, cr);
    push_str(&mut m, "'.");
    AxisIssue { message: m, reason: owned("请确保 motion_param_set.config_id 与设备上的 config_ref 一致。") }
}

// ---------------------------------------------------------------------------
// Resolving a device
// ---------------------------------------------------------------------------

/// A resolved chain as positions: the two references, then the model,
/// config, family and motor class.
pub open spec fn chain_view(ch: AxisRefChain) -> (Seq<char>, Seq<char>, int, int, int, int) {
    (ch.model_ref@, ch.config_ref@, ch.model as int, ch.config as int, ch.family as int, ch.motor_class as int)
}

pub open spec fn refs_outcome(r: Result<AxisRefChain, AxisIssue>) -> Result<
    (Seq<char>, Seq<char>, int, int, int, int),
    (Seq<char>, Seq<char>),
> {
    match r {
        Ok(ch) => Ok(chain_view(ch)),
        Err(e) => Err(issue_view(e)),
    }
}

/// The checks on names and units, in the order they are made; the first
/// that fails decides the issue.
pub open spec fn resolve_refs(d: AxisDeviceRefs, c: AxisCatalog) -> Result<
    (Seq<char>, Seq<char>, int, int, int, int),
    (Seq<char>, Seq<char>),
> {
    let name = d.name@;
    if d.inline_params@.len() > 0 {
        Err(inline_params_issue(name, d.inline_params@.map_values(|s: String| s@)))
    } else {
        match given_ref(d.model_ref) {
            None => Err(missing_model_issue(name)),
            Some(mr) => match given_ref(d.config_ref) {
                None => Err(missing_config_issue(name)),
                Some(cr) => match find_name(model_names(c), mr) {
                    None => Err(unknown_model_issue(mr, name)),
                    Some(mi) => match find_name(config_names(c), cr) {
                        None => Err(unknown_config_issue(cr, name)),
                        Some(ci) => {
                            let m = c.models@[mi];
                            let g = c.configs@[ci];
                            let expected = axis_type_label(d.device_type);
                            if trim(m.device_type@) != expected {
                                Err(type_mismatch_issue(mr, name, expected, m.device_type@))
                            } else {
                                match find_name(family_names(c), trim(m.family_id@)) {
                                    None => Err(unknown_family_issue(mr, m.family_id@, name)),
                                    Some(fi) => {
                                        let f = c.families@[fi];
                                        match find_name(class_names(c), trim(f.motor_class_id@)) {
                                            None => Err(
                                                unknown_class_issue(f.name@, f.motor_class_id@, name),
                                            ),
                                            Some(ki) => if trim(m.position_unit@) != trim(
                                                g.position_unit@,
                                            ) {
                                                Err(
                                                    unit_mismatch_issue(
                                                        name,
                                                        mr,
                                                        m.position_unit@,
                                                        cr,
                                                        g.position_unit@,
                                                    ),
                                                )
                                            } else if trim(g.model_id@) != mr {
                                                Err(config_model_issue(cr, g.model_id@, name, mr))
                                            } else {
                                                Ok((mr, cr, mi, ci, fi, ki))
                                            },
                                        }
                                    },
                                }
                            }
                        },
                    },
                },
            },
        }
    }
}

/// Resolves the model, config, family and motor class an axis device
/// refers to, or says which check on names and units it fails first.
pub fn resolve_axis_refs(device: &AxisDeviceRefs, catalog: &AxisCatalog) -> (r: Result<
    AxisRefChain,
    AxisIssue,
>)
    ensures
        refs_outcome(r) == resolve_refs(*device, *catalog),
        r matches Ok(ch) ==> {
            &&& ch.model < catalog.models@.len()
            &&& ch.config < catalog.configs@.len()
            &&& ch.family < catalog.families@.len()
            &&& ch.motor_class < catalog.motor_classes@.len()
        },
{
    let name = device.name.as_str();
    if device.inline_params.len() > 0 {
        return Err(inline_params_issue_exec(name, &device.inline_params));
    }
    let mr = match given_ref_exec(&device.model_ref) {
        Some(v) => v,
        None => {
            return Err(missing_model_issue_exec(name));
        },
    };
    let cr = match given_ref_exec(&device.config_ref) {
        Some(v) => v,
        None => {
            return Err(missing_config_issue_exec(name));
        },
    };
    let models = model_name_chars(catalog);
    let mi = match find_in(&models, mr.as_slice()) {
        Some(i) => i,
        None => {
            return Err(unknown_model_issue_exec(mr.as_slice(), name));
        },
    };
    let configs = config_name_chars(catalog);
    let ci = match find_in(&configs, cr.as_slice()) {
        Some(i) => i,
        None => {
            return Err(unknown_config_issue_exec(cr.as_slice(), name));
        },
    };
    proof {
        lemma_find_name_found(model_names(*catalog), mr@, 0);
        lemma_find_name_found(config_names(*catalog), cr@, 0);
    }
    let m = &catalog.models[mi];
    let g = &catalog.configs[ci];
    let expected = axis_type_name(&device.device_type);
    let mt = trim_chars(chars_of(m.device_type.as_str()).as_slice());
    let ev = chars_of(expected);
    if !eq_chars(mt.as_slice(), ev.as_slice()) {
        return Err(type_mismatch_issue_exec(mr.as_slice(), name, expected, m.device_type.as_str()));
    }
    let fid = trim_chars(chars_of(m.family_id.as_str()).as_slice());
    let families = family_name_chars(catalog);
    let fi = match find_in(&families, fid.as_slice()) {
        Some(i) => i,
        None => {
            return Err(unknown_family_issue_exec(mr.as_slice(), m.family_id.as_str(), name));
        },
    };
    proof {
        lemma_find_name_found(family_names(*catalog), fid@, 0);
    }
    let f = &catalog.families[fi];
    let cid = trim_chars(chars_of(f.motor_class_id.as_str()).as_slice());
    let classes = class_name_chars(catalog);
    let ki = match find_in(&classes, cid.as_slice()) {
        Some(i) => i,
        None => {
            return Err(
                unknown_class_issue_exec(f.name.as_str(), f.motor_class_id.as_str(), name),
            );
        },
    };
    proof {
        lemma_find_name_found(class_names(*catalog), cid@, 0);
    }
    let mu = trim_chars(chars_of(m.position_unit.as_str()).as_slice());
    let gu = trim_chars(chars_of(g.position_unit.as_str()).as_slice());
    if !eq_chars(mu.as_slice(), gu.as_slice()) {
        return Err(
            unit_mismatch_issue_exec(
                name,
                mr.as_slice(),
                m.position_unit.as_str(),
                cr.as_slice(),
                g.position_unit.as_str(),
            ),
        );
    }
    let gm = trim_chars(chars_of(g.model_id.as_str()).as_slice());
    if !eq_chars(gm.as_slice(), mr.as_slice()) {
        return Err(config_model_issue_exec(cr.as_slice(), g.model_id.as_str(), name, mr.as_slice()));
    }
    Ok(
        AxisRefChain {
            model_ref: string_of(mr.as_slice()),
            config_ref: string_of(cr.as_slice()),
            model: mi,
            config: ci,
            family: fi,
            motor_class: ki,
        },
    )
}

/// The motion parameter set a device names, checked against the config
/// reference it resolved to: `Ok(None)` when it names none.
pub open spec fn resolve_param_set(d: AxisDeviceRefs, c: AxisCatalog, cr: Seq<char>) -> Result<
    Option<int>,
    (Seq<char>, Seq<char>),
> {
    match given_ref(d.motion_param_set) {
        None => Ok(None),
        Some(sn) => match find_name(set_names(c), sn) {
            None => Err(unknown_set_issue(d.name@, sn)),
            Some(pi) => if trim(c.param_sets@[pi].config_id@) != cr {
                Err(set_config_issue(sn, c.param_sets@[pi].config_id@, d.name@, cr))
            } else {
                Ok(Some(pi))
            },
        },
    }
}

pub open spec fn set_outcome(r: Result<Option<usize>, AxisIssue>) -> Result<
    Option<int>,
    (Seq<char>, Seq<char>),
> {
    match r {
        Ok(o) => Ok(opt_index(o)),
        Err(e) => Err(issue_view(e)),
    }
}

/// Resolves the motion parameter set an axis device may name, once its
/// config reference `config_ref` is known.
pub fn resolve_axis_param_set(device: &AxisDeviceRefs, catalog: &AxisCatalog, config_ref: &str) -> (r:
    Result<Option<usize>, AxisIssue>)
    ensures
        set_outcome(r) == resolve_param_set(*device, *catalog, config_ref@),
        r matches Ok(Some(i)) ==> i < catalog.param_sets@.len(),
{
    let sn = match given_ref_exec(&device.motion_param_set) {
        Some(v) => v,
        None => {
            return Ok(None);
        },
    };
    let sets = set_name_chars(catalog);
    let pi = match find_in(&sets, sn.as_slice()) {
        Some(i) => i,
        None => {
            return Err(unknown_set_issue_exec(device.name.as_str(), sn.as_slice()));
        },
    };
    proof {
        lemma_find_name_found(set_names(*catalog), sn@, 0);
    }
    let ps = &catalog.param_sets[pi];
    let pc = trim_chars(chars_of(ps.config_id.as_str()).as_slice());
    let cv = chars_of(config_ref);
    if !eq_chars(pc.as_slice(), cv.as_slice()) {
        return Err(
            set_config_issue_exec(
                sn.as_slice(),
                ps.config_id.as_str(),
                device.name.as_str(),
                config_ref,
            ),
        );
    }
    Ok(Some(pi))
}

// ---------------------------------------------------------------------------
// What a resolved device is guaranteed
// ---------------------------------------------------------------------------

/// A device that resolves has a chain that links up: it declares no inline
/// parameters; its references, trimmed, are the names of the model and the
/// config found; the model is of the device's kind; the family is the one the
/// model names and the motor class the one the family names; model and config
/// use one position unit; and the config is bound to the model referred to.
pub proof fn law_resolved_chain_links_up(d: AxisDeviceRefs, c: AxisCatalog)
    requires
        resolve_refs(d, c) is Ok,
    ensures
        ({
            let ch = resolve_refs(d, c)->Ok_0;
            let m = c.models@[ch.2];
            let g = c.configs@[ch.3];
            let f = c.families@[ch.4];
            &&& d.inline_params@.len() == 0
            &&& given_ref(d.model_ref) == Some(ch.0)
            &&& given_ref(d.config_ref) == Some(ch.1)
            &&& 0 <= ch.2 < c.models@.len() && m.name@ == ch.0
            &&& 0 <= ch.3 < c.configs@.len() && g.name@ == ch.1
            &&& 0 <= ch.4 < c.families@.len() && f.name@ == trim(m.family_id@)
            &&& 0 <= ch.5 < c.motor_classes@.len() && c.motor_classes@[ch.5]@ == trim(
                f.motor_class_id@,
            )
            &&& trim(m.device_type@) == axis_type_label(d.device_type)
            &&& trim(m.position_unit@) == trim(g.position_unit@)
            &&& trim(g.model_id@) == ch.0
        }),
{
    let mr = given_ref(d.model_ref)->0;
    let cr = given_ref(d.config_ref)->0;
    lemma_find_name_found(model_names(c), mr, 0);
    lemma_find_name_found(config_names(c), cr, 0);
    let mi = find_name(model_names(c), mr)->0;
    let m = c.models@[mi];
    lemma_find_name_found(family_names(c), trim(m.family_id@), 0);
    let fi = find_name(family_names(c), trim(m.family_id@))->0;
    let f = c.families@[fi];
    lemma_find_name_found(class_names(c), trim(f.motor_class_id@), 0);
}

/// A parameter set that resolves is the one the device names, and it is
/// bound to the config the device refers to.
pub proof fn law_resolved_param_set_is_bound(d: AxisDeviceRefs, c: AxisCatalog, cr: Seq<char>)
    requires
        resolve_param_set(d, c, cr) matches Ok(Some(_)),
    ensures
        ({
            let pi = resolve_param_set(d, c, cr)->Ok_0->0;
            &&& 0 <= pi < c.param_sets@.len()
            &&& given_ref(d.motion_param_set) == Some(c.param_sets@[pi].name@)
            &&& trim(c.param_sets@[pi].config_id@) == cr
        }),
{
    let sn = given_ref(d.motion_param_set)->0;
    lemma_find_name_found(set_names(c), sn, 0);
}


proof fn lemma_find_name_first(names: Seq<Seq<char>>, k: Seq<char>, i: int, j: int)
    requires
        0 <= j <= i < names.len(),
        names[i] == k,
        forall|q: int| 0 <= q < i ==> names[q] != k,
    ensures
        find_name_from(names, k, j) == Some(i),
    decreases i - j,
{
    if j < i {
        lemma_find_name_first(names, k, i, j + 1);
    }
}

/// A device resolves when every check on names and units passes: no inline
/// parameters; its trimmed references name a model (the first of that name)
/// of the device's own type and a config (the first of that name); the
/// model's family and the family's motor class exist; the model's and the
/// config's units agree; and the config is bound to the model. The chain
/// then holds exactly those entries.
pub proof fn law_consistent_device_resolves(
    d: AxisDeviceRefs,
    c: AxisCatalog,
    mr: Seq<char>,
    cr: Seq<char>,
    mi: int,
    gi: int,
    fi: int,
    ki: int,
)
    requires
        d.inline_params@.len() == 0,
        given_ref(d.model_ref) == Some(mr),
        given_ref(d.config_ref) == Some(cr),
        0 <= mi < c.models@.len(),
        c.models@[mi].name@ == mr,
        forall|q: int| 0 <= q < mi ==> (#[trigger] c.models@[q]).name@ != mr,
        0 <= gi < c.configs@.len(),
        c.configs@[gi].name@ == cr,
        forall|q: int| 0 <= q < gi ==> (#[trigger] c.configs@[q]).name@ != cr,
        trim(c.models@[mi].device_type@) == axis_type_label(d.device_type),
        0 <= fi < c.families@.len(),
        c.families@[fi].name@ == trim(c.models@[mi].family_id@),
        forall|q: int| 0 <= q < fi ==> (#[trigger] c.families@[q]).name@ != trim(c.models@[mi].family_id@),
        0 <= ki < c.motor_classes@.len(),
        c.motor_classes@[ki]@ == trim(c.families@[fi].motor_class_id@),
        forall|q: int| 0 <= q < ki ==> (#[trigger] c.motor_classes@[q])@ != trim(c.families@[fi].motor_class_id@),
        trim(c.models@[mi].position_unit@) == trim(c.configs@[gi].position_unit@),
        trim(c.configs@[gi].model_id@) == mr,
    ensures
        resolve_refs(d, c) == Ok::<(Seq<char>, Seq<char>, int, int, int, int), (Seq<char>, Seq<char>)>(
            (mr, cr, mi, gi, fi, ki),
        ),
{
    let m = c.models@[mi];
    let f = c.families@[fi];
    assert forall|q: int| 0 <= q < mi implies model_names(c)[q] != mr by {
        assert(model_names(c)[q] == c.models@[q].name@);
    }
    lemma_find_name_first(model_names(c), mr, mi, 0);
    assert forall|q: int| 0 <= q < gi implies config_names(c)[q] != cr by {
        assert(config_names(c)[q] == c.configs@[q].name@);
    }
    lemma_find_name_first(config_names(c), cr, gi, 0);
    assert forall|q: int| 0 <= q < fi implies family_names(c)[q] != trim(m.family_id@) by {
        assert(family_names(c)[q] == c.families@[q].name@);
    }
    lemma_find_name_first(family_names(c), trim(m.family_id@), fi, 0);
    assert forall|q: int| 0 <= q < ki implies class_names(c)[q] != trim(f.motor_class_id@) by {
        assert(class_names(c)[q] == c.motor_classes@[q]@);
    }
    lemma_find_name_first(class_names(c), trim(f.motor_class_id@), ki, 0);
}

} // verus!
