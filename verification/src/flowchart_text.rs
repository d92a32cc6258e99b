//! The text pieces of the flowchart report: statement summaries, label
//! clipping and wrapping, and the HTML fragments of the report page.
use vstd::prelude::*;
use crate::ast::{BinaryOperator, ComparisonOperator, DurationValue, EffectKind, EffectStatement, GotoDirective, TimeUnit};
use crate::text::{
    ascii_lower, ascii_lower_exec, chars_of, contains, contains_exec, decimal, format_u64,
    format_usize, join, join_exec, owned, push_chars, push_str, replace_all, replace_all_exec,
    split_on, split_on_exec, split_ws, split_ws_of, starts_with, starts_with_exec, string_of,
    sub_chars, ends_with, ends_with_exec, push_char,
};

verus! {

// ---------------------------------------------------------------------------
// Calls into std that vstd does not specify
// ---------------------------------------------------------------------------

/// What `str::to_lowercase` returns (full Unicode lower-casing).
pub uninterp spec fn spec_to_lowercase(s: Seq<char>) -> Seq<char>;

/// `str::to_lowercase`; the result is named, not described.
#[verifier::external_body]
fn to_lowercase(s: &str) -> (r: String)
    ensures
        r@ == spec_to_lowercase(s@),
{
    s.to_lowercase()
}

/// What `format!("{:?}", v)` writes for a list of strings.
pub uninterp spec fn spec_debug_strings(v: Seq<Seq<char>>) -> Seq<char>;

/// The `Debug` rendering of a list of strings (`["a", "b"]`, with the
/// escapes of `str::escape_debug`); the result is named, not described.
#[verifier::external_body]
pub(crate) fn debug_strings(v: &Vec<String>) -> (r: String)
    ensures
        r@ == spec_debug_strings(v@.map_values(|s: String| s@)),
{
    format!("{:?}", v)
}

/// What `format!("{:?}", s)` writes for a string.
pub uninterp spec fn spec_debug_str(s: Seq<char>) -> Seq<char>;

/// The `Debug` rendering of a string (quoted, with the escapes of
/// `str::escape_debug`); the result is named, not described.
#[verifier::external_body]
pub(crate) fn debug_str(s: &str) -> (r: String)
    ensures
        r@ == spec_debug_str(s@),
{
    format!("{:?}", s)
}

// ---------------------------------------------------------------------------
// HTML escaping
// ---------------------------------------------------------------------------

pub open spec fn escape_char(c: char) -> Seq<char> {
    if c == '&' {
        "&amp;"@
    } else if c == '<' {
        "&lt;"@
    } else if c == '>' {
        "&gt;"@
    } else if c == '"' {
        "&quot;"@
    } else if c == '\'' {
        "&#39;"@
    } else {
        seq![c]
    }
}

/// Each of `& < > " '` replaced by its entity.
pub open spec fn spec_html_escape(s: Seq<char>) -> Seq<char>
    decreases s.len(),
{
    if s.len() == 0 {
        seq![]
    } else {
        spec_html_escape(s.drop_last()) + escape_char(s.last())
    }
}

pub fn html_escape(value: &str) -> (r: String)
    ensures
        r@ == spec_html_escape(value@),
{
    let v = chars_of(value);
    let mut out = String::new();
    let mut i: usize = 0;
    while i < v.len()
        invariant
            i <= v@.len(),
            v@ == value@,
            out@ == spec_html_escape(v@.subrange(0, i as int)),
        decreases v@.len() - i,
    {
        assert(v@.subrange(0, i + 1).drop_last() =~= v@.subrange(0, i as int));
        let c = v[i];
        if c == '&' {
            push_str(&mut out, "&amp;");
        } else if c == '<' {
            push_str(&mut out, "&lt;");
        } else if c == '>' {
            push_str(&mut out, "&gt;");
        } else if c == '"' {
            push_str(&mut out, "&quot;");
        } else if c == '\'' {
            push_str(&mut out, "&#39;");
        } else {
            push_char(&mut out, c);
            assert(out@ =~= spec_html_escape(v@.subrange(0, i as int)) + seq![c]);
        }
        i += 1;
    }
    assert(v@.subrange(0, v@.len() as int) =~= v@);
    out
}

/// Escaped text holds none of `<`, `>`, `"`, `'`, so it cannot open or close
/// a tag or an attribute.
pub proof fn law_html_escape_is_inert(s: Seq<char>)
    ensures
        forall|i: int|
            0 <= i < spec_html_escape(s).len() ==> {
                let c = #[trigger] spec_html_escape(s)[i];
                c != '<' && c != '>' && c != '"' && c != '\''
            },
    decreases s.len(),
{
    reveal_strlit("&amp;");
    reveal_strlit("&lt;");
    reveal_strlit("&gt;");
    reveal_strlit("&quot;");
    reveal_strlit("&#39;");
    if s.len() > 0 {
        law_html_escape_is_inert(s.drop_last());
        let a = spec_html_escape(s.drop_last());
        let b = escape_char(s.last());
        assert forall|i: int| 0 <= i < (a + b).len() implies {
            let c = #[trigger] (a + b)[i];
            c != '<' && c != '>' && c != '"' && c != '\''
        } by {
            if i >= a.len() {
                assert((a + b)[i] == b[i - a.len()]);
            } else {
                assert((a + b)[i] == a[i]);
            }
        }
    }
}

// ---------------------------------------------------------------------------
// Clipping and wrapping
// ---------------------------------------------------------------------------

/// The first `max` characters, followed by `...` when there were more.
pub open spec fn spec_truncate_label(s: Seq<char>, max: nat) -> Seq<char> {
    if s.len() > max {
        s.subrange(0, max as int) + "..."@
    } else {
        s
    }
}

pub fn truncate_label(value: &str, max_chars: usize) -> (r: String)
    ensures
        r@ == spec_truncate_label(value@, max_chars as nat),
{
    let v = chars_of(value);
    if v.len() > max_chars {
        let head = sub_chars(v.as_slice(), 0, max_chars);
        let mut out = string_of(head.as_slice());
        push_str(&mut out, "...");
        out
    } else {
        assert(v@.subrange(0, v@.len() as int) =~= v@);
        string_of(v.as_slice())
    }
}

/// The state of `wrap_text_lines` after a prefix of the text: the finished
/// lines, the line being filled, and whether the line limit stopped it.
pub open spec fn wrap_scan(s: Seq<char>, max_chars: nat, max_lines: nat) -> (
    Seq<Seq<char>>,
    Seq<char>,
    bool,
)
    decreases s.len(),
{
    if s.len() == 0 {
        (seq![], seq![], false)
    } else {
        let (lines, cur, stopped) = wrap_scan(s.drop_last(), max_chars, max_lines);
        if stopped {
            (lines, cur, true)
        } else {
            let cur2 = cur.push(s.last());
            if cur2.len() >= max_chars {
                let lines2 = lines.push(cur2);
                (lines2, seq![], lines2.len() >= max_lines)
            } else {
                (lines, cur2, false)
            }
        }
    }
}

/// The text cut into lines of `max_chars` characters, at most `max_lines`
/// of them (a last, shorter line only when there is room); `-` for no
/// lines; the last line marked with `...` when the text was longer than
/// `max_chars * max_lines`.
pub open spec fn spec_wrap_text_lines(s: Seq<char>, max_chars: nat, max_lines: nat) -> Seq<Seq<char>> {
    let (lines, cur, stopped) = wrap_scan(s, max_chars, max_lines);
    let l1 = if lines.len() < max_lines && cur.len() > 0 {
        lines.push(cur)
    } else {
        lines
    };
    let l2 = if l1.len() == 0 {
        seq!["-"@]
    } else {
        l1
    };
    if s.len() > max_chars * max_lines && !ends_with(l2.last(), "..."@) {
        l2.update(l2.len() - 1, l2.last() + "..."@)
    } else {
        l2
    }
}

pub open spec fn lines_view(v: Seq<String>) -> Seq<Seq<char>> {
    v.map_values(|s: String| s@)
}

pub fn wrap_text_lines(value: &str, max_chars: usize, max_lines: usize) -> (r: Vec<String>)
    requires
        max_chars * max_lines <= usize::MAX,
    ensures
        lines_view(r@) == spec_wrap_text_lines(value@, max_chars as nat, max_lines as nat),
{
    let v = chars_of(value);
    let mut lines: Vec<Vec<char>> = Vec::new();
    let mut cur: Vec<char> = Vec::new();
    let mut stopped = false;
    let mut i: usize = 0;
    while i < v.len()
        invariant
            i <= v@.len(),
            v@ == value@,
            (lines@.map_values(|x: Vec<char>| x@), cur@, stopped) == wrap_scan(
                v@.subrange(0, i as int),
                max_chars as nat,
                max_lines as nat,
            ),
        decreases v@.len() - i,
    {
        assert(v@.subrange(0, i + 1).drop_last() =~= v@.subrange(0, i as int));
        if !stopped {
            cur.push(v[i]);
            if cur.len() >= max_chars {
                let full = cur;
                let ghost l0 = lines@;
                lines.push(full);
                assert(lines@.map_values(|x: Vec<char>| x@) =~= l0.map_values(|x: Vec<char>| x@).push(
                    full@,
                ));
                cur = Vec::new();
                stopped = lines.len() >= max_lines;
            }
        }
        i += 1;
    }
    assert(v@.subrange(0, v@.len() as int) =~= v@);
    let ghost lv = lines@.map_values(|x: Vec<char>| x@);
    let mut out: Vec<String> = Vec::new();
    let mut k: usize = 0;
    while k < lines.len()
        invariant
            k <= lines@.len(),
            lv == lines@.map_values(|x: Vec<char>| x@),
            lines_view(out@) == lv.subrange(0, k as int),
        decreases lines@.len() - k,
    {
        let ghost o0 = out@;
        out.push(string_of(lines[k].as_slice()));
        assert(lines_view(out@) =~= lines_view(o0).push(lv[k as int]));
        k += 1;
        assert(lv.subrange(0, k as int) =~= lv.subrange(0, k - 1).push(lv[k - 1]));
    }
    assert(lv.subrange(0, lv.len() as int) =~= lv);
    if lines.len() < max_lines && cur.len() > 0 {
        let ghost o0 = out@;
        out.push(string_of(cur.as_slice()));
        assert(lines_view(out@) =~= lines_view(o0).push(cur@));
    }
    if out.len() == 0 {
        out.push(owned("-"));
        assert(lines_view(out@) =~= seq!["-"@]);
    }
    let dots = chars_of("...");
    if v.len() > max_chars * max_lines {
        let last_i = out.len() - 1;
        let last = chars_of(out[last_i].as_str());
        if !ends_with_exec(last.as_slice(), dots.as_slice()) {
            let mut s = string_of(last.as_slice());
            push_str(&mut s, "...");
            let ghost o0 = out@;
            out.set(last_i, s);
            assert(lines_view(out@) =~= lines_view(o0).update(last_i as int, lines_view(o0).last() + "..."@));
        }
    }
    out
}

/// The statements wrapped one after another into at most `max_lines` lines
/// in all.
pub open spec fn flatten_scan(values: Seq<Seq<char>>, max_chars: nat, max_lines: nat) -> Seq<
    Seq<char>,
>
    decreases values.len(),
{
    if values.len() == 0 {
        seq![]
    } else {
        let out = flatten_scan(values.drop_last(), max_chars, max_lines);
        if out.len() >= max_lines {
            out
        } else {
            let room: nat = (max_lines - out.len()) as nat;
            let wrapped = spec_wrap_text_lines(values.last(), max_chars, room);
            let take: nat = if wrapped.len() < room {
                wrapped.len()
            } else {
                room
            };
            out + wrapped.subrange(0, take as int)
        }
    }
}

pub fn flatten_statement_lines(values: &Vec<String>, max_chars: usize, max_lines: usize) -> (r: Vec<
    String,
>)
    requires
        max_chars * max_lines <= usize::MAX,
    ensures
        lines_view(r@) == flatten_scan(lines_view(values@), max_chars as nat, max_lines as nat),
{
    let ghost vv = lines_view(values@);
    let mut out: Vec<String> = Vec::new();
    let mut i: usize = 0;
    while i < values.len()
        invariant
            i <= values@.len(),
            vv == lines_view(values@),
            max_chars * max_lines <= usize::MAX,
            lines_view(out@) == flatten_scan(vv.subrange(0, i as int), max_chars as nat, max_lines as nat),
            out@.len() <= max_lines,
        decreases values@.len() - i,
    {
        assert(vv.subrange(0, i + 1).drop_last() =~= vv.subrange(0, i as int));
        assert(vv.subrange(0, i + 1).last() == values@[i as int]@);
        if out.len() >= max_lines {
            assert(flatten_scan(vv.subrange(0, i + 1), max_chars as nat, max_lines as nat)
                == flatten_scan(vv.subrange(0, i as int), max_chars as nat, max_lines as nat));
            i += 1;
            continue;
        }
        let room = max_lines - out.len();
        proof {
            assert(max_chars * room <= max_chars * max_lines) by (nonlinear_arith)
                requires
                    room <= max_lines,
            ;
        }
        let wrapped = wrap_text_lines(values[i].as_str(), max_chars, room);
        let ghost o0 = out@;
        let mut k: usize = 0;
        while k < wrapped.len() && out.len() < max_lines
            invariant
                k <= wrapped@.len(),
                k <= room,
                out@.len() == o0.len() + k,
                o0.len() + room == max_lines,
                lines_view(out@) == lines_view(o0) + lines_view(wrapped@).subrange(0, k as int),
            decreases wrapped@.len() - k,
        {
            let ghost o1 = out@;
            out.push(owned(wrapped[k].as_str()));
            assert(lines_view(out@) =~= lines_view(o1).push(wrapped@[k as int]@));
            k += 1;
            assert(lines_view(wrapped@).subrange(0, k as int) =~= lines_view(wrapped@).subrange(
                0,
                k - 1,
            ).push(wrapped@[k - 1]@));
        }
        proof {
            let take: nat = if wrapped@.len() < room {
                wrapped@.len()
            } else {
                room as nat
            };
            assert(k == take);
            assert(lines_view(wrapped@) == spec_wrap_text_lines(
                vv[i as int],
                max_chars as nat,
                room as nat,
            ));
            assert(lines_view(out@) == flatten_scan(
                vv.subrange(0, i + 1),
                max_chars as nat,
                max_lines as nat,
            ));
        }
        i += 1;
    }
    assert(vv.subrange(0, vv.len() as int) =~= vv);
    out
}

// ---------------------------------------------------------------------------
// Names and summaries
// ---------------------------------------------------------------------------

/// The last two path components (after turning `\` into `/`), or the whole
/// normalized path when it has fewer.
pub open spec fn spec_short_source(s: Seq<char>) -> Seq<char> {
    let norm = replace_all(s, "\\"@, "/"@);
    let parts = split_on(norm, '/');
    if parts.len() >= 2 {
        parts[parts.len() - 2] + "/"@ + parts[parts.len() - 1]
    } else {
        norm
    }
}

pub fn short_source(value: &str) -> (r: String)
    ensures
        r@ == spec_short_source(value@),
{
    let v = chars_of(value);
    let bs = chars_of("\\");
    let sl = chars_of("/");
    proof {
        reveal_strlit("\\");
    }
    let norm = replace_all_exec(v.as_slice(), bs.as_slice(), sl.as_slice());
    let parts = split_on_exec(norm.as_slice(), '/');
    let ghost pv = parts@.map_values(|x: Vec<char>| x@);
    if parts.len() >= 2 {
        let n = parts.len();
        let mut out = string_of(parts[n - 2].as_slice());
        push_str(&mut out, "/");
        push_chars(&mut out, parts[n - 1].as_slice());
        assert(pv[n - 2] == parts@[n - 2]@);
        assert(pv[n - 1] == parts@[n - 1]@);
        out
    } else {
        string_of(norm.as_slice())
    }
}

/// The role that a task's name suggests (ASCII case ignored).
pub open spec fn spec_task_role(name: Seq<char>) -> Seq<char> {
    let l = ascii_lower(name);
    if contains(l, "fault"@) || contains(l, "warning"@) {
        "fault / warning"@
    } else if contains(l, "manual"@) || contains(l, "maintenance"@) || contains(l, "check"@) {
        "manual / maintenance"@
    } else if contains(l, "startup"@) {
        "startup / self-check"@
    } else if contains(l, "supervisor"@) || contains(l, "monitor"@) || contains(l, "architecture"@) {
        "control gate"@
    } else {
        "process / motion"@
    }
}

pub fn task_role_label(task_name: &str) -> (r: &'static str)
    ensures
        r@ == spec_task_role(task_name@),
{
    let n = chars_of(task_name);
    let l = ascii_lower_exec(n.as_slice());
    let has = |w: &str| -> (b: bool)
        ensures
            b == contains(l@, w@),
        {
            let wv = chars_of(w);
            contains_exec(l.as_slice(), wv.as_slice())
        };
    if has("fault") || has("warning") {
        "fault / warning"
    } else if has("manual") || has("maintenance") || has("check") {
        "manual / maintenance"
    } else if has("startup") {
        "startup / self-check"
    } else if has("supervisor") || has("monitor") || has("architecture") {
        "control gate"
    } else {
        "process / motion"
    }
}

pub open spec fn binary_op_symbol(op: BinaryOperator) -> Seq<char> {
    match op {
        BinaryOperator::Add => "+"@,
        BinaryOperator::Sub => "-"@,
        BinaryOperator::Mul => "*"@,
        BinaryOperator::Div => "/"@,
        BinaryOperator::Mod => "%"@,
        BinaryOperator::Eq => "=="@,
        BinaryOperator::Neq => "!="@,
        BinaryOperator::Gt => ">"@,
        BinaryOperator::Lt => "<"@,
        BinaryOperator::Gte => ">="@,
        BinaryOperator::Lte => "<="@,
        BinaryOperator::And => "AND"@,
        BinaryOperator::Or => "OR"@,
    }
}

pub fn summarize_binary_op(op: BinaryOperator) -> (r: &'static str)
    ensures
        r@ == binary_op_symbol(op),
{
    match op {
        BinaryOperator::Add => "+",
        BinaryOperator::Sub => "-",
        BinaryOperator::Mul => "*",
        BinaryOperator::Div => "/",
        BinaryOperator::Mod => "%",
        BinaryOperator::Eq => "==",
        BinaryOperator::Neq => "!=",
        BinaryOperator::Gt => ">",
        BinaryOperator::Lt => "<",
        BinaryOperator::Gte => ">=",
        BinaryOperator::Lte => "<=",
        BinaryOperator::And => "AND",
        BinaryOperator::Or => "OR",
    }
}

pub open spec fn compare_op_symbol(op: ComparisonOperator) -> Seq<char> {
    match op {
        ComparisonOperator::Eq => "=="@,
        ComparisonOperator::Neq => "!="@,
        ComparisonOperator::Gt => ">"@,
        ComparisonOperator::Lt => "<"@,
        ComparisonOperator::Gte => ">="@,
        ComparisonOperator::Lte => "<="@,
    }
}

pub fn summarize_compare_op(op: &ComparisonOperator) -> (r: &'static str)
    ensures
        r@ == compare_op_symbol(*op),
{
    match op {
        ComparisonOperator::Eq => "==",
        ComparisonOperator::Neq => "!=",
        ComparisonOperator::Gt => ">",
        ComparisonOperator::Lt => "<",
        ComparisonOperator::Gte => ">=",
        ComparisonOperator::Lte => "<=",
    }
}

/// A duration as `<value>ms` or `<value>s`.
pub open spec fn spec_summarize_duration(d: DurationValue) -> Seq<char> {
    decimal(d.value as nat) + match d.unit {
        TimeUnit::Ms => "ms"@,
        TimeUnit::S => "s"@,
    }
}

pub fn summarize_duration(duration: &DurationValue) -> (r: String)
    ensures
        r@ == spec_summarize_duration(*duration),
{
    let mut out = format_u64(duration.value);
    match duration.unit {
        TimeUnit::Ms => push_str(&mut out, "ms"),
        TimeUnit::S => push_str(&mut out, "s"),
    }
    out
}

/// A jump target as `task.step`, or `task` alone.
pub open spec fn spec_summarize_goto(g: GotoDirective) -> Seq<char> {
    match g.step {
        Some(step) => g.task@ + "."@ + step@,
        None => g.task@,
    }
}

pub fn summarize_goto(goto: &GotoDirective) -> (r: String)
    ensures
        r@ == spec_summarize_goto(*goto),
{
    match &goto.step {
        Some(step) => {
            let mut out = owned(goto.task.as_str());
            push_str(&mut out, ".");
            push_str(&mut out, step.as_str());
            out
        },
        None => owned(goto.task.as_str()),
    }
}

pub open spec fn bool_text(b: bool) -> Seq<char> {
    if b {
        "true"@
    } else {
        "false"@
    }
}

/// One line per workpiece effect.
pub open spec fn spec_summarize_effect(e: EffectKind) -> Seq<char> {
    match e {
        EffectKind::Acquire { holder, from } => "acquire "@ + holder@ + " from "@ + from@,
        EffectKind::Transfer { from, to } => "transfer "@ + from@ + " -> "@ + to@,
        EffectKind::Finish { at, terminal_state } => "finish "@ + at@ + " as "@ + terminal_state@,
        EffectKind::Mount { workpiece_type, slot } => "mount "@ + workpiece_type@ + " at "@ + slot@,
        EffectKind::Unmount { workpiece_type, slot, to } => "unmount "@ + workpiece_type@
            + " from "@ + slot@ + " to "@ + to@,
        EffectKind::Split { source_type, target_type, count, consumed } => "split "@
            + source_type@ + " -> "@ + decimal(count as nat) + " "@ + target_type@
            + " consumed="@ + bool_text(consumed),
        EffectKind::Merge { inputs, target_type, consumed_inputs } => "merge "@
            + spec_debug_strings(inputs@.map_values(|s: String| s@)) + " -> "@ + target_type@
            + " consumed="@ + bool_text(consumed_inputs),
        EffectKind::TransformCarrier { carrier, frame } => "transform carrier "@ + carrier@
            + " frame="@ + frame@,
    }
}

fn push_bool(out: &mut String, b: bool)
    ensures
        final(out)@ == old(out)@ + bool_text(b),
{
    if b {
        push_str(out, "true");
    } else {
        push_str(out, "false");
    }
}

pub fn summarize_effect_statement(effect: &EffectStatement) -> (r: String)
    ensures
        r@ == spec_summarize_effect(effect.kind),
{
    match &effect.kind {
        EffectKind::Acquire { holder, from } => {
            let mut out = owned("acquire ");
            push_str(&mut out, holder.as_str());
            push_str(&mut out, " from ");
            push_str(&mut out, from.as_str());
            out
        },
        EffectKind::Transfer { from, to } => {
            let mut out = owned("transfer ");
            push_str(&mut out, from.as_str());
            push_str(&mut out, " -> ");
            push_str(&mut out, to.as_str());
            out
        },
        EffectKind::Finish { at, terminal_state } => {
            let mut out = owned("finish ");
            push_str(&mut out, at.as_str());
            push_str(&mut out, " as ");
            push_str(&mut out, terminal_state.as_str());
            out
        },
        EffectKind::Mount { workpiece_type, slot } => {
            let mut out = owned("mount ");
            push_str(&mut out, workpiece_type.as_str());
            push_str(&mut out, " at ");
            push_str(&mut out, slot.as_str());
            out
        },
        EffectKind::Unmount { workpiece_type, slot, to } => {
            let mut out = owned("unmount ");
            push_str(&mut out, workpiece_type.as_str());
            push_str(&mut out, " from ");
            push_str(&mut out, slot.as_str());
            push_str(&mut out, " to ");
            push_str(&mut out, to.as_str());
            out
        },
        EffectKind::Split { source_type, target_type, count, consumed } => {
            let mut out = owned("split ");
            push_str(&mut out, source_type.as_str());
            push_str(&mut out, " -> ");
            let c = format_u64(*count as u64);
            push_str(&mut out, c.as_str());
            push_str(&mut out, " ");
            push_str(&mut out, target_type.as_str());
            push_str(&mut out, " consumed=");
            push_bool(&mut out, *consumed);
            out
        },
        EffectKind::Merge { inputs, target_type, consumed_inputs } => {
            let mut out = owned("merge ");
            let d = debug_strings(inputs);
            push_str(&mut out, d.as_str());
            push_str(&mut out, " -> ");
            push_str(&mut out, target_type.as_str());
            push_str(&mut out, " consumed=");
            push_bool(&mut out, *consumed_inputs);
            out
        },
        EffectKind::TransformCarrier { carrier, frame } => {
            let mut out = owned("transform carrier ");
            push_str(&mut out, carrier.as_str());
            push_str(&mut out, " frame=");
            push_str(&mut out, frame.as_str());
            out
        },
    }
}

// ---------------------------------------------------------------------------
// Canonical statement text
// ---------------------------------------------------------------------------

/// Lower-cased, the operator words `add`, `subtract`, `multiply`, `divide`
/// (between spaces) turned into symbols, and the whitespace runs collapsed to
/// single spaces.
pub open spec fn spec_canonicalize_text(s: Seq<char>) -> Seq<char> {
    let l = spec_to_lowercase(s);
    let r1 = replace_all(l, " add "@, " + "@);
    let r2 = replace_all(r1, " subtract "@, " - "@);
    let r3 = replace_all(r2, " multiply "@, " * "@);
    let r4 = replace_all(r3, " divide "@, " / "@);
    let r5 = replace_all(r4, " true"@, " true"@);
    let r6 = replace_all(r5, " false"@, " false"@);
    join(split_ws(r6), " "@)
}

fn replace_lit(v: &Vec<char>, pat: &str, rep: &str) -> (r: Vec<char>)
    requires
        pat@.len() > 0,
    ensures
        r@ == replace_all(v@, pat@, rep@),
{
    let p = chars_of(pat);
    let q = chars_of(rep);
    replace_all_exec(v.as_slice(), p.as_slice(), q.as_slice())
}

pub fn canonicalize_flowchart_text(value: &str) -> (r: String)
    ensures
        r@ == spec_canonicalize_text(value@),
{
    let lower = to_lowercase(value);
    let l = chars_of(lower.as_str());
    proof {
        reveal_strlit(" add ");
        reveal_strlit(" subtract ");
        reveal_strlit(" multiply ");
        reveal_strlit(" divide ");
        reveal_strlit(" true");
        reveal_strlit(" false");
    }
    let r1 = replace_lit(&l, " add ", " + ");
    let r2 = replace_lit(&r1, " subtract ", " - ");
    let r3 = replace_lit(&r2, " multiply ", " * ");
    let r4 = replace_lit(&r3, " divide ", " / ");
    let r5 = replace_lit(&r4, " true", " true");
    let r6 = replace_lit(&r5, " false", " false");
    let words = split_ws_of(r6.as_slice());
    join_exec(&words, " ")
}

/// The canonical text without `some(`, parentheses and `.0`, for comparing
/// a transition's facts with a step's statements.
pub open spec fn spec_compare_key(s: Seq<char>) -> Seq<char> {
    let c = spec_canonicalize_text(s);
    let k1 = replace_all(c, "some("@, ""@);
    let k2 = replace_all(k1, "("@, ""@);
    let k3 = replace_all(k2, ")"@, ""@);
    replace_all(k3, ".0"@, ""@)
}

pub fn canonicalize_flowchart_compare_key(value: &str) -> (r: String)
    ensures
        r@ == spec_compare_key(value@),
{
    let c = canonicalize_flowchart_text(value);
    let cv = chars_of(c.as_str());
    proof {
        reveal_strlit("some(");
        reveal_strlit("(");
        reveal_strlit(")");
        reveal_strlit(".0");
    }
    let k1 = replace_lit(&cv, "some(", "");
    let k2 = replace_lit(&k1, "(", "");
    let k3 = replace_lit(&k2, ")", "");
    let k4 = replace_lit(&k3, ".0", "");
    string_of(k4.as_slice())
}

/// Whether a step statement belongs in the step's body: waits, delays,
/// timeouts and jumps are drawn as transitions instead.
pub open spec fn is_body_statement(s: Seq<char>) -> bool {
    let n = spec_canonicalize_text(s);
    !(starts_with(n, "wait "@) || starts_with(n, "delay "@) || starts_with(n, "timeout "@)
        || starts_with(n, "goto "@))
}

pub open spec fn spec_step_body(statements: Seq<Seq<char>>) -> Seq<Seq<char>> {
    statements.filter(|s: Seq<char>| is_body_statement(s))
}

pub fn step_body_lines(statements: &Vec<String>) -> (r: Vec<String>)
    ensures
        lines_view(r@) == spec_step_body(lines_view(statements@)),
{
    let ghost sv = lines_view(statements@);
    let mut out: Vec<String> = Vec::new();
    let mut i: usize = 0;
    while i < statements.len()
        invariant
            i <= statements@.len(),
            sv == lines_view(statements@),
            lines_view(out@) == spec_step_body(sv.subrange(0, i as int)),
        decreases statements@.len() - i,
    {
        let n = canonicalize_flowchart_text(statements[i].as_str());
        let nv = chars_of(n.as_str());
        let w = chars_of("wait ");
        let d = chars_of("delay ");
        let t = chars_of("timeout ");
        let g = chars_of("goto ");
        let skip = starts_with_exec(nv.as_slice(), w.as_slice()) || starts_with_exec(
            nv.as_slice(),
            d.as_slice(),
        ) || starts_with_exec(nv.as_slice(), t.as_slice()) || starts_with_exec(
            nv.as_slice(),
            g.as_slice(),
        );
        let ghost o0 = out@;
        assert(sv.subrange(0, i + 1).drop_last() =~= sv.subrange(0, i as int));
        assert(sv.subrange(0, i + 1).last() == statements@[i as int]@);
        if !skip {
            out.push(owned(statements[i].as_str()));
            assert(lines_view(out@) =~= lines_view(o0).push(statements@[i as int]@));
        }
        proof {
            reveal_with_fuel(Seq::filter, 1);
        }
        i += 1;
    }
    assert(sv.subrange(0, sv.len() as int) =~= sv);
    out
}

// ---------------------------------------------------------------------------
// HTML fragments
// ---------------------------------------------------------------------------

pub open spec fn compact_items(vs: Seq<Seq<char>>) -> Seq<char>
    decreases vs.len(),
{
    if vs.len() == 0 {
        seq![]
    } else {
        compact_items(vs.drop_last()) + "<li>"@ + spec_html_escape(vs.last()) + "</li>"@
    }
}

/// A list of at most 80 escaped items, then a count of the rest.
pub open spec fn spec_render_compact_list(vs: Seq<Seq<char>>) -> Seq<char> {
    if vs.len() == 0 {
        "<p>-</p>"@
    } else {
        let shown = if vs.len() > 80 {
            vs.subrange(0, 80)
        } else {
            vs
        };
        "<ul class=\"compact\">"@ + compact_items(shown) + (if vs.len() > 80 {
            "<li>... "@ + decimal((vs.len() - 80) as nat) + " more</li>"@
        } else {
            seq![]
        }) + "</ul>"@
    }
}

pub fn render_compact_list(values: &Vec<String>) -> (r: String)
    ensures
        r@ == spec_render_compact_list(lines_view(values@)),
{
    let ghost vv = lines_view(values@);
    if values.len() == 0 {
        return owned("<p>-</p>");
    }
    let mut out = owned("<ul class=\"compact\">");
    let ghost o0 = out@;
    let n: usize = if values.len() > 80 {
        80
    } else {
        values.len()
    };
    let mut i: usize = 0;
    while i < n
        invariant
            i <= n <= values@.len(),
            vv == lines_view(values@),
            out@ == o0 + compact_items(vv.subrange(0, i as int)),
        decreases n - i,
    {
        assert(vv.subrange(0, i + 1).drop_last() =~= vv.subrange(0, i as int));
        assert(vv.subrange(0, i + 1).last() == values@[i as int]@);
        push_str(&mut out, "<li>");
        let e = html_escape(values[i].as_str());
        push_str(&mut out, e.as_str());
        push_str(&mut out, "</li>");
        i += 1;
        assert(out@ =~= o0 + compact_items(vv.subrange(0, i as int)));
    }
    assert(n == vv.len() ==> vv.subrange(0, n as int) =~= vv);
    if values.len() > 80 {
        push_str(&mut out, "<li>... ");
        let m = format_usize(values.len() - 80);
        push_str(&mut out, m.as_str());
        push_str(&mut out, " more</li>");
    }
    push_str(&mut out, "</ul>");
    out
}

} // verus!
