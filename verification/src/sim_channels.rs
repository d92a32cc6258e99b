//! Channel and variable names of the simulator's online force, online
//! variable and retain features: how a user-written name is read, and where
//! the audit and state files go by default.
use vstd::prelude::*;
use crate::flowchart_text::{debug_strings, spec_debug_strings};
use crate::text::{
    ascii_lower, ascii_lower_exec, chars_of, decimal, eq_chars, format_u64, owned, is_ws,
    lemma_decimal_parses, trim_end, trim_start, digit_char,
    parse_unsigned, parse_unsigned_exec, push_chars, push_str, split_once, split_once_exec,
    starts_with, starts_with_exec, string_of, sub_chars, trim, trim_chars,
};
use std::collections::BTreeMap;

verus! {

// ---------------------------------------------------------------------------
// Online force channels
// ---------------------------------------------------------------------------

#[derive(Debug, Clone, Copy, PartialEq, Eq, Structural)]
pub enum OnlineForceChannelKind {
    Di,
    Ai,
    Do,
    Ao,
}

pub open spec fn force_kind_label(k: OnlineForceChannelKind) -> Seq<char> {
    match k {
        OnlineForceChannelKind::Di => "digital_input"@,
        OnlineForceChannelKind::Ai => "analog_input"@,
        OnlineForceChannelKind::Do => "digital_output"@,
        OnlineForceChannelKind::Ao => "analog_output"@,
    }
}

pub open spec fn force_kind_short(k: OnlineForceChannelKind) -> Seq<char> {
    match k {
        OnlineForceChannelKind::Di => seq!['d', 'i'],
        OnlineForceChannelKind::Ai => seq!['a', 'i'],
        OnlineForceChannelKind::Do => seq!['d', 'o'],
        OnlineForceChannelKind::Ao => seq!['a', 'o'],
    }
}

impl OnlineForceChannelKind {
    pub fn label(self) -> (r: &'static str)
        ensures
            r@ == force_kind_label(self),
    {
        match self {
            OnlineForceChannelKind::Di => "digital_input",
            OnlineForceChannelKind::Ai => "analog_input",
            OnlineForceChannelKind::Do => "digital_output",
            OnlineForceChannelKind::Ao => "analog_output",
        }
    }

    pub fn short(self) -> (r: &'static str)
        ensures
            r@ == force_kind_short(self),
    {
        let r = match self {
            OnlineForceChannelKind::Di => "di",
            OnlineForceChannelKind::Ai => "ai",
            OnlineForceChannelKind::Do => "do",
            OnlineForceChannelKind::Ao => "ao",
        };
        proof {
            reveal_strlit("di");
            reveal_strlit("ai");
            reveal_strlit("do");
            reveal_strlit("ao");
        }
        r
    }
}

/// The kind whose two-letter prefix starts `token`, tried in the order
/// DI, AI, DO, AO.
pub open spec fn force_kind_of_prefix(token: Seq<char>) -> Option<OnlineForceChannelKind> {
    if starts_with(token, seq!['d', 'i']) {
        Some(OnlineForceChannelKind::Di)
    } else if starts_with(token, seq!['a', 'i']) {
        Some(OnlineForceChannelKind::Ai)
    } else if starts_with(token, seq!['d', 'o']) {
        Some(OnlineForceChannelKind::Do)
    } else if starts_with(token, seq!['a', 'o']) {
        Some(OnlineForceChannelKind::Ao)
    } else {
        None
    }
}

/// A force channel such as `DI3` or ` ao12 `: the trimmed, lower-cased name
/// is a kind prefix followed by a `u16` id.
pub open spec fn spec_parse_online_force_channel(raw: Seq<char>) -> Result<
    (OnlineForceChannelKind, u16),
    Seq<char>,
> {
    let token = ascii_lower(trim(raw));
    match force_kind_of_prefix(token) {
        None => Err("invalid channel `"@ + raw + "` (expected DI<n>/AI<n>/DO<n>/AO<n>)"@),
        Some(kind) => {
            let tail = token.subrange(2, token.len() as int);
            if tail.len() == 0 {
                Err("invalid channel `"@ + raw + "` (missing numeric id after kind prefix)"@)
            } else {
                match parse_unsigned(tail, u16::MAX as nat) {
                    Some(n) => Ok((kind, n as u16)),
                    None => Err("invalid channel `"@ + raw + "` (id must be u16)"@),
                }
            }
        },
    }
}

fn invalid_channel(raw: &str, tail: &str) -> (r: String)
    ensures
        r@ == "invalid channel `"@ + raw@ + tail@,
{
    let mut out = owned("invalid channel `");
    push_str(&mut out, raw);
    push_str(&mut out, tail);
    out
}

pub fn parse_online_force_channel(raw: &str) -> (r: Result<(OnlineForceChannelKind, u16), String>)
    ensures
        match r {
            Ok(p) => spec_parse_online_force_channel(raw@) == Ok::<
                (OnlineForceChannelKind, u16),
                Seq<char>,
            >(p),
            Err(e) => spec_parse_online_force_channel(raw@) == Err::<
                (OnlineForceChannelKind, u16),
                Seq<char>,
            >(e@),
        },
{
    let v = chars_of(raw);
    let t = trim_chars(v.as_slice());
    let token = ascii_lower_exec(t.as_slice());
    let di = vec!['d', 'i'];
    let ai = vec!['a', 'i'];
    let dout = vec!['d', 'o'];
    let ao = vec!['a', 'o'];
    assert(di@ =~= seq!['d', 'i']);
    assert(ai@ =~= seq!['a', 'i']);
    assert(dout@ =~= seq!['d', 'o']);
    assert(ao@ =~= seq!['a', 'o']);
    let kind = if starts_with_exec(token.as_slice(), di.as_slice()) {
        OnlineForceChannelKind::Di
    } else if starts_with_exec(token.as_slice(), ai.as_slice()) {
        OnlineForceChannelKind::Ai
    } else if starts_with_exec(token.as_slice(), dout.as_slice()) {
        OnlineForceChannelKind::Do
    } else if starts_with_exec(token.as_slice(), ao.as_slice()) {
        OnlineForceChannelKind::Ao
    } else {
        return Err(invalid_channel(raw, "` (expected DI<n>/AI<n>/DO<n>/AO<n>)"));
    };
    let tail = sub_chars(token.as_slice(), 2, token.len());
    if tail.len() == 0 {
        return Err(invalid_channel(raw, "` (missing numeric id after kind prefix)"));
    }
    match parse_unsigned_exec(tail.as_slice(), 65535) {
        Some(n) => Ok((kind, n as u16)),
        None => Err(invalid_channel(raw, "` (id must be u16)")),
    }
}

/// A text whose first and last characters are not whitespace is its own
/// trimmed form.
proof fn lemma_trim_plain(s: Seq<char>)
    requires
        s.len() > 0,
        !is_ws(s[0]),
        !is_ws(s.last()),
    ensures
        crate::text::trim(s) == s,
{
    assert(trim_start(s) == s);
    assert(trim_end(s) == s);
}

proof fn lemma_decimal_chars(n: nat)
    ensures
        forall|i: int| 0 <= i < decimal(n).len() ==> '0' <= #[trigger] decimal(n)[i] <= '9',
    decreases n,
{
    if n >= 10 {
        lemma_decimal_chars(n / 10);
        assert forall|i: int| 0 <= i < decimal(n).len() implies '0' <= #[trigger] decimal(n)[i] <= '9' by {
            if i < decimal(n / 10).len() {
                assert(decimal(n)[i] == decimal(n / 10)[i]);
            } else {
                assert(decimal(n)[i] == digit_char(n % 10));
            }
        }
    }
}

/// A channel written as its kind's short name and its id (`di3`, `ao12`)
/// reads back as that channel.
pub proof fn law_force_channel_round_trip(kind: OnlineForceChannelKind, id: u16)
    ensures
        spec_parse_online_force_channel(force_kind_short(kind) + decimal(id as nat)) == Ok::<
            (OnlineForceChannelKind, u16),
            Seq<char>,
        >((kind, id)),
{
    let d = decimal(id as nat);
    let s = force_kind_short(kind) + d;
    lemma_decimal_parses(id as nat, u16::MAX as nat);
    lemma_decimal_chars(id as nat);
    assert(s[0] == force_kind_short(kind)[0]);
    assert(s.last() == d.last());
    assert(d.last() == d[d.len() - 1]);
    lemma_trim_plain(s);
    assert(ascii_lower(s) =~= s) by {
        assert forall|i: int| 0 <= i < s.len() implies ascii_lower(s)[i] == s[i] by {
            if i >= 2 {
                assert(s[i] == d[i - 2]);
            }
        }
    }
    assert(s.subrange(2, s.len() as int) =~= d);
    assert(s.subrange(0, 2) =~= force_kind_short(kind));
    assert(force_kind_of_prefix(s) == Some(kind)) by {
        match kind {
            OnlineForceChannelKind::Di => {},
            OnlineForceChannelKind::Ai => {
                assert(s.subrange(0, 2) != seq!['d', 'i']) by {
                    assert(s.subrange(0, 2)[0] == 'a');
                }
            },
            OnlineForceChannelKind::Do => {
                assert(s.subrange(0, 2) != seq!['d', 'i']) by {
                    assert(s.subrange(0, 2)[1] == 'o');
                }
                assert(s.subrange(0, 2) != seq!['a', 'i']) by {
                    assert(s.subrange(0, 2)[0] == 'd');
                }
            },
            OnlineForceChannelKind::Ao => {
                assert(s.subrange(0, 2) != seq!['d', 'i']) by {
                    assert(s.subrange(0, 2)[0] == 'a');
                }
                assert(s.subrange(0, 2) != seq!['a', 'i']) by {
                    assert(s.subrange(0, 2)[1] == 'o');
                }
                assert(s.subrange(0, 2) != seq!['d', 'o']) by {
                    assert(s.subrange(0, 2)[0] == 'a');
                }
            },
        }
    }
}

// ---------------------------------------------------------------------------
// Online variables
// ---------------------------------------------------------------------------

#[derive(Debug, Clone, Copy, PartialEq, Eq, Structural)]
pub enum OnlineVariableKind {
    Bool,
    Real,
}

pub open spec fn variable_kind_label(k: OnlineVariableKind) -> Seq<char> {
    match k {
        OnlineVariableKind::Bool => "bool"@,
        OnlineVariableKind::Real => "real"@,
    }
}

impl OnlineVariableKind {
    pub fn label(self) -> (r: &'static str)
        ensures
            r@ == variable_kind_label(self),
    {
        match self {
            OnlineVariableKind::Bool => "bool",
            OnlineVariableKind::Real => "real",
        }
    }
}

/// The schema version that an online-variable bindings file must carry.
pub fn online_var_binding_schema_version() -> (r: u32)
    ensures
        r == 1,
{
    1
}

/// The schema version of a retain configuration and of a retain state file.
pub fn retain_schema_version() -> (r: u32)
    ensures
        r == 1,
{
    1
}

/// The key under which a variable is looked up: trimmed, ASCII lower-case.
pub open spec fn spec_normalize_variable_name(raw: Seq<char>) -> Seq<char> {
    ascii_lower(trim(raw))
}

pub fn normalize_online_variable_name(raw: &str) -> (r: String)
    ensures
        r@ == spec_normalize_variable_name(raw@),
{
    let v = chars_of(raw);
    let t = trim_chars(v.as_slice());
    let l = ascii_lower_exec(t.as_slice());
    string_of(l.as_slice())
}

pub open spec fn is_ascii_alnum(c: char) -> bool {
    ('0' <= c <= '9') || ('A' <= c <= 'Z') || ('a' <= c <= 'z')
}

pub open spec fn is_variable_name_char(c: char) -> bool {
    is_ascii_alnum(c) || c == '_' || c == '-' || c == '.'
}

pub open spec fn variable_kind_of_prefix(k: Seq<char>) -> Option<OnlineVariableKind> {
    if k == "bool"@ || k == "boolean"@ {
        Some(OnlineVariableKind::Bool)
    } else if k == "real"@ || k == "float"@ || k == "f32"@ {
        Some(OnlineVariableKind::Real)
    } else {
        None
    }
}

/// A variable target such as `BOOL:start_button`: a type prefix (`bool`,
/// `boolean`, `real`, `float` or `f32`, in any case) and a name made of
/// `[A-Za-z0-9_.-]`, around a `:`.
pub open spec fn spec_parse_online_variable_target(raw: Seq<char>) -> Result<
    (OnlineVariableKind, Seq<char>),
    Seq<char>,
> {
    let token = trim(raw);
    match split_once(token, ':') {
        None => Err("invalid variable `"@ + raw + "` (expected BOOL:<name> or REAL:<name>)"@),
        Some(parts) => {
            let kind_raw = parts.0;
            match variable_kind_of_prefix(ascii_lower(trim(kind_raw))) {
                None => Err(
                    "invalid variable `"@ + raw + "` (unknown type prefix `"@ + kind_raw
                        + "`; expected BOOL or REAL)"@,
                ),
                Some(kind) => {
                    let name = trim(parts.1);
                    if name.len() == 0 {
                        Err("invalid variable `"@ + raw + "` (name cannot be empty)"@)
                    } else if !(forall|i: int|
                        0 <= i < name.len() ==> is_variable_name_char(#[trigger] name[i])) {
                        Err(
                            "invalid variable `"@ + raw
                                + "` (name must contain only [A-Za-z0-9_.-])"@,
                        )
                    } else {
                        Ok((kind, name))
                    }
                },
            }
        },
    }
}

fn invalid_variable(raw: &str, tail: &str) -> (r: String)
    ensures
        r@ == "invalid variable `"@ + raw@ + tail@,
{
    let mut out = owned("invalid variable `");
    push_str(&mut out, raw);
    push_str(&mut out, tail);
    out
}

fn all_variable_name_chars(v: &[char]) -> (r: bool)
    ensures
        r == (forall|i: int| 0 <= i < v@.len() ==> is_variable_name_char(#[trigger] v@[i])),
{
    let mut i: usize = 0;
    while i < v.len()
        invariant
            i <= v@.len(),
            forall|j: int| 0 <= j < i ==> is_variable_name_char(#[trigger] v@[j]),
        decreases v@.len() - i,
    {
        let c = v[i];
        let ok = ('0' <= c && c <= '9') || ('A' <= c && c <= 'Z') || ('a' <= c && c <= 'z') || c
            == '_' || c == '-' || c == '.';
        if !ok {
            assert(!is_variable_name_char(v@[i as int]));
            return false;
        }
        i += 1;
    }
    true
}

fn variable_kind_of_prefix_exec(k: &[char]) -> (r: Option<OnlineVariableKind>)
    ensures
        r == variable_kind_of_prefix(k@),
{
    let b1 = chars_of("bool");
    let b2 = chars_of("boolean");
    let r1 = chars_of("real");
    let r2 = chars_of("float");
    let r3 = chars_of("f32");
    if eq_chars(k, b1.as_slice()) || eq_chars(k, b2.as_slice()) {
        Some(OnlineVariableKind::Bool)
    } else if eq_chars(k, r1.as_slice()) || eq_chars(k, r2.as_slice()) || eq_chars(
        k,
        r3.as_slice(),
    ) {
        Some(OnlineVariableKind::Real)
    } else {
        None
    }
}

pub fn parse_online_variable_target(raw: &str) -> (r: Result<(OnlineVariableKind, String), String>)
    ensures
        match r {
            Ok(p) => spec_parse_online_variable_target(raw@) == Ok::<
                (OnlineVariableKind, Seq<char>),
                Seq<char>,
            >((p.0, p.1@)),
            Err(e) => spec_parse_online_variable_target(raw@) == Err::<
                (OnlineVariableKind, Seq<char>),
                Seq<char>,
            >(e@),
        },
{
    let v = chars_of(raw);
    let token = trim_chars(v.as_slice());
    let (kind_raw, name_raw) = match split_once_exec(token.as_slice(), ':') {
        Some(p) => p,
        None => {
            return Err(invalid_variable(raw, "` (expected BOOL:<name> or REAL:<name>)"));
        },
    };
    let kt = trim_chars(kind_raw.as_slice());
    let kl = ascii_lower_exec(kt.as_slice());
    let kind = match variable_kind_of_prefix_exec(kl.as_slice()) {
        Some(k) => k,
        None => {
            let mut out = invalid_variable(raw, "` (unknown type prefix `");
            push_chars(&mut out, kind_raw.as_slice());
            push_str(&mut out, "`; expected BOOL or REAL)");
            return Err(out);
        },
    };
    let name = trim_chars(name_raw.as_slice());
    if name.len() == 0 {
        return Err(invalid_variable(raw, "` (name cannot be empty)"));
    }
    if !all_variable_name_chars(name.as_slice()) {
        return Err(invalid_variable(raw, "` (name must contain only [A-Za-z0-9_.-])"));
    }
    Ok((kind, string_of(name.as_slice())))
}

// ---------------------------------------------------------------------------
// Retain channel ids
// ---------------------------------------------------------------------------

pub open spec fn strs_view(v: Seq<&str>) -> Seq<Seq<char>> {
    v.map_values(|s: &str| s@)
}

/// After a key that is not a bare number: the first prefix that starts the
/// lower-cased key decides, and what follows it must be a `u16`.
pub open spec fn retain_prefix_scan(raw: Seq<char>, lower: Seq<char>, prefixes: Seq<Seq<char>>, i: int) -> Result<
    u16,
    Seq<char>,
>
    decreases prefixes.len() - i,
{
    if i < 0 || i >= prefixes.len() {
        Err(
            "invalid retain channel key `"@ + raw + "` (expected prefixes "@ + spec_debug_strings(
                prefixes,
            ) + " + integer id)"@,
        )
    } else if starts_with(lower, prefixes[i]) {
        match parse_unsigned(lower.subrange(prefixes[i].len() as int, lower.len() as int), u16::MAX as nat) {
            Some(n) => Ok(n as u16),
            None => Err(
                "invalid retain channel key `"@ + raw + "` (expected <id> or "@ + prefixes[i]
                    + "<id>)"@,
            ),
        }
    } else {
        retain_prefix_scan(raw, lower, prefixes, i + 1)
    }
}

/// A retain channel key: a bare `u16`, or one of `prefixes` (matched
/// without regard to ASCII case) followed by a `u16`; surrounding
/// whitespace is ignored.
pub open spec fn spec_parse_retain_channel_id(raw: Seq<char>, prefixes: Seq<Seq<char>>) -> Result<
    u16,
    Seq<char>,
> {
    let token = trim(raw);
    if token.len() == 0 {
        Err("channel id key cannot be empty"@)
    } else {
        match parse_unsigned(token, u16::MAX as nat) {
            Some(n) => Ok(n as u16),
            None => retain_prefix_scan(raw, ascii_lower(token), prefixes, 0),
        }
    }
}

fn debug_str_list(prefixes: &[&str]) -> (r: String)
    ensures
        r@ == spec_debug_strings(strs_view(prefixes@)),
{
    let mut v: Vec<String> = Vec::new();
    let mut i: usize = 0;
    while i < prefixes.len()
        invariant
            i <= prefixes@.len(),
            v@.len() == i,
            forall|j: int| 0 <= j < i ==> (#[trigger] v@[j])@ == prefixes@[j]@,
        decreases prefixes@.len() - i,
    {
        v.push(owned(prefixes[i]));
        i += 1;
    }
    assert(v@.map_values(|s: String| s@) =~= strs_view(prefixes@));
    debug_strings(&v)
}

pub fn parse_retain_channel_id(raw: &str, prefixes: &[&str]) -> (r: Result<u16, String>)
    ensures
        match r {
            Ok(n) => spec_parse_retain_channel_id(raw@, strs_view(prefixes@)) == Ok::<
                u16,
                Seq<char>,
            >(n),
            Err(e) => spec_parse_retain_channel_id(raw@, strs_view(prefixes@)) == Err::<
                u16,
                Seq<char>,
            >(e@),
        },
{
    let v = chars_of(raw);
    let token = trim_chars(v.as_slice());
    if token.len() == 0 {
        return Err(owned("channel id key cannot be empty"));
    }
    if let Some(n) = parse_unsigned_exec(token.as_slice(), 65535) {
        return Ok(n as u16);
    }
    let lower = ascii_lower_exec(token.as_slice());
    let ghost pv = strs_view(prefixes@);
    let mut i: usize = 0;
    while i < prefixes.len()
        invariant
            i <= prefixes@.len(),
            pv == strs_view(prefixes@),
            lower@ == ascii_lower(trim(raw@)),
            trim(raw@).len() > 0,
            parse_unsigned(trim(raw@), u16::MAX as nat) is None,
            retain_prefix_scan(raw@, lower@, pv, 0) == retain_prefix_scan(
                raw@,
                lower@,
                pv,
                i as int,
            ),
        decreases prefixes@.len() - i,
    {
        let p = chars_of(prefixes[i]);
        assert(p@ == pv[i as int]);
        if starts_with_exec(lower.as_slice(), p.as_slice()) {
            let rest = sub_chars(lower.as_slice(), p.len(), lower.len());
            match parse_unsigned_exec(rest.as_slice(), 65535) {
                Some(n) => {
                    return Ok(n as u16);
                },
                None => {
                    let mut out = owned("invalid retain channel key `");
                    push_str(&mut out, raw);
                    push_str(&mut out, "` (expected <id> or ");
                    push_str(&mut out, prefixes[i]);
                    push_str(&mut out, "<id>)");
                    return Err(out);
                },
            }
        }
        i += 1;
    }
    let mut out = owned("invalid retain channel key `");
    push_str(&mut out, raw);
    push_str(&mut out, "` (expected prefixes ");
    let d = debug_str_list(prefixes);
    push_str(&mut out, d.as_str());
    push_str(&mut out, " + integer id)");
    Err(out)
}

pub open spec fn variable_channel_prefixes(kind: OnlineVariableKind) -> Seq<Seq<char>> {
    match kind {
        OnlineVariableKind::Bool => seq!["di"@, "x"@],
        OnlineVariableKind::Real => seq!["ai"@],
    }
}

/// The channel a variable key names by itself (`di3`, `x3`, `3` for a
/// BOOL; `ai3`, `3` for a REAL), when it names one.
pub fn parse_auto_online_variable_channel_id(kind: OnlineVariableKind, variable_key: &str) -> (r:
    Option<u16>)
    ensures
        match spec_parse_retain_channel_id(variable_key@, variable_channel_prefixes(kind)) {
            Ok(n) => r == Some(n),
            Err(_) => r is None,
        },
{
    let bool_prefixes: [&str; 2] = ["di", "x"];
    let real_prefixes: [&str; 1] = ["ai"];
    let r = match kind {
        OnlineVariableKind::Bool => {
            assert(strs_view(bool_prefixes@) =~= seq!["di"@, "x"@]);
            parse_retain_channel_id(variable_key, bool_prefixes.as_slice())
        },
        OnlineVariableKind::Real => {
            assert(strs_view(real_prefixes@) =~= seq!["ai"@]);
            parse_retain_channel_id(variable_key, real_prefixes.as_slice())
        },
    };
    match r {
        Ok(n) => Some(n),
        Err(_) => None,
    }
}

/// The retain map of one channel family, read key by key in the order of
/// `entries`: each key must name a channel, and no two keys the same one.
pub open spec fn spec_normalize_retain_bool_map(
    entries: Seq<(Seq<char>, bool)>,
    prefixes: Seq<Seq<char>>,
    label: Seq<char>,
) -> Result<Map<u16, bool>, Seq<char>>
    decreases entries.len(),
{
    if entries.len() == 0 {
        Ok(Map::empty())
    } else {
        match spec_normalize_retain_bool_map(entries.drop_last(), prefixes, label) {
            Err(e) => Err(e),
            Ok(m) => {
                let key = entries.last().0;
                match spec_parse_retain_channel_id(key, prefixes) {
                    Err(err) => Err("invalid "@ + label + " key `"@ + key + "`: "@ + err),
                    Ok(id) => if m.contains_key(id) {
                        Err(
                            "duplicate retain "@ + label + " id "@ + decimal(id as nat)
                                + " after key normalization"@,
                        )
                    } else {
                        Ok(m.insert(id, entries.last().1))
                    },
                }
            },
        }
    }
}

pub open spec fn entries_view(v: Seq<(String, bool)>) -> Seq<(Seq<char>, bool)> {
    v.map_values(|e: (String, bool)| (e.0@, e.1))
}

/// `raw` holds the entries of the configured map in key order.
pub fn normalize_retain_bool_map(raw: &[(String, bool)], prefixes: &[&str], label: &str) -> (r:
    Result<BTreeMap<u16, bool>, String>)
    ensures
        match r {
            Ok(m) => spec_normalize_retain_bool_map(
                entries_view(raw@),
                strs_view(prefixes@),
                label@,
            ) == Ok::<Map<u16, bool>, Seq<char>>(m@),
            Err(e) => spec_normalize_retain_bool_map(
                entries_view(raw@),
                strs_view(prefixes@),
                label@,
            ) == Err::<Map<u16, bool>, Seq<char>>(e@),
        },
{
    let mut out: BTreeMap<u16, bool> = BTreeMap::new();
    let ghost ev = entries_view(raw@);
    let ghost pv = strs_view(prefixes@);
    let mut i: usize = 0;
    while i < raw.len()
        invariant
            i <= raw@.len(),
            ev == entries_view(raw@),
            pv == strs_view(prefixes@),
            spec_normalize_retain_bool_map(ev.subrange(0, i as int), pv, label@) == Ok::<
                Map<u16, bool>,
                Seq<char>,
            >(out@),
        decreases raw@.len() - i,
    {
        assert(ev.subrange(0, i + 1).drop_last() =~= ev.subrange(0, i as int));
        let key = &raw[i].0;
        let val = raw[i].1;
        match parse_retain_channel_id(key.as_str(), prefixes) {
            Err(err) => {
                let mut out_e = owned("invalid ");
                push_str(&mut out_e, label);
                push_str(&mut out_e, " key `");
                push_str(&mut out_e, key.as_str());
                push_str(&mut out_e, "`: ");
                push_str(&mut out_e, err.as_str());
                assert(ev.subrange(0, i + 1) =~= ev.subrange(0, i as int).push(ev[i as int]));
                proof {
                    lemma_normalize_prefix_err(ev, pv, label@, i as int + 1, out_e@);
                }
                return Err(out_e);
            },
            Ok(id) => {
                if out.contains_key(&id) {
                    let mut out_e = owned("duplicate retain ");
                    push_str(&mut out_e, label);
                    push_str(&mut out_e, " id ");
                    let num = format_u64(id as u64);
                    push_str(&mut out_e, num.as_str());
                    push_str(&mut out_e, " after key normalization");
                    proof {
                        lemma_normalize_prefix_err(ev, pv, label@, i as int + 1, out_e@);
                    }
                    return Err(out_e);
                }
                out.insert(id, val);
            },
        }
        i += 1;
    }
    assert(ev.subrange(0, raw@.len() as int) =~= ev);
    Ok(out)
}

/// Once the scan of a prefix fails, the scan of the whole fails the same way.
proof fn lemma_normalize_prefix_err(
    ev: Seq<(Seq<char>, bool)>,
    pv: Seq<Seq<char>>,
    label: Seq<char>,
    i: int,
    e: Seq<char>,
)
    requires
        0 <= i <= ev.len(),
        spec_normalize_retain_bool_map(ev.subrange(0, i), pv, label) == Err::<
            Map<u16, bool>,
            Seq<char>,
        >(e),
    ensures
        spec_normalize_retain_bool_map(ev, pv, label) == Err::<Map<u16, bool>, Seq<char>>(e),
    decreases ev.len() - i,
{
    if i < ev.len() {
        assert(ev.subrange(0, i + 1).drop_last() =~= ev.subrange(0, i));
        lemma_normalize_prefix_err(ev, pv, label, i + 1, e);
    } else {
        assert(ev.subrange(0, i) =~= ev);
    }
}

// ---------------------------------------------------------------------------
// Regression feedback
// ---------------------------------------------------------------------------

pub open spec fn spec_feedback_template_hint(kind: Seq<char>) -> Seq<char> {
    if kind == "timeout"@ {
        "fault_sensor_stuck"@
    } else if kind == "compile_error"@ || kind == "scenario_error"@ {
        "nominal_cycle"@
    } else {
        "risk_gate_probe"@
    }
}

/// The scenario template suggested for a regression failure of a kind.
pub fn feedback_template_hint_for_failure_kind(kind: &str) -> (r: &'static str)
    ensures
        r@ == spec_feedback_template_hint(kind@),
{
    let k = chars_of(kind);
    let t = chars_of("timeout");
    let c = chars_of("compile_error");
    let s = chars_of("scenario_error");
    if eq_chars(k.as_slice(), t.as_slice()) {
        "fault_sensor_stuck"
    } else if eq_chars(k.as_slice(), c.as_slice()) || eq_chars(k.as_slice(), s.as_slice()) {
        "nominal_cycle"
    } else {
        "risk_gate_probe"
    }
}

/// The advice on scenario parameters for a regression failure of a kind,
/// and, where the failure was minimized, the duration that reproduces it.
pub open spec fn spec_feedback_parameter_hints(kind: Seq<char>, minimized_duration_ms: Option<u64>) -> Seq<
    Seq<char>,
> {
    let base = if kind == "timeout"@ {
        seq![
            "increase duration_ms to keep timeout windows observable"@,
            "tune start_pulse_ms to align start signal release with task waits"@,
            "adjust sensor_window_ms to control sensor-edge spacing"@,
        ]
    } else if kind == "scenario_error"@ {
        seq!["run scenario-validate and fix mapping/tick alignment issues first"@]
    } else if kind == "compile_error"@ {
        seq!["fix PLC semantic/verification errors before scenario expansion"@]
    } else {
        seq!["re-run with --minimize-failure and inspect minimized_scenario.yaml"@]
    };
    match minimized_duration_ms {
        Some(d) => base.push(
            "duration_ms near "@ + decimal(d as nat)
                + " reproduces this failure signature with lower noise"@,
        ),
        None => base,
    }
}

pub fn feedback_parameter_hints_for_failure(kind: &str, minimized_duration_ms: Option<u64>) -> (r: Vec<
    String,
>)
    ensures
        r@.map_values(|s: String| s@) == spec_feedback_parameter_hints(kind@, minimized_duration_ms),
{
    let k = chars_of(kind);
    let mut hints: Vec<String> = Vec::new();
    if eq_chars(k.as_slice(), chars_of("timeout").as_slice()) {
        hints.push(owned("increase duration_ms to keep timeout windows observable"));
        hints.push(owned("tune start_pulse_ms to align start signal release with task waits"));
        hints.push(owned("adjust sensor_window_ms to control sensor-edge spacing"));
    } else if eq_chars(k.as_slice(), chars_of("scenario_error").as_slice()) {
        hints.push(owned("run scenario-validate and fix mapping/tick alignment issues first"));
    } else if eq_chars(k.as_slice(), chars_of("compile_error").as_slice()) {
        hints.push(owned("fix PLC semantic/verification errors before scenario expansion"));
    } else {
        hints.push(owned("re-run with --minimize-failure and inspect minimized_scenario.yaml"));
    }
    let ghost base = hints@.map_values(|s: String| s@);
    match minimized_duration_ms {
        Some(d) => {
            let mut h = owned("duration_ms near ");
            let n = format_u64(d);
            push_str(&mut h, n.as_str());
            push_str(&mut h, " reproduces this failure signature with lower noise");
            let ghost hv = h@;
            hints.push(h);
            assert(hints@.map_values(|s: String| s@) =~= base.push(hv));
        },
        None => {},
    }
    assert(hints@.map_values(|s: String| s@) =~= spec_feedback_parameter_hints(
        kind@,
        minimized_duration_ms,
    ));
    hints
}

} // verus!
