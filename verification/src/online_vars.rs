//! Online variables of the simulator: the bindings file that ties variable
//! names to input channels, how a variable command finds its channel, and
//! the audit trail of the variable commands.
use vstd::prelude::*;
use crate::sim_channels::{
    parse_auto_online_variable_channel_id, parse_retain_channel_id, spec_normalize_variable_name,
    spec_parse_retain_channel_id, strs_view, variable_channel_prefixes, variable_kind_label,
    normalize_online_variable_name, OnlineVariableKind,
};
use crate::text::{chars_of, clone_string, decimal, eq_chars, format_u64, owned, push_str};

verus! {

// ---------------------------------------------------------------------------
// Bindings
// ---------------------------------------------------------------------------

/// The value a bindings file gives a variable: an integer, a string, or
/// something else.
pub enum BindingChannel {
    Integer(i64),
    Text(String),
    Other,
}

/// Variable keys (normalized names) and the channel each is bound to. A key
/// occurs at most once in each list; looking one up finds its last entry.
pub struct OnlineVariableBindings {
    pub bool_to_di: Vec<(String, u16)>,
    pub real_to_ai: Vec<(String, u16)>,
}

/// The map a binding list stands for: later entries win.
pub open spec fn binding_map(s: Seq<(String, u16)>) -> Map<Seq<char>, u16>
    decreases s.len(),
{
    if s.len() == 0 {
        Map::empty()
    } else {
        binding_map(s.drop_last()).insert(s.last().0@, s.last().1)
    }
}

pub open spec fn map_get(m: Map<Seq<char>, u16>, k: Seq<char>) -> Option<u16> {
    if m.contains_key(k) {
        Some(m[k])
    } else {
        None
    }
}

impl OnlineVariableBindings {
    pub open spec fn bool_map(&self) -> Map<Seq<char>, u16> {
        binding_map(self.bool_to_di@)
    }

    pub open spec fn real_map(&self) -> Map<Seq<char>, u16> {
        binding_map(self.real_to_ai@)
    }
}

/// The channel `key` is bound to in a binding list.
pub fn lookup_binding(list: &Vec<(String, u16)>, key: &str) -> (r: Option<u16>)
    ensures
        r == map_get(binding_map(list@), key@),
{
    let mut j: usize = list.len();
    assert(list@.subrange(0, j as int) =~= list@);
    while j > 0
        invariant
            j <= list@.len(),
            map_get(binding_map(list@), key@) == map_get(
                binding_map(list@.subrange(0, j as int)),
                key@,
            ),
        decreases j,
    {
        let ghost s = list@.subrange(0, j as int);
        assert(s.drop_last() =~= list@.subrange(0, j - 1));
        assert(s.last() == list@[j - 1]);
        let a = chars_of(list[j - 1].0.as_str());
        let b = chars_of(key);
        if eq_chars(a.as_slice(), b.as_slice()) {
            return Some(list[j - 1].1);
        }
        j -= 1;
    }
    None
}

pub open spec fn variable_kind_upper(k: OnlineVariableKind) -> Seq<char> {
    match k {
        OnlineVariableKind::Bool => "BOOL"@,
        OnlineVariableKind::Real => "REAL"@,
    }
}

/// The channel a bindings file entry names for variable `var`: an integer
/// that fits a `u16`, or a channel key with the kind's prefixes.
pub open spec fn spec_binding_channel(raw: BindingChannel, kind: OnlineVariableKind, var: Seq<char>) -> Result<
    u16,
    Seq<char>,
> {
    let head = "invalid "@ + variable_kind_label(kind) + " binding for `"@ + var + "`: "@;
    match raw {
        BindingChannel::Integer(v) => if v < 0 || v > u16::MAX {
            Err(head + "integer id out of range for u16"@)
        } else {
            Ok(v as u16)
        },
        BindingChannel::Text(s) => match spec_parse_retain_channel_id(
            s@,
            variable_channel_prefixes(kind),
        ) {
            Ok(n) => Ok(n),
            Err(e) => Err(head + e),
        },
        BindingChannel::Other => Err(head + "expected integer id or channel string"@),
    }
}

fn binding_error(kind: OnlineVariableKind, var: &str, tail: &str) -> (r: String)
    ensures
        r@ == "invalid "@ + variable_kind_label(kind) + " binding for `"@ + var@ + "`: "@ + tail@,
{
    let mut out = owned("invalid ");
    push_str(&mut out, kind.label());
    push_str(&mut out, " binding for `");
    push_str(&mut out, var);
    push_str(&mut out, "`: ");
    push_str(&mut out, tail);
    out
}

pub fn parse_online_variable_binding_channel(raw: &BindingChannel, kind: OnlineVariableKind, var_name: &str) -> (r:
    Result<u16, String>)
    ensures
        match r {
            Ok(n) => spec_binding_channel(*raw, kind, var_name@) == Ok::<u16, Seq<char>>(n),
            Err(e) => spec_binding_channel(*raw, kind, var_name@) == Err::<u16, Seq<char>>(e@),
        },
{
    match raw {
        BindingChannel::Integer(v) => {
            if *v < 0 || *v > 65535 {
                Err(binding_error(kind, var_name, "integer id out of range for u16"))
            } else {
                Ok(*v as u16)
            }
        },
        BindingChannel::Text(s) => {
            let bool_prefixes: [&str; 2] = ["di", "x"];
            let real_prefixes: [&str; 1] = ["ai"];
            let parsed = match kind {
                OnlineVariableKind::Bool => {
                    assert(strs_view(bool_prefixes@) =~= seq!["di"@, "x"@]);
                    parse_retain_channel_id(s.as_str(), bool_prefixes.as_slice())
                },
                OnlineVariableKind::Real => {
                    assert(strs_view(real_prefixes@) =~= seq!["ai"@]);
                    parse_retain_channel_id(s.as_str(), real_prefixes.as_slice())
                },
            };
            match parsed {
                Ok(n) => Ok(n),
                Err(e) => Err(binding_error(kind, var_name, e.as_str())),
            }
        },
        BindingChannel::Other => Err(
            binding_error(kind, var_name, "expected integer id or channel string"),
        ),
    }
}

pub open spec fn empty_binding_name_error(kind: OnlineVariableKind) -> Seq<char> {
    "online-variable "@ + variable_kind_label(kind) + " binding name cannot be empty"@
}

pub open spec fn duplicate_binding_error(kind: OnlineVariableKind, name: Seq<char>) -> Seq<char> {
    "duplicate "@ + variable_kind_upper(kind) + " binding for `"@ + name
        + "` after normalization"@
}

/// The bindings of one kind, read entry by entry in the order given: each
/// name normalizes to a non-empty key, names a channel, and no two names
/// normalize to the same key.
pub open spec fn spec_collect_bindings(entries: Seq<(String, BindingChannel)>, kind: OnlineVariableKind) -> Result<
    Map<Seq<char>, u16>,
    Seq<char>,
>
    decreases entries.len(),
{
    if entries.len() == 0 {
        Ok(Map::empty())
    } else {
        match spec_collect_bindings(entries.drop_last(), kind) {
            Err(e) => Err(e),
            Ok(m) => {
                let name = entries.last().0@;
                let key = spec_normalize_variable_name(name);
                if key.len() == 0 {
                    Err(empty_binding_name_error(kind))
                } else {
                    match spec_binding_channel(entries.last().1, kind, name) {
                        Err(e) => Err(e),
                        Ok(id) => if m.contains_key(key) {
                            Err(duplicate_binding_error(kind, name))
                        } else {
                            Ok(m.insert(key, id))
                        },
                    }
                }
            },
        }
    }
}

proof fn lemma_collect_prefix_err(
    entries: Seq<(String, BindingChannel)>,
    kind: OnlineVariableKind,
    i: int,
    e: Seq<char>,
)
    requires
        0 <= i <= entries.len(),
        spec_collect_bindings(entries.subrange(0, i), kind) == Err::<Map<Seq<char>, u16>, Seq<char>>(
            e,
        ),
    ensures
        spec_collect_bindings(entries, kind) == Err::<Map<Seq<char>, u16>, Seq<char>>(e),
    decreases entries.len() - i,
{
    if i < entries.len() {
        assert(entries.subrange(0, i + 1).drop_last() =~= entries.subrange(0, i));
        lemma_collect_prefix_err(entries, kind, i + 1, e);
    } else {
        assert(entries.subrange(0, i) =~= entries);
    }
}

fn collect_bindings(entries: &[(String, BindingChannel)], kind: OnlineVariableKind) -> (r: Result<
    Vec<(String, u16)>,
    String,
>)
    ensures
        match r {
            Ok(v) => spec_collect_bindings(entries@, kind) == Ok::<Map<Seq<char>, u16>, Seq<char>>(
                binding_map(v@),
            ),
            Err(e) => spec_collect_bindings(entries@, kind) == Err::<Map<Seq<char>, u16>, Seq<char>>(
                e@,
            ),
        },
{
    let mut out: Vec<(String, u16)> = Vec::new();
    let ghost ev = entries@;
    let mut i: usize = 0;
    while i < entries.len()
        invariant
            i <= ev.len(),
            ev == entries@,
            spec_collect_bindings(ev.subrange(0, i as int), kind) == Ok::<
                Map<Seq<char>, u16>,
                Seq<char>,
            >(binding_map(out@)),
        decreases ev.len() - i,
    {
        assert(ev.subrange(0, i + 1).drop_last() =~= ev.subrange(0, i as int));
        assert(ev.subrange(0, i + 1).last() == ev[i as int]);
        let name = &entries[i].0;
        let key = normalize_online_variable_name(name.as_str());
        let key_chars = chars_of(key.as_str());
        if key_chars.len() == 0 {
            let mut e = owned("online-variable ");
            push_str(&mut e, kind.label());
            push_str(&mut e, " binding name cannot be empty");
            proof {
                lemma_collect_prefix_err(ev, kind, i as int + 1, e@);
            }
            return Err(e);
        }
        let id = match parse_online_variable_binding_channel(&entries[i].1, kind, name.as_str()) {
            Ok(n) => n,
            Err(e) => {
                proof {
                    lemma_collect_prefix_err(ev, kind, i as int + 1, e@);
                }
                return Err(e);
            },
        };
        if lookup_binding(&out, key.as_str()).is_some() {
            let upper: &str = match kind {
                OnlineVariableKind::Bool => "BOOL",
                OnlineVariableKind::Real => "REAL",
            };
            let mut e = owned("duplicate ");
            push_str(&mut e, upper);
            push_str(&mut e, " binding for `");
            push_str(&mut e, name.as_str());
            push_str(&mut e, "` after normalization");
            proof {
                lemma_collect_prefix_err(ev, kind, i as int + 1, e@);
            }
            return Err(e);
        }
        let ghost before = out@;
        out.push((key, id));
        assert(out@.drop_last() =~= before);
        i += 1;
    }
    assert(ev.subrange(0, i as int) =~= ev);
    Ok(out)
}

/// Every entry of a bindings list that is accepted stays readable: its
/// normalized name is bound to the channel the entry names.
pub proof fn law_accepted_bindings_are_kept(entries: Seq<(String, BindingChannel)>, kind: OnlineVariableKind)
    requires
        spec_collect_bindings(entries, kind) is Ok,
    ensures
        forall|i: int|
            0 <= i < entries.len() ==> {
                let m = spec_collect_bindings(entries, kind)->Ok_0;
                let key = spec_normalize_variable_name(#[trigger] entries[i].0@);
                &&& m.contains_key(key)
                &&& spec_binding_channel(entries[i].1, kind, entries[i].0@) == Ok::<u16, Seq<char>>(
                    m[key],
                )
            },
    decreases entries.len(),
{
    if entries.len() > 0 {
        let prefix = entries.drop_last();
        law_accepted_bindings_are_kept(prefix, kind);
        assert forall|i: int| 0 <= i < entries.len() implies {
            let m = spec_collect_bindings(entries, kind)->Ok_0;
            let key = spec_normalize_variable_name(#[trigger] entries[i].0@);
            &&& m.contains_key(key)
            &&& spec_binding_channel(entries[i].1, kind, entries[i].0@) == Ok::<u16, Seq<char>>(
                m[key],
            )
        } by {
            if i < entries.len() - 1 {
                assert(prefix[i] == entries[i]);
            }
        }
    }
}

pub open spec fn bindings_schema_error(schema_version: u32) -> Seq<char> {
    "online-variable bindings schema_version="@ + decimal(schema_version as nat)
        + " is unsupported (expected 1)"@
}

/// The bindings a parsed bindings file gives: its schema version must be 1;
/// the BOOL entries are read first, then the REAL ones. On success the two
/// maps are those of `spec_collect_bindings`.
pub fn online_variable_bindings_from_entries(
    schema_version: u32,
    bool_entries: &[(String, BindingChannel)],
    real_entries: &[(String, BindingChannel)],
) -> (r: Result<OnlineVariableBindings, String>)
    ensures
        schema_version != 1 ==> (r matches Err(e) && e@ == bindings_schema_error(schema_version)),
        schema_version == 1 ==> match (
            spec_collect_bindings(bool_entries@, OnlineVariableKind::Bool),
            spec_collect_bindings(real_entries@, OnlineVariableKind::Real),
        ) {
            (Err(e), _) => r matches Err(x) && x@ == e,
            (Ok(_), Err(e)) => r matches Err(x) && x@ == e,
            (Ok(b), Ok(m)) => r matches Ok(x) && x.bool_map() == b && x.real_map() == m,
        },
{
    if schema_version != 1 {
        let mut e = owned("online-variable bindings schema_version=");
        let n = format_u64(schema_version as u64);
        push_str(&mut e, n.as_str());
        push_str(&mut e, " is unsupported (expected 1)");
        return Err(e);
    }
    let bool_to_di = match collect_bindings(bool_entries, OnlineVariableKind::Bool) {
        Ok(v) => v,
        Err(e) => {
            return Err(e);
        },
    };
    let real_to_ai = match collect_bindings(real_entries, OnlineVariableKind::Real) {
        Ok(v) => v,
        Err(e) => {
            return Err(e);
        },
    };
    Ok(OnlineVariableBindings { bool_to_di, real_to_ai })
}

// ---------------------------------------------------------------------------
// Variable commands and the channel each one drives
// ---------------------------------------------------------------------------

/// A value a command gives a variable. A REAL value is carried by the bit
/// pattern of its `f32` (`f32::to_bits`): the audit stores and reports it and
/// never computes with it.
#[derive(Debug, Clone, Copy, PartialEq, Eq, Structural)]
pub enum OnlineVariableValue {
    Bool(bool),
    Real(u32),
}

/// A value as the audit reports it (a REAL one by its `f32` bit pattern).
#[derive(Debug, Clone, Copy, PartialEq, Eq, Structural)]
pub enum OnlineVariableAuditValue {
    Bool(bool),
    Real(u32),
}

/// One line of an online variable script: at `at_ms`, set a variable, or
/// release it (`value` is `None`). `variable_key` is the normalized name.
pub struct OnlineVariableCommand {
    pub at_ms: u64,
    pub actor: String,
    pub source: String,
    pub variable_kind: OnlineVariableKind,
    pub variable_name: String,
    pub variable_key: String,
    pub value: Option<OnlineVariableValue>,
}

pub struct OnlineVariableAuditEntry {
    pub at_ms: u64,
    pub tick: u64,
    pub actor: String,
    pub source: String,
    pub variable: String,
    pub variable_kind: &'static str,
    pub bound_channel: Option<String>,
    pub operation: &'static str,
    pub from: Option<OnlineVariableAuditValue>,
    pub to: Option<OnlineVariableAuditValue>,
}

pub open spec fn missing_binding_error(kind: OnlineVariableKind, name: Seq<char>) -> Seq<char> {
    "missing "@ + variable_kind_upper(kind) + " binding for variable `"@ + name
        + "`; add --online-var-bindings <bindings.toml> or use auto-mappable names (BOOL:DI<n>, REAL:AI<n>)"@
}

/// The channel a command drives: the one its key is bound to, else the one
/// its key names by itself.
pub open spec fn spec_resolve_channel(c: OnlineVariableCommand, b: Option<&OnlineVariableBindings>) -> Result<
    u16,
    Seq<char>,
> {
    let bound = match b {
        Some(d) => match c.variable_kind {
            OnlineVariableKind::Bool => map_get(d.bool_map(), c.variable_key@),
            OnlineVariableKind::Real => map_get(d.real_map(), c.variable_key@),
        },
        None => None,
    };
    match bound {
        Some(id) => Ok(id),
        None => match spec_parse_retain_channel_id(
            c.variable_key@,
            variable_channel_prefixes(c.variable_kind),
        ) {
            Ok(n) => Ok(n),
            Err(_) => Err(missing_binding_error(c.variable_kind, c.variable_name@)),
        },
    }
}

pub fn resolve_online_variable_channel(cmd: &OnlineVariableCommand, bindings: Option<&OnlineVariableBindings>) -> (r:
    Result<u16, String>)
    ensures
        match r {
            Ok(n) => spec_resolve_channel(*cmd, bindings) == Ok::<u16, Seq<char>>(n),
            Err(e) => spec_resolve_channel(*cmd, bindings) == Err::<u16, Seq<char>>(e@),
        },
{
    let bound = match bindings {
        Some(d) => match cmd.variable_kind {
            OnlineVariableKind::Bool => lookup_binding(&d.bool_to_di, cmd.variable_key.as_str()),
            OnlineVariableKind::Real => lookup_binding(&d.real_to_ai, cmd.variable_key.as_str()),
        },
        None => None,
    };
    if let Some(id) = bound {
        return Ok(id);
    }
    if let Some(id) = parse_auto_online_variable_channel_id(
        cmd.variable_kind,
        cmd.variable_key.as_str(),
    ) {
        return Ok(id);
    }
    let upper: &str = match cmd.variable_kind {
        OnlineVariableKind::Bool => "BOOL",
        OnlineVariableKind::Real => "REAL",
    };
    let mut e = owned("missing ");
    push_str(&mut e, upper);
    push_str(&mut e, " binding for variable `");
    push_str(&mut e, cmd.variable_name.as_str());
    push_str(
        &mut e,
        "`; add --online-var-bindings <bindings.toml> or use auto-mappable names (BOOL:DI<n>, REAL:AI<n>)",
    );
    Err(e)
}

// ---------------------------------------------------------------------------
// The audit of variable commands
// ---------------------------------------------------------------------------

/// Whether a command is audited: a release, or a value of its variable's
/// type (a value of the other type is passed over).
pub open spec fn var_fits(c: OnlineVariableCommand) -> bool {
    match c.value {
        None => true,
        Some(OnlineVariableValue::Bool(_)) => c.variable_kind == OnlineVariableKind::Bool,
        Some(OnlineVariableValue::Real(_)) => c.variable_kind == OnlineVariableKind::Real,
    }
}

pub open spec fn var_audit_value(v: OnlineVariableValue) -> OnlineVariableAuditValue {
    match v {
        OnlineVariableValue::Bool(b) => OnlineVariableAuditValue::Bool(b),
        OnlineVariableValue::Real(x) => OnlineVariableAuditValue::Real(x),
    }
}

/// The values in effect after the first `n` commands, by kind and name.
pub open spec fn vars_after(cmds: Seq<OnlineVariableCommand>, n: int) -> Map<
    (OnlineVariableKind, Seq<char>),
    OnlineVariableAuditValue,
>
    decreases n,
{
    if n <= 0 {
        Map::empty()
    } else {
        let prev = vars_after(cmds, n - 1);
        let c = cmds[n - 1];
        if !var_fits(c) {
            prev
        } else {
            match c.value {
                None => prev.remove((c.variable_kind, c.variable_name@)),
                Some(v) => prev.insert((c.variable_kind, c.variable_name@), var_audit_value(v)),
            }
        }
    }
}

pub open spec fn var_value(
    m: Map<(OnlineVariableKind, Seq<char>), OnlineVariableAuditValue>,
    k: OnlineVariableKind,
    name: Seq<char>,
) -> Option<OnlineVariableAuditValue> {
    if m.contains_key((k, name)) {
        Some(m[(k, name)])
    } else {
        None
    }
}

/// The positions of the audited commands among the first `n`, or the
/// error of the first of them whose channel cannot be resolved.
pub open spec fn var_audit_upto(cmds: Seq<OnlineVariableCommand>, b: Option<&OnlineVariableBindings>, n: int) -> Result<
    Seq<int>,
    Seq<char>,
>
    decreases n,
{
    if n <= 0 {
        Ok(seq![])
    } else {
        match var_audit_upto(cmds, b, n - 1) {
            Err(e) => Err(e),
            Ok(p) => match spec_resolve_channel(cmds[n - 1], b) {
                Err(e) => Err(e),
                Ok(_) => if var_fits(cmds[n - 1]) {
                    Ok(p.push(n - 1))
                } else {
                    Ok(p)
                },
            },
        }
    }
}

pub open spec fn channel_prefix(k: OnlineVariableKind) -> Seq<char> {
    match k {
        OnlineVariableKind::Bool => "di"@,
        OnlineVariableKind::Real => "ai"@,
    }
}

/// `e` is the audit entry of command `i`.
pub open spec fn var_entry_for(
    e: OnlineVariableAuditEntry,
    cmds: Seq<OnlineVariableCommand>,
    tick_ms: u64,
    b: Option<&OnlineVariableBindings>,
    i: int,
) -> bool {
    let c = cmds[i];
    &&& e.at_ms == c.at_ms
    &&& e.tick == (if tick_ms == 0 {
        0
    } else {
        c.at_ms / tick_ms
    })
    &&& e.actor@ == c.actor@
    &&& e.source@ == c.source@
    &&& e.variable@ == variable_kind_label(c.variable_kind) + ":"@ + c.variable_name@
    &&& e.variable_kind@ == variable_kind_label(c.variable_kind)
    &&& e.bound_channel matches Some(ch) && spec_resolve_channel(c, b) matches Ok(id) && ch@
        == channel_prefix(c.variable_kind) + decimal(id as nat)
    &&& e.operation@ == (if c.value is Some {
        "set"@
    } else {
        "clear"@
    })
    &&& e.from == var_value(vars_after(cmds, i), c.variable_kind, c.variable_name@)
    &&& e.to == (match c.value {
        Some(v) => Some(var_audit_value(v)),
        None => None,
    })
}

/// The history of audited commands as (kind, name, value after): the map it
/// stands for, later entries winning.
pub open spec fn log_map(log: Seq<(OnlineVariableKind, String, Option<OnlineVariableAuditValue>)>) -> Map<
    (OnlineVariableKind, Seq<char>),
    OnlineVariableAuditValue,
>
    decreases log.len(),
{
    if log.len() == 0 {
        Map::empty()
    } else {
        let prev = log_map(log.drop_last());
        let e = log.last();
        match e.2 {
            Some(v) => prev.insert((e.0, e.1@), v),
            None => prev.remove((e.0, e.1@)),
        }
    }
}

fn log_lookup(
    log: &Vec<(OnlineVariableKind, String, Option<OnlineVariableAuditValue>)>,
    kind: OnlineVariableKind,
    name: &str,
) -> (r: Option<OnlineVariableAuditValue>)
    ensures
        r == var_value(log_map(log@), kind, name@),
{
    let mut j: usize = log.len();
    let nv = chars_of(name);
    assert(log@.subrange(0, j as int) =~= log@);
    while j > 0
        invariant
            j <= log@.len(),
            nv@ == name@,
            var_value(log_map(log@), kind, name@) == var_value(
                log_map(log@.subrange(0, j as int)),
                kind,
                name@,
            ),
        decreases j,
    {
        let ghost s = log@.subrange(0, j as int);
        assert(s.drop_last() =~= log@.subrange(0, j - 1));
        assert(s.last() == log@[j - 1]);
        let a = chars_of(log[j - 1].1.as_str());
        if log[j - 1].0 == kind && eq_chars(a.as_slice(), nv.as_slice()) {
            return log[j - 1].2;
        }
        j -= 1;
    }
    None
}

fn variable_audit_entry(
    cmd: &OnlineVariableCommand,
    tick_ms: u64,
    id: u16,
    from: Option<OnlineVariableAuditValue>,
    to: Option<OnlineVariableAuditValue>,
) -> (r: OnlineVariableAuditEntry)
    ensures
        r.at_ms == cmd.at_ms,
        r.tick == (if tick_ms == 0 {
            0
        } else {
            cmd.at_ms / tick_ms
        }),
        r.actor@ == cmd.actor@,
        r.source@ == cmd.source@,
        r.variable@ == variable_kind_label(cmd.variable_kind) + ":"@ + cmd.variable_name@,
        r.variable_kind@ == variable_kind_label(cmd.variable_kind),
        r.bound_channel matches Some(ch) && ch@ == channel_prefix(cmd.variable_kind) + decimal(
            id as nat,
        ),
        r.operation@ == (if cmd.value is Some {
            "set"@
        } else {
            "clear"@
        }),
        r.from == from,
        r.to == to,
{
    let prefix: &str = match cmd.variable_kind {
        OnlineVariableKind::Bool => "di",
        OnlineVariableKind::Real => "ai",
    };
    let mut channel = owned(prefix);
    let num = format_u64(id as u64);
    push_str(&mut channel, num.as_str());
    let mut variable = owned(cmd.variable_kind.label());
    push_str(&mut variable, ":");
    push_str(&mut variable, cmd.variable_name.as_str());
    let tick: u64 = if tick_ms == 0 {
        0
    } else {
        cmd.at_ms / tick_ms
    };
    let operation: &'static str = if cmd.value.is_some() {
        "set"
    } else {
        "clear"
    };
    OnlineVariableAuditEntry {
        at_ms: cmd.at_ms,
        tick,
        actor: clone_string(&cmd.actor),
        source: clone_string(&cmd.source),
        variable,
        variable_kind: cmd.variable_kind.label(),
        bound_channel: Some(channel),
        operation,
        from,
        to,
    }
}

proof fn lemma_var_audit_prefix_err(
    cmds: Seq<OnlineVariableCommand>,
    b: Option<&OnlineVariableBindings>,
    i: int,
    e: Seq<char>,
)
    requires
        0 <= i <= cmds.len(),
        var_audit_upto(cmds, b, i) == Err::<Seq<int>, Seq<char>>(e),
    ensures
        var_audit_upto(cmds, b, cmds.len() as int) == Err::<Seq<int>, Seq<char>>(e),
    decreases cmds.len() - i,
{
    if i < cmds.len() {
        lemma_var_audit_prefix_err(cmds, b, i + 1, e);
    }
}

/// The audit of a variable script, command by command: each command's
/// channel is resolved first (the first that cannot be is the error); a
/// command that sets or releases its variable yields an entry with the
/// variable's value before and after it; one whose value is of the other
/// type than its variable yields none and changes nothing.
pub fn build_online_variable_audit(
    commands: &[OnlineVariableCommand],
    tick_ms: u64,
    bindings: Option<&OnlineVariableBindings>,
) -> (r: Result<Vec<OnlineVariableAuditEntry>, String>)
    ensures
        match (r, var_audit_upto(commands@, bindings, commands@.len() as int)) {
            (Ok(v), Ok(p)) => v@.len() == p.len() && forall|j: int|
                0 <= j < v@.len() ==> var_entry_for(#[trigger] v@[j], commands@, tick_ms, bindings, p[j]),
            (Err(e), Err(s)) => e@ == s,
            _ => false,
        },
{
    let mut out: Vec<OnlineVariableAuditEntry> = Vec::new();
    let mut log: Vec<(OnlineVariableKind, String, Option<OnlineVariableAuditValue>)> = Vec::new();
    let ghost cmds = commands@;
    let mut i: usize = 0;
    while i < commands.len()
        invariant
            i <= cmds.len(),
            cmds == commands@,
            log_map(log@) == vars_after(cmds, i as int),
            var_audit_upto(cmds, bindings, i as int) matches Ok(p) && out@.len() == p.len()
                && forall|j: int|
                0 <= j < out@.len() ==> var_entry_for(
                    #[trigger] out@[j],
                    cmds,
                    tick_ms,
                    bindings,
                    p[j],
                ),
        decreases cmds.len() - i,
    {
        let cmd = &commands[i];
        let id = match resolve_online_variable_channel(cmd, bindings) {
            Ok(n) => n,
            Err(e) => {
                proof {
                    lemma_var_audit_prefix_err(cmds, bindings, i as int + 1, e@);
                }
                return Err(e);
            },
        };
        let fits = match (cmd.variable_kind, cmd.value) {
            (OnlineVariableKind::Bool, Some(OnlineVariableValue::Real(_))) => false,
            (OnlineVariableKind::Real, Some(OnlineVariableValue::Bool(_))) => false,
            _ => true,
        };
        if fits {
            let before = log_lookup(&log, cmd.variable_kind, cmd.variable_name.as_str());
            let after: Option<OnlineVariableAuditValue> = match cmd.value {
                Some(OnlineVariableValue::Bool(v)) => Some(OnlineVariableAuditValue::Bool(v)),
                Some(OnlineVariableValue::Real(v)) => Some(OnlineVariableAuditValue::Real(v)),
                None => None,
            };
            let e = variable_audit_entry(cmd, tick_ms, id, before, after);
            out.push(e);
            let ghost old_log = log@;
            log.push((cmd.variable_kind, clone_string(&cmd.variable_name), after));
            assert(log@.drop_last() =~= old_log);
        }
        i += 1;
    }
    Ok(out)
}


/// The map of a binding list gives a key the channel of its last entry.
proof fn lemma_binding_map_last(list: Seq<(String, u16)>, i: int, k: Seq<char>)
    requires
        0 <= i < list.len(),
        list[i].0@ == k,
        forall|j: int| i < j < list.len() ==> (#[trigger] list[j]).0@ != k,
    ensures
        binding_map(list).contains_key(k),
        binding_map(list)[k] == list[i].1,
    decreases list.len(),
{
    if i < list.len() - 1 {
        let d = list.drop_last();
        assert forall|j: int| i < j < d.len() implies (#[trigger] d[j]).0@ != k by {
            assert(d[j] == list[j]);
        }
        lemma_binding_map_last(d, i, k);
        assert(list.last().0@ != k);
    }
}

/// A variable whose key is bound resolves to the channel of its kind's
/// binding (the last entry for that key): a REAL one to its analog input
/// from `real_to_ai`, a BOOL one to its digital input from `bool_to_di`,
/// whatever the other list holds.
pub proof fn law_bound_variable_resolves_to_its_channel(
    c: OnlineVariableCommand,
    d: OnlineVariableBindings,
    i: int,
)
    requires
        c.variable_kind == OnlineVariableKind::Real ==> {
            &&& 0 <= i < d.real_to_ai@.len()
            &&& d.real_to_ai@[i].0@ == c.variable_key@
            &&& forall|j: int| i < j < d.real_to_ai@.len() ==> (#[trigger] d.real_to_ai@[j]).0@ != c.variable_key@
        },
        c.variable_kind == OnlineVariableKind::Bool ==> {
            &&& 0 <= i < d.bool_to_di@.len()
            &&& d.bool_to_di@[i].0@ == c.variable_key@
            &&& forall|j: int| i < j < d.bool_to_di@.len() ==> (#[trigger] d.bool_to_di@[j]).0@ != c.variable_key@
        },
    ensures
        c.variable_kind == OnlineVariableKind::Real ==> spec_resolve_channel(c, Some(&d)) == Ok::<
            u16,
            Seq<char>,
        >(d.real_to_ai@[i].1),
        c.variable_kind == OnlineVariableKind::Bool ==> spec_resolve_channel(c, Some(&d)) == Ok::<
            u16,
            Seq<char>,
        >(d.bool_to_di@[i].1),
{
    match c.variable_kind {
        OnlineVariableKind::Real => lemma_binding_map_last(d.real_to_ai@, i, c.variable_key@),
        OnlineVariableKind::Bool => lemma_binding_map_last(d.bool_to_di@, i, c.variable_key@),
    }
}

} // verus!
