//! Normalization of an `io_map.toml`: each channel section is rewritten with
//! one native key (`di3`, `ao0`, ...) per channel id, in id order, whatever
//! mix of native and IEC keys (`"%IX0.3"`) it was written with.
use vstd::prelude::*;
use crate::flowchart_text::{debug_str, spec_debug_str};
use crate::text::{
    lemma_decimal_parses, all_digits, chars_of, decimal, format_i64, format_u64, int_decimal, is_digit, is_ws,
    is_ws_char, owned, parse_unsigned, parse_unsigned_exec, push_str, starts_with,
    starts_with_exec, sub_chars, trim_start,
};

verus! {

/// The kind of a logical I/O channel.
#[derive(Debug, Clone, Copy, PartialEq, Eq, Structural)]
pub enum LogicalChannelKind {
    DigitalInput,
    DigitalOutput,
    AnalogInput,
    AnalogOutput,
}

/// How `{:?}` writes a channel kind.
pub open spec fn kind_debug(k: LogicalChannelKind) -> Seq<char> {
    match k {
        LogicalChannelKind::DigitalInput => "DigitalInput"@,
        LogicalChannelKind::DigitalOutput => "DigitalOutput"@,
        LogicalChannelKind::AnalogInput => "AnalogInput"@,
        LogicalChannelKind::AnalogOutput => "AnalogOutput"@,
    }
}

fn kind_debug_str(k: LogicalChannelKind) -> (r: &'static str)
    ensures
        r@ == kind_debug(k),
{
    match k {
        LogicalChannelKind::DigitalInput => "DigitalInput",
        LogicalChannelKind::DigitalOutput => "DigitalOutput",
        LogicalChannelKind::AnalogInput => "AnalogInput",
        LogicalChannelKind::AnalogOutput => "AnalogOutput",
    }
}

/// The value of a section entry: an integer GPIO number, or something else
/// (with the `{:?}` rendering of that TOML value, for the message).
pub enum IoMapValue {
    Integer(i64),
    Other(String),
}

/// One entry of a channel section. `iec` is what the IEC address parser
/// makes of the key (its kind and id, or its error message); it is read
/// only for a key that begins with `%` after leading whitespace.
pub struct IoMapEntry {
    pub key: String,
    pub value: IoMapValue,
    pub iec: Result<(LogicalChannelKind, u16), String>,
}

/// A section of the document: absent, present but not a table, or a table
/// with its entries in key order.
pub enum IoMapSection {
    Absent,
    NotTable,
    Table(Vec<IoMapEntry>),
}

/// What normalization reads of an `io_map.toml` document.
pub struct IoMapDocument {
    pub root_is_table: bool,
    pub digital_inputs: IoMapSection,
    pub digital_outputs: IoMapSection,
    pub analog_inputs: IoMapSection,
    pub analog_outputs: IoMapSection,
}

/// The normalized sections: (channel id, GPIO) pairs in ascending id order;
/// the analog sections only where the document has them.
pub struct NormalizedIoMap {
    pub digital_inputs: Vec<(u16, i64)>,
    pub digital_outputs: Vec<(u16, i64)>,
    pub analog_inputs: Option<Vec<(u16, i64)>>,
    pub analog_outputs: Option<Vec<(u16, i64)>>,
}

// ---------------------------------------------------------------------------
// Keys
// ---------------------------------------------------------------------------

/// A native key: the section's prefix, then one or more ASCII digits that
/// denote a `u16`.
pub open spec fn native_id(key: Seq<char>, prefix: Seq<char>) -> Option<u16> {
    if starts_with(key, prefix) {
        let rest = key.subrange(prefix.len() as int, key.len() as int);
        if rest.len() > 0 && all_digits(rest) {
            match parse_unsigned(rest, u16::MAX as nat) {
                Some(n) => Some(n as u16),
                None => None,
            }
        } else {
            None
        }
    } else {
        None
    }
}

fn all_digits_exec(v: &[char]) -> (r: bool)
    ensures
        r == all_digits(v@),
{
    let mut i: usize = 0;
    while i < v.len()
        invariant
            i <= v@.len(),
            forall|j: int| 0 <= j < i ==> is_digit(#[trigger] v@[j]),
        decreases v@.len() - i,
    {
        if !('0' <= v[i] && v[i] <= '9') {
            assert(!is_digit(v@[i as int]));
            return false;
        }
        i += 1;
    }
    true
}

fn native_id_exec(key: &[char], prefix: &[char]) -> (r: Option<u16>)
    ensures
        r == native_id(key@, prefix@),
{
    if !starts_with_exec(key, prefix) {
        return None;
    }
    let rest = sub_chars(key, prefix.len(), key.len());
    if rest.len() == 0 || !all_digits_exec(rest.as_slice()) {
        return None;
    }
    match parse_unsigned_exec(rest.as_slice(), 65535) {
        Some(n) => Some(n as u16),
        None => None,
    }
}

/// Whether the key, after leading whitespace, begins with `%`.
pub open spec fn is_iec_key(key: Seq<char>) -> bool {
    trim_start(key).len() > 0 && trim_start(key)[0] == '%'
}

fn is_iec_key_exec(key: &[char]) -> (r: bool)
    ensures
        r == is_iec_key(key@),
{
    let n = key.len();
    let mut i: usize = 0;
    assert(key@.subrange(0, n as int) =~= key@);
    while i < n && is_ws_char(key[i])
        invariant
            i <= n == key@.len(),
            trim_start(key@) == trim_start(key@.subrange(i as int, n as int)),
        decreases n - i,
    {
        assert(key@.subrange(i as int, n as int).drop_first() =~= key@.subrange(i + 1, n as int));
        i += 1;
    }
    assert(trim_start(key@) == key@.subrange(i as int, n as int));
    i < n && key[i] == '%'
}

// ---------------------------------------------------------------------------
// Sections
// ---------------------------------------------------------------------------

pub open spec fn value_error(section: Seq<char>, key: Seq<char>, value_debug: Seq<char>) -> Seq<char> {
    "Invalid value for "@ + spec_debug_str(key) + " in ["@ + section
        + "] (expected integer gpio), got "@ + value_debug
}

pub open spec fn key_error(section: Seq<char>, key: Seq<char>, prefix: Seq<char>) -> Seq<char> {
    "Invalid key "@ + spec_debug_str(key) + " in ["@ + section + "] (expected "@ + prefix
        + "<n> or a quoted IEC key like \"%IX0.0\")"@
}

pub open spec fn kind_error(
    section: Seq<char>,
    key: Seq<char>,
    kind: LogicalChannelKind,
    expected: LogicalChannelKind,
) -> Seq<char> {
    "Invalid key "@ + spec_debug_str(key) + " in ["@ + section + "] (IEC kind "@ + kind_debug(kind)
        + " does not match section kind "@ + kind_debug(expected) + ")"@
}

pub open spec fn conflict_error(prefix: Seq<char>, id: u16, section: Seq<char>, prev: i64, gpio: i64) -> Seq<char> {
    "Conflict for "@ + prefix + decimal(id as nat) + " in ["@ + section + "]: "@ + int_decimal(
        prev as int,
    ) + " vs "@ + int_decimal(gpio as int)
}

/// The channel an entry names, or why it names none.
pub open spec fn entry_channel(e: IoMapEntry, section: Seq<char>, prefix: Seq<char>, kind: LogicalChannelKind) -> Result<
    u16,
    Seq<char>,
> {
    match native_id(e.key@, prefix) {
        Some(id) => Ok(id),
        None => if is_iec_key(e.key@) {
            match e.iec {
                Err(msg) => Err(msg@),
                Ok((k, id)) => if k != kind {
                    Err(kind_error(section, e.key@, k, kind))
                } else {
                    Ok(id)
                },
            }
        } else {
            Err(key_error(section, e.key@, prefix))
        },
    }
}

/// A section read entry by entry: each value must be an integer, each key
/// must name a channel of the section's kind, and two keys that name one
/// channel must give it the same GPIO.
pub open spec fn spec_normalize_section(
    entries: Seq<IoMapEntry>,
    section: Seq<char>,
    prefix: Seq<char>,
    kind: LogicalChannelKind,
) -> Result<Map<u16, i64>, Seq<char>>
    decreases entries.len(),
{
    if entries.len() == 0 {
        Ok(Map::empty())
    } else {
        match spec_normalize_section(entries.drop_last(), section, prefix, kind) {
            Err(e) => Err(e),
            Ok(m) => {
                let e = entries.last();
                match e.value {
                    IoMapValue::Other(d) => Err(value_error(section, e.key@, d@)),
                    IoMapValue::Integer(gpio) => match entry_channel(e, section, prefix, kind) {
                        Err(msg) => Err(msg),
                        Ok(id) => if m.contains_key(id) && m[id] != gpio {
                            Err(conflict_error(prefix, id, section, m[id], gpio))
                        } else {
                            Ok(m.insert(id, gpio))
                        },
                    },
                }
            },
        }
    }
}

/// `v` lists the map's channels in ascending order, each with its GPIO.
pub open spec fn lists_map(v: Seq<(u16, i64)>, m: Map<u16, i64>) -> bool {
    &&& forall|i: int, j: int| 0 <= i < j < v.len() ==> v[i].0 < v[j].0
    &&& forall|i: int| 0 <= i < v.len() ==> m.contains_key(#[trigger] v[i].0) && m[v[i].0] == v[i].1
    &&& forall|id: u16| #[trigger] m.contains_key(id) ==> exists|i: int| 0 <= i < v.len() && v[i].0 == id
}

/// Records `id -> gpio` in an ascending list; where `id` is listed already
/// its GPIO is returned and the list is left as it is.
fn record_channel(v: &mut Vec<(u16, i64)>, id: u16, gpio: i64, Ghost(m): Ghost<Map<u16, i64>>) -> (r:
    Option<i64>)
    requires
        lists_map(old(v)@, m),
    ensures
        match r {
            Some(prev) => m.contains_key(id) && m[id] == prev && final(v)@ == old(v)@,
            None => !m.contains_key(id) && lists_map(final(v)@, m.insert(id, gpio)),
        },
{
    let mut p: usize = 0;
    while p < v.len() && v[p].0 < id
        invariant
            p <= v@.len(),
            v@ == old(v)@,
            lists_map(v@, m),
            forall|i: int| 0 <= i < p ==> #[trigger] v@[i].0 < id,
        decreases v@.len() - p,
    {
        p += 1;
    }
    if p < v.len() && v[p].0 == id {
        return Some(v[p].1);
    }
    proof {
        if m.contains_key(id) {
            let i = choose|i: int| 0 <= i < v@.len() && v@[i].0 == id;
            if i >= p {
                assert(v@[p as int].0 <= v@[i].0);
            }
        }
    }
    let ghost before = v@;
    v.insert(p, (id, gpio));
    proof {
        let mm = m.insert(id, gpio);
        assert forall|i: int, j: int| 0 <= i < j < v@.len() implies v@[i].0 < v@[j].0 by {
            if i < p && j > p {
                assert(before[j - 1].0 > id || before[j - 1].0 >= id);
            }
        }
        assert forall|i: int| 0 <= i < v@.len() implies mm.contains_key(#[trigger] v@[i].0)
            && mm[v@[i].0] == v@[i].1 by {
            if i < p {
                assert(v@[i] == before[i]);
            } else if i > p {
                assert(v@[i] == before[i - 1]);
            }
        }
        assert forall|x: u16| #[trigger] mm.contains_key(x) implies exists|i: int|
            0 <= i < v@.len() && v@[i].0 == x by {
            if x == id {
                assert(v@[p as int].0 == x);
            } else {
                let i = choose|i: int| 0 <= i < before.len() && before[i].0 == x;
                if i < p {
                    assert(v@[i].0 == x);
                } else {
                    assert(v@[i + 1].0 == x);
                }
            }
        }
    }
    None
}

proof fn lemma_section_prefix_err(
    entries: Seq<IoMapEntry>,
    section: Seq<char>,
    prefix: Seq<char>,
    kind: LogicalChannelKind,
    i: int,
    e: Seq<char>,
)
    requires
        0 <= i <= entries.len(),
        spec_normalize_section(entries.subrange(0, i), section, prefix, kind) == Err::<
            Map<u16, i64>,
            Seq<char>,
        >(e),
    ensures
        spec_normalize_section(entries, section, prefix, kind) == Err::<Map<u16, i64>, Seq<char>>(e),
    decreases entries.len() - i,
{
    if i < entries.len() {
        assert(entries.subrange(0, i + 1).drop_last() =~= entries.subrange(0, i));
        lemma_section_prefix_err(entries, section, prefix, kind, i + 1, e);
    } else {
        assert(entries.subrange(0, i) =~= entries);
    }
}

fn entry_message(head: &str, key: &str, mid: &str) -> (r: String)
    ensures
        r@ == head@ + spec_debug_str(key@) + mid@,
{
    let mut out = owned(head);
    let d = debug_str(key);
    push_str(&mut out, d.as_str());
    push_str(&mut out, mid);
    out
}

/// Normalizes one channel section: its channels in ascending id order, each
/// with the GPIO its keys give it.
pub fn normalize_io_section(
    entries: &[IoMapEntry],
    section: &str,
    prefix: &str,
    kind: LogicalChannelKind,
) -> (r: Result<Vec<(u16, i64)>, String>)
    ensures
        match r {
            Ok(v) => spec_normalize_section(entries@, section@, prefix@, kind) matches Ok(m)
                && lists_map(v@, m),
            Err(e) => spec_normalize_section(entries@, section@, prefix@, kind) == Err::<
                Map<u16, i64>,
                Seq<char>,
            >(e@),
        },
{
    let mut out: Vec<(u16, i64)> = Vec::new();
    let ghost ev = entries@;
    let ghost mut m: Map<u16, i64> = Map::empty();
    let pv = chars_of(prefix);
    let mut i: usize = 0;
    while i < entries.len()
        invariant
            i <= ev.len(),
            ev == entries@,
            pv@ == prefix@,
            spec_normalize_section(ev.subrange(0, i as int), section@, prefix@, kind) == Ok::<
                Map<u16, i64>,
                Seq<char>,
            >(m),
            lists_map(out@, m),
        decreases ev.len() - i,
    {
        assert(ev.subrange(0, i + 1).drop_last() =~= ev.subrange(0, i as int));
        assert(ev.subrange(0, i + 1).last() == ev[i as int]);
        let e = &entries[i];
        let key = e.key.as_str();
        let gpio = match &e.value {
            IoMapValue::Integer(g) => *g,
            IoMapValue::Other(d) => {
                let mut msg = entry_message("Invalid value for ", key, " in [");
                push_str(&mut msg, section);
                push_str(&mut msg, "] (expected integer gpio), got ");
                push_str(&mut msg, d.as_str());
                proof {
                    lemma_section_prefix_err(ev, section@, prefix@, kind, i as int + 1, msg@);
                }
                return Err(msg);
            },
        };
        let kv = chars_of(key);
        let id = match native_id_exec(kv.as_slice(), pv.as_slice()) {
            Some(n) => n,
            None => {
                if !is_iec_key_exec(kv.as_slice()) {
                    let mut msg = entry_message("Invalid key ", key, " in [");
                    push_str(&mut msg, section);
                    push_str(&mut msg, "] (expected ");
                    push_str(&mut msg, prefix);
                    push_str(&mut msg, "<n> or a quoted IEC key like \"%IX0.0\")");
                    proof {
                        lemma_section_prefix_err(ev, section@, prefix@, kind, i as int + 1, msg@);
                    }
                    return Err(msg);
                }
                match &e.iec {
                    Err(msg) => {
                        let msg = owned(msg.as_str());
                        proof {
                            lemma_section_prefix_err(
                                ev,
                                section@,
                                prefix@,
                                kind,
                                i as int + 1,
                                msg@,
                            );
                        }
                        return Err(msg);
                    },
                    Ok((k, n)) => {
                        if *k != kind {
                            let mut msg = entry_message("Invalid key ", key, " in [");
                            push_str(&mut msg, section);
                            push_str(&mut msg, "] (IEC kind ");
                            push_str(&mut msg, kind_debug_str(*k));
                            push_str(&mut msg, " does not match section kind ");
                            push_str(&mut msg, kind_debug_str(kind));
                            push_str(&mut msg, ")");
                            proof {
                                lemma_section_prefix_err(
                                    ev,
                                    section@,
                                    prefix@,
                                    kind,
                                    i as int + 1,
                                    msg@,
                                );
                            }
                            return Err(msg);
                        }
                        *n
                    },
                }
            },
        };
        match record_channel(&mut out, id, gpio, Ghost(m)) {
            Some(prev) => {
                if prev != gpio {
                    let mut msg = owned("Conflict for ");
                    push_str(&mut msg, prefix);
                    let ids = format_u64(id as u64);
                    push_str(&mut msg, ids.as_str());
                    push_str(&mut msg, " in [");
                    push_str(&mut msg, section);
                    push_str(&mut msg, "]: ");
                    let ps = format_i64(prev);
                    push_str(&mut msg, ps.as_str());
                    push_str(&mut msg, " vs ");
                    let gs = format_i64(gpio);
                    push_str(&mut msg, gs.as_str());
                    proof {
                        lemma_section_prefix_err(ev, section@, prefix@, kind, i as int + 1, msg@);
                    }
                    return Err(msg);
                }
                proof {
                    assert(m.insert(id, gpio) =~= m);
                }
            },
            None => {
                proof {
                    m = m.insert(id, gpio);
                }
            },
        }
        i += 1;
    }
    assert(ev.subrange(0, i as int) =~= ev);
    Ok(out)
}

// ---------------------------------------------------------------------------
// The document
// ---------------------------------------------------------------------------

pub open spec fn required_section(s: IoMapSection, name: Seq<char>) -> Result<Seq<IoMapEntry>, Seq<char>> {
    match s {
        IoMapSection::Table(v) => Ok(v@),
        _ => Err("Missing or invalid ["@ + name + "] (expected a table)"@),
    }
}

pub open spec fn optional_section(s: IoMapSection, name: Seq<char>) -> Result<
    Option<Seq<IoMapEntry>>,
    Seq<char>,
> {
    match s {
        IoMapSection::Absent => Ok(None),
        IoMapSection::NotTable => Err("Invalid ["@ + name + "] (expected a table)"@),
        IoMapSection::Table(v) => Ok(Some(v@)),
    }
}

pub open spec fn optional_normalized(
    s: Option<Seq<IoMapEntry>>,
    section: Seq<char>,
    prefix: Seq<char>,
    kind: LogicalChannelKind,
) -> Result<Option<Map<u16, i64>>, Seq<char>> {
    match s {
        None => Ok(None),
        Some(v) => match spec_normalize_section(v, section, prefix, kind) {
            Ok(m) => Ok(Some(m)),
            Err(e) => Err(e),
        },
    }
}

/// The normalized document: the root must be a table with tables
/// `[digital_inputs]` and `[digital_outputs]` and, where present, tables
/// `[analog_inputs]` and `[analog_outputs]` (all four are checked before any
/// is normalized); then each is normalized in that order, with the prefixes
/// `di`, `do`, `ai`, `ao`.
pub open spec fn spec_normalize_io_map(doc: IoMapDocument) -> Result<
    (Map<u16, i64>, Map<u16, i64>, Option<Map<u16, i64>>, Option<Map<u16, i64>>),
    Seq<char>,
> {
    if !doc.root_is_table {
        Err("io_map.toml must be a TOML table at the root"@)
    } else {
        match required_section(doc.digital_inputs, "digital_inputs"@) {
            Err(e) => Err(e),
            Ok(di) => match required_section(doc.digital_outputs, "digital_outputs"@) {
                Err(e) => Err(e),
                Ok(dout) => match optional_section(doc.analog_inputs, "analog_inputs"@) {
                    Err(e) => Err(e),
                    Ok(ai) => match optional_section(doc.analog_outputs, "analog_outputs"@) {
                        Err(e) => Err(e),
                        Ok(aout) => match spec_normalize_section(
                            di,
                            "digital_inputs"@,
                            "di"@,
                            LogicalChannelKind::DigitalInput,
                        ) {
                            Err(e) => Err(e),
                            Ok(ndi) => match spec_normalize_section(
                                dout,
                                "digital_outputs"@,
                                "do"@,
                                LogicalChannelKind::DigitalOutput,
                            ) {
                                Err(e) => Err(e),
                                Ok(ndo) => match optional_normalized(
                                    ai,
                                    "analog_inputs"@,
                                    "ai"@,
                                    LogicalChannelKind::AnalogInput,
                                ) {
                                    Err(e) => Err(e),
                                    Ok(nai) => match optional_normalized(
                                        aout,
                                        "analog_outputs"@,
                                        "ao"@,
                                        LogicalChannelKind::AnalogOutput,
                                    ) {
                                        Err(e) => Err(e),
                                        Ok(nao) => Ok((ndi, ndo, nai, nao)),
                                    },
                                },
                            },
                        },
                    },
                },
            },
        }
    }
}

pub open spec fn lists_opt_map(v: Option<Vec<(u16, i64)>>, m: Option<Map<u16, i64>>) -> bool {
    match (v, m) {
        (None, None) => true,
        (Some(x), Some(y)) => lists_map(x@, y),
        _ => false,
    }
}

fn missing_section(name: &str) -> (r: String)
    ensures
        r@ == "Missing or invalid ["@ + name@ + "] (expected a table)"@,
{
    let mut out = owned("Missing or invalid [");
    push_str(&mut out, name);
    push_str(&mut out, "] (expected a table)");
    out
}

fn invalid_section(name: &str) -> (r: String)
    ensures
        r@ == "Invalid ["@ + name@ + "] (expected a table)"@,
{
    let mut out = owned("Invalid [");
    push_str(&mut out, name);
    push_str(&mut out, "] (expected a table)");
    out
}

fn normalize_optional(
    s: &IoMapSection,
    section: &str,
    prefix: &str,
    kind: LogicalChannelKind,
) -> (r: Result<Option<Vec<(u16, i64)>>, String>)
    requires
        !(s is NotTable),
    ensures
        match (r, optional_normalized(
            match *s {
                IoMapSection::Table(v) => Some(v@),
                _ => None,
            },
            section@,
            prefix@,
            kind,
        )) {
            (Ok(v), Ok(m)) => lists_opt_map(v, m),
            (Err(e), Err(x)) => e@ == x,
            _ => false,
        },
{
    match s {
        IoMapSection::Table(v) => match normalize_io_section(v.as_slice(), section, prefix, kind) {
            Ok(x) => Ok(Some(x)),
            Err(e) => Err(e),
        },
        _ => Ok(None),
    }
}

/// Normalizes an `io_map.toml` document (see `spec_normalize_io_map`).
pub fn normalize_io_map(doc: &IoMapDocument) -> (r: Result<NormalizedIoMap, String>)
    ensures
        match (r, spec_normalize_io_map(*doc)) {
            (Ok(n), Ok(m)) => {
                &&& lists_map(n.digital_inputs@, m.0)
                &&& lists_map(n.digital_outputs@, m.1)
                &&& lists_opt_map(n.analog_inputs, m.2)
                &&& lists_opt_map(n.analog_outputs, m.3)
            },
            (Err(e), Err(x)) => e@ == x,
            _ => false,
        },
{
    if !doc.root_is_table {
        return Err(owned("io_map.toml must be a TOML table at the root"));
    }
    let di = match &doc.digital_inputs {
        IoMapSection::Table(v) => v,
        _ => {
            return Err(missing_section("digital_inputs"));
        },
    };
    let dout = match &doc.digital_outputs {
        IoMapSection::Table(v) => v,
        _ => {
            return Err(missing_section("digital_outputs"));
        },
    };
    if let IoMapSection::NotTable = &doc.analog_inputs {
        return Err(invalid_section("analog_inputs"));
    }
    if let IoMapSection::NotTable = &doc.analog_outputs {
        return Err(invalid_section("analog_outputs"));
    }
    let ndi = match normalize_io_section(
        di.as_slice(),
        "digital_inputs",
        "di",
        LogicalChannelKind::DigitalInput,
    ) {
        Ok(x) => x,
        Err(e) => {
            return Err(e);
        },
    };
    let ndo = match normalize_io_section(
        dout.as_slice(),
        "digital_outputs",
        "do",
        LogicalChannelKind::DigitalOutput,
    ) {
        Ok(x) => x,
        Err(e) => {
            return Err(e);
        },
    };
    let nai = match normalize_optional(
        &doc.analog_inputs,
        "analog_inputs",
        "ai",
        LogicalChannelKind::AnalogInput,
    ) {
        Ok(x) => x,
        Err(e) => {
            return Err(e);
        },
    };
    let nao = match normalize_optional(
        &doc.analog_outputs,
        "analog_outputs",
        "ao",
        LogicalChannelKind::AnalogOutput,
    ) {
        Ok(x) => x,
        Err(e) => {
            return Err(e);
        },
    };
    Ok(
        NormalizedIoMap {
            digital_inputs: ndi,
            digital_outputs: ndo,
            analog_inputs: nai,
            analog_outputs: nao,
        },
    )
}

// ---------------------------------------------------------------------------
// Normalizing twice
// ---------------------------------------------------------------------------

/// `es` writes the listing `v` back as a section: one native key per
/// channel, `prefix` then the id, with its GPIO.
pub open spec fn writes_listing(es: Seq<IoMapEntry>, v: Seq<(u16, i64)>, prefix: Seq<char>) -> bool {
    &&& es.len() == v.len()
    &&& forall|i: int|
        0 <= i < es.len() ==> {
            &&& (#[trigger] es[i]).key@ == prefix + decimal(v[i].0 as nat)
            &&& es[i].value matches IoMapValue::Integer(g) && g == v[i].1
        }
}

proof fn lemma_native_key_reads_back(prefix: Seq<char>, id: u16)
    ensures
        native_id(prefix + decimal(id as nat), prefix) == Some(id),
{
    let key = prefix + decimal(id as nat);
    lemma_decimal_parses(id as nat, u16::MAX as nat);
    assert(key.subrange(0, prefix.len() as int) =~= prefix);
    assert(key.subrange(prefix.len() as int, key.len() as int) =~= decimal(id as nat));
}

proof fn lemma_listing_prefix(
    es: Seq<IoMapEntry>,
    v: Seq<(u16, i64)>,
    section: Seq<char>,
    prefix: Seq<char>,
    kind: LogicalChannelKind,
    i: int,
) -> (m: Map<u16, i64>)
    requires
        0 <= i <= v.len(),
        writes_listing(es, v, prefix),
        forall|a: int, b: int| 0 <= a < b < v.len() ==> v[a].0 < v[b].0,
    ensures
        spec_normalize_section(es.subrange(0, i), section, prefix, kind) == Ok::<
            Map<u16, i64>,
            Seq<char>,
        >(m),
        lists_map(v.subrange(0, i), m),
    decreases i,
{
    if i == 0 {
        assert(es.subrange(0, 0) =~= Seq::<IoMapEntry>::empty());
        Map::empty()
    } else {
        let m0 = lemma_listing_prefix(es, v, section, prefix, kind, i - 1);
        let e = es[i - 1];
        let id = v[i - 1].0;
        assert(es.subrange(0, i).drop_last() =~= es.subrange(0, i - 1));
        assert(es.subrange(0, i).last() == e);
        lemma_native_key_reads_back(prefix, id);
        let pre = v.subrange(0, i - 1);
        if m0.contains_key(id) {
            let j = choose|j: int| 0 <= j < pre.len() && pre[j].0 == id;
            assert(v[j].0 < v[i - 1].0);
        }
        let m = m0.insert(id, v[i - 1].1);
        let w = v.subrange(0, i);
        assert forall|a: int| 0 <= a < w.len() implies m.contains_key(#[trigger] w[a].0)
            && m[w[a].0] == w[a].1 by {
            if a < i - 1 {
                assert(w[a] == pre[a]);
                assert(pre[a].0 < id);
            }
        }
        assert forall|x: u16| #[trigger] m.contains_key(x) implies exists|a: int|
            0 <= a < w.len() && w[a].0 == x by {
            if x == id {
                assert(w[i - 1].0 == x);
            } else {
                let a = choose|a: int| 0 <= a < pre.len() && pre[a].0 == x;
                assert(w[a].0 == x);
            }
        }
        m
    }
}

/// Normalizing is idempotent: a normalized section, written back with one
/// native key per channel in id order, normalizes to the same listing.
pub proof fn law_normalized_section_is_fixed(
    es: Seq<IoMapEntry>,
    v: Seq<(u16, i64)>,
    section: Seq<char>,
    prefix: Seq<char>,
    kind: LogicalChannelKind,
)
    requires
        forall|a: int, b: int| 0 <= a < b < v.len() ==> v[a].0 < v[b].0,
        writes_listing(es, v, prefix),
    ensures
        spec_normalize_section(es, section, prefix, kind) matches Ok(m) && lists_map(v, m),
{
    let m = lemma_listing_prefix(es, v, section, prefix, kind, v.len() as int);
    assert(es.subrange(0, v.len() as int) =~= es);
    assert(v.subrange(0, v.len() as int) =~= v);
}

} // verus!
