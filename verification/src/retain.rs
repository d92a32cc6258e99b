//! Retained I/O values of the simulator: the retain configuration (which
//! channels keep their value between runs, and their defaults), and how a
//! saved retain state is taken back.
//!
//! An analog value is carried by the bit pattern of its `f32`
//! (`f32::to_bits`); it is stored and handed back, and only its finiteness
//! is ever read, from its exponent bits.
use vstd::prelude::*;
use crate::sim_channels::{
    entries_view, normalize_retain_bool_map, parse_retain_channel_id, spec_normalize_retain_bool_map,
    spec_parse_retain_channel_id, strs_view,
};
use crate::text::{decimal, format_u64, owned, push_str};
use std::collections::BTreeMap;

verus! {

/// `f32::is_finite` on a bit pattern: the exponent bits are not all ones
/// (all ones is an infinity or a NaN, IEEE 754 binary32).
pub open spec fn f32_bits_finite(bits: u32) -> bool {
    bits & 0x7f80_0000 != 0x7f80_0000
}

pub struct RetainConfig {
    pub digital_inputs: BTreeMap<u16, bool>,
    pub analog_inputs: BTreeMap<u16, u32>,
    pub digital_outputs: BTreeMap<u16, bool>,
    pub analog_outputs: BTreeMap<u16, u32>,
}

impl RetainConfig {
    pub fn is_empty(&self) -> (r: bool)
        ensures
            r == (self.digital_inputs@.is_empty() && self.analog_inputs@.is_empty()
                && self.digital_outputs@.is_empty() && self.analog_outputs@.is_empty()),
    {
        self.digital_inputs.is_empty() && self.analog_inputs.is_empty()
            && self.digital_outputs.is_empty() && self.analog_outputs.is_empty()
    }
}

pub struct RetainStatePayload {
    pub schema_version: u32,
    pub digital_inputs: BTreeMap<u16, bool>,
    pub analog_inputs: BTreeMap<u16, u32>,
    pub digital_outputs: BTreeMap<u16, bool>,
    pub analog_outputs: BTreeMap<u16, u32>,
}

/// The payload holds the configuration's defaults, with schema 1.
pub open spec fn holds_defaults(p: RetainStatePayload, c: RetainConfig) -> bool {
    &&& p.schema_version == 1
    &&& p.digital_inputs@ == c.digital_inputs@
    &&& p.analog_inputs@ == c.analog_inputs@
    &&& p.digital_outputs@ == c.digital_outputs@
    &&& p.analog_outputs@ == c.analog_outputs@
}

impl RetainStatePayload {
    pub fn from_config_defaults(config: &RetainConfig) -> (r: Self)
        ensures
            holds_defaults(r, *config),
    {
        RetainStatePayload {
            schema_version: 1,
            digital_inputs: config.digital_inputs.clone(),
            analog_inputs: config.analog_inputs.clone(),
            digital_outputs: config.digital_outputs.clone(),
            analog_outputs: config.analog_outputs.clone(),
        }
    }
}

// ---------------------------------------------------------------------------
// The configuration
// ---------------------------------------------------------------------------

/// The retain map of an analog channel family, read key by key in the
/// order of `entries`: each value must be finite, each key must name a
/// channel, and no two keys the same one.
pub open spec fn spec_normalize_retain_f32_map(
    entries: Seq<(Seq<char>, u32)>,
    prefixes: Seq<Seq<char>>,
    label: Seq<char>,
) -> Result<Map<u16, u32>, Seq<char>>
    decreases entries.len(),
{
    if entries.len() == 0 {
        Ok(Map::empty())
    } else {
        match spec_normalize_retain_f32_map(entries.drop_last(), prefixes, label) {
            Err(e) => Err(e),
            Ok(m) => {
                let key = entries.last().0;
                if !f32_bits_finite(entries.last().1) {
                    Err("retain "@ + label + "."@ + key + " must be finite"@)
                } else {
                    match spec_parse_retain_channel_id(key, prefixes) {
                        Err(err) => Err("invalid "@ + label + " key `"@ + key + "`: "@ + err),
                        Ok(id) => if m.contains_key(id) {
                            Err(
                                "duplicate retain "@ + label + " id "@ + decimal(id as nat)
                                    + " after key normalization"@,
                            )
                        } else {
                            Ok(m.insert(id, entries.last().1))
                        },
                    }
                }
            },
        }
    }
}

pub open spec fn analog_entries_view(v: Seq<(String, u32)>) -> Seq<(Seq<char>, u32)> {
    v.map_values(|e: (String, u32)| (e.0@, e.1))
}

proof fn lemma_f32_map_prefix_err(
    ev: Seq<(Seq<char>, u32)>,
    pv: Seq<Seq<char>>,
    label: Seq<char>,
    i: int,
    e: Seq<char>,
)
    requires
        0 <= i <= ev.len(),
        spec_normalize_retain_f32_map(ev.subrange(0, i), pv, label) == Err::<Map<u16, u32>, Seq<char>>(
            e,
        ),
    ensures
        spec_normalize_retain_f32_map(ev, pv, label) == Err::<Map<u16, u32>, Seq<char>>(e),
    decreases ev.len() - i,
{
    if i < ev.len() {
        assert(ev.subrange(0, i + 1).drop_last() =~= ev.subrange(0, i));
        lemma_f32_map_prefix_err(ev, pv, label, i + 1, e);
    } else {
        assert(ev.subrange(0, i) =~= ev);
    }
}

/// `raw` holds the entries of the configured map in key order.
pub fn normalize_retain_f32_map(raw: &[(String, u32)], prefixes: &[&str], label: &str) -> (r: Result<
    BTreeMap<u16, u32>,
    String,
>)
    ensures
        match r {
            Ok(m) => spec_normalize_retain_f32_map(
                analog_entries_view(raw@),
                strs_view(prefixes@),
                label@,
            ) == Ok::<Map<u16, u32>, Seq<char>>(m@),
            Err(e) => spec_normalize_retain_f32_map(
                analog_entries_view(raw@),
                strs_view(prefixes@),
                label@,
            ) == Err::<Map<u16, u32>, Seq<char>>(e@),
        },
{
    let mut out: BTreeMap<u16, u32> = BTreeMap::new();
    let ghost ev = analog_entries_view(raw@);
    let ghost pv = strs_view(prefixes@);
    let mut i: usize = 0;
    while i < raw.len()
        invariant
            i <= raw@.len(),
            ev == analog_entries_view(raw@),
            pv == strs_view(prefixes@),
            spec_normalize_retain_f32_map(ev.subrange(0, i as int), pv, label@) == Ok::<
                Map<u16, u32>,
                Seq<char>,
            >(out@),
        decreases raw@.len() - i,
    {
        assert(ev.subrange(0, i + 1).drop_last() =~= ev.subrange(0, i as int));
        let key = &raw[i].0;
        let val = raw[i].1;
        if val & 0x7f80_0000 == 0x7f80_0000 {
            let mut e = owned("retain ");
            push_str(&mut e, label);
            push_str(&mut e, ".");
            push_str(&mut e, key.as_str());
            push_str(&mut e, " must be finite");
            proof {
                lemma_f32_map_prefix_err(ev, pv, label@, i as int + 1, e@);
            }
            return Err(e);
        }
        match parse_retain_channel_id(key.as_str(), prefixes) {
            Err(err) => {
                let mut e = owned("invalid ");
                push_str(&mut e, label);
                push_str(&mut e, " key `");
                push_str(&mut e, key.as_str());
                push_str(&mut e, "`: ");
                push_str(&mut e, err.as_str());
                proof {
                    lemma_f32_map_prefix_err(ev, pv, label@, i as int + 1, e@);
                }
                return Err(e);
            },
            Ok(id) => {
                if out.contains_key(&id) {
                    let mut e = owned("duplicate retain ");
                    push_str(&mut e, label);
                    push_str(&mut e, " id ");
                    let num = format_u64(id as u64);
                    push_str(&mut e, num.as_str());
                    push_str(&mut e, " after key normalization");
                    proof {
                        lemma_f32_map_prefix_err(ev, pv, label@, i as int + 1, e@);
                    }
                    return Err(e);
                }
                out.insert(id, val);
            },
        }
        i += 1;
    }
    assert(ev.subrange(0, raw@.len() as int) =~= ev);
    Ok(out)
}

pub open spec fn retain_schema_error(schema_version: u32) -> Seq<char> {
    "retain config schema_version="@ + decimal(schema_version as nat) + " is unsupported (expected 1)"@
}

/// The retain configuration a parsed configuration file gives: schema 1,
/// then its four maps in the order digital inputs (keys `di<n>`, `x<n>`),
/// analog inputs (`ai<n>`), digital outputs (`do<n>`, `y<n>`) and analog
/// outputs (`ao<n>`); the first error stops the reading.
pub fn retain_config_from_entries(
    schema_version: u32,
    digital_inputs: &[(String, bool)],
    analog_inputs: &[(String, u32)],
    digital_outputs: &[(String, bool)],
    analog_outputs: &[(String, u32)],
) -> (r: Result<RetainConfig, String>)
    ensures
        schema_version != 1 ==> (r matches Err(e) && e@ == retain_schema_error(schema_version)),
        schema_version == 1 ==> match (
            spec_normalize_retain_bool_map(
                entries_view(digital_inputs@),
                seq!["di"@, "x"@],
                "digital_inputs"@,
            ),
            spec_normalize_retain_f32_map(
                analog_entries_view(analog_inputs@),
                seq!["ai"@],
                "analog_inputs"@,
            ),
            spec_normalize_retain_bool_map(
                entries_view(digital_outputs@),
                seq!["do"@, "y"@],
                "digital_outputs"@,
            ),
            spec_normalize_retain_f32_map(
                analog_entries_view(analog_outputs@),
                seq!["ao"@],
                "analog_outputs"@,
            ),
        ) {
            (Err(e), _, _, _) => r matches Err(x) && x@ == e,
            (Ok(_), Err(e), _, _) => r matches Err(x) && x@ == e,
            (Ok(_), Ok(_), Err(e), _) => r matches Err(x) && x@ == e,
            (Ok(_), Ok(_), Ok(_), Err(e)) => r matches Err(x) && x@ == e,
            (Ok(a), Ok(b), Ok(c), Ok(d)) => r matches Ok(x) && x.digital_inputs@ == a
                && x.analog_inputs@ == b && x.digital_outputs@ == c && x.analog_outputs@ == d,
        },
{
    if schema_version != 1 {
        let mut e = owned("retain config schema_version=");
        let n = format_u64(schema_version as u64);
        push_str(&mut e, n.as_str());
        push_str(&mut e, " is unsupported (expected 1)");
        return Err(e);
    }
    let di_prefixes: [&str; 2] = ["di", "x"];
    let ai_prefixes: [&str; 1] = ["ai"];
    let do_prefixes: [&str; 2] = ["do", "y"];
    let ao_prefixes: [&str; 1] = ["ao"];
    assert(strs_view(di_prefixes@) =~= seq!["di"@, "x"@]);
    assert(strs_view(ai_prefixes@) =~= seq!["ai"@]);
    assert(strs_view(do_prefixes@) =~= seq!["do"@, "y"@]);
    assert(strs_view(ao_prefixes@) =~= seq!["ao"@]);
    let di = match normalize_retain_bool_map(digital_inputs, di_prefixes.as_slice(), "digital_inputs") {
        Ok(m) => m,
        Err(e) => {
            return Err(e);
        },
    };
    let ai = match normalize_retain_f32_map(analog_inputs, ai_prefixes.as_slice(), "analog_inputs") {
        Ok(m) => m,
        Err(e) => {
            return Err(e);
        },
    };
    let dout = match normalize_retain_bool_map(
        digital_outputs,
        do_prefixes.as_slice(),
        "digital_outputs",
    ) {
        Ok(m) => m,
        Err(e) => {
            return Err(e);
        },
    };
    let aout = match normalize_retain_f32_map(
        analog_outputs,
        ao_prefixes.as_slice(),
        "analog_outputs",
    ) {
        Ok(m) => m,
        Err(e) => {
            return Err(e);
        },
    };
    Ok(
        RetainConfig {
            digital_inputs: di,
            analog_inputs: ai,
            digital_outputs: dout,
            analog_outputs: aout,
        },
    )
}

// ---------------------------------------------------------------------------
// Taking a saved state back
// ---------------------------------------------------------------------------

/// The configured channels, each with its saved value where the saved state
/// has one and its default otherwise; channels that are not configured are
/// dropped.
pub open spec fn restored<V>(cfg: Map<u16, V>, saved: Map<u16, V>) -> Map<u16, V> {
    Map::new(
        |k: u16| cfg.contains_key(k),
        |k: u16|
            if saved.contains_key(k) {
                saved[k]
            } else {
                cfg[k]
            },
    )
}

fn restore_map<V: Copy>(cfg: &BTreeMap<u16, V>, saved: &BTreeMap<u16, V>) -> (r: BTreeMap<u16, V>)
    ensures
        r@ == restored(cfg@, saved@),
{
    let mut out: BTreeMap<u16, V> = BTreeMap::new();
    let mut n: u32 = 0;
    while n <= 65535
        invariant
            n <= 65536,
            forall|k: u16| #[trigger] out@.contains_key(k) <==> (cfg@.contains_key(k) && (k as u32) < n),
            forall|k: u16|
                #[trigger] out@.contains_key(k) ==> out@[k] == (if saved@.contains_key(k) {
                    saved@[k]
                } else {
                    cfg@[k]
                }),
        decreases 65536 - n,
    {
        let id = n as u16;
        match cfg.get(&id) {
            Some(dflt) => {
                let v = match saved.get(&id) {
                    Some(s) => *s,
                    None => *dflt,
                };
                out.insert(id, v);
            },
            None => {},
        }
        n += 1;
    }
    assert(out@ =~= restored(cfg@, saved@));
    out
}

/// The payload taken back from a saved state that passed its checks: the
/// configured channels, with the saved values where there are some.
pub fn restore_retained_values(config: &RetainConfig, saved: &RetainStatePayload) -> (r:
    RetainStatePayload)
    ensures
        r.schema_version == 1,
        r.digital_inputs@ == restored(config.digital_inputs@, saved.digital_inputs@),
        r.analog_inputs@ == restored(config.analog_inputs@, saved.analog_inputs@),
        r.digital_outputs@ == restored(config.digital_outputs@, saved.digital_outputs@),
        r.analog_outputs@ == restored(config.analog_outputs@, saved.analog_outputs@),
{
    RetainStatePayload {
        schema_version: 1,
        digital_inputs: restore_map(&config.digital_inputs, &saved.digital_inputs),
        analog_inputs: restore_map(&config.analog_inputs, &saved.analog_inputs),
        digital_outputs: restore_map(&config.digital_outputs, &saved.digital_outputs),
        analog_outputs: restore_map(&config.analog_outputs, &saved.analog_outputs),
    }
}

/// The notes a rejected saved state is reported with.
pub open spec fn envelope_schema_note(path: Seq<char>, n: u32) -> Seq<char> {
    "retain state "@ + path + " schema_version="@ + decimal(n as nat)
        + " is unsupported; using config defaults"@
}

pub open spec fn payload_schema_note(path: Seq<char>, n: u32) -> Seq<char> {
    "retain payload schema_version="@ + decimal(n as nat) + " is unsupported in "@ + path
        + "; using config defaults"@
}

pub open spec fn checksum_error_note(path: Seq<char>, err: Seq<char>) -> Seq<char> {
    "failed to verify retain checksum for "@ + path + " ("@ + err + "); using config defaults"@
}

pub open spec fn checksum_mismatch_note(path: Seq<char>) -> Seq<char> {
    "retain checksum mismatch for "@ + path + "; using config defaults"@
}

/// A saved state turned down: the configuration's defaults, with `note`.
pub open spec fn rejected_with(r: (RetainStatePayload, Option<String>), c: RetainConfig, note: Seq<char>) -> bool {
    &&& holds_defaults(r.0, c)
    &&& r.1 matches Some(n)
    &&& n@ == note
}

/// What a parsed saved state at `path` gives: the restored values, or the
/// configuration's defaults with a note when the envelope's schema, the
/// payload's schema or its checksum is wrong. `computed_checksum` is the
/// SHA-256 of the saved payload's JSON, or why it could not be had.
pub fn accept_retain_state(
    config: &RetainConfig,
    path: &str,
    envelope_schema_version: u32,
    stored_checksum: &str,
    saved: &RetainStatePayload,
    computed_checksum: Result<String, String>,
) -> (r: (RetainStatePayload, Option<String>))
    ensures
        envelope_schema_version != 1 ==> rejected_with(
            r,
            *config,
            envelope_schema_note(path@, envelope_schema_version),
        ),
        envelope_schema_version == 1 && saved.schema_version != 1 ==> rejected_with(
            r,
            *config,
            payload_schema_note(path@, saved.schema_version),
        ),
        envelope_schema_version == 1 && saved.schema_version == 1 ==> match computed_checksum {
            Err(err) => rejected_with(r, *config, checksum_error_note(path@, err@)),
            Ok(sum) => if sum@ != stored_checksum@ {
                rejected_with(r, *config, checksum_mismatch_note(path@))
            } else {
                &&& r.1 is None
                &&& r.0.schema_version == 1
                &&& r.0.digital_inputs@ == restored(config.digital_inputs@, saved.digital_inputs@)
                &&& r.0.analog_inputs@ == restored(config.analog_inputs@, saved.analog_inputs@)
                &&& r.0.digital_outputs@ == restored(
                    config.digital_outputs@,
                    saved.digital_outputs@,
                )
                &&& r.0.analog_outputs@ == restored(config.analog_outputs@, saved.analog_outputs@)
            },
        },
{
    if envelope_schema_version != 1 {
        let mut n = owned("retain state ");
        push_str(&mut n, path);
        push_str(&mut n, " schema_version=");
        let v = format_u64(envelope_schema_version as u64);
        push_str(&mut n, v.as_str());
        push_str(&mut n, " is unsupported; using config defaults");
        return (RetainStatePayload::from_config_defaults(config), Some(n));
    }
    if saved.schema_version != 1 {
        let mut n = owned("retain payload schema_version=");
        let v = format_u64(saved.schema_version as u64);
        push_str(&mut n, v.as_str());
        push_str(&mut n, " is unsupported in ");
        push_str(&mut n, path);
        push_str(&mut n, "; using config defaults");
        return (RetainStatePayload::from_config_defaults(config), Some(n));
    }
    let sum = match computed_checksum {
        Ok(s) => s,
        Err(err) => {
            let mut n = owned("failed to verify retain checksum for ");
            push_str(&mut n, path);
            push_str(&mut n, " (");
            push_str(&mut n, err.as_str());
            push_str(&mut n, "); using config defaults");
            return (RetainStatePayload::from_config_defaults(config), Some(n));
        },
    };
    let a = crate::text::chars_of(sum.as_str());
    let b = crate::text::chars_of(stored_checksum);
    if !crate::text::eq_chars(a.as_slice(), b.as_slice()) {
        let mut n = owned("retain checksum mismatch for ");
        push_str(&mut n, path);
        push_str(&mut n, "; using config defaults");
        return (RetainStatePayload::from_config_defaults(config), Some(n));
    }
    (restore_retained_values(config, saved), None)
}

/// A saved state that passes its checks can change only the configured
/// channels, and a value it holds for one of them is the value taken back.
pub proof fn law_restore_keeps_configured_channels<V>(cfg: Map<u16, V>, saved: Map<u16, V>, k: u16)
    ensures
        restored(cfg, saved).dom() == cfg.dom(),
        cfg.contains_key(k) && saved.contains_key(k) ==> restored(cfg, saved)[k] == saved[k],
        cfg.contains_key(k) && !saved.contains_key(k) ==> restored(cfg, saved)[k] == cfg[k],
{
    assert(restored(cfg, saved).dom() =~= cfg.dom());
}

} // verus!
