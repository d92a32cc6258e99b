//! The audit trail of the simulator's online forces: for each accepted force
//! command, the value its channel was forced to before and after it.
use vstd::prelude::*;
use crate::sim_channels::{force_kind_label, force_kind_short, OnlineForceChannelKind};
use crate::text::{clone_string, decimal, format_u64, owned, push_str};
use std::collections::BTreeMap;

verus! {

/// A value a command forces a channel to. An analog value is carried by the
/// bit pattern of its `f32` (`f32::to_bits`): the audit stores and reports it
/// and never computes with it.
#[derive(Debug, Clone, Copy, PartialEq, Eq, Structural)]
pub enum OnlineForceValue {
    Digital(bool),
    Analog(u32),
}

/// A value as the audit reports it (an analog one by its `f32` bit pattern).
#[derive(Debug, Clone, Copy, PartialEq, Eq, Structural)]
pub enum ForceAuditValue {
    Digital(bool),
    Analog(u32),
}

/// One line of an online force script: at `at_ms`, force a channel to a
/// value, or release it (`value` is `None`).
pub struct OnlineForceCommand {
    pub at_ms: u64,
    pub actor: String,
    pub source: String,
    pub channel_kind: OnlineForceChannelKind,
    pub channel_id: u16,
    pub value: Option<OnlineForceValue>,
}

pub struct OnlineForceAuditEntry {
    pub at_ms: u64,
    pub tick: u64,
    pub actor: String,
    pub source: String,
    pub channel: String,
    pub channel_kind: &'static str,
    pub channel_id: u16,
    pub operation: &'static str,
    pub from: Option<ForceAuditValue>,
    pub to: Option<ForceAuditValue>,
}

pub open spec fn is_digital_kind(k: OnlineForceChannelKind) -> bool {
    k == OnlineForceChannelKind::Di || k == OnlineForceChannelKind::Do
}

/// Whether a command is audited: a release, or a value of its channel's type
/// (a value of the other type is passed over).
pub open spec fn fits(c: OnlineForceCommand) -> bool {
    match c.value {
        None => true,
        Some(OnlineForceValue::Digital(_)) => is_digital_kind(c.channel_kind),
        Some(OnlineForceValue::Analog(_)) => !is_digital_kind(c.channel_kind),
    }
}

pub open spec fn audit_value(v: OnlineForceValue) -> ForceAuditValue {
    match v {
        OnlineForceValue::Digital(b) => ForceAuditValue::Digital(b),
        OnlineForceValue::Analog(x) => ForceAuditValue::Analog(x),
    }
}

/// The forces in effect after the first `n` commands, by channel.
pub open spec fn forces_after(cmds: Seq<OnlineForceCommand>, n: int) -> Map<
    (OnlineForceChannelKind, u16),
    ForceAuditValue,
>
    decreases n,
{
    if n <= 0 {
        Map::empty()
    } else {
        let prev = forces_after(cmds, n - 1);
        let c = cmds[n - 1];
        if !fits(c) {
            prev
        } else {
            match c.value {
                None => prev.remove((c.channel_kind, c.channel_id)),
                Some(v) => prev.insert((c.channel_kind, c.channel_id), audit_value(v)),
            }
        }
    }
}

/// The value channel `(k, id)` is forced to in `m`, if any.
pub open spec fn forced(
    m: Map<(OnlineForceChannelKind, u16), ForceAuditValue>,
    k: OnlineForceChannelKind,
    id: u16,
) -> Option<ForceAuditValue> {
    if m.contains_key((k, id)) {
        Some(m[(k, id)])
    } else {
        None
    }
}

/// The positions of the audited commands among the first `n`.
pub open spec fn audited_below(cmds: Seq<OnlineForceCommand>, n: int) -> Seq<int>
    decreases n,
{
    if n <= 0 {
        seq![]
    } else {
        let p = audited_below(cmds, n - 1);
        if fits(cmds[n - 1]) {
            p.push(n - 1)
        } else {
            p
        }
    }
}

/// `e` is the audit entry of command `i`.
pub open spec fn entry_for(e: OnlineForceAuditEntry, cmds: Seq<OnlineForceCommand>, tick_ms: u64, i: int) -> bool {
    let c = cmds[i];
    &&& e.at_ms == c.at_ms
    &&& e.tick == (if tick_ms == 0 {
        0
    } else {
        c.at_ms / tick_ms
    })
    &&& e.actor@ == c.actor@
    &&& e.source@ == c.source@
    &&& e.channel@ == force_kind_short(c.channel_kind) + decimal(c.channel_id as nat)
    &&& e.channel_kind@ == force_kind_label(c.channel_kind)
    &&& e.channel_id == c.channel_id
    &&& e.operation@ == (if c.value is Some {
        "set"@
    } else {
        "clear"@
    })
    &&& e.from == forced(forces_after(cmds, i), c.channel_kind, c.channel_id)
    &&& e.to == (match c.value {
        Some(v) => Some(audit_value(v)),
        None => None,
    })
}

/// The four per-kind maps hold exactly the forces in effect.
pub open spec fn maps_hold(
    m: Map<(OnlineForceChannelKind, u16), ForceAuditValue>,
    di: Map<u16, bool>,
    ai: Map<u16, u32>,
    dout: Map<u16, bool>,
    aout: Map<u16, u32>,
) -> bool {
    &&& forall|id: u16|
        #[trigger] forced(m, OnlineForceChannelKind::Di, id) == (if di.contains_key(id) {
            Some(ForceAuditValue::Digital(di[id]))
        } else {
            None
        })
    &&& forall|id: u16|
        #[trigger] forced(m, OnlineForceChannelKind::Ai, id) == (if ai.contains_key(id) {
            Some(ForceAuditValue::Analog(ai[id]))
        } else {
            None
        })
    &&& forall|id: u16|
        #[trigger] forced(m, OnlineForceChannelKind::Do, id) == (if dout.contains_key(id) {
            Some(ForceAuditValue::Digital(dout[id]))
        } else {
            None
        })
    &&& forall|id: u16|
        #[trigger] forced(m, OnlineForceChannelKind::Ao, id) == (if aout.contains_key(id) {
            Some(ForceAuditValue::Analog(aout[id]))
        } else {
            None
        })
}

fn digital_before(m: &BTreeMap<u16, bool>, id: u16) -> (r: Option<ForceAuditValue>)
    ensures
        r == (if m@.contains_key(id) {
            Some(ForceAuditValue::Digital(m@[id]))
        } else {
            None
        }),
{
    match m.get(&id) {
        Some(v) => Some(ForceAuditValue::Digital(*v)),
        None => None,
    }
}

fn analog_before(m: &BTreeMap<u16, u32>, id: u16) -> (r: Option<ForceAuditValue>)
    ensures
        r == (if m@.contains_key(id) {
            Some(ForceAuditValue::Analog(m@[id]))
        } else {
            None
        }),
{
    match m.get(&id) {
        Some(v) => Some(ForceAuditValue::Analog(*v)),
        None => None,
    }
}

fn audit_entry(cmd: &OnlineForceCommand, tick_ms: u64, from: Option<ForceAuditValue>, to: Option<
    ForceAuditValue,
>) -> (r: OnlineForceAuditEntry)
    ensures
        r.at_ms == cmd.at_ms,
        r.tick == (if tick_ms == 0 {
            0
        } else {
            cmd.at_ms / tick_ms
        }),
        r.actor@ == cmd.actor@,
        r.source@ == cmd.source@,
        r.channel@ == force_kind_short(cmd.channel_kind) + decimal(cmd.channel_id as nat),
        r.channel_kind@ == force_kind_label(cmd.channel_kind),
        r.channel_id == cmd.channel_id,
        r.operation@ == (if cmd.value is Some {
            "set"@
        } else {
            "clear"@
        }),
        r.from == from,
        r.to == to,
{
    let mut channel = owned(cmd.channel_kind.short());
    let num = format_u64(cmd.channel_id as u64);
    push_str(&mut channel, num.as_str());
    let tick: u64 = if tick_ms == 0 {
        0
    } else {
        cmd.at_ms / tick_ms
    };
    let operation: &'static str = if cmd.value.is_some() {
        "set"
    } else {
        "clear"
    };
    OnlineForceAuditEntry {
        at_ms: cmd.at_ms,
        tick,
        actor: clone_string(&cmd.actor),
        source: clone_string(&cmd.source),
        channel,
        channel_kind: cmd.channel_kind.label(),
        channel_id: cmd.channel_id,
        operation,
        from,
        to,
    }
}

/// The audit of a force script, command by command: a command that sets or
/// releases its channel yields an entry with the channel's forced value
/// before and after it; one whose value is of the other type than its
/// channel yields none and changes nothing.
pub fn build_online_force_audit(commands: &[OnlineForceCommand], tick_ms: u64) -> (r: Vec<
    OnlineForceAuditEntry,
>)
    ensures
        r@.len() == audited_below(commands@, commands@.len() as int).len(),
        forall|j: int|
            0 <= j < r@.len() ==> entry_for(
                #[trigger] r@[j],
                commands@,
                tick_ms,
                audited_below(commands@, commands@.len() as int)[j],
            ),
{
    let mut out: Vec<OnlineForceAuditEntry> = Vec::new();
    let mut di: BTreeMap<u16, bool> = BTreeMap::new();
    let mut ai: BTreeMap<u16, u32> = BTreeMap::new();
    let mut dout: BTreeMap<u16, bool> = BTreeMap::new();
    let mut aout: BTreeMap<u16, u32> = BTreeMap::new();
    let ghost cmds = commands@;
    let mut i: usize = 0;
    while i < commands.len()
        invariant
            i <= cmds.len(),
            cmds == commands@,
            maps_hold(forces_after(cmds, i as int), di@, ai@, dout@, aout@),
            out@.len() == audited_below(cmds, i as int).len(),
            forall|j: int|
                0 <= j < out@.len() ==> entry_for(
                    #[trigger] out@[j],
                    cmds,
                    tick_ms,
                    audited_below(cmds, i as int)[j],
                ),
        decreases cmds.len() - i,
    {
        let cmd = &commands[i];
        let id = cmd.channel_id;
        let ghost m0 = forces_after(cmds, i as int);
        let step: Option<(Option<ForceAuditValue>, Option<ForceAuditValue>)> = match cmd.channel_kind {
            OnlineForceChannelKind::Di => {
                let before = digital_before(&di, id);
                match cmd.value {
                    Some(OnlineForceValue::Digital(v)) => {
                        di.insert(id, v);
                        Some((before, Some(ForceAuditValue::Digital(v))))
                    },
                    None => {
                        di.remove(&id);
                        Some((before, None))
                    },
                    Some(OnlineForceValue::Analog(_)) => None,
                }
            },
            OnlineForceChannelKind::Ai => {
                let before = analog_before(&ai, id);
                match cmd.value {
                    Some(OnlineForceValue::Analog(v)) => {
                        ai.insert(id, v);
                        Some((before, Some(ForceAuditValue::Analog(v))))
                    },
                    None => {
                        ai.remove(&id);
                        Some((before, None))
                    },
                    Some(OnlineForceValue::Digital(_)) => None,
                }
            },
            OnlineForceChannelKind::Do => {
                let before = digital_before(&dout, id);
                match cmd.value {
                    Some(OnlineForceValue::Digital(v)) => {
                        dout.insert(id, v);
                        Some((before, Some(ForceAuditValue::Digital(v))))
                    },
                    None => {
                        dout.remove(&id);
                        Some((before, None))
                    },
                    Some(OnlineForceValue::Analog(_)) => None,
                }
            },
            OnlineForceChannelKind::Ao => {
                let before = analog_before(&aout, id);
                match cmd.value {
                    Some(OnlineForceValue::Analog(v)) => {
                        aout.insert(id, v);
                        Some((before, Some(ForceAuditValue::Analog(v))))
                    },
                    None => {
                        aout.remove(&id);
                        Some((before, None))
                    },
                    Some(OnlineForceValue::Digital(_)) => None,
                }
            },
        };
        proof {
            let m1 = forces_after(cmds, i + 1);
            assert(m1 == (if !fits(cmds[i as int]) {
                m0
            } else {
                match cmds[i as int].value {
                    None => m0.remove((cmds[i as int].channel_kind, id)),
                    Some(v) => m0.insert((cmds[i as int].channel_kind, id), audit_value(v)),
                }
            }));
            assert forall|k: OnlineForceChannelKind, q: u16|
                (k, q) != (cmds[i as int].channel_kind, id) implies #[trigger] forced(m1, k, q)
                == forced(m0, k, q) by {}
        }
        match step {
            Some((from, to)) => {
                let e = audit_entry(cmd, tick_ms, from, to);
                out.push(e);
            },
            None => {},
        }
        i += 1;
    }
    out
}

/// Between commands `i` and `j`, no audited command touches channel `(k, id)`.
pub open spec fn untouched_between(cmds: Seq<OnlineForceCommand>, k: OnlineForceChannelKind, id: u16, i: int, j: int) -> bool {
    forall|q: int|
        i < q < j ==> !fits(#[trigger] cmds[q]) || cmds[q].channel_kind != k || cmds[q].channel_id
            != id
}

/// What a command leaves a channel forced to is what the audit reports as
/// the channel's value before any later command on that channel, as long as
/// no audited command touches the channel in between: the value set, or no
/// force after a release.
pub proof fn law_audit_reads_back_last_force(cmds: Seq<OnlineForceCommand>, i: int, j: int)
    requires
        0 <= i < j <= cmds.len(),
        fits(cmds[i]),
        untouched_between(cmds, cmds[i].channel_kind, cmds[i].channel_id, i, j),
    ensures
        forced(forces_after(cmds, j), cmds[i].channel_kind, cmds[i].channel_id) == (match cmds[i].value {
            Some(v) => Some(audit_value(v)),
            None => None,
        }),
    decreases j - i,
{
    if j > i + 1 {
        law_audit_reads_back_last_force(cmds, i, j - 1);
        let c = cmds[j - 1];
        assert(!fits(c) || c.channel_kind != cmds[i].channel_kind || c.channel_id
            != cmds[i].channel_id);
    }
}

} // verus!
