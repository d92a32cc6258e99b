//! Which I/O channels a compiled program touches, and the I/O map template
//! written for a board from that usage.
use vstd::prelude::*;
use crate::text::{decimal, format_u64, push_str};

verus! {

// ---------------------------------------------------------------------------
// The part of a compiled program that touches I/O
// ---------------------------------------------------------------------------

/// An action of a compiled step, as far as it drives an output channel.
pub enum IrAction {
    SetDigital { id: u16 },
    Extend { output: u16 },
    Retract { output: u16 },
    CylinderMotion { output: u16 },
    SetAnalog { id: u16 },
    SetAnalogExpr { id: u16 },
    /// Any action that drives no output channel directly.
    Other,
}

/// The instruction of a compiled step, as far as it reads an input channel
/// or performs actions.
pub enum IrInstr {
    WaitAllDigital { ids: Vec<u16> },
    WaitDigital { id: u16 },
    WaitDigitalEdge { id: u16 },
    WaitAnalog { id: u16 },
    Action { actions: Vec<IrAction> },
    /// Any instruction that neither reads an input nor acts.
    Other,
}

pub struct IrCamConfig {
    pub master_input: u16,
    pub slave_feedback: u16,
    pub slave_output: u16,
}

pub struct IrPidLoop {
    pub pv: u16,
    pub out: u16,
}

/// The tasks of a compiled program (each the instructions of its steps, in
/// order), its electronic cams and its PID loops.
pub struct IoProgram {
    pub tasks: Vec<Vec<IrInstr>>,
    pub cam_configs: Vec<IrCamConfig>,
    pub pid_loops: Vec<IrPidLoop>,
}

/// The four channel families of a board.
#[derive(Debug, Clone, Copy, PartialEq, Eq, Structural)]
pub enum IoFamily {
    DigitalInput,
    DigitalOutput,
    AnalogInput,
    AnalogOutput,
}

pub open spec fn action_ids(a: IrAction, f: IoFamily) -> Set<u16> {
    match (a, f) {
        (IrAction::SetDigital { id }, IoFamily::DigitalOutput) => set![id],
        (IrAction::Extend { output }, IoFamily::DigitalOutput) => set![output],
        (IrAction::Retract { output }, IoFamily::DigitalOutput) => set![output],
        (IrAction::CylinderMotion { output }, IoFamily::DigitalOutput) => set![output],
        (IrAction::SetAnalog { id }, IoFamily::AnalogOutput) => set![id],
        (IrAction::SetAnalogExpr { id }, IoFamily::AnalogOutput) => set![id],
        _ => Set::empty(),
    }
}

pub open spec fn actions_ids(acts: Seq<IrAction>, f: IoFamily) -> Set<u16>
    decreases acts.len(),
{
    if acts.len() == 0 {
        Set::empty()
    } else {
        actions_ids(acts.drop_last(), f).union(action_ids(acts.last(), f))
    }
}

pub open spec fn instr_ids(i: IrInstr, f: IoFamily) -> Set<u16> {
    match i {
        IrInstr::WaitAllDigital { ids } => if f == IoFamily::DigitalInput {
            ids@.to_set()
        } else {
            Set::empty()
        },
        IrInstr::WaitDigital { id } => if f == IoFamily::DigitalInput {
            set![id]
        } else {
            Set::empty()
        },
        IrInstr::WaitDigitalEdge { id } => if f == IoFamily::DigitalInput {
            set![id]
        } else {
            Set::empty()
        },
        IrInstr::WaitAnalog { id } => if f == IoFamily::AnalogInput {
            set![id]
        } else {
            Set::empty()
        },
        IrInstr::Action { actions } => actions_ids(actions@, f),
        IrInstr::Other => Set::empty(),
    }
}

pub open spec fn instrs_ids(steps: Seq<IrInstr>, f: IoFamily) -> Set<u16>
    decreases steps.len(),
{
    if steps.len() == 0 {
        Set::empty()
    } else {
        instrs_ids(steps.drop_last(), f).union(instr_ids(steps.last(), f))
    }
}

pub open spec fn tasks_ids(tasks: Seq<Vec<IrInstr>>, f: IoFamily) -> Set<u16>
    decreases tasks.len(),
{
    if tasks.len() == 0 {
        Set::empty()
    } else {
        tasks_ids(tasks.drop_last(), f).union(instrs_ids(tasks.last()@, f))
    }
}

pub open spec fn cam_ids(c: IrCamConfig, f: IoFamily) -> Set<u16> {
    match f {
        IoFamily::AnalogInput => set![c.master_input, c.slave_feedback],
        IoFamily::AnalogOutput => set![c.slave_output],
        _ => Set::empty(),
    }
}

pub open spec fn cams_ids(cams: Seq<IrCamConfig>, f: IoFamily) -> Set<u16>
    decreases cams.len(),
{
    if cams.len() == 0 {
        Set::empty()
    } else {
        cams_ids(cams.drop_last(), f).union(cam_ids(cams.last(), f))
    }
}

pub open spec fn pid_ids(p: IrPidLoop, f: IoFamily) -> Set<u16> {
    match f {
        IoFamily::AnalogInput => set![p.pv],
        IoFamily::AnalogOutput => set![p.out],
        _ => Set::empty(),
    }
}

pub open spec fn pids_ids(pids: Seq<IrPidLoop>, f: IoFamily) -> Set<u16>
    decreases pids.len(),
{
    if pids.len() == 0 {
        Set::empty()
    } else {
        pids_ids(pids.drop_last(), f).union(pid_ids(pids.last(), f))
    }
}

/// The channels of a family that a program reads or drives: those of its
/// steps, its cams and its PID loops.
pub open spec fn program_ids(p: IoProgram, f: IoFamily) -> Set<u16> {
    tasks_ids(p.tasks@, f).union(cams_ids(p.cam_configs@, f)).union(pids_ids(p.pid_loops@, f))
}

// ---------------------------------------------------------------------------
// Ascending id lists
// ---------------------------------------------------------------------------

pub open spec fn strictly_increasing(v: Seq<u16>) -> bool {
    forall|i: int, j: int| 0 <= i < j < v.len() ==> v[i] < v[j]
}

/// The members of `s` below `n`, in increasing order.
pub open spec fn sorted_ids_below(s: Set<u16>, n: nat) -> Seq<u16>
    decreases n,
{
    if n == 0 {
        seq![]
    } else {
        let m = (n - 1) as nat;
        if m <= u16::MAX && s.contains(m as u16) {
            sorted_ids_below(s, m).push(m as u16)
        } else {
            sorted_ids_below(s, m)
        }
    }
}

/// The members of a set of ids, in increasing order.
pub open spec fn sorted_ids(s: Set<u16>) -> Seq<u16> {
    sorted_ids_below(s, 0x10000)
}

/// An ascending list without repeats is the sorted list of its members.
pub proof fn law_ascending_list_is_sorted_ids(v: Seq<u16>, s: Set<u16>)
    requires
        strictly_increasing(v),
        forall|x: u16| v.contains(x) <==> s.contains(x),
    ensures
        v == sorted_ids(s),
{
    lemma_sorted_below(v, s, 0x10000);
}

proof fn lemma_sorted_below(v: Seq<u16>, s: Set<u16>, n: nat)
    requires
        n <= 0x10000,
        strictly_increasing(v),
        forall|i: int| 0 <= i < v.len() ==> v[i] < n,
        forall|x: u16| v.contains(x) <==> (s.contains(x) && x < n),
    ensures
        v == sorted_ids_below(s, n),
    decreases n,
{
    if n == 0 {
        if v.len() > 0 {
            assert(v[0] < 0);
        }
        assert(v =~= seq![]);
    } else {
        let m = (n - 1) as nat;
        if s.contains(m as u16) {
            assert(v.contains(m as u16));
            let k = choose|k: int| 0 <= k < v.len() && v[k] == m as u16;
            if k < v.len() - 1 {
                assert(v[k] < v[v.len() - 1]);
                assert(v[v.len() - 1] < n);
            }
            let w = v.drop_last();
            assert forall|x: u16| w.contains(x) <==> (s.contains(x) && x < m) by {
                if w.contains(x) {
                    let j = choose|j: int| 0 <= j < w.len() && w[j] == x;
                    assert(v[j] < v[v.len() - 1]);
                    assert(v.contains(x));
                }
                if s.contains(x) && x < m {
                    assert(v.contains(x));
                    let j = choose|j: int| 0 <= j < v.len() && v[j] == x;
                    assert(j != v.len() - 1);
                    assert(w[j] == x);
                }
            }
            lemma_sorted_below(w, s, m);
            assert(v =~= w.push(m as u16));
        } else {
            assert forall|i: int| 0 <= i < v.len() implies v[i] < m by {
                assert(v.contains(v[i]));
            }
            assert forall|x: u16| v.contains(x) <==> (s.contains(x) && x < m) by {
                if v.contains(x) {
                    let j = choose|j: int| 0 <= j < v.len() && v[j] == x;
                    assert(v[j] < m);
                }
            }
            lemma_sorted_below(v, s, m);
        }
    }
}

/// Adds `x` to an ascending list without repeats, where it belongs.
pub fn insert_sorted_unique(v: &mut Vec<u16>, x: u16)
    requires
        strictly_increasing(old(v)@),
    ensures
        strictly_increasing(final(v)@),
        forall|y: u16| final(v)@.contains(y) <==> (old(v)@.contains(y) || y == x),
{
    let mut i: usize = 0;
    while i < v.len() && v[i] < x
        invariant
            i <= v@.len(),
            v@ == old(v)@,
            forall|j: int| 0 <= j < i ==> v@[j] < x,
        decreases v@.len() - i,
    {
        i += 1;
    }
    if i < v.len() && v[i] == x {
        assert(v@.contains(x)) by {
            assert(v@[i as int] == x);
        }
        return;
    }
    let ghost old_v = v@;
    v.insert(i, x);
    assert(v@ =~= old_v.subrange(0, i as int).push(x) + old_v.subrange(i as int, old_v.len() as int));
    assert forall|y: u16| old_v.contains(y) || y == x implies v@.contains(y) by {
        if y == x {
            assert(v@[i as int] == x);
        } else {
            let j = choose|j: int| 0 <= j < old_v.len() && old_v[j] == y;
            if j < i {
                assert(v@[j] == y);
            } else {
                assert(v@[j + 1] == y);
            }
        }
    }
    assert forall|y: u16| v@.contains(y) implies old_v.contains(y) || y == x by {
        let j = choose|j: int| 0 <= j < v@.len() && v@[j] == y;
        if j < i {
            assert(old_v[j] == y);
        } else if j > i {
            assert(old_v[j - 1] == y);
        }
    }
    assert(old_v == old(v)@);
    assert(forall|y: u16| v@.contains(y) <==> (old(v)@.contains(y) || y == x));
}

// ---------------------------------------------------------------------------
// I/O usage
// ---------------------------------------------------------------------------

/// The channels a program uses, each family in increasing order.
pub struct IoUsage {
    pub digital_inputs: Vec<u16>,
    pub digital_outputs: Vec<u16>,
    pub analog_inputs: Vec<u16>,
    pub analog_outputs: Vec<u16>,
}

pub open spec fn usage_is_of(u: IoUsage, p: IoProgram) -> bool {
    &&& u.digital_inputs@ == sorted_ids(program_ids(p, IoFamily::DigitalInput))
    &&& u.digital_outputs@ == sorted_ids(program_ids(p, IoFamily::DigitalOutput))
    &&& u.analog_inputs@ == sorted_ids(program_ids(p, IoFamily::AnalogInput))
    &&& u.analog_outputs@ == sorted_ids(program_ids(p, IoFamily::AnalogOutput))
}

/// An ascending list without repeats whose members are those of `s`.
pub open spec fn tracks(v: Seq<u16>, s: Set<u16>) -> bool {
    strictly_increasing(v) && forall|y: u16| v.contains(y) <==> s.contains(y)
}

fn add_id(v: &mut Vec<u16>, x: u16, Ghost(s): Ghost<Set<u16>>)
    requires
        tracks(old(v)@, s),
    ensures
        tracks(final(v)@, s.insert(x)),
{
    insert_sorted_unique(v, x);
}

fn add_action_ids(v: &mut Vec<u16>, a: &IrAction, f: IoFamily, Ghost(s): Ghost<Set<u16>>)
    requires
        tracks(old(v)@, s),
    ensures
        tracks(final(v)@, s.union(action_ids(*a, f))),
{
    match a {
        IrAction::SetDigital { id } => {
            if f == IoFamily::DigitalOutput {
                add_id(v, *id, Ghost(s));
                assert(s.insert(*id) =~= s.union(action_ids(*a, f)));
            } else {
                assert(s =~= s.union(action_ids(*a, f)));
            }
        },
        IrAction::Extend { output } | IrAction::Retract { output } | IrAction::CylinderMotion {
            output,
        } => {
            if f == IoFamily::DigitalOutput {
                add_id(v, *output, Ghost(s));
                assert(s.insert(*output) =~= s.union(action_ids(*a, f)));
            } else {
                assert(s =~= s.union(action_ids(*a, f)));
            }
        },
        IrAction::SetAnalog { id } | IrAction::SetAnalogExpr { id } => {
            if f == IoFamily::AnalogOutput {
                add_id(v, *id, Ghost(s));
                assert(s.insert(*id) =~= s.union(action_ids(*a, f)));
            } else {
                assert(s =~= s.union(action_ids(*a, f)));
            }
        },
        IrAction::Other => {
            assert(s =~= s.union(action_ids(*a, f)));
        },
    }
}

fn add_instr_ids(v: &mut Vec<u16>, instr: &IrInstr, f: IoFamily, Ghost(s): Ghost<Set<u16>>)
    requires
        tracks(old(v)@, s),
    ensures
        tracks(final(v)@, s.union(instr_ids(*instr, f))),
{
    match instr {
        IrInstr::WaitAllDigital { ids } => {
            if f == IoFamily::DigitalInput {
                let mut k: usize = 0;
                while k < ids.len()
                    invariant
                        k <= ids@.len(),
                        tracks(v@, s.union(ids@.subrange(0, k as int).to_set())),
                    decreases ids@.len() - k,
                {
                    let ghost before = s.union(ids@.subrange(0, k as int).to_set());
                    add_id(v, ids[k], Ghost(before));
                    assert(before.insert(ids@[k as int]) =~= s.union(
                        ids@.subrange(0, k + 1).to_set(),
                    )) by {
                        assert(ids@.subrange(0, k + 1) =~= ids@.subrange(0, k as int).push(
                            ids@[k as int],
                        ));
                        ids@.subrange(0, k as int).lemma_push_to_set_commute(ids@[k as int]);
                    }
                    k += 1;
                }
                assert(ids@.subrange(0, ids@.len() as int) =~= ids@);
            } else {
                assert(s =~= s.union(instr_ids(*instr, f)));
            }
        },
        IrInstr::WaitDigital { id } | IrInstr::WaitDigitalEdge { id } => {
            if f == IoFamily::DigitalInput {
                add_id(v, *id, Ghost(s));
                assert(s.insert(*id) =~= s.union(instr_ids(*instr, f)));
            } else {
                assert(s =~= s.union(instr_ids(*instr, f)));
            }
        },
        IrInstr::WaitAnalog { id } => {
            if f == IoFamily::AnalogInput {
                add_id(v, *id, Ghost(s));
                assert(s.insert(*id) =~= s.union(instr_ids(*instr, f)));
            } else {
                assert(s =~= s.union(instr_ids(*instr, f)));
            }
        },
        IrInstr::Action { actions } => {
            let mut k: usize = 0;
            while k < actions.len()
                invariant
                    k <= actions@.len(),
                    tracks(v@, s.union(actions_ids(actions@.subrange(0, k as int), f))),
                decreases actions@.len() - k,
            {
                let ghost before = s.union(actions_ids(actions@.subrange(0, k as int), f));
                add_action_ids(v, &actions[k], f, Ghost(before));
                assert(actions@.subrange(0, k + 1).drop_last() =~= actions@.subrange(0, k as int));
                assert(before.union(action_ids(actions@[k as int], f)) =~= s.union(
                    actions_ids(actions@.subrange(0, k + 1), f),
                ));
                k += 1;
            }
            assert(actions@.subrange(0, actions@.len() as int) =~= actions@);
        },
        IrInstr::Other => {
            assert(s =~= s.union(instr_ids(*instr, f)));
        },
    }
}

/// The channels of one family that a program uses, in increasing order.
fn collect_ids(p: &IoProgram, f: IoFamily) -> (r: Vec<u16>)
    ensures
        r@ == sorted_ids(program_ids(*p, f)),
{
    let mut v: Vec<u16> = Vec::new();
    let mut t: usize = 0;
    while t < p.tasks.len()
        invariant
            t <= p.tasks@.len(),
            tracks(v@, tasks_ids(p.tasks@.subrange(0, t as int), f)),
        decreases p.tasks@.len() - t,
    {
        let steps = &p.tasks[t];
        let ghost base = tasks_ids(p.tasks@.subrange(0, t as int), f);
        let mut k: usize = 0;
        while k < steps.len()
            invariant
                k <= steps@.len(),
                tracks(v@, base.union(instrs_ids(steps@.subrange(0, k as int), f))),
            decreases steps@.len() - k,
        {
            let ghost before = base.union(instrs_ids(steps@.subrange(0, k as int), f));
            add_instr_ids(&mut v, &steps[k], f, Ghost(before));
            assert(steps@.subrange(0, k + 1).drop_last() =~= steps@.subrange(0, k as int));
            assert(before.union(instr_ids(steps@[k as int], f)) =~= base.union(
                instrs_ids(steps@.subrange(0, k + 1), f),
            ));
            k += 1;
        }
        assert(steps@.subrange(0, steps@.len() as int) =~= steps@);
        assert(p.tasks@.subrange(0, t + 1).drop_last() =~= p.tasks@.subrange(0, t as int));
        t += 1;
    }
    assert(p.tasks@.subrange(0, p.tasks@.len() as int) =~= p.tasks@);
    let ghost base = tasks_ids(p.tasks@, f);
    let mut c: usize = 0;
    while c < p.cam_configs.len()
        invariant
            c <= p.cam_configs@.len(),
            base == tasks_ids(p.tasks@, f),
            tracks(v@, base.union(cams_ids(p.cam_configs@.subrange(0, c as int), f))),
        decreases p.cam_configs@.len() - c,
    {
        let cam = &p.cam_configs[c];
        let ghost before = base.union(cams_ids(p.cam_configs@.subrange(0, c as int), f));
        assert(p.cam_configs@.subrange(0, c + 1).drop_last() =~= p.cam_configs@.subrange(0, c as int));
        match f {
            IoFamily::AnalogInput => {
                add_id(&mut v, cam.master_input, Ghost(before));
                add_id(&mut v, cam.slave_feedback, Ghost(before.insert(cam.master_input)));
                assert(before.insert(cam.master_input).insert(cam.slave_feedback) =~= base.union(
                    cams_ids(p.cam_configs@.subrange(0, c + 1), f),
                ));
            },
            IoFamily::AnalogOutput => {
                add_id(&mut v, cam.slave_output, Ghost(before));
                assert(before.insert(cam.slave_output) =~= base.union(
                    cams_ids(p.cam_configs@.subrange(0, c + 1), f),
                ));
            },
            _ => {
                assert(before =~= base.union(cams_ids(p.cam_configs@.subrange(0, c + 1), f)));
            },
        }
        c += 1;
    }
    assert(p.cam_configs@.subrange(0, p.cam_configs@.len() as int) =~= p.cam_configs@);
    let ghost base2 = base.union(cams_ids(p.cam_configs@, f));
    let mut q: usize = 0;
    while q < p.pid_loops.len()
        invariant
            q <= p.pid_loops@.len(),
            base2 == tasks_ids(p.tasks@, f).union(cams_ids(p.cam_configs@, f)),
            tracks(v@, base2.union(pids_ids(p.pid_loops@.subrange(0, q as int), f))),
        decreases p.pid_loops@.len() - q,
    {
        let pid = &p.pid_loops[q];
        let ghost before = base2.union(pids_ids(p.pid_loops@.subrange(0, q as int), f));
        assert(p.pid_loops@.subrange(0, q + 1).drop_last() =~= p.pid_loops@.subrange(0, q as int));
        match f {
            IoFamily::AnalogInput => {
                add_id(&mut v, pid.pv, Ghost(before));
                assert(before.insert(pid.pv) =~= base2.union(
                    pids_ids(p.pid_loops@.subrange(0, q + 1), f),
                ));
            },
            IoFamily::AnalogOutput => {
                add_id(&mut v, pid.out, Ghost(before));
                assert(before.insert(pid.out) =~= base2.union(
                    pids_ids(p.pid_loops@.subrange(0, q + 1), f),
                ));
            },
            _ => {
                assert(before =~= base2.union(pids_ids(p.pid_loops@.subrange(0, q + 1), f)));
            },
        }
        q += 1;
    }
    assert(p.pid_loops@.subrange(0, p.pid_loops@.len() as int) =~= p.pid_loops@);
    proof {
        law_ascending_list_is_sorted_ids(v@, program_ids(*p, f));
    }
    v
}

/// The channels of each family that a program reads or drives.
pub fn io_usage_for_program(program: &IoProgram) -> (r: IoUsage)
    ensures
        usage_is_of(r, *program),
{
    IoUsage {
        digital_inputs: collect_ids(program, IoFamily::DigitalInput),
        digital_outputs: collect_ids(program, IoFamily::DigitalOutput),
        analog_inputs: collect_ids(program, IoFamily::AnalogInput),
        analog_outputs: collect_ids(program, IoFamily::AnalogOutput),
    }
}

// ---------------------------------------------------------------------------
// The I/O map template
// ---------------------------------------------------------------------------

pub const IO_MAP_HEAD: &'static str = "# RP2040 I/O map template (fill in GPIO numbers for your wiring)\n# This file is a template; it may be incomplete by design.\n\n# GPIO mapping notes:\n# - DI/DO/AO: 0..=29 or \"virtual\" (no physical GPIO binding)\n# - AI: 26..=29 (ADC-capable) or \"virtual\" (board-provided synthetic)\n\n";

pub const IO_MAP_TAIL: &'static str = "\n# Motion (optional): Pulse/Dir stepper + AB encoder (PIO-first).\n# These channels are NOT inferred from the PLC program. Fill in GPIO wiring and\n# axis parameters if you plan to use board-level motion feedback/commands.\n#\n# Note: if you include a [motion] section, it must not be empty.\n#\n# [motion.stepper.axis0]\n# step_gpio = 2\n# dir_gpio = 3\n# en_gpio = 4\n# dir_inverted = false\n# v_max_sps = 20000  # steps per second\n# acc_sps2 = 40000   # steps per second^2\n# dec_sps2 = 40000   # steps per second^2\n#\n# [motion.stepper.axis1]\n# step_gpio = 5\n# dir_gpio = 6\n# en_gpio = 7\n# dir_inverted = false\n# v_max_sps = 20000\n# acc_sps2 = 40000\n# dec_sps2 = 40000\n#\n# [motion.encoder.axis0]\n# a_gpio = 8\n# b_gpio = 9\n# ppr = 1024\n# quad = 4\n# count_sign = \"normal\"  # normal|inverted\n# scale = 1.0\n#\n# [motion.encoder.axis1]\n# a_gpio = 10\n# b_gpio = 11\n# ppr = 1024\n# quad = 4\n# count_sign = \"normal\"\n# scale = 1.0\n\n[safe_state]\n# Default: all outputs -> 0 on exit (de-energize)\n# mode = \"all_zero\"  # all_zero | profile\n# on_exit_timeout_ms = 300\n#\n# If mode = \"profile\", define per-output safe values and ordering groups.\n# Example (NC brake coil, 0=brake):\n# [safe_state.do.Y2]\n# safe_value = 0\n# group = 10\n#\n# Example (disable stepper enable after brake):\n# [safe_state.do.Y1]\n# safe_value = 0\n# group = 20\n#\n# Example (analog output safe value):\n# [safe_state.ao.AO0]\n# safe_value = 0.0\n# group = 30\n";

/// One commented line per id: `prefix`, the id, `value`.
pub open spec fn id_lines(prefix: Seq<char>, ids: Seq<u16>, value: Seq<char>) -> Seq<char>
    decreases ids.len(),
{
    if ids.len() == 0 {
        seq![]
    } else {
        id_lines(prefix, ids.drop_last(), value) + prefix + decimal(ids.last() as nat) + value
    }
}

/// The lines of one family: one per used id, or an example for id 0.
pub open spec fn io_section(prefix: Seq<char>, ids: Seq<u16>, value: Seq<char>) -> Seq<char> {
    if ids.len() == 0 {
        prefix + "0"@ + value
    } else {
        id_lines(prefix, ids, value)
    }
}

/// The I/O map template of a board: a commented example binding for each
/// channel that the program uses, then commented motion and safe-state
/// sections.
pub open spec fn spec_io_map_template(dis: Seq<u16>, dos: Seq<u16>, ais: Seq<u16>, aos: Seq<u16>) -> Seq<char> {
    IO_MAP_HEAD@ + "[digital_inputs]\n"@ + io_section("# di"@, dis, " = 2\n"@) + "\n"@
        + "[digital_outputs]\n"@ + io_section("# do"@, dos, " = 16\n"@) + "\n"@
        + "[analog_inputs]\n"@ + "# RP2040 ADC-capable GPIO: 26, 27, 28, 29\n"@ + io_section(
        "# ai"@,
        ais,
        " = 26\n"@,
    ) + "\n"@ + "[analog_outputs]\n"@ + io_section("# ao"@, aos, " = 26\n"@) + IO_MAP_TAIL@
}

fn push_io_section(out: &mut String, prefix: &str, ids: &Vec<u16>, value: &str)
    ensures
        final(out)@ == old(out)@ + io_section(prefix@, ids@, value@),
{
    if ids.len() == 0 {
        push_str(out, prefix);
        push_str(out, "0");
        push_str(out, value);
        proof {
            reveal_strlit("0");
        }
        return;
    }
    let ghost base = out@;
    let mut k: usize = 0;
    while k < ids.len()
        invariant
            k <= ids@.len(),
            out@ == base + id_lines(prefix@, ids@.subrange(0, k as int), value@),
        decreases ids@.len() - k,
    {
        assert(ids@.subrange(0, k + 1).drop_last() =~= ids@.subrange(0, k as int));
        push_str(out, prefix);
        let d = format_u64(ids[k] as u64);
        push_str(out, d.as_str());
        push_str(out, value);
        k += 1;
        assert(out@ =~= base + id_lines(prefix@, ids@.subrange(0, k as int), value@));
    }
    assert(ids@.subrange(0, ids@.len() as int) =~= ids@);
}

/// The I/O map template for a given usage.
pub fn io_map_template_for_usage(usage: &IoUsage) -> (r: String)
    ensures
        r@ == spec_io_map_template(
            usage.digital_inputs@,
            usage.digital_outputs@,
            usage.analog_inputs@,
            usage.analog_outputs@,
        ),
{
    let mut out = String::new();
    push_str(&mut out, IO_MAP_HEAD);
    push_str(&mut out, "[digital_inputs]\n");
    push_io_section(&mut out, "# di", &usage.digital_inputs, " = 2\n");
    push_str(&mut out, "\n");
    push_str(&mut out, "[digital_outputs]\n");
    push_io_section(&mut out, "# do", &usage.digital_outputs, " = 16\n");
    push_str(&mut out, "\n");
    push_str(&mut out, "[analog_inputs]\n");
    push_str(&mut out, "# RP2040 ADC-capable GPIO: 26, 27, 28, 29\n");
    push_io_section(&mut out, "# ai", &usage.analog_inputs, " = 26\n");
    push_str(&mut out, "\n");
    push_str(&mut out, "[analog_outputs]\n");
    push_io_section(&mut out, "# ao", &usage.analog_outputs, " = 26\n");
    push_str(&mut out, IO_MAP_TAIL);
    assert(out@ =~= spec_io_map_template(
        usage.digital_inputs@,
        usage.digital_outputs@,
        usage.analog_inputs@,
        usage.analog_outputs@,
    ));
    out
}

/// The I/O map template of a board for a program: the template of the
/// program's I/O usage.
pub fn io_map_template_for_program(program: &IoProgram) -> (r: String)
    ensures
        r@ == spec_io_map_template(
            sorted_ids(program_ids(*program, IoFamily::DigitalInput)),
            sorted_ids(program_ids(*program, IoFamily::DigitalOutput)),
            sorted_ids(program_ids(*program, IoFamily::AnalogInput)),
            sorted_ids(program_ids(*program, IoFamily::AnalogOutput)),
        ),
{
    let usage = io_usage_for_program(program);
    io_map_template_for_usage(&usage)
}

// ---------------------------------------------------------------------------
// The analog calibration template
// ---------------------------------------------------------------------------

pub const ANALOG_CALIBRATION_HEAD: &'static str = "# Analog calibration template (optional)\n#\n# The firmware applies calibration as:\n#   eng_calibrated = eng_raw * scale + offset\n#\n# Notes:\n# - Keys match analog_contract.toml sections: ai0/ao0/...\n# - Only entries present here override defaults.\n\n";

/// One commented identity calibration per key.
pub open spec fn calibration_lines(keys: Seq<Seq<char>>) -> Seq<char>
    decreases keys.len(),
{
    if keys.len() == 0 {
        seq![]
    } else {
        calibration_lines(keys.drop_last()) + "# "@ + keys.last() + " = { scale = 1.0, offset = 0.0 }\n"@
    }
}

/// A section of the calibration template: nothing without keys.
pub open spec fn calibration_section(header: Seq<char>, keys: Seq<Seq<char>>) -> Seq<char> {
    if keys.len() == 0 {
        seq![]
    } else {
        header + calibration_lines(keys) + "\n"@
    }
}

pub open spec fn keys_view(keys: Seq<String>) -> Seq<Seq<char>> {
    keys.map_values(|k: String| k@)
}

/// The analog calibration template for a contract whose analog inputs and
/// outputs have the given keys (in the contract's order): a commented
/// identity calibration for each channel, under its section.
pub open spec fn spec_analog_calibration_template(inputs: Seq<Seq<char>>, outputs: Seq<Seq<char>>) -> Seq<char> {
    ANALOG_CALIBRATION_HEAD@ + calibration_section("[analog_inputs]\n"@, inputs)
        + calibration_section("[analog_outputs]\n"@, outputs)
}

fn push_calibration_section(out: &mut String, header: &str, keys: &[String])
    ensures
        final(out)@ == old(out)@ + calibration_section(header@, keys_view(keys@)),
{
    if keys.len() == 0 {
        assert(old(out)@ + Seq::<char>::empty() =~= old(out)@);
        return;
    }
    push_str(out, header);
    let ghost base = out@;
    let mut k: usize = 0;
    while k < keys.len()
        invariant
            k <= keys@.len(),
            out@ == base + calibration_lines(keys_view(keys@).subrange(0, k as int)),
        decreases keys@.len() - k,
    {
        assert(keys_view(keys@).subrange(0, k + 1).drop_last() =~= keys_view(keys@).subrange(0, k as int));
        push_str(out, "# ");
        push_str(out, keys[k].as_str());
        push_str(out, " = { scale = 1.0, offset = 0.0 }\n");
        k += 1;
        assert(out@ =~= base + calibration_lines(keys_view(keys@).subrange(0, k as int)));
    }
    assert(keys_view(keys@).subrange(0, keys@.len() as int) =~= keys_view(keys@));
    push_str(out, "\n");
    assert(out@ =~= old(out)@ + calibration_section(header@, keys_view(keys@)));
}

/// The analog calibration template for a contract with these analog input
/// and output keys.
pub fn analog_calibration_template_for_contract(input_keys: &[String], output_keys: &[String]) -> (r:
    String)
    ensures
        r@ == spec_analog_calibration_template(keys_view(input_keys@), keys_view(output_keys@)),
{
    let mut out = String::new();
    push_str(&mut out, ANALOG_CALIBRATION_HEAD);
    push_calibration_section(&mut out, "[analog_inputs]\n", input_keys);
    push_calibration_section(&mut out, "[analog_outputs]\n", output_keys);
    assert(out@ =~= spec_analog_calibration_template(keys_view(input_keys@), keys_view(output_keys@)));
    out
}

} // verus!
