//! The syntax tree of a PLC program: the declarations and statements that
//! the library's analyses and renderings read.
use vstd::prelude::*;
use crate::text::{owned, push_str};

verus! {

#[derive(Debug, Clone, PartialEq, Eq)]
pub struct StationDeclaration {
    pub line: usize,
    pub name: String,
    pub owns: Vec<String>,
    pub tasks: Vec<String>,
}

#[derive(Debug, Clone)]
pub struct HandshakeDeclaration {
    pub line: usize,
    pub name: String,
    pub from: String,
    pub to: String,
    pub request: String,
    pub allow: String,
    pub complete: String,
    pub timeout: TimeoutDirective,
}

#[derive(Debug, Clone, PartialEq, Eq)]
pub struct TransferPointDeclaration {
    pub line: usize,
    pub name: String,
    pub from_station: String,
    pub to_station: String,
    pub site: String,
    pub handshake: String,
}

#[derive(Debug, Clone, PartialEq, Eq)]
pub enum VariableType {
    Float,
    Int,
    Bool,
}

#[derive(Debug, Clone)]
pub struct VariableDeclaration {
    pub line: usize,
    pub name: String,
    pub var_type: VariableType,
    pub initial_value: String,
}

#[derive(Debug, Clone, PartialEq, Eq)]
pub struct SemanticResourceDeclaration {
    pub line: usize,
    pub name: String,
    pub mode: SemanticResourceMode,
    pub purpose: Option<String>,
}

#[derive(Debug, Clone, PartialEq, Eq)]
pub enum SemanticResourceMode {
    Exclusive,
}

#[derive(Debug, Clone, PartialEq, Eq)]
pub struct WorkpieceTypeDeclaration {
    pub line: usize,
    pub name: String,
    pub properties: Vec<WorkpiecePropertyDeclaration>,
    pub normal_terminal_states: Vec<String>,
    pub abnormal_terminal_states: Vec<String>,
    pub ingress_sites: Vec<String>,
    pub normal_egress_sites: Vec<String>,
    pub abnormal_egress_sites: Vec<String>,
    pub allows: Vec<WorkpieceAllowDeclaration>,
    pub derived_from: Vec<WorkpieceDerivationDeclaration>,
}

#[derive(Debug, Clone, PartialEq, Eq)]
pub struct WorkpiecePropertyDeclaration {
    pub name: String,
    pub property_type: WorkpiecePropertyType,
}

#[derive(Debug, Clone, PartialEq, Eq)]
pub enum WorkpiecePropertyType {
    Bool,
    Enum { values: Vec<String> },
}

#[derive(Debug, Clone, PartialEq, Eq)]
pub struct WorkpieceSiteDeclaration {
    pub line: usize,
    pub name: String,
    pub kind: WorkpieceSiteKind,
    pub capacity: u32,
}

#[derive(Debug, Clone, PartialEq, Eq)]
pub enum WorkpieceSiteKind {
    WorkpieceLocation,
    CarrierLocation,
}

#[derive(Debug, Clone, PartialEq, Eq)]
pub struct WorkpieceHolderDeclaration {
    pub line: usize,
    pub name: String,
    pub capacity: u32,
}

#[derive(Debug, Clone, PartialEq, Eq)]
pub struct WorkpieceCarrierDeclaration {
    pub line: usize,
    pub name: String,
    pub layout: WorkpieceCarrierLayout,
}

#[derive(Debug, Clone, PartialEq, Eq)]
pub enum WorkpieceCarrierLayout {
    Slots { count: u32 },
    Grid { rows: u32, cols: u32 },
}

#[derive(Debug, Clone, PartialEq, Eq)]
pub enum WorkpieceAllowDeclaration {
    SplitInto { target: String },
}

#[derive(Debug, Clone, PartialEq, Eq)]
pub enum WorkpieceDerivationDeclaration {
    WorkpieceType { workpiece_type: String },
    Merge { inputs: Vec<String> },
}

#[derive(Debug, Clone, PartialEq, Eq)]
pub struct ExternFunctionDeclaration {
    pub line: usize,
    pub name: String,
    pub params: Vec<ExternFunctionParameter>,
    pub return_types: Vec<VariableType>,
    pub contract: ExternFunctionContract,
}

#[derive(Debug, Clone, PartialEq, Eq)]
pub struct ExternFunctionParameter {
    pub name: String,
    pub var_type: VariableType,
}

#[derive(Debug, Clone, PartialEq, Eq)]
pub struct ExternFunctionContract {
    pub rust_module: String,
    pub pure: bool,
    pub time_bound_us: u64,
}

#[derive(Debug, Clone, PartialEq, Eq)]
pub struct AxisFaultContractDeclaration {
    pub line: usize,
    pub name: String,
    pub axis: String,
    pub severity: AxisFaultSeverity,
    pub stop_mode: AxisStopMode,
    pub auto_reset_policy: AxisAutoResetPolicy,
    pub manual_ack_required: bool,
    pub propagation_scope: AxisFaultPropagationScope,
    pub propagation_targets: Vec<String>,
}

#[derive(Debug, Clone, PartialEq, Eq)]
pub enum AxisFaultSeverity {
    Recoverable,
    NonRecoverable,
    Safety,
}

#[derive(Debug, Clone, PartialEq, Eq)]
pub enum AxisStopMode {
    Controlled,
    Quick,
    Immediate,
}

#[derive(Debug, Clone, PartialEq, Eq)]
pub enum AxisAutoResetPolicy {
    Never,
    OnClear,
    Immediate,
}

#[derive(Debug, Clone, PartialEq, Eq)]
pub enum AxisFaultPropagationScope {
    SelfOnly,
    Group,
    All,
    Followers,
    Custom,
}

#[derive(Debug, Clone, PartialEq, Eq)]
pub enum CamTableMode {
    Periodic,
    Oneshot,
}

#[derive(Debug, Clone, PartialEq, Eq)]
pub enum DeviceType {
    DigitalOutput,
    DigitalInput,
    Plc,
    SolenoidValve,
    Cylinder,
    Sensor,
    Motor,
    StepperMotor,
    Vfd,
    ServoDrive,
    CamCoupling,
    AnalogInput,
    AnalogOutput,
    Pid,
    ProportionalValve,
    Gripper,
    Conveyor,
    Pump,
    Heater,
    VisionSensor,
}

#[derive(Debug, Clone, PartialEq, Eq)]
pub enum PortType {
    Digital,
    Analog,
    Pneumatic,
    Logical,
    Generic,
}

#[derive(Debug, Clone, PartialEq, Eq)]
pub enum PortRole {
    Producer,
    Consumer,
    Bidirectional,
}

#[derive(Debug, Clone, PartialEq, Eq)]
pub struct DevicePort {
    pub id: String,
    pub port_type: PortType,
    pub role: PortRole,
    pub states: Vec<String>,
    pub default_state: String,
}

#[derive(Debug, Clone, PartialEq, Eq)]
pub enum TopologyRelation {
    DrivenBy,
    ReportsTo,
    Detects,
}

#[derive(Debug, Clone, PartialEq, Eq)]
pub struct TopologyConnection {
    pub from: String,
    pub to: String,
    pub relation: TopologyRelation,
    pub from_port: Option<String>,
    pub to_port: Option<String>,
    pub signal: Option<String>,
}

#[derive(Debug, Clone, PartialEq, Eq)]
pub struct DeviceTags {
    pub functional_group: Vec<String>,
    pub danger_level: Vec<String>,
    pub location_group: Vec<String>,
}

#[derive(Debug, Clone)]
pub struct DurationValue {
    pub value: u64,
    pub unit: TimeUnit,
}

#[derive(Debug, Clone)]
pub enum TimeUnit {
    Ms,
    S,
}

#[derive(Debug, Clone)]
pub struct StateReference {
    pub device: String,
    pub port: String,
    pub state: String,
}

#[derive(Debug, Clone)]
pub enum SafetyRelation {
    ConflictsWith,
    Requires,
}

#[derive(Debug, Clone)]
pub struct ResourceClaimConstraint {
    pub line: usize,
    pub source: ResourceClaimSource,
    pub resource: String,
    pub reason: Option<String>,
}

#[derive(Debug, Clone)]
pub enum ResourceClaimSource {
    State(StateReference),
    ActionTag { tag: String },
}

#[derive(Debug, Clone)]
pub struct TimingConstraint {
    pub line: usize,
    pub target: TimingTarget,
    pub relation: TimingRelation,
    pub duration: DurationValue,
    pub reason: Option<String>,
}

#[derive(Debug, Clone)]
pub enum TimingRelation {
    MustCompleteWithin,
    MustCompleteWithinWorstCase,
    MustStartAfter,
}

#[derive(Debug, Clone)]
pub enum TimingTarget {
    Task { task: String },
    Step { task: String, step: String },
}

#[derive(Debug, Clone)]
pub struct CausalityConstraint {
    pub line: usize,
    pub chain: Vec<StateReference>,
    pub reason: Option<String>,
}

#[derive(Debug, Clone, PartialEq, Eq)]
pub struct EffectStatement {
    pub line: usize,
    pub kind: EffectKind,
}

#[derive(Debug, Clone, PartialEq, Eq)]
pub enum EffectKind {
    Acquire {
        holder: String,
        from: String,
    },
    Transfer {
        from: String,
        to: String,
    },
    Finish {
        at: String,
        terminal_state: String,
    },
    Mount {
        workpiece_type: String,
        slot: String,
    },
    Unmount {
        workpiece_type: String,
        slot: String,
        to: String,
    },
    Split {
        source_type: String,
        target_type: String,
        count: u32,
        consumed: bool,
    },
    Merge {
        inputs: Vec<String>,
        target_type: String,
        consumed_inputs: bool,
    },
    TransformCarrier {
        carrier: String,
        frame: String,
    },
}

#[derive(Debug, Clone, PartialEq, Eq)]
pub struct ActionTarget {
    pub device: String,
    pub port: String,
}

#[derive(Debug, Clone)]
pub enum ExternCallBinding {
    Single(String),
    Tuple(Vec<String>),
}

#[derive(Debug, Clone, Copy, PartialEq, Eq)]
pub enum BinaryOperator {
    Add,
    Sub,
    Mul,
    Div,
    Mod,
    Eq,
    Neq,
    Gt,
    Lt,
    Gte,
    Lte,
    And,
    Or,
}

#[derive(Debug, Clone)]
pub enum ComparisonOperator {
    Eq,
    Neq,
    Gt,
    Lt,
    Gte,
    Lte,
}

#[derive(Debug, Clone)]
pub struct TimeoutDirective {
    pub duration: DurationValue,
    pub target: GotoDirective,
}

#[derive(Debug, Clone)]
pub struct GotoDirective {
    pub line: usize,
    pub task: String,
    pub step: Option<String>,
}

#[derive(Debug, Clone, Copy, PartialEq, Eq)]
pub enum AxisFaultRouteKind {
    Reject,
    Motion,
    Safety,
    Vendor,
}

#[derive(Debug, Clone)]
pub struct AxisFaultRouteDirective {
    pub line: usize,
    pub kind: Option<AxisFaultRouteKind>,
    pub code: Option<i32>,
    pub target: GotoDirective,
}

#[derive(Debug, Clone)]
pub enum OnCompleteDirective {
    Goto { target: GotoDirective },
    Unreachable,
}


impl DeviceTags {
    /// No group of tags holds a tag.
    pub fn is_empty(&self) -> (r: bool)
        ensures
            r == (self.functional_group@.len() == 0 && self.danger_level@.len() == 0
                && self.location_group@.len() == 0),
    {
        self.functional_group.is_empty() && self.danger_level.is_empty()
            && self.location_group.is_empty()
    }
}

/// The port that a target or state names when none is written.
pub fn default_port() -> (r: String)
    ensures
        r@ == "self"@,
{
    owned("self")
}

impl ActionTarget {
    /// A target that addresses the device itself (port `self`).
    pub fn simple(device: String) -> (r: Self)
        ensures
            r.device@ == device@,
            r.port@ == "self"@,
    {
        ActionTarget { device, port: default_port() }
    }

    /// How a target is written: the device alone for its own port, else
    /// `device.port`.
    pub open spec fn spec_display(&self) -> Seq<char> {
        if self.port@ == "self"@ {
            self.device@
        } else {
            self.device@ + "."@ + self.port@
        }
    }

    pub fn display(&self) -> (r: String)
        ensures
            r@ == self.spec_display(),
    {
        let this = crate::text::chars_of(self.port.as_str());
        let me = crate::text::chars_of("self");
        let mut out = owned(self.device.as_str());
        if !crate::text::eq_chars(this.as_slice(), me.as_slice()) {
            push_str(&mut out, ".");
            push_str(&mut out, self.port.as_str());
        }
        out
    }
}

/// Milliseconds of a duration (seconds saturate at `u64::MAX`).
pub open spec fn duration_ms(d: DurationValue) -> u64 {
    match d.unit {
        TimeUnit::Ms => d.value,
        TimeUnit::S => if d.value as int * 1000 > u64::MAX as int {
            u64::MAX
        } else {
            (d.value * 1000) as u64
        },
    }
}

pub fn duration_to_ms(duration: &DurationValue) -> (r: u64)
    ensures
        r == duration_ms(*duration),
{
    match duration.unit {
        TimeUnit::Ms => duration.value,
        TimeUnit::S => if duration.value > u64::MAX / 1000 {
            u64::MAX
        } else {
            duration.value * 1000
        },
    }
}

} // verus!
