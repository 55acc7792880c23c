//! Fanning a framed line out to the configured sinks.
//!
//! For each line the engine produces a dispatch plan: the deliveries the host
//! must perform, in the fixed sink order — the native platform emit first,
//! then the bridge callback invocation. Failures are isolated per sink: a
//! message the native sink cannot represent (it contains a NUL byte, which a
//! native byte-string argument cannot carry) is skipped for that sink only,
//! and the bridge step is planned regardless.

use vstd::prelude::*;
use crate::framer::LINE_TERMINATOR;
use crate::level::LogLevel;

verus! {

/// The carriage-return byte, trimmed from line ends together with the
/// terminator.
pub const CARRIAGE_RETURN: u8 = 13;

/// Which sinks are active; fixed at initialization.
#[derive(Clone, Copy, PartialEq, Eq, Structural, Debug)]
pub enum SinkSelection {
    NativeOnly,
    BridgeOnly,
    Both,
}

impl SinkSelection {
    /// Whether the native platform sink is part of this selection.
    pub open spec fn native_active(self) -> bool {
        self is NativeOnly || self is Both
    }

    /// Whether the bridge callback sink is part of this selection.
    pub open spec fn bridge_active(self) -> bool {
        self is BridgeOnly || self is Both
    }

    /// Runtime query for the native sink.
    pub fn is_native_active(self) -> (r: bool)
        ensures
            r == self.native_active(),
    {
        matches!(self, SinkSelection::NativeOnly | SinkSelection::Both)
    }

    /// Runtime query for the bridge sink.
    pub fn is_bridge_active(self) -> (r: bool)
        ensures
            r == self.bridge_active(),
    {
        matches!(self, SinkSelection::BridgeOnly | SinkSelection::Both)
    }
}

/// The engine's fixed configuration: which sinks are active and the tag the
/// native sink is given.
pub struct LoggerConfig {
    pub selection: SinkSelection,
    pub tag: Vec<u8>,
}

/// One delivery the host is asked to perform for a framed line.
#[derive(Debug, PartialEq, Eq)]
pub enum DispatchStep {
    /// Call the native platform log: `emit(priority, tag, message)`.
    EmitNative { priority: u32, tag: Vec<u8>, message: Vec<u8> },
    /// Invoke the bridge callback method with the message as its single
    /// string argument.
    InvokeBridge { message: Vec<u8> },
}

/// The mathematical shape of a dispatch step.
#[verifier::ext_equal]
pub enum StepModel {
    Native { priority: u32, tag: Seq<u8>, message: Seq<u8> },
    Bridge { message: Seq<u8> },
}

impl View for DispatchStep {
    type V = StepModel;

    open spec fn view(&self) -> StepModel {
        match self {
            DispatchStep::EmitNative { priority, tag, message } => StepModel::Native {
                priority: *priority,
                tag: tag@,
                message: message@,
            },
            DispatchStep::InvokeBridge { message } => StepModel::Bridge { message: message@ },
        }
    }
}

/// `line` with its trailing line-terminator bytes (newline, carriage return)
/// removed.
pub open spec fn trimmed(line: Seq<u8>) -> Seq<u8>
    decreases line.len(),
{
    if line.len() > 0 && (line.last() == LINE_TERMINATOR || line.last() == CARRIAGE_RETURN) {
        trimmed(line.drop_last())
    } else {
        line
    }
}

/// Whether `s` contains a NUL byte. The native sink's message argument is a
/// NUL-terminated byte string, so a message containing one cannot be
/// represented and is rejected by that sink.
pub open spec fn has_nul(s: Seq<u8>) -> bool {
    exists|i: int| 0 <= i < s.len() && s[i] == 0u8
}

/// The dispatch plan for one framed line: the native emit first, if the
/// native sink is active and can represent the message, then the bridge
/// invocation, if the bridge sink is active. Both sinks receive the line with
/// trailing terminators trimmed; the native emit carries the informational
/// priority and the configured tag.
pub open spec fn plan_spec(selection: SinkSelection, tag: Seq<u8>, line: Seq<u8>) -> Seq<
    StepModel,
> {
    let msg = trimmed(line);
    let native: Seq<StepModel> = if selection.native_active() && !has_nul(msg) {
        seq![
            StepModel::Native {
                priority: LogLevel::Info.priority_spec(),
                tag: tag,
                message: msg,
            },
        ]
    } else {
        Seq::<StepModel>::empty()
    };
    let bridge: Seq<StepModel> = if selection.bridge_active() {
        seq![StepModel::Bridge { message: msg }]
    } else {
        Seq::<StepModel>::empty()
    };
    native + bridge
}

/// Whether the byte string contains a NUL byte.
pub fn contains_nul(s: &Vec<u8>) -> (r: bool)
    ensures
        r == has_nul(s@),
{
    let mut i: usize = 0;
    while i < s.len()
        invariant
            i <= s@.len(),
            forall|j: int| 0 <= j < i ==> s@[j] != 0u8,
        decreases s@.len() - i,
    {
        if s[i] == 0 {
            return true;
        }
        i = i + 1;
    }
    false
}

/// Copies a byte string.
fn copy_bytes(s: &Vec<u8>) -> (r: Vec<u8>)
    ensures
        r@ == s@,
{
    let mut r: Vec<u8> = Vec::new();
    let mut i: usize = 0;
    while i < s.len()
        invariant
            i <= s@.len(),
            r@ == s@.subrange(0, i as int),
        decreases s@.len() - i,
    {
        r.push(s[i]);
        proof {
            assert(r@ =~= s@.subrange(0, i + 1));
        }
        i = i + 1;
    }
    proof {
        assert(r@ =~= s@);
    }
    r
}

/// Removes the trailing line-terminator bytes from `line`.
pub fn trim_line(line: &Vec<u8>) -> (r: Vec<u8>)
    ensures
        r@ == trimmed(line@),
{
    let mut end: usize = line.len();
    proof {
        assert(line@.subrange(0, end as int) =~= line@);
    }
    while end > 0 && (line[end - 1] == LINE_TERMINATOR || line[end - 1] == CARRIAGE_RETURN)
        invariant
            end <= line@.len(),
            trimmed(line@) == trimmed(line@.subrange(0, end as int)),
        decreases end,
    {
        proof {
            let cur = line@.subrange(0, end as int);
            assert(cur.last() == line@[end - 1]);
            assert(cur.drop_last() =~= line@.subrange(0, end - 1));
        }
        end = end - 1;
    }
    let mut r: Vec<u8> = Vec::new();
    let mut i: usize = 0;
    while i < end
        invariant
            i <= end <= line@.len(),
            r@ == line@.subrange(0, i as int),
        decreases end - i,
    {
        r.push(line[i]);
        proof {
            assert(r@ =~= line@.subrange(0, i + 1));
        }
        i = i + 1;
    }
    proof {
        let cur = line@.subrange(0, end as int);
        assert(trimmed(cur) == cur);
    }
    r
}

/// Builds the dispatch plan for one framed line under `config`: the
/// deliveries to perform, in the fixed sink order.
pub fn plan_dispatch(config: &LoggerConfig, line: &Vec<u8>) -> (steps: Vec<DispatchStep>)
    ensures
        steps@.map_values(|s: DispatchStep| s@) == plan_spec(config.selection, config.tag@, line@),
{
    let msg = trim_line(line);
    let mut steps: Vec<DispatchStep> = Vec::new();
    if config.selection.is_native_active() && !contains_nul(&msg) {
        let native_msg = copy_bytes(&msg);
        let tag = copy_bytes(&config.tag);
        steps.push(DispatchStep::EmitNative {
            priority: LogLevel::Info.android_priority(),
            tag,
            message: native_msg,
        });
    }
    if config.selection.is_bridge_active() {
        steps.push(DispatchStep::InvokeBridge { message: msg });
    }
    proof {
        assert(steps@.map_values(|s: DispatchStep| s@)
            =~= plan_spec(config.selection, config.tag@, line@));
    }
    steps
}

/// Fixed sink order: in every dispatch plan, the native emit stands before
/// any bridge invocation.
pub proof fn lemma_native_before_bridge(selection: SinkSelection, tag: Seq<u8>, line: Seq<u8>)
    ensures
        forall|i: int, j: int|
            0 <= i < plan_spec(selection, tag, line).len()
                && 0 <= j < plan_spec(selection, tag, line).len()
                && plan_spec(selection, tag, line)[i] is Native
                && plan_spec(selection, tag, line)[j] is Bridge ==> i < j,
{
}

/// Failure isolation: whenever the bridge sink is active, the plan ends with
/// the bridge invocation carrying the trimmed line, whether or not the native
/// sink rejected the message.
pub proof fn lemma_bridge_unaffected_by_native_rejection(
    selection: SinkSelection,
    tag: Seq<u8>,
    line: Seq<u8>,
)
    requires
        selection.bridge_active(),
    ensures
        plan_spec(selection, tag, line).len() >= 1,
        plan_spec(selection, tag, line).last() == (StepModel::Bridge { message: trimmed(line) }),
{
}

} // verus!
