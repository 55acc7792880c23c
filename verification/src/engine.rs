//! The redirect engine: the decision core of the background task.
//!
//! The host repoints the process's stdout/stderr descriptors into a private
//! channel and drains the channel's read end on a dedicated thread. Each read
//! hands the bytes to [`Engine::on_read`], which frames them into lines and
//! returns the dispatch plan for every completed line, in arrival order; the
//! host then performs each step. A zero-length read — the writer side of the
//! channel closing — terminates the task: the engine leaves its running
//! state and plans nothing further.

use vstd::prelude::*;
use crate::dispatch::{plan_dispatch, plan_spec, DispatchStep, LoggerConfig, SinkSelection, StepModel};
use crate::framer::{feed, LineFramer};

verus! {

/// The dispatch plans of a sequence of framed lines, concatenated in line
/// order: the engine dispatches lines first-in, first-out, and the steps of
/// one line are never interleaved with another's.
pub open spec fn plans_spec(selection: SinkSelection, tag: Seq<u8>, lines: Seq<Seq<u8>>) -> Seq<
    StepModel,
>
    decreases lines.len(),
{
    if lines.len() == 0 {
        Seq::<StepModel>::empty()
    } else {
        plan_spec(selection, tag, lines.first()) + plans_spec(selection, tag, lines.drop_first())
    }
}

/// Appending a line appends its plan.
proof fn lemma_plans_spec_push(
    selection: SinkSelection,
    tag: Seq<u8>,
    lines: Seq<Seq<u8>>,
    line: Seq<u8>,
)
    ensures
        plans_spec(selection, tag, lines.push(line)) == plans_spec(selection, tag, lines)
            + plan_spec(selection, tag, line),
    decreases lines.len(),
{
    let pushed = lines.push(line);
    if lines.len() == 0 {
        assert(pushed.drop_first() =~= Seq::<Seq<u8>>::empty());
        assert(pushed.first() == line);
        assert(plans_spec(selection, tag, pushed.drop_first()) == Seq::<StepModel>::empty());
        assert(plans_spec(selection, tag, pushed) == plan_spec(selection, tag, line)
            + Seq::<StepModel>::empty());
        assert(plans_spec(selection, tag, lines) == Seq::<StepModel>::empty());
        assert(plans_spec(selection, tag, pushed) =~= plans_spec(selection, tag, lines)
            + plan_spec(selection, tag, line));
    } else {
        assert(pushed.first() == lines.first());
        assert(pushed.drop_first() =~= lines.drop_first().push(line));
        lemma_plans_spec_push(selection, tag, lines.drop_first(), line);
        assert(plans_spec(selection, tag, pushed) =~= plans_spec(selection, tag, lines)
            + plan_spec(selection, tag, line));
    }
}

/// The engine: the configuration fixed at initialization, the line framer,
/// and the two-state lifecycle of the background task — running, or
/// terminated once the channel's writer side has closed.
pub struct Engine {
    config: LoggerConfig,
    framer: LineFramer,
    running: bool,
}

impl Engine {
    /// Which sinks this engine dispatches to.
    pub closed spec fn selection(self) -> SinkSelection {
        self.config.selection
    }

    /// The tag handed to the native sink.
    pub closed spec fn tag(self) -> Seq<u8> {
        self.config.tag@
    }

    /// The bytes of the current, still unterminated line.
    pub closed spec fn pending(self) -> Seq<u8> {
        self.framer@
    }

    /// Whether the background task is still draining the channel.
    pub closed spec fn is_running(self) -> bool {
        self.running
    }

    /// The framer's buffer never holds a terminator.
    pub closed spec fn wf(self) -> bool {
        self.framer.wf()
    }

    /// A fresh engine in the running state with an empty line buffer.
    pub fn new(config: LoggerConfig) -> (engine: Engine)
        ensures
            engine.wf(),
            engine.is_running(),
            engine.pending() == Seq::<u8>::empty(),
            engine.selection() == config.selection,
            engine.tag() == config.tag@,
    {
        Engine { config, framer: LineFramer::new(), running: true }
    }

    /// Runtime query for the task's state.
    pub fn running_now(&self) -> (r: bool)
        ensures
            r == self.is_running(),
    {
        self.running
    }

    /// The number of bytes of the partial line retained so far.
    pub fn pending_len(&self) -> (n: usize)
        ensures
            n == self.pending().len(),
    {
        self.framer.pending_len()
    }

    /// One reaction of the background task to a read from the channel. A
    /// zero-length chunk is the writer side closing: the task terminates and
    /// nothing is dispatched. Otherwise the chunk is framed, and the plans of
    /// the completed lines are returned concatenated in line order, with the
    /// trailing partial line retained for the next read. A terminated engine
    /// dispatches nothing and no longer consumes bytes.
    pub fn on_read(&mut self, chunk: &[u8]) -> (steps: Vec<DispatchStep>)
        requires
            old(self).wf(),
        ensures
            final(self).wf(),
            final(self).selection() == old(self).selection(),
            final(self).tag() == old(self).tag(),
            !old(self).is_running() ==> !final(self).is_running() && steps@.len() == 0
                && final(self).pending() == old(self).pending(),
            old(self).is_running() && chunk@.len() == 0 ==> !final(self).is_running()
                && steps@.len() == 0 && final(self).pending() == old(self).pending(),
            old(self).is_running() && chunk@.len() > 0 ==> final(self).is_running()
                && final(self).pending() == feed(old(self).pending(), chunk@).1
                && steps@.map_values(|s: DispatchStep| s@) == plans_spec(
                old(self).selection(),
                old(self).tag(),
                feed(old(self).pending(), chunk@).0,
            ),
    {
        if !self.running {
            return Vec::new();
        }
        if chunk.len() == 0 {
            self.running = false;
            return Vec::new();
        }
        let lines = self.framer.push_bytes(chunk);
        let ghost line_seqs = lines@.map_values(|l: Vec<u8>| l@);
        let mut steps: Vec<DispatchStep> = Vec::new();
        let mut i: usize = 0;
        proof {
            assert(line_seqs.take(0) =~= Seq::<Seq<u8>>::empty());
            assert(steps@.map_values(|s: DispatchStep| s@) =~= Seq::<StepModel>::empty());
        }
        while i < lines.len()
            invariant
                i <= lines@.len(),
                line_seqs == lines@.map_values(|l: Vec<u8>| l@),
                steps@.map_values(|s: DispatchStep| s@) == plans_spec(
                    self.config.selection,
                    self.config.tag@,
                    line_seqs.take(i as int),
                ),
            decreases lines@.len() - i,
        {
            let line = &lines[i];
            let mut plan = plan_dispatch(&self.config, line);
            let ghost prior = steps@;
            steps.append(&mut plan);
            proof {
                assert(line_seqs.take(i + 1) =~= line_seqs.take(i as int).push(line_seqs[i as int]));
                lemma_plans_spec_push(
                    self.config.selection,
                    self.config.tag@,
                    line_seqs.take(i as int),
                    line_seqs[i as int],
                );
                assert(steps@.map_values(|s: DispatchStep| s@) =~= prior.map_values(
                    |s: DispatchStep| s@,
                ) + plan_spec(self.config.selection, self.config.tag@, line_seqs[i as int]));
            }
            i = i + 1;
        }
        proof {
            assert(line_seqs.take(lines@.len() as int) =~= line_seqs);
        }
        steps
    }
}

} // verus!
