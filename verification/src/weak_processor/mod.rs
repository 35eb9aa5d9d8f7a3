//! The coordinator of weak-reference processing.
//!
//! During one collection cycle the scheduler calls the coordinator until it
//! reports that no work remains. Each call does the work of one phase: soft
//! references first, then weak ones, then finalizable objects, then phantom
//! references.

pub mod finalizable_processor;
pub mod reference_processor;

use crate::collection::VMCollection;
use crate::tracing::{
    advanced, casualties, forward_all, lemma_forward_settled, same_liveness, survivors,
    ObjectReference, ObjectTracer,
};
use finalizable_processor::FinalizableProcessor;
use reference_processor::ReferenceProcessors;
use vstd::prelude::*;

verus! {

/// Where the coordinator stands within a collection cycle.
#[derive(Clone, Copy, Debug, PartialEq, Eq, Structural)]
pub enum Phase {
    Inactive,
    Soft,
    Weak,
    Final,
    Phantom,
}

impl Phase {
    /// The phase whose work a call does that finds the coordinator in
    /// `self`. A cycle starts with the soft references, so an inactive
    /// coordinator enters the soft phase at once.
    pub open spec fn entered(self) -> Phase {
        match self {
            Phase::Inactive => Phase::Soft,
            phase => phase,
        }
    }

    /// The phase that follows `self` in the cycle.
    pub open spec fn next(self) -> Phase {
        match self {
            Phase::Inactive => Phase::Soft,
            Phase::Soft => Phase::Weak,
            Phase::Weak => Phase::Final,
            Phase::Final => Phase::Phantom,
            Phase::Phantom => Phase::Inactive,
        }
    }

    /// Whether the cycle goes on after the work of `self`.
    pub open spec fn more_work(self) -> bool {
        self != Phase::Phantom
    }
}

/// The phases of a cycle come in one order. A call that finds the
/// coordinator inactive does the work of the soft phase, and the three calls
/// after it that of the weak, the final and the phantom phase. The first
/// three report that work remains; the fourth reports that none does and
/// leaves the coordinator inactive. Whatever the phase, work remains exactly
/// as long as the coordinator stays active.
pub proof fn lemma_phase_order()
    ensures
        ({
            let first = Phase::Inactive.entered();
            let second = first.next().entered();
            let third = second.next().entered();
            let fourth = third.next().entered();
            &&& first == Phase::Soft && first.more_work()
            &&& second == Phase::Weak && second.more_work()
            &&& third == Phase::Final && third.more_work()
            &&& fourth == Phase::Phantom && !fourth.more_work()
            &&& fourth.next() == Phase::Inactive
        }),
        forall|phase: Phase|
            (#[trigger] phase.entered()).more_work() <==> phase.entered().next()
                != Phase::Inactive,
        forall|phase: Phase| #[trigger] phase.entered() != Phase::Inactive,
{
}

/// The coordinator, with the registries it works on.
pub struct WeakProcessor {
    pub phase: Phase,
    pub reference_processors: ReferenceProcessors,
    pub finalizable_processor: FinalizableProcessor,
}

impl WeakProcessor {
    /// An inactive coordinator with empty registries.
    pub fn new() -> (processor: WeakProcessor)
        ensures
            processor.phase == Phase::Inactive,
            processor.reference_processors.soft@ == Seq::<ObjectReference>::empty(),
            processor.reference_processors.weak@ == Seq::<ObjectReference>::empty(),
            processor.reference_processors.phantom@ == Seq::<ObjectReference>::empty(),
            processor.finalizable_processor.candidates@ == Seq::<ObjectReference>::empty(),
            processor.finalizable_processor.ready_for_finalize@ == Seq::<ObjectReference>::empty(),
            processor.finalizable_processor.nursery_index == 0,
            processor.finalizable_processor.wf(),
    {
        WeakProcessor {
            phase: Phase::Inactive,
            reference_processors: ReferenceProcessors::new(),
            finalizable_processor: FinalizableProcessor::new(),
        }
    }

    /// Whether a cycle is under way.
    pub fn is_active(&self) -> (active: bool)
        ensures
            active == (self.phase != Phase::Inactive),
    {
        !matches!(self.phase, Phase::Inactive)
    }

    /// What the work of `phase` makes of the registries of `before`, with a
    /// tracer that it takes from `traced_before` to `traced_after`.
    pub open spec fn phase_done<T: ObjectTracer>(
        phase: Phase,
        before: WeakProcessor,
        after: WeakProcessor,
        traced_before: T,
        traced_after: T,
    ) -> bool {
        let refs = before.reference_processors;
        let finalizable = before.finalizable_processor;
        match phase {
            Phase::Inactive => after.reference_processors == refs && after.finalizable_processor
                == finalizable,
            Phase::Soft => {
                &&& after.reference_processors.soft@ == survivors(
                    refs.soft@,
                    traced_before,
                    traced_after,
                )
                &&& after.reference_processors.weak@ == refs.weak@
                &&& after.reference_processors.phantom@ == refs.phantom@
                &&& after.finalizable_processor == finalizable
                &&& same_liveness(traced_before, traced_after)
            },
            Phase::Weak => {
                &&& after.reference_processors.weak@ == survivors(
                    refs.weak@,
                    traced_before,
                    traced_after,
                )
                &&& after.reference_processors.soft@ == refs.soft@
                &&& after.reference_processors.phantom@ == refs.phantom@
                &&& after.finalizable_processor == finalizable
                &&& same_liveness(traced_before, traced_after)
            },
            Phase::Final => {
                &&& after.finalizable_processor.candidates@ == survivors(
                    finalizable.pending(false),
                    traced_before,
                    traced_after,
                )
                &&& after.finalizable_processor.ready_for_finalize@ == casualties(
                    finalizable.pending(false),
                    traced_before,
                    traced_after,
                )
                &&& after.finalizable_processor.nursery_index
                    == after.finalizable_processor.candidates@.len()
                &&& after.reference_processors == refs
                &&& forall|o: ObjectReference|
                    finalizable.pending(false).contains(o) ==> traced_after.is_reachable(o)
            },
            Phase::Phantom => {
                &&& after.reference_processors.phantom@ == survivors(
                    refs.phantom@,
                    traced_before,
                    traced_after,
                )
                &&& after.reference_processors.soft@ == refs.soft@
                &&& after.reference_processors.weak@ == refs.weak@
                &&& after.finalizable_processor == finalizable
                &&& same_liveness(traced_before, traced_after)
            },
        }
    }

    /// Does the work of one phase and moves on to the next. Returns whether
    /// the cycle goes on: `false` after the phantom phase, which ends it.
    ///
    /// An inactive coordinator starts a cycle with the soft phase. The soft,
    /// weak and phantom phases scan the registry of their strength; the
    /// final phase scans all finalizable objects and tells the host that
    /// finalization work is pending.
    pub fn process_weak_refs<T: ObjectTracer>(
        &mut self,
        tracer: &mut T,
        host: &mut VMCollection,
    ) -> (more_work: bool)
        requires
            old(self).finalizable_processor.wf(),
        ensures
            final(self).phase == old(self).phase.entered().next(),
            more_work == old(self).phase.entered().more_work(),
            Self::phase_done(
                old(self).phase.entered(),
                *old(self),
                *final(self),
                *old(tracer),
                *final(tracer),
            ),
            final(self).finalizable_processor.wf(),
            advanced(*old(tracer), *final(tracer)),
            final(host).finalization_scheduled == (old(host).finalization_scheduled || old(
                self,
            ).phase == Phase::Final),
    {
        let nursery = false;
        match self.phase {
            Phase::Inactive | Phase::Soft => {
                self.reference_processors.scan_soft_refs(tracer);
                self.phase = Phase::Weak;
                true
            },
            Phase::Weak => {
                self.reference_processors.scan_weak_refs(tracer);
                self.phase = Phase::Final;
                true
            },
            Phase::Final => {
                self.finalizable_processor.scan(tracer, host, nursery);
                proof {
                    let candidates = old(self).finalizable_processor.candidates@;
                    assert(candidates.take(0) + self.finalizable_processor.candidates@
                        =~= self.finalizable_processor.candidates@);
                }
                self.phase = Phase::Phantom;
                true
            },
            Phase::Phantom => {
                self.reference_processors.scan_phantom_refs(tracer);
                self.phase = Phase::Inactive;
                false
            },
        }
    }

    /// Fixes up every address that the registries hold, after objects have
    /// been moved: the soft, weak and phantom registries, the finalizable
    /// candidates and the ready queue. No entry is cleared or moved from one
    /// list to another, and the phase stays as it is. Reports that no work
    /// remains.
    ///
    /// Forwarding is for the time between cycles: the coordinator must be
    /// inactive.
    pub fn forward_weak_refs<T: ObjectTracer>(&mut self, tracer: &mut T) -> (more_work: bool)
        requires
            old(self).phase == Phase::Inactive,
        ensures
            !more_work,
            final(self).phase == Phase::Inactive,
            final(self).reference_processors.soft@ == forward_all(
                old(self).reference_processors.soft@,
                *final(tracer),
            ),
            final(self).reference_processors.weak@ == forward_all(
                old(self).reference_processors.weak@,
                *final(tracer),
            ),
            final(self).reference_processors.phantom@ == forward_all(
                old(self).reference_processors.phantom@,
                *final(tracer),
            ),
            final(self).finalizable_processor.candidates@ == forward_all(
                old(self).finalizable_processor.candidates@,
                *final(tracer),
            ),
            final(self).finalizable_processor.ready_for_finalize@ == forward_all(
                old(self).finalizable_processor.ready_for_finalize@,
                *final(tracer),
            ),
            final(self).finalizable_processor.nursery_index == old(
                self,
            ).finalizable_processor.nursery_index,
            old(self).finalizable_processor.wf() ==> final(self).finalizable_processor.wf(),
            advanced(*old(tracer), *final(tracer)),
    {
        let nursery = false;
        self.reference_processors.forward_refs(tracer);
        let ghost after_refs = *tracer;
        self.finalizable_processor.forward_candidate(tracer, nursery);
        let ghost after_candidates = *tracer;
        self.finalizable_processor.forward_finalizable(tracer, nursery);
        proof {
            let refs = old(self).reference_processors;
            assert(advanced(after_refs, *tracer));
            lemma_forward_settled(refs.soft@, after_refs, *tracer);
            lemma_forward_settled(refs.weak@, after_refs, *tracer);
            lemma_forward_settled(refs.phantom@, after_refs, *tracer);
            lemma_forward_settled(
                old(self).finalizable_processor.candidates@,
                after_candidates,
                *tracer,
            );
        }
        false
    }
}

impl Default for WeakProcessor {
    /// An inactive coordinator with empty registries.
    fn default() -> (processor: WeakProcessor)
        ensures
            processor.phase == Phase::Inactive,
            processor.reference_processors.soft@ == Seq::<ObjectReference>::empty(),
            processor.reference_processors.weak@ == Seq::<ObjectReference>::empty(),
            processor.reference_processors.phantom@ == Seq::<ObjectReference>::empty(),
            processor.finalizable_processor.candidates@ == Seq::<ObjectReference>::empty(),
            processor.finalizable_processor.ready_for_finalize@ == Seq::<ObjectReference>::empty(),
            processor.finalizable_processor.nursery_index == 0,
    {
        WeakProcessor::new()
    }
}

} // verus!
