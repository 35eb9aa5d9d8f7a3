//! The registries of soft, weak and phantom reference objects.

use crate::tracing::{
    advanced, forward_all, forward_list, lemma_forward_settled, lemma_survivors_settled,
    reachable_in, same_liveness, survivors, ObjectReference, ObjectTracer,
};
use vstd::prelude::*;

verus! {

/// One registry for each strength of reference that the collector may
/// clear. A registry holds the references discovered during the main trace,
/// in the order of their discovery.
pub struct ReferenceProcessors {
    pub soft: Vec<ObjectReference>,
    pub weak: Vec<ObjectReference>,
    pub phantom: Vec<ObjectReference>,
}

/// Applies `tracer` to every entry of `registry`. An entry that the tracer
/// reports dead is cleared from the registry; the others stay, in their
/// order, each under its current reference. No dead object is kept alive.
pub fn scan_refs<T: ObjectTracer>(registry: &mut Vec<ObjectReference>, tracer: &mut T)
    ensures
        final(registry)@ == survivors(old(registry)@, *old(tracer), *final(tracer)),
        advanced(*old(tracer), *final(tracer)),
        same_liveness(*old(tracer), *final(tracer)),
{
    let mut retained: Vec<ObjectReference> = Vec::new();
    let ghost live = reachable_in(*old(tracer));
    let n = registry.len();
    let mut i: usize = 0;
    proof {
        assert(registry@.take(0) =~= Seq::<ObjectReference>::empty());
        assert(retained@ =~= forward_all(registry@.take(0).filter(live), *old(tracer)));
    }
    while i < n
        invariant
            i <= n,
            n == registry@.len(),
            registry@ == old(registry)@,
            live == reachable_in(*old(tracer)),
            advanced(*old(tracer), *tracer),
            same_liveness(*old(tracer), *tracer),
            retained@ == forward_all(registry@.take(i as int).filter(live), *old(tracer)),
        decreases n - i,
    {
        let reference = registry[i];
        proof {
            assert(registry@.take(i + 1) =~= registry@.take(i as int).push(reference));
            registry@.take(i as int).lemma_filter_push(reference, live);
        }
        if tracer.is_live(reference) {
            let forwarded = tracer.trace_object(reference);
            retained.push(forwarded);
            assert(retained@ =~= forward_all(registry@.take(i + 1).filter(live), *old(tracer)));
        }
        i += 1;
    }
    proof {
        assert(registry@.take(n as int) =~= registry@);
        lemma_survivors_settled(old(registry)@, *old(tracer), *old(tracer), *tracer);
    }
    *registry = retained;
}

impl ReferenceProcessors {
    /// Three empty registries.
    pub fn new() -> (processors: ReferenceProcessors)
        ensures
            processors.soft@ == Seq::<ObjectReference>::empty(),
            processors.weak@ == Seq::<ObjectReference>::empty(),
            processors.phantom@ == Seq::<ObjectReference>::empty(),
    {
        ReferenceProcessors { soft: Vec::new(), weak: Vec::new(), phantom: Vec::new() }
    }

    /// Registers a soft reference, behind those discovered before.
    pub fn add_soft_candidate(&mut self, reference: ObjectReference)
        ensures
            final(self).soft@ == old(self).soft@.push(reference),
            final(self).weak@ == old(self).weak@,
            final(self).phantom@ == old(self).phantom@,
    {
        self.soft.push(reference);
    }

    /// Registers a weak reference, behind those discovered before.
    pub fn add_weak_candidate(&mut self, reference: ObjectReference)
        ensures
            final(self).weak@ == old(self).weak@.push(reference),
            final(self).soft@ == old(self).soft@,
            final(self).phantom@ == old(self).phantom@,
    {
        self.weak.push(reference);
    }

    /// Registers a phantom reference, behind those discovered before.
    pub fn add_phantom_candidate(&mut self, reference: ObjectReference)
        ensures
            final(self).phantom@ == old(self).phantom@.push(reference),
            final(self).soft@ == old(self).soft@,
            final(self).weak@ == old(self).weak@,
    {
        self.phantom.push(reference);
    }

    /// Clears the dead entries of the soft registry and forwards the rest.
    pub fn scan_soft_refs<T: ObjectTracer>(&mut self, tracer: &mut T)
        ensures
            final(self).soft@ == survivors(old(self).soft@, *old(tracer), *final(tracer)),
            final(self).weak@ == old(self).weak@,
            final(self).phantom@ == old(self).phantom@,
            advanced(*old(tracer), *final(tracer)),
            same_liveness(*old(tracer), *final(tracer)),
    {
        scan_refs(&mut self.soft, tracer);
    }

    /// Clears the dead entries of the weak registry and forwards the rest.
    pub fn scan_weak_refs<T: ObjectTracer>(&mut self, tracer: &mut T)
        ensures
            final(self).weak@ == survivors(old(self).weak@, *old(tracer), *final(tracer)),
            final(self).soft@ == old(self).soft@,
            final(self).phantom@ == old(self).phantom@,
            advanced(*old(tracer), *final(tracer)),
            same_liveness(*old(tracer), *final(tracer)),
    {
        scan_refs(&mut self.weak, tracer);
    }

    /// Clears the dead entries of the phantom registry and forwards the
    /// rest.
    pub fn scan_phantom_refs<T: ObjectTracer>(&mut self, tracer: &mut T)
        ensures
            final(self).phantom@ == survivors(old(self).phantom@, *old(tracer), *final(tracer)),
            final(self).soft@ == old(self).soft@,
            final(self).weak@ == old(self).weak@,
            advanced(*old(tracer), *final(tracer)),
            same_liveness(*old(tracer), *final(tracer)),
    {
        scan_refs(&mut self.phantom, tracer);
    }

    /// Fixes up the address of every entry of every registry: soft, then
    /// weak, then phantom. Consults no liveness and clears no entry.
    pub fn forward_refs<T: ObjectTracer>(&mut self, tracer: &mut T)
        ensures
            final(self).soft@ == forward_all(old(self).soft@, *final(tracer)),
            final(self).weak@ == forward_all(old(self).weak@, *final(tracer)),
            final(self).phantom@ == forward_all(old(self).phantom@, *final(tracer)),
            advanced(*old(tracer), *final(tracer)),
            forall|o: ObjectReference|
                old(self).soft@.contains(o) || old(self).weak@.contains(o) || old(
                    self,
                ).phantom@.contains(o) ==> final(tracer).is_reachable(o),
    {
        forward_list(&mut self.soft, tracer);
        let ghost after_soft = *tracer;
        forward_list(&mut self.weak, tracer);
        let ghost after_weak = *tracer;
        forward_list(&mut self.phantom, tracer);
        proof {
            lemma_forward_settled(old(self).soft@, after_soft, after_weak);
            lemma_forward_settled(old(self).soft@, after_weak, *tracer);
            lemma_forward_settled(old(self).weak@, after_weak, *tracer);
        }
    }
}

} // verus!
