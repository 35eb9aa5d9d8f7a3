//! The lifecycle of objects registered with finalizers.

use crate::collection::VMCollection;
use crate::tracing::{
    advanced, casualties, forward_all, forward_list, lemma_forward_identity, lemma_partition,
    lemma_partition_disjoint, lemma_survivors_settled, reachable_in, same_liveness, survivors,
    traced, unreachable_in, ObjectReference, ObjectTracer,
};
use vstd::prelude::*;

verus! {

/// The objects that have a finalizer: those still waiting to become
/// unreachable, and those found unreachable that the host has yet to take.
///
/// An object may be registered several times, once for each finalizer.
pub struct FinalizableProcessor {
    /// Objects with finalizers, in the order of their registration.
    pub candidates: Vec<ObjectReference>,
    /// Where the last scan of the candidates ended. The candidates at and
    /// after this index were registered since then.
    pub nursery_index: usize,
    /// Objects found unreachable. They are kept alive until the host takes
    /// them.
    pub ready_for_finalize: Vec<ObjectReference>,
}

impl FinalizableProcessor {
    /// The nursery index lies within the candidate list.
    pub open spec fn wf(&self) -> bool {
        self.nursery_index <= self.candidates@.len()
    }

    /// The index of the first candidate that a scan examines: the nursery
    /// index for a nursery scan, the start of the list for a full one.
    pub open spec fn scan_start(&self, nursery: bool) -> int {
        if nursery {
            self.nursery_index as int
        } else {
            0
        }
    }

    /// The entries that a scan examines, in the order in which it does: the
    /// candidates from the scan's start on, then the ready queue.
    pub open spec fn pending(&self, nursery: bool) -> Seq<ObjectReference> {
        self.candidates@.skip(self.scan_start(nursery)) + self.ready_for_finalize@
    }

    /// A processor with nothing registered.
    pub fn new() -> (processor: FinalizableProcessor)
        ensures
            processor.candidates@ == Seq::<ObjectReference>::empty(),
            processor.ready_for_finalize@ == Seq::<ObjectReference>::empty(),
            processor.nursery_index == 0,
            processor.wf(),
    {
        FinalizableProcessor {
            candidates: Vec::new(),
            nursery_index: 0,
            ready_for_finalize: Vec::new(),
        }
    }

    /// Registers `object` as a candidate, behind all earlier registrations.
    pub fn add(&mut self, object: ObjectReference)
        ensures
            final(self).candidates@ == old(self).candidates@.push(object),
            final(self).nursery_index == old(self).nursery_index,
            final(self).ready_for_finalize@ == old(self).ready_for_finalize@,
            old(self).wf() ==> final(self).wf(),
    {
        self.candidates.push(object);
    }

    /// Traces one entry and stores its current reference in its place.
    pub fn forward_finalizable_reference<T: ObjectTracer>(
        tracer: &mut T,
        finalizable: &mut ObjectReference,
    )
        ensures
            *final(finalizable) == final(tracer).forwarded(*old(finalizable)),
            traced(*old(tracer), *final(tracer), *old(finalizable)),
    {
        *finalizable = tracer.trace_object(*finalizable);
    }

    /// Decides, for every candidate from the nursery index on (`nursery`) or
    /// for every candidate (otherwise), and for every entry of the ready
    /// queue, whether its object is still reachable.
    ///
    /// The entries that `tracer` reaches stay candidates, behind the
    /// candidates that were not examined; the others make up the new ready
    /// queue. Both keep their order, and each entry is stored under its
    /// current reference. Liveness is decided for all entries before any
    /// unreachable one is kept alive, so the registrations of one object all
    /// go the same way. Afterwards every examined object is alive, the
    /// nursery index stands at the end of the candidates, and the host has
    /// been told that finalization work is pending.
    pub fn scan<T: ObjectTracer>(&mut self, tracer: &mut T, host: &mut VMCollection, nursery: bool)
        requires
            old(self).wf(),
        ensures
            final(self).candidates@ == old(self).candidates@.take(old(self).scan_start(nursery))
                + survivors(old(self).pending(nursery), *old(tracer), *final(tracer)),
            final(self).ready_for_finalize@ == casualties(
                old(self).pending(nursery),
                *old(tracer),
                *final(tracer),
            ),
            final(self).nursery_index == final(self).candidates@.len(),
            final(self).wf(),
            advanced(*old(tracer), *final(tracer)),
            forall|o: ObjectReference| #[trigger]
                old(self).pending(nursery).contains(o) ==> final(tracer).is_reachable(o),
            final(self).candidates@.len() + final(self).ready_for_finalize@.len() == old(
                self,
            ).candidates@.len() + old(self).ready_for_finalize@.len(),
            final(host).finalization_scheduled,
    {
        let start = if nursery {
            self.nursery_index
        } else {
            0
        };
        // The entries of the ready queue are alive, but they are examined
        // again like any candidate: an object may have been registered
        // anew since it became ready.
        self.candidates.append(&mut self.ready_for_finalize);
        let pending = self.candidates.split_off(start);
        let ghost untouched = self.candidates@;
        let ghost live = reachable_in(*old(tracer));
        let ghost dead = unreachable_in(*old(tracer));
        proof {
            assert(pending@ =~= old(self).pending(nursery));
            assert(untouched =~= old(self).candidates@.take(old(self).scan_start(nursery)));
            assert(pending@.take(0) =~= Seq::<ObjectReference>::empty());
            assert(untouched =~= untouched + forward_all(
                pending@.take(0).filter(live),
                *old(tracer),
            ));
        }
        let n = pending.len();
        let mut i: usize = 0;
        while i < n
            invariant
                i <= n,
                n == pending@.len(),
                live == reachable_in(*old(tracer)),
                dead == unreachable_in(*old(tracer)),
                advanced(*old(tracer), *tracer),
                same_liveness(*old(tracer), *tracer),
                self.candidates@ == untouched + forward_all(
                    pending@.take(i as int).filter(live),
                    *old(tracer),
                ),
                self.ready_for_finalize@ == pending@.take(i as int).filter(dead),
            decreases n - i,
        {
            let mut f = pending[i];
            proof {
                assert(pending@.take(i + 1) =~= pending@.take(i as int).push(f));
                pending@.take(i as int).lemma_filter_push(f, live);
                pending@.take(i as int).lemma_filter_push(f, dead);
            }
            if tracer.is_live(f) {
                Self::forward_finalizable_reference(tracer, &mut f);
                self.candidates.push(f);
                assert(self.candidates@ =~= untouched + forward_all(
                    pending@.take(i + 1).filter(live),
                    *old(tracer),
                ));
            } else {
                // Not kept alive here: a later registration of the same
                // object must still be found unreachable.
                self.ready_for_finalize.push(f);
            }
            i += 1;
        }
        assert(pending@.take(n as int) =~= pending@);

        // Keep the objects that await finalization alive.
        self.forward_finalizable(tracer, nursery);

        self.nursery_index = self.candidates.len();
        host.schedule_finalization();
        proof {
            lemma_survivors_settled(pending@, *old(tracer), *old(tracer), *tracer);
            lemma_partition(pending@, *old(tracer), *tracer);
            assert forall|o: ObjectReference| #[trigger]
                pending@.contains(o) implies tracer.is_reachable(o) by {
                if dead(o) {
                    let k = choose|k: int| 0 <= k < pending@.len() && pending@[k] == o;
                    pending@.lemma_filter_contains(dead, k);
                }
            }
        }
    }

    /// Fixes up the address of every candidate. Consults no liveness and
    /// moves no entry.
    pub fn forward_candidate<T: ObjectTracer>(&mut self, tracer: &mut T, _nursery: bool)
        ensures
            final(self).candidates@ == forward_all(old(self).candidates@, *final(tracer)),
            (forall|o: ObjectReference| #[trigger] final(tracer).forwarded(o) == o)
                ==> final(self).candidates@ == old(self).candidates@,
            final(self).nursery_index == old(self).nursery_index,
            final(self).ready_for_finalize@ == old(self).ready_for_finalize@,
            old(self).wf() ==> final(self).wf(),
            advanced(*old(tracer), *final(tracer)),
            forall|o: ObjectReference| #[trigger]
                old(self).candidates@.contains(o) ==> final(tracer).is_reachable(o),
            (forall|o: ObjectReference| #[trigger]
                old(self).candidates@.contains(o) ==> old(tracer).is_reachable(o))
                ==> same_liveness(*old(tracer), *final(tracer)),
    {
        forward_list(&mut self.candidates, tracer);
        proof {
            if forall|o: ObjectReference| #[trigger] tracer.forwarded(o) == o {
                lemma_forward_identity(old(self).candidates@, *tracer);
            }
        }
    }

    /// Fixes up the address of every entry of the ready queue, which keeps
    /// those objects alive. Consults no liveness and moves no entry.
    pub fn forward_finalizable<T: ObjectTracer>(&mut self, tracer: &mut T, _nursery: bool)
        ensures
            final(self).ready_for_finalize@ == forward_all(
                old(self).ready_for_finalize@,
                *final(tracer),
            ),
            (forall|o: ObjectReference| #[trigger] final(tracer).forwarded(o) == o)
                ==> final(self).ready_for_finalize@ == old(self).ready_for_finalize@,
            final(self).nursery_index == old(self).nursery_index,
            final(self).candidates@ == old(self).candidates@,
            old(self).wf() ==> final(self).wf(),
            advanced(*old(tracer), *final(tracer)),
            forall|o: ObjectReference| #[trigger]
                old(self).ready_for_finalize@.contains(o) ==> final(tracer).is_reachable(o),
            (forall|o: ObjectReference| #[trigger]
                old(self).ready_for_finalize@.contains(o) ==> old(tracer).is_reachable(o))
                ==> same_liveness(*old(tracer), *final(tracer)),
    {
        forward_list(&mut self.ready_for_finalize, tracer);
        proof {
            if forall|o: ObjectReference| #[trigger] tracer.forwarded(o) == o {
                lemma_forward_identity(old(self).ready_for_finalize@, *tracer);
            }
        }
    }

    /// Takes the entry that joined the ready queue last, if the queue holds
    /// any.
    pub fn get_ready_object(&mut self) -> (object: Option<ObjectReference>)
        ensures
            old(self).ready_for_finalize@.len() == 0 ==> object.is_none()
                && final(self).ready_for_finalize@ == old(self).ready_for_finalize@,
            old(self).ready_for_finalize@.len() > 0 ==> object == Some(
                old(self).ready_for_finalize@.last(),
            ) && final(self).ready_for_finalize@ == old(self).ready_for_finalize@.drop_last(),
            final(self).candidates@ == old(self).candidates@,
            final(self).nursery_index == old(self).nursery_index,
    {
        self.ready_for_finalize.pop()
    }

    /// Empties both lists and returns their entries: the candidates, then
    /// the ready queue.
    pub fn get_all_finalizers(&mut self) -> (finalizers: Vec<ObjectReference>)
        ensures
            finalizers@ == old(self).candidates@ + old(self).ready_for_finalize@,
            final(self).candidates@ == Seq::<ObjectReference>::empty(),
            final(self).ready_for_finalize@ == Seq::<ObjectReference>::empty(),
            final(self).nursery_index == 0,
            final(self).wf(),
    {
        let mut ret: Vec<ObjectReference> = Vec::new();
        ret.append(&mut self.candidates);
        ret.append(&mut self.ready_for_finalize);
        self.nursery_index = 0;
        ret
    }

    /// Removes every registration of `object` from both lists and returns
    /// them: those among the candidates, then those in the ready queue. The
    /// other entries keep their order, and the nursery index still parts the
    /// candidates that the last scan saw from those registered since.
    pub fn get_finalizers_for(&mut self, object: ObjectReference) -> (finalizers: Vec<
        ObjectReference,
    >)
        requires
            old(self).wf(),
        ensures
            finalizers@ == old(self).candidates@.filter(same_as(object))
                + old(self).ready_for_finalize@.filter(same_as(object)),
            final(self).candidates@ == old(self).candidates@.filter(other_than(object)),
            final(self).ready_for_finalize@ == old(self).ready_for_finalize@.filter(
                other_than(object),
            ),
            final(self).nursery_index == old(self).candidates@.take(
                old(self).nursery_index as int,
            ).filter(other_than(object)).len(),
            final(self).wf(),
            !final(self).candidates@.contains(object),
            !final(self).ready_for_finalize@.contains(object),
            forall|k: int| 0 <= k < finalizers@.len() ==> finalizers@[k] == object,
    {
        let seen = count_others(&self.candidates, self.nursery_index, object);
        let mut ret = drain_filter(&mut self.candidates, object);
        let mut ready = drain_filter(&mut self.ready_for_finalize, object);
        ret.append(&mut ready);
        self.nursery_index = seen;
        proof {
            let before = old(self).candidates@;
            let split = old(self).nursery_index as int;
            assert(before =~= before.take(split) + before.skip(split));
            Seq::filter_distributes_over_add(
                before.take(split),
                before.skip(split),
                other_than(object),
            );
            lemma_filter_removes(old(self).candidates@, object);
            lemma_filter_removes(old(self).ready_for_finalize@, object);
            lemma_filter_selects(old(self).candidates@, object);
            lemma_filter_selects(old(self).ready_for_finalize@, object);
        }
        ret
    }
}

impl Default for FinalizableProcessor {
    /// A processor with nothing registered.
    fn default() -> (processor: FinalizableProcessor)
        ensures
            processor.candidates@ == Seq::<ObjectReference>::empty(),
            processor.ready_for_finalize@ == Seq::<ObjectReference>::empty(),
            processor.nursery_index == 0,
    {
        FinalizableProcessor::new()
    }
}

/// After a scan every entry that was registered before it is in one of the
/// two lists: none is dropped and none is added. An entry that the scan did
/// not examine is a candidate as before; an examined one is a candidate if
/// its object was reachable and in the ready queue if it was not, under its
/// current reference either way.
///
/// `candidates` and `ready` stand for the two lists as
/// [`FinalizableProcessor::scan`] leaves them.
pub proof fn lemma_scan_membership<T: ObjectTracer>(
    processor: FinalizableProcessor,
    before: T,
    after: T,
    nursery: bool,
)
    requires
        processor.wf(),
    ensures
        ({
            let start = processor.scan_start(nursery);
            let pending = processor.pending(nursery);
            let candidates = processor.candidates@.take(start) + survivors(pending, before, after);
            let ready = casualties(pending, before, after);
            &&& candidates.len() + ready.len() == processor.candidates@.len()
                + processor.ready_for_finalize@.len()
            &&& forall|k: int|
                0 <= k < start ==> #[trigger] candidates[k] == processor.candidates@[k]
            &&& forall|k: int|
                0 <= k < pending.len() && before.is_reachable(#[trigger] pending[k])
                    ==> candidates.contains(after.forwarded(pending[k]))
            &&& forall|k: int|
                0 <= k < pending.len() && !before.is_reachable(#[trigger] pending[k])
                    ==> ready.contains(after.forwarded(pending[k]))
        }),
{
    let start = processor.scan_start(nursery);
    let pending = processor.pending(nursery);
    let kept = survivors(pending, before, after);
    let candidates = processor.candidates@.take(start) + kept;
    lemma_partition(pending, before, after);
    assert forall|k: int|
        0 <= k < pending.len() && before.is_reachable(
            #[trigger] pending[k],
        ) implies candidates.contains(after.forwarded(pending[k])) by {
        let j = choose|j: int| 0 <= j < kept.len() && kept[j] == after.forwarded(pending[k]);
        assert(candidates[start + j] == kept[j]);
    }
}

/// After a full scan no reference is both a candidate and in the ready
/// queue, provided that distinct objects keep distinct references. The same
/// holds of a nursery scan if, besides, no candidate that the scan leaves
/// alone is the reference of an examined object that has become
/// unreachable.
pub proof fn lemma_scan_lists_disjoint<T: ObjectTracer>(
    processor: FinalizableProcessor,
    before: T,
    after: T,
    nursery: bool,
    object: ObjectReference,
)
    requires
        processor.wf(),
        forall|a: ObjectReference, b: ObjectReference|
            #![trigger processor.pending(nursery).contains(a), processor.pending(nursery).contains(b)]
            processor.pending(nursery).contains(a) && processor.pending(nursery).contains(b)
                && after.forwarded(a) == after.forwarded(b) ==> a == b,
        forall|k: int|
            0 <= k < processor.scan_start(nursery) ==> !casualties(
                processor.pending(nursery),
                before,
                after,
            ).contains(#[trigger] processor.candidates@[k]),
    ensures
        ({
            let start = processor.scan_start(nursery);
            let pending = processor.pending(nursery);
            let candidates = processor.candidates@.take(start) + survivors(pending, before, after);
            let ready = casualties(pending, before, after);
            !(candidates.contains(object) && ready.contains(object))
        }),
{
    let start = processor.scan_start(nursery);
    let pending = processor.pending(nursery);
    let kept = survivors(pending, before, after);
    let candidates = processor.candidates@.take(start) + kept;
    let ready = casualties(pending, before, after);
    lemma_partition_disjoint(pending, before, after, object);
    if candidates.contains(object) && ready.contains(object) {
        let i = choose|i: int| 0 <= i < candidates.len() && candidates[i] == object;
        if i < start {
            assert(processor.candidates@[i] == object);
        } else {
            assert(kept[i - start] == object);
        }
    }
}

/// The test for being `object`, as a predicate on references.
pub open spec fn same_as(object: ObjectReference) -> spec_fn(ObjectReference) -> bool {
    |o: ObjectReference| o == object
}

/// The test for being another object than `object`.
pub open spec fn other_than(object: ObjectReference) -> spec_fn(ObjectReference) -> bool {
    |o: ObjectReference| o != object
}

/// Nothing equal to `object` is left among the entries other than `object`.
pub proof fn lemma_filter_removes(entries: Seq<ObjectReference>, object: ObjectReference)
    ensures
        !entries.filter(other_than(object)).contains(object),
{
    let rest = entries.filter(other_than(object));
    if rest.contains(object) {
        let k = choose|k: int| 0 <= k < rest.len() && rest[k] == object;
        entries.lemma_filter_pred(other_than(object), k);
    }
}

/// The entries selected for being `object` are all `object`.
pub proof fn lemma_filter_selects(entries: Seq<ObjectReference>, object: ObjectReference)
    ensures
        forall|k: int|
            0 <= k < entries.filter(same_as(object)).len() ==> #[trigger] entries.filter(
                same_as(object),
            )[k] == object,
{
    assert forall|k: int| 0 <= k < entries.filter(same_as(object)).len() implies #[trigger]
        entries.filter(same_as(object))[k] == object by {
        entries.lemma_filter_pred(same_as(object), k);
    }
}

/// Counts the entries other than `object` among the first `end` of `list`.
fn count_others(list: &Vec<ObjectReference>, end: usize, object: ObjectReference) -> (count: usize)
    requires
        end <= list@.len(),
    ensures
        count == list@.take(end as int).filter(other_than(object)).len(),
{
    let mut count: usize = 0;
    let mut i: usize = 0;
    proof {
        assert(list@.take(0) =~= Seq::<ObjectReference>::empty());
    }
    while i < end
        invariant
            i <= end,
            end <= list@.len(),
            count <= i,
            count == list@.take(i as int).filter(other_than(object)).len(),
        decreases end - i,
    {
        proof {
            assert(list@.take(i + 1) =~= list@.take(i as int).push(list@[i as int]));
            list@.take(i as int).lemma_filter_push(list@[i as int], other_than(object));
        }
        if list[i] != object {
            count += 1;
        }
        i += 1;
    }
    count
}

/// Takes the entries equal to `object` out of `list` and returns them. The
/// entries that stay keep their order.
fn drain_filter(list: &mut Vec<ObjectReference>, object: ObjectReference) -> (removed: Vec<
    ObjectReference,
>)
    ensures
        removed@ == old(list)@.filter(same_as(object)),
        final(list)@ == old(list)@.filter(other_than(object)),
{
    let mut i: usize = 0;
    let mut ret: Vec<ObjectReference> = Vec::new();
    let ghost mut done: int = 0;
    proof {
        assert(old(list)@.take(0) =~= Seq::<ObjectReference>::empty());
        assert(list@ =~= old(list)@.take(0).filter(other_than(object)) + old(list)@.skip(0));
    }
    while i < list.len()
        invariant
            0 <= done <= old(list)@.len(),
            i == old(list)@.take(done).filter(other_than(object)).len(),
            list@ == old(list)@.take(done).filter(other_than(object)) + old(list)@.skip(done),
            ret@ == old(list)@.take(done).filter(same_as(object)),
        decreases list@.len() - i,
    {
        proof {
            let x = old(list)@[done];
            assert(list@[i as int] == x);
            assert(old(list)@.take(done + 1) =~= old(list)@.take(done).push(x));
            old(list)@.take(done).lemma_filter_push(x, other_than(object));
            old(list)@.take(done).lemma_filter_push(x, same_as(object));
        }
        if list[i] == object {
            let val = list.remove(i);
            ret.push(val);
            proof {
                assert(list@ =~= old(list)@.take(done + 1).filter(other_than(object)) + old(
                    list,
                )@.skip(done + 1));
            }
        } else {
            i += 1;
            proof {
                assert(list@ =~= old(list)@.take(done + 1).filter(other_than(object)) + old(
                    list,
                )@.skip(done + 1));
            }
        }
        proof {
            done = done + 1;
        }
    }
    proof {
        assert(done == old(list)@.len());
        assert(old(list)@.take(done) =~= old(list)@);
        assert(old(list)@.skip(done) =~= Seq::<ObjectReference>::empty());
    }
    ret
}

} // verus!
