//! Object references and the tracing capability of the collection engine.

use vstd::prelude::*;

verus! {

/// A handle to a heap object: the address at which the object currently
/// lives. Two handles denote the same object exactly when they are equal.
#[derive(Clone, Copy, Debug, PartialEq, Eq, Structural)]
pub struct ObjectReference {
    pub address: usize,
}

impl ObjectReference {
    /// The handle of the object at `address`.
    pub fn from_address(address: usize) -> (object: ObjectReference)
        ensures
            object.address == address,
    {
        ObjectReference { address }
    }

    /// The address this handle stands for.
    pub fn to_address(self) -> (address: usize)
        ensures
            address == self.address,
    {
        self.address
    }
}

/// The tracing capability that the collection engine supplies for one phase.
///
/// A tracer knows which objects have been reached so far and where each
/// reached object lives now. Tracing an object reaches it (keeping it alive)
/// and yields its current reference. What has been reached stays reached, and
/// the reference of a reached object is settled; tracing an object that had
/// been reached already reaches nothing new.
///
/// Every function of this library that takes a tracer is proved for all
/// tracers that keep these promises; [`TableTracer`] is one that is proved to
/// keep them. A tracer written elsewhere is taken at its word. It defines the
/// two model functions as well, by which the promises are stated; nothing
/// calls them when the program runs.
pub trait ObjectTracer: Sized {
    /// Whether `object` has been reached.
    spec fn is_reachable(&self, object: ObjectReference) -> bool;

    /// The reference under which `object` is known now. It says something
    /// only of reached objects.
    spec fn forwarded(&self, object: ObjectReference) -> ObjectReference;

    /// Reports whether `object` is alive. Reclassifies nothing.
    fn is_live(&self, object: ObjectReference) -> (live: bool)
        ensures
            live == self.is_reachable(object),
    ;

    /// Keeps `object` alive and returns its current reference.
    fn trace_object(&mut self, object: ObjectReference) -> (new_object: ObjectReference)
        ensures
            new_object == final(self).forwarded(object),
            final(self).is_reachable(object),
            forall|o: ObjectReference| #[trigger]
                old(self).is_reachable(o) ==> final(self).is_reachable(o)
                    && final(self).forwarded(o) == old(self).forwarded(o),
            old(self).is_reachable(object) ==> forall|o: ObjectReference| #[trigger]
                final(self).is_reachable(o) == old(self).is_reachable(o),
    ;
}

/// `after` is a state of the tracer `before` some time later in the same
/// phase: what was reached is still reached, under the same reference.
pub open spec fn advanced<T: ObjectTracer>(before: T, after: T) -> bool {
    forall|o: ObjectReference| #[trigger]
        before.is_reachable(o) ==> after.is_reachable(o) && after.forwarded(o)
            == before.forwarded(o)
}

/// `after` reaches exactly the objects that `before` reaches.
pub open spec fn same_liveness<T: ObjectTracer>(before: T, after: T) -> bool {
    forall|o: ObjectReference| #[trigger] after.is_reachable(o) == before.is_reachable(o)
}

/// How one trace of `object` takes the tracer from `before` to `after`.
pub open spec fn traced<T: ObjectTracer>(before: T, after: T, object: ObjectReference) -> bool {
    &&& after.is_reachable(object)
    &&& advanced(before, after)
    &&& before.is_reachable(object) ==> same_liveness(before, after)
}

/// Tracing is idempotent within a phase: a second trace of an object
/// returns the reference that the first one returned, and reaches nothing
/// new.
pub proof fn lemma_trace_idempotent<T: ObjectTracer>(
    before: T,
    once: T,
    twice: T,
    object: ObjectReference,
)
    requires
        traced(before, once, object),
        traced(once, twice, object),
    ensures
        twice.forwarded(object) == once.forwarded(object),
        same_liveness(once, twice),
{
}

/// The liveness test of `tracer`, as a predicate on references.
pub open spec fn reachable_in<T: ObjectTracer>(tracer: T) -> spec_fn(ObjectReference) -> bool {
    |o: ObjectReference| tracer.is_reachable(o)
}

/// The complement of [`reachable_in`].
pub open spec fn unreachable_in<T: ObjectTracer>(tracer: T) -> spec_fn(ObjectReference) -> bool {
    |o: ObjectReference| !tracer.is_reachable(o)
}

/// The address fixup of `tracer`, as a function on references.
pub open spec fn forwarding_of<T: ObjectTracer>(tracer: T) -> spec_fn(
    ObjectReference,
) -> ObjectReference {
    |o: ObjectReference| tracer.forwarded(o)
}

/// Every entry of `entries` under the reference that `tracer` gives it.
pub open spec fn forward_all<T: ObjectTracer>(
    entries: Seq<ObjectReference>,
    tracer: T,
) -> Seq<ObjectReference> {
    entries.map_values(forwarding_of(tracer))
}

/// The entries of `entries` that `before` reaches, in their order, each under
/// the reference that `after` gives it.
pub open spec fn survivors<T: ObjectTracer>(
    entries: Seq<ObjectReference>,
    before: T,
    after: T,
) -> Seq<ObjectReference> {
    forward_all(entries.filter(reachable_in(before)), after)
}

/// The entries of `entries` that `before` does not reach, in their order,
/// each under the reference that `after` gives it.
pub open spec fn casualties<T: ObjectTracer>(
    entries: Seq<ObjectReference>,
    before: T,
    after: T,
) -> Seq<ObjectReference> {
    forward_all(entries.filter(unreachable_in(before)), after)
}

/// The reference of an entry that was reachable at `before` is settled: a
/// later state of the tracer forwards the survivors as an earlier one did.
pub proof fn lemma_survivors_settled<T: ObjectTracer>(
    entries: Seq<ObjectReference>,
    before: T,
    earlier: T,
    later: T,
)
    requires
        advanced(before, earlier),
        advanced(earlier, later),
    ensures
        survivors(entries, before, earlier) == survivors(entries, before, later),
{
    let live = entries.filter(reachable_in(before));
    assert forall|k: int| 0 <= k < live.len() implies earlier.forwarded(live[k])
        == later.forwarded(live[k]) by {
        entries.lemma_filter_pred(reachable_in(before), k);
        assert(before.is_reachable(live[k]));
    }
    assert(survivors(entries, before, earlier) =~= survivors(entries, before, later));
}

/// Once every entry has been reached, a later state of the tracer forwards
/// the entries as an earlier one did.
pub proof fn lemma_forward_settled<T: ObjectTracer>(
    entries: Seq<ObjectReference>,
    earlier: T,
    later: T,
)
    requires
        forall|o: ObjectReference| #[trigger] entries.contains(o) ==> earlier.is_reachable(o),
        advanced(earlier, later),
    ensures
        forward_all(entries, earlier) == forward_all(entries, later),
{
    assert forall|k: int| 0 <= k < entries.len() implies earlier.forwarded(entries[k])
        == later.forwarded(entries[k]) by {
        assert(entries.contains(entries[k]));
    }
    assert(forward_all(entries, earlier) =~= forward_all(entries, later));
}

/// Traces every entry of `list` in order and stores what the tracer returns
/// in its place: an address fixup that consults no liveness.
pub fn forward_list<T: ObjectTracer>(list: &mut Vec<ObjectReference>, tracer: &mut T)
    ensures
        final(list)@ == forward_all(old(list)@, *final(tracer)),
        advanced(*old(tracer), *final(tracer)),
        forall|o: ObjectReference| #[trigger]
            old(list)@.contains(o) ==> final(tracer).is_reachable(o),
        (forall|o: ObjectReference| #[trigger]
            old(list)@.contains(o) ==> old(tracer).is_reachable(o))
            ==> same_liveness(*old(tracer), *final(tracer)),
{
    let n = list.len();
    let mut i: usize = 0;
    while i < n
        invariant
            i <= n,
            n == list.len(),
            n == old(list)@.len(),
            advanced(*old(tracer), *tracer),
            forall|j: int|
                0 <= j < i ==> list@[j] == tracer.forwarded(#[trigger] old(list)@[j])
                    && tracer.is_reachable(old(list)@[j]),
            forall|j: int| i <= j < n ==> list@[j] == old(list)@[j],
            (forall|j: int| 0 <= j < i ==> old(tracer).is_reachable(#[trigger] old(list)@[j]))
                ==> same_liveness(*old(tracer), *tracer),
        decreases n - i,
    {
        let object = list[i];
        let new_object = tracer.trace_object(object);
        list.set(i, new_object);
        i += 1;
    }
    assert(list@ =~= forward_all(old(list)@, *tracer));
    assert forall|o: ObjectReference| old(list)@.contains(o) implies tracer.is_reachable(o) by {
        let j = choose|j: int| 0 <= j < old(list)@.len() && old(list)@[j] == o;
        assert(tracer.is_reachable(old(list)@[j]));
    }
    assert((forall|o: ObjectReference| old(list)@.contains(o) ==> old(tracer).is_reachable(o))
        ==> (forall|j: int| 0 <= j < n ==> old(tracer).is_reachable(#[trigger] old(list)@[j])));
}

/// A tracer that changes no address forwards every entry to itself.
pub proof fn lemma_forward_identity<T: ObjectTracer>(entries: Seq<ObjectReference>, tracer: T)
    requires
        forall|o: ObjectReference| #[trigger] tracer.forwarded(o) == o,
    ensures
        forward_all(entries, tracer) == entries,
{
    assert(forward_all(entries, tracer) =~= entries);
}

/// Forwarding a list twice with tracers that change no address leaves the
/// list as it was.
pub proof fn lemma_forward_twice_identity<T: ObjectTracer>(
    entries: Seq<ObjectReference>,
    first: T,
    second: T,
)
    requires
        forall|o: ObjectReference| #[trigger] first.forwarded(o) == o,
        forall|o: ObjectReference| #[trigger] second.forwarded(o) == o,
    ensures
        forward_all(forward_all(entries, first), second) == entries,
{
    lemma_forward_identity(entries, first);
    lemma_forward_identity(entries, second);
}

/// The survivors and the casualties of a list part it: no entry is dropped
/// and none is counted twice, and every entry is found, under its current
/// reference, on the side that its liveness at `before` decides.
pub proof fn lemma_partition<T: ObjectTracer>(entries: Seq<ObjectReference>, before: T, after: T)
    ensures
        survivors(entries, before, after).len() + casualties(entries, before, after).len()
            == entries.len(),
        forall|k: int|
            0 <= k < entries.len() && before.is_reachable(#[trigger] entries[k]) ==> survivors(
                entries,
                before,
                after,
            ).contains(after.forwarded(entries[k])),
        forall|k: int|
            0 <= k < entries.len() && !before.is_reachable(#[trigger] entries[k]) ==> casualties(
                entries,
                before,
                after,
            ).contains(after.forwarded(entries[k])),
    decreases entries.len(),
{
    let live = reachable_in(before);
    let dead = unreachable_in(before);
    if entries.len() > 0 {
        let init = entries.drop_last();
        lemma_partition(init, before, after);
        assert(entries =~= init.push(entries.last()));
        init.lemma_filter_push(entries.last(), live);
        init.lemma_filter_push(entries.last(), dead);
    } else {
        assert(entries.filter(live).len() <= entries.len()) by {
            entries.lemma_filter_len(live);
        }
        assert(entries.filter(dead).len() <= entries.len()) by {
            entries.lemma_filter_len(dead);
        }
    }
    assert forall|k: int|
        0 <= k < entries.len() && before.is_reachable(#[trigger] entries[k]) implies survivors(
        entries,
        before,
        after,
    ).contains(after.forwarded(entries[k])) by {
        entries.lemma_filter_contains(live, k);
        let kept = entries.filter(live);
        let j = choose|j: int| 0 <= j < kept.len() && kept[j] == entries[k];
        assert(forward_all(kept, after)[j] == after.forwarded(entries[k]));
    }
    assert forall|k: int|
        0 <= k < entries.len() && !before.is_reachable(#[trigger] entries[k]) implies casualties(
        entries,
        before,
        after,
    ).contains(after.forwarded(entries[k])) by {
        entries.lemma_filter_contains(dead, k);
        let lost = entries.filter(dead);
        let j = choose|j: int| 0 <= j < lost.len() && lost[j] == entries[k];
        assert(forward_all(lost, after)[j] == after.forwarded(entries[k]));
    }
}

/// Where distinct entries keep distinct references, no reference is both
/// among the survivors and among the casualties of a list.
pub proof fn lemma_partition_disjoint<T: ObjectTracer>(
    entries: Seq<ObjectReference>,
    before: T,
    after: T,
    object: ObjectReference,
)
    requires
        forall|a: ObjectReference, b: ObjectReference|
            #![trigger entries.contains(a), entries.contains(b)]
            entries.contains(a) && entries.contains(b) && after.forwarded(a) == after.forwarded(b)
                ==> a == b,
    ensures
        !(survivors(entries, before, after).contains(object) && casualties(
            entries,
            before,
            after,
        ).contains(object)),
{
    let live = reachable_in(before);
    let dead = unreachable_in(before);
    let kept = entries.filter(live);
    let lost = entries.filter(dead);
    if forward_all(kept, after).contains(object) && forward_all(lost, after).contains(object) {
        let i = choose|i: int| 0 <= i < kept.len() && forward_all(kept, after)[i] == object;
        let j = choose|j: int| 0 <= j < lost.len() && forward_all(lost, after)[j] == object;
        entries.lemma_filter_pred(live, i);
        entries.lemma_filter_pred(dead, j);
        assert(kept.contains(kept[i]));
        assert(lost.contains(lost[j]));
        entries.lemma_filter_contains_rev(live, kept[i]);
        entries.lemma_filter_contains_rev(dead, lost[j]);
        assert(kept[i] == lost[j]);
    }
}

/// One relocation: the object that lived at `from` lives at `to` now.
#[derive(Clone, Copy, Debug, PartialEq, Eq, Structural)]
pub struct Relocation {
    pub from: ObjectReference,
    pub to: ObjectReference,
}

/// The reference under which the relocation table `table` knows `object`:
/// where its first relocation takes it, or `object` itself if it has none.
pub open spec fn relocated(table: Seq<Relocation>, object: ObjectReference) -> ObjectReference
    decreases table.len(),
{
    if table.len() == 0 {
        object
    } else if table.first().from == object {
        table.first().to
    } else {
        relocated(table.drop_first(), object)
    }
}

/// A tracer that works from a table: the objects marked as reached, and
/// where the objects that were moved live now.
pub struct TableTracer {
    /// The objects reached so far, in the order in which they were reached.
    pub marked: Vec<ObjectReference>,
    /// The objects that were moved.
    pub relocations: Vec<Relocation>,
}

impl TableTracer {
    /// A tracer that has reached `marked` and knows `relocations`.
    pub fn new(marked: Vec<ObjectReference>, relocations: Vec<Relocation>) -> (tracer: TableTracer)
        ensures
            tracer.marked@ == marked@,
            tracer.relocations@ == relocations@,
    {
        TableTracer { marked, relocations }
    }

    /// Where the table takes `object`.
    pub fn relocate(&self, object: ObjectReference) -> (new_object: ObjectReference)
        ensures
            new_object == relocated(self.relocations@, object),
    {
        let n = self.relocations.len();
        let mut i: usize = 0;
        proof {
            assert(self.relocations@.skip(0) =~= self.relocations@);
        }
        while i < n
            invariant
                i <= n,
                n == self.relocations@.len(),
                relocated(self.relocations@, object) == relocated(
                    self.relocations@.skip(i as int),
                    object,
                ),
            decreases n - i,
        {
            if self.relocations[i].from == object {
                return self.relocations[i].to;
            }
            proof {
                assert(self.relocations@.skip(i as int).drop_first() =~= self.relocations@.skip(
                    i + 1,
                ));
            }
            i += 1;
        }
        object
    }
}

impl ObjectTracer for TableTracer {
    open spec fn is_reachable(&self, object: ObjectReference) -> bool {
        self.marked@.contains(object)
    }

    open spec fn forwarded(&self, object: ObjectReference) -> ObjectReference {
        relocated(self.relocations@, object)
    }

    fn is_live(&self, object: ObjectReference) -> (live: bool) {
        let n = self.marked.len();
        let mut i: usize = 0;
        while i < n
            invariant
                i <= n,
                n == self.marked@.len(),
                forall|j: int| 0 <= j < i ==> self.marked@[j] != object,
            decreases n - i,
        {
            if self.marked[i] == object {
                return true;
            }
            i += 1;
        }
        false
    }

    fn trace_object(&mut self, object: ObjectReference) -> (new_object: ObjectReference) {
        if !self.is_live(object) {
            self.marked.push(object);
            proof {
                let reached = self.marked@;
                assert(reached[reached.len() - 1] == object);
                assert forall|o: ObjectReference| #[trigger]
                    old(self).is_reachable(o) implies self.is_reachable(o) by {
                    let j = choose|j: int|
                        0 <= j < old(self).marked@.len() && old(self).marked@[j] == o;
                    assert(reached[j] == o);
                }
            }
        }
        self.relocate(object)
    }
}

} // verus!
