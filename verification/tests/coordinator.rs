use weakgc::collection::VMCollection;
use weakgc::tracing::{ObjectReference, ObjectTracer, Relocation, TableTracer};
use weakgc::weak_processor::reference_processor::{scan_refs, ReferenceProcessors};
use weakgc::weak_processor::{Phase, WeakProcessor};

fn obj(address: usize) -> ObjectReference {
    ObjectReference::from_address(address)
}

fn marking(live: &[usize]) -> TableTracer {
    TableTracer::new(live.iter().map(|a| obj(*a)).collect(), Vec::new())
}

fn moving(live: &[usize], moves: &[(usize, usize)]) -> TableTracer {
    TableTracer::new(
        live.iter().map(|a| obj(*a)).collect(),
        moves.iter().map(|(from, to)| Relocation { from: obj(*from), to: obj(*to) }).collect(),
    )
}

fn addresses(list: &[ObjectReference]) -> Vec<usize> {
    list.iter().map(|o| o.to_address()).collect()
}

/// A tracer of the test's own: everything at an even address is alive and
/// stays where it is. It counts the queries and the traces.
struct EvenTracer {
    queries: usize,
    traces: Vec<usize>,
}

impl ObjectTracer for EvenTracer {
    fn is_reachable(&self, object: ObjectReference) -> bool {
        object.to_address() % 2 == 0 || self.traces.contains(&object.to_address())
    }

    fn forwarded(&self, object: ObjectReference) -> ObjectReference {
        object
    }

    fn is_live(&self, object: ObjectReference) -> bool {
        self.is_reachable(object)
    }

    fn trace_object(&mut self, object: ObjectReference) -> ObjectReference {
        self.queries += 1;
        self.traces.push(object.to_address());
        object
    }
}

fn populated() -> WeakProcessor {
    let mut wp = WeakProcessor::new();
    wp.reference_processors.add_soft_candidate(obj(0x11));
    wp.reference_processors.add_soft_candidate(obj(0x12));
    wp.reference_processors.add_weak_candidate(obj(0x21));
    wp.reference_processors.add_weak_candidate(obj(0x22));
    wp.reference_processors.add_phantom_candidate(obj(0x31));
    wp.reference_processors.add_phantom_candidate(obj(0x32));
    wp.finalizable_processor.add(obj(0x41));
    wp.finalizable_processor.add(obj(0x42));
    wp
}

#[test]
fn new_coordinator_is_inactive_and_empty() {
    let wp = WeakProcessor::new();
    assert!(!wp.is_active());
    assert_eq!(wp.phase, Phase::Inactive);
    assert!(wp.reference_processors.soft.is_empty());
    assert!(wp.reference_processors.weak.is_empty());
    assert!(wp.reference_processors.phantom.is_empty());
    assert!(wp.finalizable_processor.candidates.is_empty());
    assert!(wp.finalizable_processor.ready_for_finalize.is_empty());
    let d = WeakProcessor::default();
    assert!(!d.is_active());
}

#[test]
fn four_calls_make_one_cycle() {
    let mut wp = populated();
    let mut host = VMCollection::new();
    let mut tracer = marking(&[0x12, 0x22, 0x32, 0x42]);

    // Soft.
    assert!(wp.process_weak_refs(&mut tracer, &mut host));
    assert_eq!(wp.phase, Phase::Weak);
    assert!(wp.is_active());
    assert_eq!(addresses(&wp.reference_processors.soft), vec![0x12]);
    assert_eq!(addresses(&wp.reference_processors.weak), vec![0x21, 0x22]);
    assert_eq!(addresses(&wp.reference_processors.phantom), vec![0x31, 0x32]);
    assert_eq!(addresses(&wp.finalizable_processor.candidates), vec![0x41, 0x42]);
    assert!(!host.finalization_scheduled);

    // Weak.
    assert!(wp.process_weak_refs(&mut tracer, &mut host));
    assert_eq!(wp.phase, Phase::Final);
    assert_eq!(addresses(&wp.reference_processors.soft), vec![0x12]);
    assert_eq!(addresses(&wp.reference_processors.weak), vec![0x22]);
    assert_eq!(addresses(&wp.reference_processors.phantom), vec![0x31, 0x32]);
    assert_eq!(addresses(&wp.finalizable_processor.candidates), vec![0x41, 0x42]);
    assert!(!host.finalization_scheduled);

    // Final.
    assert!(wp.process_weak_refs(&mut tracer, &mut host));
    assert_eq!(wp.phase, Phase::Phantom);
    assert_eq!(addresses(&wp.reference_processors.phantom), vec![0x31, 0x32]);
    assert_eq!(addresses(&wp.finalizable_processor.candidates), vec![0x42]);
    assert_eq!(addresses(&wp.finalizable_processor.ready_for_finalize), vec![0x41]);
    assert_eq!(wp.finalizable_processor.nursery_index, 1);
    assert!(host.finalization_scheduled);

    // Phantom.
    assert!(!wp.process_weak_refs(&mut tracer, &mut host));
    assert_eq!(wp.phase, Phase::Inactive);
    assert!(!wp.is_active());
    assert_eq!(addresses(&wp.reference_processors.soft), vec![0x12]);
    assert_eq!(addresses(&wp.reference_processors.weak), vec![0x22]);
    assert_eq!(addresses(&wp.reference_processors.phantom), vec![0x32]);
}

#[test]
fn a_second_cycle_follows_the_first() {
    let mut wp = populated();
    let mut host = VMCollection::new();
    let mut tracer = marking(&[0x12, 0x22, 0x32, 0x42]);
    let mut reports = Vec::new();
    for _ in 0..8 {
        reports.push(wp.process_weak_refs(&mut tracer, &mut host));
    }
    assert_eq!(reports, vec![true, true, true, false, true, true, true, false]);
    assert!(!wp.is_active());
}

#[test]
fn soft_phase_entered_from_soft_does_the_soft_work() {
    let mut wp = populated();
    wp.phase = Phase::Soft;
    let mut host = VMCollection::new();
    let mut tracer = marking(&[]);
    assert!(wp.process_weak_refs(&mut tracer, &mut host));
    assert_eq!(wp.phase, Phase::Weak);
    assert!(wp.reference_processors.soft.is_empty());
    assert_eq!(addresses(&wp.reference_processors.weak), vec![0x21, 0x22]);
}

#[test]
fn phantom_references_are_not_kept_alive_by_the_final_phase() {
    let mut wp = WeakProcessor::new();
    wp.reference_processors.add_phantom_candidate(obj(0x31));
    wp.finalizable_processor.add(obj(0x41));
    let mut host = VMCollection::new();
    let mut tracer = marking(&[]);
    while wp.process_weak_refs(&mut tracer, &mut host) {}
    assert!(wp.reference_processors.phantom.is_empty());
    assert_eq!(addresses(&wp.finalizable_processor.ready_for_finalize), vec![0x41]);
    assert!(tracer.is_live(obj(0x41)));
    assert!(!tracer.is_live(obj(0x31)));
}

#[test]
fn forwarding_is_refused_while_a_cycle_is_under_way() {
    let mut wp = populated();
    let mut host = VMCollection::new();
    let mut tracer = marking(&[0x12, 0x22, 0x32, 0x42]);
    assert!(!wp.is_active());
    wp.process_weak_refs(&mut tracer, &mut host);
    assert_eq!(wp.phase, Phase::Weak);
    // The guard that stands before every call of `forward_weak_refs`.
    assert!(wp.is_active());
    wp.process_weak_refs(&mut tracer, &mut host);
    assert!(wp.is_active());
    wp.process_weak_refs(&mut tracer, &mut host);
    assert!(wp.is_active());
    wp.process_weak_refs(&mut tracer, &mut host);
    assert!(!wp.is_active());
}

#[test]
fn forward_weak_refs_fixes_every_registry() {
    let mut wp = populated();
    wp.finalizable_processor.ready_for_finalize.push(obj(0x51));
    let mut tracer = moving(
        &[],
        &[(0x11, 0x111), (0x22, 0x122), (0x31, 0x131), (0x42, 0x142), (0x51, 0x151)],
    );
    assert!(!wp.forward_weak_refs(&mut tracer));
    assert_eq!(wp.phase, Phase::Inactive);
    assert_eq!(addresses(&wp.reference_processors.soft), vec![0x111, 0x12]);
    assert_eq!(addresses(&wp.reference_processors.weak), vec![0x21, 0x122]);
    assert_eq!(addresses(&wp.reference_processors.phantom), vec![0x131, 0x32]);
    assert_eq!(addresses(&wp.finalizable_processor.candidates), vec![0x41, 0x142]);
    assert_eq!(addresses(&wp.finalizable_processor.ready_for_finalize), vec![0x151]);
    assert_eq!(wp.finalizable_processor.nursery_index, 0);
}

#[test]
fn forward_weak_refs_twice_with_identity_changes_nothing() {
    let mut wp = populated();
    let mut tracer = marking(&[]);
    assert!(!wp.forward_weak_refs(&mut tracer));
    assert!(!wp.forward_weak_refs(&mut tracer));
    assert_eq!(addresses(&wp.reference_processors.soft), vec![0x11, 0x12]);
    assert_eq!(addresses(&wp.reference_processors.weak), vec![0x21, 0x22]);
    assert_eq!(addresses(&wp.reference_processors.phantom), vec![0x31, 0x32]);
    assert_eq!(addresses(&wp.finalizable_processor.candidates), vec![0x41, 0x42]);
}

#[test]
fn scan_refs_clears_dead_entries_and_forwards_the_rest() {
    let mut registry = vec![obj(0x10), obj(0x20), obj(0x30), obj(0x40)];
    let mut tracer = moving(&[0x20, 0x40], &[(0x40, 0x140), (0x10, 0x110)]);
    scan_refs(&mut registry, &mut tracer);
    assert_eq!(addresses(&registry), vec![0x20, 0x140]);
    assert!(!tracer.is_live(obj(0x10)));
    assert!(!tracer.is_live(obj(0x30)));
}

#[test]
fn each_scan_touches_its_own_registry() {
    let mut refs = ReferenceProcessors::new();
    refs.add_soft_candidate(obj(0x11));
    refs.add_weak_candidate(obj(0x21));
    refs.add_phantom_candidate(obj(0x31));
    let mut tracer = marking(&[]);
    refs.scan_weak_refs(&mut tracer);
    assert_eq!(addresses(&refs.soft), vec![0x11]);
    assert!(refs.weak.is_empty());
    assert_eq!(addresses(&refs.phantom), vec![0x31]);
    refs.scan_phantom_refs(&mut tracer);
    assert_eq!(addresses(&refs.soft), vec![0x11]);
    assert!(refs.phantom.is_empty());
    refs.scan_soft_refs(&mut tracer);
    assert!(refs.soft.is_empty());
}

#[test]
fn forward_refs_clears_nothing() {
    let mut refs = ReferenceProcessors::new();
    refs.add_soft_candidate(obj(0x11));
    refs.add_weak_candidate(obj(0x21));
    refs.add_phantom_candidate(obj(0x31));
    let mut tracer = moving(&[], &[(0x21, 0x221)]);
    refs.forward_refs(&mut tracer);
    assert_eq!(addresses(&refs.soft), vec![0x11]);
    assert_eq!(addresses(&refs.weak), vec![0x221]);
    assert_eq!(addresses(&refs.phantom), vec![0x31]);
}

#[test]
fn a_tracer_of_the_callers_own_is_asked_in_order() {
    let mut wp = populated();
    let mut host = VMCollection::new();
    let mut tracer = EvenTracer { queries: 0, traces: Vec::new() };
    while wp.process_weak_refs(&mut tracer, &mut host) {}
    assert_eq!(tracer.traces, vec![0x12, 0x22, 0x42, 0x41, 0x32]);
    assert_eq!(tracer.queries, 5);
    assert_eq!(addresses(&wp.finalizable_processor.ready_for_finalize), vec![0x41]);
}
