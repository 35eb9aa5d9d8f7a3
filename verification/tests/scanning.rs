use weakgc::object_scanning::{
    edge_size, run_fits, scan_object, EdgeBuffer, EdgeVisitor, InstanceClassLoaderKlass, InstanceKlass,
    InstanceMirrorKlass, InstanceRefKlass, Klass, KlassID, ObjArrayKlass, Oop, OopMapBlock,
    OpenJDKEdge, OpenJDKEdgeRange, Options, ReferenceType, TypeArrayKlass,
};
use weakgc::tracing::ObjectReference;
use weakgc::weak_processor::reference_processor::ReferenceProcessors;

const WIDE: Options = Options { compressed: false, no_reference_types: false };
const NARROW: Options = Options { compressed: true, no_reference_types: false };
const ALL_STRONG: Options = Options { compressed: false, no_reference_types: true };

fn instance(reference_type: ReferenceType, maps: &[(i32, u32)]) -> InstanceKlass {
    InstanceKlass {
        reference_type,
        nonstatic_oop_maps: maps.iter().map(|(offset, count)| OopMapBlock { offset: *offset, count: *count }).collect(),
    }
}

fn oop(start: usize, klass: Klass) -> Oop {
    Oop { start, klass, static_oop_field_count: 0, array_length: 0 }
}

fn reference_klass(reference_type: ReferenceType) -> Klass {
    Klass::InstanceRef(InstanceRefKlass {
        instance_klass: instance(reference_type, &[(16, 1)]),
        referent_offset: 24,
        discovered_offset: 40,
    })
}

fn scan(object: &Oop, options: &Options) -> (Vec<usize>, ReferenceProcessors) {
    let mut buffer = EdgeBuffer::new();
    let mut refs = ReferenceProcessors::new();
    scan_object(object, options, &mut buffer, &mut refs);
    (buffer.edges.iter().map(|e| e.addr).collect(), refs)
}

fn registry(list: &[ObjectReference]) -> Vec<usize> {
    list.iter().map(|o| o.to_address()).collect()
}

#[test]
fn kind_tags_are_zero_to_five() {
    assert_eq!(KlassID::from_tag(0), Some(KlassID::Instance));
    assert_eq!(KlassID::from_tag(1), Some(KlassID::InstanceRef));
    assert_eq!(KlassID::from_tag(2), Some(KlassID::InstanceMirror));
    assert_eq!(KlassID::from_tag(3), Some(KlassID::InstanceClassLoader));
    assert_eq!(KlassID::from_tag(4), Some(KlassID::TypeArray));
    assert_eq!(KlassID::from_tag(5), Some(KlassID::ObjArray));
    for id in [
        KlassID::Instance,
        KlassID::InstanceRef,
        KlassID::InstanceMirror,
        KlassID::InstanceClassLoader,
        KlassID::TypeArray,
        KlassID::ObjArray,
    ] {
        assert_eq!(KlassID::from_tag(id.tag()), Some(id));
    }
}

#[test]
fn any_other_tag_is_refused() {
    assert_eq!(KlassID::from_tag(6), None);
    assert_eq!(KlassID::from_tag(-1), None);
    assert_eq!(KlassID::from_tag(i32::MAX), None);
    assert_eq!(KlassID::from_tag(i32::MIN), None);
}

#[test]
fn descriptor_knows_its_kind() {
    assert_eq!(Klass::Instance(instance(ReferenceType::NoReference, &[])).id(), KlassID::Instance);
    assert_eq!(reference_klass(ReferenceType::Weak).id(), KlassID::InstanceRef);
    assert_eq!(Klass::TypeArray(TypeArrayKlass {}).id(), KlassID::TypeArray);
    assert_eq!(Klass::ObjArray(ObjArrayKlass { base_offset: 16 }).id(), KlassID::ObjArray);
}

#[test]
fn slot_sizes() {
    assert_eq!(edge_size(true), 4);
    assert_eq!(edge_size(false), 8);
}

#[test]
fn instance_fields_come_block_after_block() {
    let object = oop(0x1000, Klass::Instance(instance(ReferenceType::NoReference, &[(16, 2), (40, 1)])));
    let (edges, refs) = scan(&object, &WIDE);
    assert_eq!(edges, vec![0x1010, 0x1018, 0x1028]);
    assert!(refs.soft.is_empty() && refs.weak.is_empty() && refs.phantom.is_empty());
}

#[test]
fn compressed_slots_are_four_bytes_apart() {
    let object = oop(0x1000, Klass::Instance(instance(ReferenceType::NoReference, &[(12, 3)])));
    let (edges, _) = scan(&object, &NARROW);
    assert_eq!(edges, vec![0x100c, 0x1010, 0x1014]);
}

#[test]
fn instance_without_reference_fields_has_no_edges() {
    let object = oop(0x1000, Klass::Instance(instance(ReferenceType::NoReference, &[])));
    assert!(scan(&object, &WIDE).0.is_empty());
    let empty_block = oop(0x1000, Klass::Instance(instance(ReferenceType::NoReference, &[(16, 0)])));
    assert!(scan(&empty_block, &WIDE).0.is_empty());
}

#[test]
fn negative_field_offset() {
    let object = oop(0x1000, Klass::Instance(instance(ReferenceType::NoReference, &[(-16, 2)])));
    assert_eq!(scan(&object, &WIDE).0, vec![0xff0, 0xff8]);
    assert_eq!(object.get_field_address(-16), 0xff0);
    assert_eq!(object.get_field_address(24), 0x1018);
}

#[test]
fn mirror_shows_instance_fields_then_statics() {
    let klass = Klass::InstanceMirror(InstanceMirrorKlass {
        instance_klass: instance(ReferenceType::NoReference, &[(16, 1)]),
        offset_of_static_fields: 112,
    });
    let object = Oop { start: 0x2000, klass, static_oop_field_count: 3, array_length: 0 };
    assert_eq!(scan(&object, &WIDE).0, vec![0x2010, 0x2070, 0x2078, 0x2080]);
    assert_eq!(scan(&object, &NARROW).0, vec![0x2010, 0x2070, 0x2074, 0x2078]);
}

#[test]
fn class_loader_shows_instance_fields() {
    let klass = Klass::InstanceClassLoader(InstanceClassLoaderKlass {
        instance_klass: instance(ReferenceType::NoReference, &[(16, 2)]),
    });
    assert_eq!(scan(&oop(0x3000, klass), &WIDE).0, vec![0x3010, 0x3018]);
}

#[test]
fn object_array_shows_every_element() {
    let object = Oop {
        start: 0x4000,
        klass: Klass::ObjArray(ObjArrayKlass { base_offset: 16 }),
        static_oop_field_count: 0,
        array_length: 4,
    };
    assert_eq!(scan(&object, &WIDE).0, vec![0x4010, 0x4018, 0x4020, 0x4028]);
    assert_eq!(scan(&object, &NARROW).0, vec![0x4010, 0x4014, 0x4018, 0x401c]);
}

#[test]
fn primitive_array_has_no_edges() {
    let object = Oop {
        start: 0x5000,
        klass: Klass::TypeArray(TypeArrayKlass {}),
        static_oop_field_count: 0,
        array_length: 100,
    };
    let (edges, refs) = scan(&object, &WIDE);
    assert!(edges.is_empty());
    assert!(refs.soft.is_empty() && refs.weak.is_empty() && refs.phantom.is_empty());
}

#[test]
fn weak_reference_is_registered_and_its_referent_not_followed() {
    let (edges, refs) = scan(&oop(0x6000, reference_klass(ReferenceType::Weak)), &WIDE);
    assert_eq!(edges, vec![0x6010]);
    assert_eq!(registry(&refs.weak), vec![0x6000]);
    assert!(refs.soft.is_empty() && refs.phantom.is_empty());
}

#[test]
fn soft_reference_is_registered() {
    let (edges, refs) = scan(&oop(0x6000, reference_klass(ReferenceType::Soft)), &WIDE);
    assert_eq!(edges, vec![0x6010]);
    assert_eq!(registry(&refs.soft), vec![0x6000]);
    assert!(refs.weak.is_empty() && refs.phantom.is_empty());
}

#[test]
fn phantom_reference_is_registered() {
    let (edges, refs) = scan(&oop(0x6000, reference_klass(ReferenceType::Phantom)), &WIDE);
    assert_eq!(edges, vec![0x6010]);
    assert_eq!(registry(&refs.phantom), vec![0x6000]);
    assert!(refs.soft.is_empty() && refs.weak.is_empty());
}

#[test]
fn final_and_other_references_are_followed_like_strong_ones() {
    for strength in [ReferenceType::Final, ReferenceType::Other] {
        let (edges, refs) = scan(&oop(0x6000, reference_klass(strength)), &WIDE);
        assert_eq!(edges, vec![0x6010, 0x6018, 0x6028]);
        assert!(refs.soft.is_empty() && refs.weak.is_empty() && refs.phantom.is_empty());
    }
}

#[test]
fn nothing_is_weak_when_reference_types_are_off() {
    for strength in [
        ReferenceType::NoReference,
        ReferenceType::Other,
        ReferenceType::Soft,
        ReferenceType::Weak,
        ReferenceType::Final,
        ReferenceType::Phantom,
    ] {
        let (edges, refs) = scan(&oop(0x6000, reference_klass(strength)), &ALL_STRONG);
        assert_eq!(edges, vec![0x6010, 0x6018, 0x6028]);
        assert!(refs.soft.is_empty() && refs.weak.is_empty() && refs.phantom.is_empty());
    }
}

#[test]
fn discoveries_keep_their_order() {
    let mut buffer = EdgeBuffer::new();
    let mut refs = ReferenceProcessors::new();
    for start in [0x6000usize, 0x7000, 0x6800] {
        scan_object(&oop(start, reference_klass(ReferenceType::Weak)), &WIDE, &mut buffer, &mut refs);
    }
    assert_eq!(registry(&refs.weak), vec![0x6000, 0x7000, 0x6800]);
    assert_eq!(
        buffer.edges.iter().map(|e| e.addr).collect::<Vec<usize>>(),
        vec![0x6010, 0x7010, 0x6810]
    );
}

#[test]
fn should_scan_weak_refs_follows_the_toggle() {
    assert!(InstanceRefKlass::should_scan_weak_refs(&WIDE));
    assert!(!InstanceRefKlass::should_scan_weak_refs(&ALL_STRONG));
}

#[test]
fn process_ref_as_strong_shows_referent_then_link() {
    let klass = InstanceRefKlass {
        instance_klass: instance(ReferenceType::Weak, &[]),
        referent_offset: 24,
        discovered_offset: 40,
    };
    let object = oop(0x100, Klass::TypeArray(TypeArrayKlass {}));
    let mut buffer = EdgeBuffer::new();
    klass.process_ref_as_strong(&object, &mut buffer);
    assert_eq!(buffer.edges, vec![OpenJDKEdge { addr: 0x118 }, OpenJDKEdge { addr: 0x128 }]);
    assert_eq!(klass.referent_address(&object), OpenJDKEdge { addr: 0x118 });
    assert_eq!(klass.discovered_address(&object), OpenJDKEdge { addr: 0x128 });
}

#[test]
fn a_run_is_the_same_edges_as_one_by_one() {
    let block = OopMapBlock { offset: 16, count: 5 };
    let object = oop(0x1000, Klass::TypeArray(TypeArrayKlass {}));
    for options in [WIDE, NARROW] {
        let mut one_by_one = EdgeBuffer::new();
        block.oop_iterate(&object, &options, &mut one_by_one);
        let mut batched = EdgeBuffer::new();
        batched.visit_slice(OpenJDKEdgeRange::from_run(0x1010, 5, options.compressed));
        assert_eq!(one_by_one.edges, batched.edges);
        assert_eq!(one_by_one.edges.len(), 5);
    }
}

#[test]
fn a_range_holds_its_whole_slots() {
    let mut buffer = EdgeBuffer::new();
    buffer.visit_edge(OpenJDKEdge { addr: 8 });
    buffer.visit_slice(OpenJDKEdgeRange { start: 0x100, end: 0x11c, compressed: false });
    assert_eq!(
        buffer.edges.iter().map(|e| e.addr).collect::<Vec<usize>>(),
        vec![8, 0x100, 0x108, 0x110]
    );
    buffer.visit_slice(OpenJDKEdgeRange { start: 0x200, end: 0x200, compressed: true });
    assert_eq!(buffer.edges.len(), 4);
}

#[test]
fn a_reference_object_without_strength_cannot_be_scanned() {
    let object = oop(0x6000, reference_klass(ReferenceType::NoReference));
    assert!(!object.is_scannable(&WIDE));
    assert!(!object.is_scannable(&NARROW));
    // Where nothing is weak the strength is not looked at.
    assert!(object.is_scannable(&ALL_STRONG));
    for strength in [
        ReferenceType::Other,
        ReferenceType::Soft,
        ReferenceType::Weak,
        ReferenceType::Final,
        ReferenceType::Phantom,
    ] {
        assert!(oop(0x6000, reference_klass(strength)).is_scannable(&WIDE));
    }
}

#[test]
fn an_ordinary_instance_needs_no_strength() {
    let object = oop(0x1000, Klass::Instance(instance(ReferenceType::NoReference, &[(16, 2)])));
    assert!(object.is_scannable(&WIDE));
}

#[test]
fn fields_outside_the_address_space_cannot_be_scanned() {
    let below = oop(8, Klass::Instance(instance(ReferenceType::NoReference, &[(16, 1), (-16, 1)])));
    assert!(!below.is_scannable(&WIDE));
    let above = oop(usize::MAX - 31, Klass::Instance(instance(ReferenceType::NoReference, &[(16, 3)])));
    assert!(!above.is_scannable(&WIDE));
    assert!(above.is_scannable(&NARROW));
    let array = Oop {
        start: 0x1000,
        klass: Klass::ObjArray(ObjArrayKlass { base_offset: 16 }),
        static_oop_field_count: 0,
        array_length: usize::MAX / 8,
    };
    assert!(!array.is_scannable(&WIDE));
    let primitive = Oop {
        start: usize::MAX,
        klass: Klass::TypeArray(TypeArrayKlass {}),
        static_oop_field_count: 0,
        array_length: usize::MAX,
    };
    assert!(primitive.is_scannable(&WIDE));
    let mirror = Oop {
        start: usize::MAX - 127,
        klass: Klass::InstanceMirror(InstanceMirrorKlass {
            instance_klass: instance(ReferenceType::NoReference, &[]),
            offset_of_static_fields: 112,
        }),
        static_oop_field_count: 2,
        array_length: 0,
    };
    assert!(!mirror.is_scannable(&WIDE));
    assert!(mirror.is_scannable(&NARROW));
}

#[test]
fn run_fits_up_to_the_last_address() {
    assert!(run_fits(usize::MAX - 16, 0, 2, false));
    assert!(!run_fits(usize::MAX - 15, 0, 2, false));
    assert!(run_fits(usize::MAX - 15, 0, 3, true));
    assert!(run_fits(usize::MAX - 15, -1, 2, false));
    assert!(run_fits(0, 0, 0, false));
    assert!(!run_fits(0, -1, 0, false));
    assert!(run_fits(usize::MAX, 0, 0, true));
    assert!(!run_fits(usize::MAX, 1, 0, true));
}

#[test]
fn instance_klass_fits_when_every_block_does() {
    let klass = instance(ReferenceType::NoReference, &[(16, 2), (64, 4)]);
    assert!(klass.fits(0x1000, false));
    assert!(klass.fits(usize::MAX - 96, false));
    assert!(!klass.fits(usize::MAX - 95, false));
    assert!(klass.fits(usize::MAX - 80, true));
}
