//! The object-graph scanner: given an object and the descriptor of its
//! type, it visits the edges that leave the object.

use crate::tracing::ObjectReference;
use crate::weak_processor::reference_processor::ReferenceProcessors;
use vstd::prelude::*;

verus! {

/// The size in bytes of a slot that holds a reference: four where references
/// are stored in their compressed form, eight otherwise.
pub open spec fn bytes_in_edge(compressed: bool) -> int {
    if compressed {
        4
    } else {
        8
    }
}

/// A slot inside an object that holds a reference, named by its address.
#[derive(Clone, Copy, Debug, PartialEq, Eq, Structural)]
pub struct OpenJDKEdge {
    pub addr: usize,
}

/// A contiguous run of slots, from the address `start` up to `end`.
#[derive(Clone, Copy, Debug, PartialEq, Eq, Structural)]
pub struct OpenJDKEdgeRange {
    pub start: usize,
    pub end: usize,
    pub compressed: bool,
}

/// `count` slots in a row, the first at `start`.
pub open spec fn run_of_edges(start: int, count: int, compressed: bool) -> Seq<OpenJDKEdge> {
    Seq::new(
        count as nat,
        |i: int| OpenJDKEdge { addr: (start + i * bytes_in_edge(compressed)) as usize },
    )
}

impl OpenJDKEdgeRange {
    /// The range does not end before it starts.
    pub open spec fn wf(&self) -> bool {
        self.start <= self.end
    }

    /// The number of whole slots in the range.
    pub open spec fn len(&self) -> int {
        (self.end - self.start) / bytes_in_edge(self.compressed)
    }

    /// The slots of the range, from the lowest address up.
    pub open spec fn edges(&self) -> Seq<OpenJDKEdge> {
        run_of_edges(self.start as int, self.len(), self.compressed)
    }
}

impl OpenJDKEdgeRange {
    /// The run of `count` slots that starts at `start`.
    pub fn from_run(start: usize, count: usize, compressed: bool) -> (range: OpenJDKEdgeRange)
        requires
            start + count * bytes_in_edge(compressed) <= usize::MAX,
        ensures
            range.start == start,
            range.end == start + count * bytes_in_edge(compressed),
            range.compressed == compressed,
            range.wf(),
            range.edges() == run_of_edges(start as int, count as int, compressed),
    {
        let end = if compressed {
            start + count * 4
        } else {
            start + count * 8
        };
        OpenJDKEdgeRange { start, end, compressed }
    }
}

/// The size in bytes of a reference slot.
pub fn edge_size(compressed: bool) -> (bytes: usize)
    ensures
        bytes == bytes_in_edge(compressed),
{
    if compressed {
        4
    } else {
        8
    }
}

/// The one who is shown the edges of an object. Edges may be shown one by
/// one or as a run; a run stands for its slots, shown from the lowest
/// address up.
///
/// The scanner is proved for every visitor that keeps the two promises
/// below; [`EdgeBuffer`] is one that is proved to keep them.
pub trait EdgeVisitor: Sized {
    /// The edges shown so far, in the order of their visit.
    spec fn visited(&self) -> Seq<OpenJDKEdge>;

    /// Shows one edge.
    fn visit_edge(&mut self, edge: OpenJDKEdge)
        ensures
            final(self).visited() == old(self).visited().push(edge),
    ;

    /// Shows the slots of `slice`.
    fn visit_slice(&mut self, slice: OpenJDKEdgeRange)
        requires
            slice.wf(),
        ensures
            final(self).visited() == old(self).visited() + slice.edges(),
    ;
}

/// A visitor that writes down every edge it is shown.
pub struct EdgeBuffer {
    pub edges: Vec<OpenJDKEdge>,
}

impl EdgeBuffer {
    /// A buffer that has been shown nothing.
    pub fn new() -> (buffer: EdgeBuffer)
        ensures
            buffer.edges@ == Seq::<OpenJDKEdge>::empty(),
    {
        EdgeBuffer { edges: Vec::new() }
    }
}

impl EdgeVisitor for EdgeBuffer {
    open spec fn visited(&self) -> Seq<OpenJDKEdge> {
        self.edges@
    }

    fn visit_edge(&mut self, edge: OpenJDKEdge) {
        self.edges.push(edge);
    }

    fn visit_slice(&mut self, slice: OpenJDKEdgeRange) {
        let bytes = edge_size(slice.compressed);
        let mut addr = slice.start;
        let ghost mut shown: int = 0;
        proof {
            assert(self.edges@ =~= old(self).edges@ + run_of_edges(
                slice.start as int,
                0,
                slice.compressed,
            ));
        }
        while slice.end - addr >= bytes
            invariant
                slice.wf(),
                bytes == bytes_in_edge(slice.compressed),
                0 <= shown <= slice.len(),
                addr == slice.start + shown * bytes,
                addr <= slice.end,
                self.edges@ == old(self).edges@ + run_of_edges(
                    slice.start as int,
                    shown,
                    slice.compressed,
                ),
            decreases slice.end - addr,
        {
            self.edges.push(OpenJDKEdge { addr });
            proof {
                assert(run_of_edges(slice.start as int, shown + 1, slice.compressed)
                    =~= run_of_edges(slice.start as int, shown, slice.compressed).push(
                    OpenJDKEdge { addr },
                ));
                assert(self.edges@ =~= old(self).edges@ + run_of_edges(
                    slice.start as int,
                    shown + 1,
                    slice.compressed,
                ));
                shown = shown + 1;
            }
            addr = addr + bytes;
        }
        assert(shown == slice.len());
    }
}

/// The kind of layout that an object has.
#[derive(Clone, Copy, Debug, PartialEq, Eq, Structural)]
pub enum KlassID {
    /// A plain instance.
    Instance,
    /// An instance with reference semantics: soft, weak, final or phantom.
    InstanceRef,
    /// An instance that holds the static fields of a class.
    InstanceMirror,
    /// An instance that holds a link to a class loader.
    InstanceClassLoader,
    /// An array of primitive values.
    TypeArray,
    /// An array of references.
    ObjArray,
}

impl KlassID {
    /// The kind that the tag `tag` stands for. The tags are the numbers from
    /// 0 to 5; no other number is a tag.
    pub open spec fn of_tag(tag: int) -> Option<KlassID> {
        if tag == 0 {
            Some(KlassID::Instance)
        } else if tag == 1 {
            Some(KlassID::InstanceRef)
        } else if tag == 2 {
            Some(KlassID::InstanceMirror)
        } else if tag == 3 {
            Some(KlassID::InstanceClassLoader)
        } else if tag == 4 {
            Some(KlassID::TypeArray)
        } else if tag == 5 {
            Some(KlassID::ObjArray)
        } else {
            None
        }
    }

    /// Reads a kind tag. A number that is no tag gives `None`: the object
    /// that carries it cannot be scanned.
    pub fn from_tag(tag: i32) -> (id: Option<KlassID>)
        ensures
            id == Self::of_tag(tag as int),
            id.is_some() <==> 0 <= tag < 6,
    {
        match tag {
            0 => Some(KlassID::Instance),
            1 => Some(KlassID::InstanceRef),
            2 => Some(KlassID::InstanceMirror),
            3 => Some(KlassID::InstanceClassLoader),
            4 => Some(KlassID::TypeArray),
            5 => Some(KlassID::ObjArray),
            _ => None,
        }
    }

    /// The tag of this kind.
    pub fn tag(self) -> (tag: i32)
        ensures
            Self::of_tag(tag as int) == Some(self),
    {
        match self {
            KlassID::Instance => 0,
            KlassID::InstanceRef => 1,
            KlassID::InstanceMirror => 2,
            KlassID::InstanceClassLoader => 3,
            KlassID::TypeArray => 4,
            KlassID::ObjArray => 5,
        }
    }
}

/// The strength of an instance with reference semantics. `NoReference` is
/// what the descriptor of every other type holds.
#[derive(Clone, Copy, Debug, PartialEq, Eq, Structural)]
pub enum ReferenceType {
    NoReference,
    Other,
    Soft,
    Weak,
    Final,
    Phantom,
}

/// A run of reference fields in the instances of a type: `count` slots, the
/// first at `offset` bytes from the start of the object.
#[derive(Clone, Copy, Debug, PartialEq, Eq, Structural)]
pub struct OopMapBlock {
    pub offset: i32,
    pub count: u32,
}

/// The descriptor of a type of instances.
pub struct InstanceKlass {
    pub reference_type: ReferenceType,
    pub nonstatic_oop_maps: Vec<OopMapBlock>,
}

/// The descriptor of the type of class mirrors. A mirror holds the static
/// fields of its class, from `offset_of_static_fields` on.
pub struct InstanceMirrorKlass {
    pub instance_klass: InstanceKlass,
    pub offset_of_static_fields: i32,
}

/// The descriptor of a type of class loaders.
pub struct InstanceClassLoaderKlass {
    pub instance_klass: InstanceKlass,
}

/// The descriptor of a type of reference objects, with the offsets of the
/// referent field and of the field that links discovered references.
pub struct InstanceRefKlass {
    pub instance_klass: InstanceKlass,
    pub referent_offset: i32,
    pub discovered_offset: i32,
}

/// The descriptor of a type of arrays of references. The elements start
/// `base_offset` bytes into the array.
pub struct ObjArrayKlass {
    pub base_offset: i32,
}

/// The descriptor of a type of arrays of primitive values.
pub struct TypeArrayKlass {}

/// The descriptor of a type, by kind.
pub enum Klass {
    Instance(InstanceKlass),
    InstanceRef(InstanceRefKlass),
    InstanceMirror(InstanceMirrorKlass),
    InstanceClassLoader(InstanceClassLoaderKlass),
    TypeArray(TypeArrayKlass),
    ObjArray(ObjArrayKlass),
}

impl Klass {
    /// The kind of this descriptor.
    pub open spec fn kind(&self) -> KlassID {
        match self {
            Klass::Instance(_) => KlassID::Instance,
            Klass::InstanceRef(_) => KlassID::InstanceRef,
            Klass::InstanceMirror(_) => KlassID::InstanceMirror,
            Klass::InstanceClassLoader(_) => KlassID::InstanceClassLoader,
            Klass::TypeArray(_) => KlassID::TypeArray,
            Klass::ObjArray(_) => KlassID::ObjArray,
        }
    }

    /// The kind of this descriptor.
    pub fn id(&self) -> (id: KlassID)
        ensures
            id == self.kind(),
    {
        match self {
            Klass::Instance(_) => KlassID::Instance,
            Klass::InstanceRef(_) => KlassID::InstanceRef,
            Klass::InstanceMirror(_) => KlassID::InstanceMirror,
            Klass::InstanceClassLoader(_) => KlassID::InstanceClassLoader,
            Klass::TypeArray(_) => KlassID::TypeArray,
            Klass::ObjArray(_) => KlassID::ObjArray,
        }
    }
}

/// What the scanner reads of one object: where it starts, the descriptor of
/// its type, and the two counts that the object itself holds.
pub struct Oop {
    /// The address of the object.
    pub start: usize,
    /// The descriptor of its type.
    pub klass: Klass,
    /// The number of static reference fields, if the object is a mirror.
    pub static_oop_field_count: usize,
    /// The number of elements, if the object is an array.
    pub array_length: usize,
}

/// The settings that the scanner goes by.
#[derive(Clone, Copy, Debug, PartialEq, Eq, Structural)]
pub struct Options {
    /// References are stored in slots of four bytes.
    pub compressed: bool,
    /// Reference objects are treated as ordinary instances: nothing is
    /// weak.
    pub no_reference_types: bool,
}

/// Whether a run of `count` slots at `start` lies within the address space.
pub open spec fn run_in_bounds(start: int, count: int, compressed: bool) -> bool {
    0 <= start && start + count * bytes_in_edge(compressed) <= usize::MAX
}

/// Tests whether a run of `count` slots, the first `offset` bytes from
/// `start`, lies within the address space.
pub fn run_fits(start: usize, offset: i32, count: usize, compressed: bool) -> (fits: bool)
    ensures
        fits == run_in_bounds(start + offset, count as int, compressed),
{
    let first: i128 = start as i128 + offset as i128;
    if first < 0 {
        return false;
    }
    let end: i128 = if compressed {
        first + (count as i128) * 4
    } else {
        first + (count as i128) * 8
    };
    end <= usize::MAX as i128
}

impl Oop {
    /// The handle of this object.
    pub open spec fn reference(&self) -> ObjectReference {
        ObjectReference { address: self.start }
    }

    /// The address `offset` bytes from the start of the object.
    pub fn get_field_address(&self, offset: i32) -> (address: usize)
        requires
            0 <= self.start + offset <= usize::MAX,
        ensures
            address == self.start + offset,
    {
        if offset >= 0 {
            self.start + (offset as usize)
        } else {
            self.start - ((-(offset as i64)) as usize)
        }
    }
}

impl OopMapBlock {
    /// The slots of this block lie within the address space.
    pub open spec fn in_bounds(&self, start: int, compressed: bool) -> bool {
        run_in_bounds(start + self.offset, self.count as int, compressed)
    }

    /// The reference fields that this block places in the object at
    /// `start`.
    pub open spec fn edges(&self, start: int, compressed: bool) -> Seq<OpenJDKEdge> {
        run_of_edges(start + self.offset, self.count as int, compressed)
    }

    /// Shows the fields of this block one by one, from the first.
    pub fn oop_iterate<V: EdgeVisitor>(&self, oop: &Oop, options: &Options, closure: &mut V)
        requires
            self.in_bounds(oop.start as int, options.compressed),
        ensures
            final(closure).visited() == old(closure).visited() + self.edges(
                oop.start as int,
                options.compressed,
            ),
    {
        let bytes = edge_size(options.compressed);
        let start = oop.get_field_address(self.offset);
        let count = self.count as usize;
        let mut addr = start;
        let mut i: usize = 0;
        proof {
            assert(closure.visited() =~= old(closure).visited() + run_of_edges(
                start as int,
                0,
                options.compressed,
            ));
        }
        while i < count
            invariant
                i <= count,
                count == self.count,
                bytes == bytes_in_edge(options.compressed),
                start == oop.start + self.offset,
                start + count * bytes <= usize::MAX,
                i < count ==> addr == start + i * bytes,
                closure.visited() == old(closure).visited() + run_of_edges(
                    start as int,
                    i as int,
                    options.compressed,
                ),
            decreases count - i,
        {
            closure.visit_edge(OpenJDKEdge { addr });
            proof {
                assert(run_of_edges(start as int, i + 1, options.compressed) =~= run_of_edges(
                    start as int,
                    i as int,
                    options.compressed,
                ).push(OpenJDKEdge { addr }));
                assert(closure.visited() =~= old(closure).visited() + run_of_edges(
                    start as int,
                    i + 1,
                    options.compressed,
                ));
            }
            i += 1;
            if i < count {
                addr = addr + bytes;
            }
        }
    }
}

/// The reference fields that the blocks `maps` place in the object at
/// `start`, block after block.
pub open spec fn maps_edges(maps: Seq<OopMapBlock>, start: int, compressed: bool) -> Seq<
    OpenJDKEdge,
>
    decreases maps.len(),
{
    if maps.len() == 0 {
        Seq::empty()
    } else {
        maps_edges(maps.drop_last(), start, compressed) + maps.last().edges(start, compressed)
    }
}

impl InstanceKlass {
    /// The fields of an instance at `start` lie within the address space.
    pub open spec fn in_bounds(&self, start: int, compressed: bool) -> bool {
        forall|k: int|
            0 <= k < self.nonstatic_oop_maps@.len() ==> (#[trigger] self.nonstatic_oop_maps@[k]).in_bounds(
                start,
                compressed,
            )
    }

    /// The reference fields of the instance at `start`.
    pub open spec fn edges(&self, start: int, compressed: bool) -> Seq<OpenJDKEdge> {
        maps_edges(self.nonstatic_oop_maps@, start, compressed)
    }

    /// Tests whether the fields of an instance at `start` lie within the
    /// address space.
    pub fn fits(&self, start: usize, compressed: bool) -> (fits: bool)
        ensures
            fits == self.in_bounds(start as int, compressed),
    {
        let n = self.nonstatic_oop_maps.len();
        let mut i: usize = 0;
        while i < n
            invariant
                i <= n,
                n == self.nonstatic_oop_maps@.len(),
                forall|k: int|
                    0 <= k < i ==> (#[trigger] self.nonstatic_oop_maps@[k]).in_bounds(
                        start as int,
                        compressed,
                    ),
            decreases n - i,
        {
            let block = self.nonstatic_oop_maps[i];
            if !run_fits(start, block.offset, block.count as usize, compressed) {
                assert(!self.nonstatic_oop_maps@[i as int].in_bounds(start as int, compressed));
                return false;
            }
            i += 1;
        }
        true
    }

    /// Shows the reference fields of an instance, block after block.
    pub fn oop_iterate<V: EdgeVisitor>(&self, oop: &Oop, options: &Options, closure: &mut V)
        requires
            self.in_bounds(oop.start as int, options.compressed),
        ensures
            final(closure).visited() == old(closure).visited() + self.edges(
                oop.start as int,
                options.compressed,
            ),
    {
        let n = self.nonstatic_oop_maps.len();
        let mut i: usize = 0;
        let ghost maps = self.nonstatic_oop_maps@;
        let ghost start = oop.start as int;
        proof {
            assert(closure.visited() =~= old(closure).visited() + maps_edges(
                maps.take(0),
                start,
                options.compressed,
            ));
        }
        while i < n
            invariant
                i <= n,
                n == maps.len(),
                maps == self.nonstatic_oop_maps@,
                start == oop.start,
                self.in_bounds(start, options.compressed),
                closure.visited() == old(closure).visited() + maps_edges(
                    maps.take(i as int),
                    start,
                    options.compressed,
                ),
            decreases n - i,
        {
            let ghost shown = closure.visited();
            self.nonstatic_oop_maps[i].oop_iterate(oop, options, closure);
            proof {
                assert(maps.take(i + 1).drop_last() =~= maps.take(i as int));
                assert(maps.take(i + 1).last() == maps[i as int]);
                assert(closure.visited() =~= old(closure).visited() + maps_edges(
                    maps.take(i + 1),
                    start,
                    options.compressed,
                ));
            }
            i += 1;
        }
        assert(maps.take(n as int) =~= maps);
    }
}

impl InstanceMirrorKlass {
    /// The fields of a mirror at `start` that holds `statics` static
    /// reference fields lie within the address space.
    pub open spec fn in_bounds(&self, start: int, statics: int, compressed: bool) -> bool {
        &&& self.instance_klass.in_bounds(start, compressed)
        &&& run_in_bounds(start + self.offset_of_static_fields, statics, compressed)
    }

    /// The reference fields of the mirror at `start`: those of the
    /// instance, then the static fields of the class.
    pub open spec fn edges(&self, start: int, statics: int, compressed: bool) -> Seq<
        OpenJDKEdge,
    > {
        self.instance_klass.edges(start, compressed) + run_of_edges(
            start + self.offset_of_static_fields,
            statics,
            compressed,
        )
    }

    /// Shows the fields of the instance, then the static fields as one run.
    pub fn oop_iterate<V: EdgeVisitor>(&self, oop: &Oop, options: &Options, closure: &mut V)
        requires
            self.in_bounds(
                oop.start as int,
                oop.static_oop_field_count as int,
                options.compressed,
            ),
        ensures
            final(closure).visited() == old(closure).visited() + self.edges(
                oop.start as int,
                oop.static_oop_field_count as int,
                options.compressed,
            ),
    {
        self.instance_klass.oop_iterate(oop, options, closure);

        let start = oop.get_field_address(self.offset_of_static_fields);
        let len = oop.static_oop_field_count;
        let slice = OpenJDKEdgeRange::from_run(start, len, options.compressed);
        closure.visit_slice(slice);
        assert(closure.visited() =~= old(closure).visited() + self.edges(
            oop.start as int,
            oop.static_oop_field_count as int,
            options.compressed,
        ));
    }
}

impl InstanceClassLoaderKlass {
    /// Shows the fields of the instance. The link to the class loader's
    /// data is no edge.
    pub fn oop_iterate<V: EdgeVisitor>(&self, oop: &Oop, options: &Options, closure: &mut V)
        requires
            self.instance_klass.in_bounds(oop.start as int, options.compressed),
        ensures
            final(closure).visited() == old(closure).visited() + self.instance_klass.edges(
                oop.start as int,
                options.compressed,
            ),
    {
        self.instance_klass.oop_iterate(oop, options, closure);
    }
}

impl ObjArrayKlass {
    /// The elements of an array of `length` references at `start` lie
    /// within the address space.
    pub open spec fn in_bounds(&self, start: int, length: int, compressed: bool) -> bool {
        run_in_bounds(start + self.base_offset, length, compressed)
    }

    /// The elements of the array at `start`.
    pub open spec fn edges(&self, start: int, length: int, compressed: bool) -> Seq<OpenJDKEdge> {
        run_of_edges(start + self.base_offset, length, compressed)
    }

    /// Shows the elements of the array as one run.
    pub fn oop_iterate<V: EdgeVisitor>(&self, oop: &Oop, options: &Options, closure: &mut V)
        requires
            self.in_bounds(oop.start as int, oop.array_length as int, options.compressed),
        ensures
            final(closure).visited() == old(closure).visited() + self.edges(
                oop.start as int,
                oop.array_length as int,
                options.compressed,
            ),
    {
        let base = oop.get_field_address(self.base_offset);
        let slice = OpenJDKEdgeRange::from_run(base, oop.array_length, options.compressed);
        closure.visit_slice(slice)
    }
}

impl TypeArrayKlass {
    /// Shows nothing: an array of primitive values holds no reference.
    pub fn oop_iterate<V: EdgeVisitor>(&self, _oop: &Oop, _options: &Options, closure: &mut V)
        ensures
            final(closure).visited() == old(closure).visited(),
    {
    }
}

/// What the discovery of `reference` with strength `strength` makes of the
/// registries: a soft, weak or phantom reference joins the registry of its
/// strength, behind the others; no other strength is registered.
pub open spec fn registered(
    before: ReferenceProcessors,
    after: ReferenceProcessors,
    strength: ReferenceType,
    reference: ObjectReference,
) -> bool {
    &&& after.soft@ == if strength == ReferenceType::Soft {
        before.soft@.push(reference)
    } else {
        before.soft@
    }
    &&& after.weak@ == if strength == ReferenceType::Weak {
        before.weak@.push(reference)
    } else {
        before.weak@
    }
    &&& after.phantom@ == if strength == ReferenceType::Phantom {
        before.phantom@.push(reference)
    } else {
        before.phantom@
    }
}

impl InstanceRefKlass {
    /// Whether reference objects are told apart from ordinary instances.
    pub open spec fn scans_weak_refs(options: Options) -> bool {
        !options.no_reference_types
    }

    /// The strength under which a scan registers an object of this type;
    /// `NoReference` if it registers nothing and follows the referent like
    /// any field. Final references are followed: what is special of them is
    /// done when finalizable objects are processed.
    pub open spec fn discovery(&self, options: Options) -> ReferenceType {
        if Self::scans_weak_refs(options) {
            match self.instance_klass.reference_type {
                ReferenceType::Soft => ReferenceType::Soft,
                ReferenceType::Weak => ReferenceType::Weak,
                ReferenceType::Phantom => ReferenceType::Phantom,
                _ => ReferenceType::NoReference,
            }
        } else {
            ReferenceType::NoReference
        }
    }

    /// A reference object has a strength, unless nothing is weak.
    pub open spec fn has_strength(&self, options: Options) -> bool {
        Self::scans_weak_refs(options) ==> self.instance_klass.reference_type
            != ReferenceType::NoReference
    }

    /// The fields of a reference object at `start` lie within the address
    /// space.
    pub open spec fn in_bounds(&self, start: int, compressed: bool) -> bool {
        &&& self.instance_klass.in_bounds(start, compressed)
        &&& 0 <= start + self.referent_offset <= usize::MAX
        &&& 0 <= start + self.discovered_offset <= usize::MAX
    }

    /// The referent field and the link field of the reference object at
    /// `start`.
    pub open spec fn reference_edges(&self, start: int) -> Seq<OpenJDKEdge> {
        seq![
            OpenJDKEdge { addr: (start + self.referent_offset) as usize },
            OpenJDKEdge { addr: (start + self.discovered_offset) as usize },
        ]
    }

    /// The edges that a scan of the reference object at `start` shows: the
    /// fields of the instance, and the referent and link fields unless the
    /// object is handed to a registry.
    pub open spec fn edges(&self, start: int, options: Options) -> Seq<OpenJDKEdge> {
        if self.discovery(options) == ReferenceType::NoReference {
            self.instance_klass.edges(start, options.compressed) + self.reference_edges(start)
        } else {
            self.instance_klass.edges(start, options.compressed)
        }
    }

    /// Whether reference objects are told apart from ordinary instances.
    pub fn should_scan_weak_refs(options: &Options) -> (scan: bool)
        ensures
            scan == Self::scans_weak_refs(*options),
    {
        !options.no_reference_types
    }

    /// The referent field of `oop`.
    pub fn referent_address(&self, oop: &Oop) -> (edge: OpenJDKEdge)
        requires
            0 <= oop.start + self.referent_offset <= usize::MAX,
        ensures
            edge.addr == oop.start + self.referent_offset,
    {
        OpenJDKEdge { addr: oop.get_field_address(self.referent_offset) }
    }

    /// The field of `oop` that links discovered references.
    pub fn discovered_address(&self, oop: &Oop) -> (edge: OpenJDKEdge)
        requires
            0 <= oop.start + self.discovered_offset <= usize::MAX,
        ensures
            edge.addr == oop.start + self.discovered_offset,
    {
        OpenJDKEdge { addr: oop.get_field_address(self.discovered_offset) }
    }

    /// Shows the referent field, then the link field, as ordinary fields.
    pub fn process_ref_as_strong<V: EdgeVisitor>(&self, oop: &Oop, closure: &mut V)
        requires
            0 <= oop.start + self.referent_offset <= usize::MAX,
            0 <= oop.start + self.discovered_offset <= usize::MAX,
        ensures
            final(closure).visited() == old(closure).visited() + self.reference_edges(
                oop.start as int,
            ),
    {
        let referent_addr = self.referent_address(oop);
        closure.visit_edge(referent_addr);
        let discovered_addr = self.discovered_address(oop);
        closure.visit_edge(discovered_addr);
        assert(closure.visited() =~= old(closure).visited() + self.reference_edges(
            oop.start as int,
        ));
    }

    /// Shows the fields of the instance. Then a soft, weak or phantom
    /// reference is handed to the registry of its strength and its referent
    /// is not followed; any other reference object, and every reference
    /// object where nothing is weak, has its referent and link fields shown
    /// as well.
    pub fn oop_iterate<V: EdgeVisitor>(
        &self,
        oop: &Oop,
        options: &Options,
        closure: &mut V,
        references: &mut ReferenceProcessors,
    )
        requires
            self.in_bounds(oop.start as int, options.compressed),
            self.has_strength(*options),
        ensures
            final(closure).visited() == old(closure).visited() + self.edges(
                oop.start as int,
                *options,
            ),
            registered(
                *old(references),
                *final(references),
                self.discovery(*options),
                oop.reference(),
            ),
    {
        self.instance_klass.oop_iterate(oop, options, closure);

        if Self::should_scan_weak_refs(options) {
            let reference = ObjectReference::from_address(oop.start);
            match self.instance_klass.reference_type {
                ReferenceType::NoReference => {},
                ReferenceType::Weak => references.add_weak_candidate(reference),
                ReferenceType::Soft => references.add_soft_candidate(reference),
                ReferenceType::Phantom => references.add_phantom_candidate(reference),
                // These two are followed like strong references. Final
                // references are dealt with later.
                ReferenceType::Final | ReferenceType::Other => {
                    self.process_ref_as_strong(oop, closure)
                },
            }
        } else {
            self.process_ref_as_strong(oop, closure);
        }
    }
}

impl Oop {
    /// Every slot that a scan of this object computes lies within the
    /// address space.
    pub open spec fn in_bounds(&self, options: Options) -> bool {
        let start = self.start as int;
        match self.klass {
            Klass::Instance(klass) => klass.in_bounds(start, options.compressed),
            Klass::InstanceRef(klass) => klass.in_bounds(start, options.compressed),
            Klass::InstanceMirror(klass) => klass.in_bounds(
                start,
                self.static_oop_field_count as int,
                options.compressed,
            ),
            Klass::InstanceClassLoader(klass) => klass.instance_klass.in_bounds(
                start,
                options.compressed,
            ),
            Klass::TypeArray(_) => true,
            Klass::ObjArray(klass) => klass.in_bounds(
                start,
                self.array_length as int,
                options.compressed,
            ),
        }
    }

    /// The object can be scanned: its slots lie within the address space,
    /// and if it is a reference object then it has a strength.
    pub open spec fn scannable(&self, options: Options) -> bool {
        &&& self.in_bounds(options)
        &&& match self.klass {
            Klass::InstanceRef(klass) => klass.has_strength(options),
            _ => true,
        }
    }

    /// Tests whether the object can be scanned. An object that fails the
    /// test is damaged, or its descriptor is.
    pub fn is_scannable(&self, options: &Options) -> (scannable: bool)
        ensures
            scannable == self.scannable(*options),
    {
        let compressed = options.compressed;
        match &self.klass {
            Klass::Instance(klass) => klass.fits(self.start, compressed),
            Klass::InstanceRef(klass) => {
                klass.instance_klass.fits(self.start, compressed) && run_fits(
                    self.start,
                    klass.referent_offset,
                    0,
                    compressed,
                ) && run_fits(self.start, klass.discovered_offset, 0, compressed) && (
                options.no_reference_types || klass.instance_klass.reference_type
                    != ReferenceType::NoReference)
            },
            Klass::InstanceMirror(klass) => {
                klass.instance_klass.fits(self.start, compressed) && run_fits(
                    self.start,
                    klass.offset_of_static_fields,
                    self.static_oop_field_count,
                    compressed,
                )
            },
            Klass::InstanceClassLoader(klass) => klass.instance_klass.fits(self.start, compressed),
            Klass::TypeArray(_) => true,
            Klass::ObjArray(klass) => run_fits(
                self.start,
                klass.base_offset,
                self.array_length,
                compressed,
            ),
        }
    }

    /// The edges that a scan of this object shows, in the order of their
    /// visit.
    pub open spec fn edges(&self, options: Options) -> Seq<OpenJDKEdge> {
        let start = self.start as int;
        match self.klass {
            Klass::Instance(klass) => klass.edges(start, options.compressed),
            Klass::InstanceRef(klass) => klass.edges(start, options),
            Klass::InstanceMirror(klass) => klass.edges(
                start,
                self.static_oop_field_count as int,
                options.compressed,
            ),
            Klass::InstanceClassLoader(klass) => klass.instance_klass.edges(
                start,
                options.compressed,
            ),
            Klass::TypeArray(_) => Seq::empty(),
            Klass::ObjArray(klass) => klass.edges(
                start,
                self.array_length as int,
                options.compressed,
            ),
        }
    }

    /// The strength under which a scan registers this object; `NoReference`
    /// if it registers nothing.
    pub open spec fn discovery(&self, options: Options) -> ReferenceType {
        match self.klass {
            Klass::InstanceRef(klass) => klass.discovery(options),
            _ => ReferenceType::NoReference,
        }
    }
}

/// Shows the edges of `oop` to `closure`, by the kind of its type.
fn oop_iterate<V: EdgeVisitor>(
    oop: &Oop,
    options: &Options,
    closure: &mut V,
    references: &mut ReferenceProcessors,
)
    requires
        oop.scannable(*options),
    ensures
        final(closure).visited() == old(closure).visited() + oop.edges(*options),
        registered(
            *old(references),
            *final(references),
            oop.discovery(*options),
            oop.reference(),
        ),
{
    match &oop.klass {
        Klass::Instance(instance_klass) => {
            instance_klass.oop_iterate(oop, options, closure);
        },
        Klass::InstanceClassLoader(instance_klass) => {
            instance_klass.oop_iterate(oop, options, closure);
        },
        Klass::InstanceMirror(instance_klass) => {
            instance_klass.oop_iterate(oop, options, closure);
        },
        Klass::ObjArray(array_klass) => {
            array_klass.oop_iterate(oop, options, closure);
        },
        Klass::TypeArray(_) => {
            // Arrays of primitive values hold no reference.
            assert(closure.visited() =~= old(closure).visited() + oop.edges(*options));
        },
        Klass::InstanceRef(instance_klass) => {
            instance_klass.oop_iterate(oop, options, closure, references);
        },
    }
}

/// Scans one object: shows `closure` every edge that leaves `object`, all of
/// them before it returns, and hands a soft, weak or phantom reference
/// object to the registry of its strength.
pub fn scan_object<V: EdgeVisitor>(
    object: &Oop,
    options: &Options,
    closure: &mut V,
    references: &mut ReferenceProcessors,
)
    requires
        object.scannable(*options),
    ensures
        final(closure).visited() == old(closure).visited() + object.edges(*options),
        registered(
            *old(references),
            *final(references),
            object.discovery(*options),
            object.reference(),
        ),
{
    oop_iterate(object, options, closure, references)
}

/// Shown one by one or as a run, the fields of a block are the same edges
/// in the same order.
pub proof fn lemma_block_is_run(block: OpenJDKEdgeRange, start: int, count: int, compressed: bool)
    requires
        0 <= count,
        block.start == start,
        block.end == start + count * bytes_in_edge(compressed),
        block.compressed == compressed,
    ensures
        block.edges() == run_of_edges(start, count, compressed),
{
    if compressed {
        assert((count * 4) / 4 == count);
    } else {
        assert((count * 8) / 8 == count);
    }
    assert(block.len() == count);
}

} // verus!
