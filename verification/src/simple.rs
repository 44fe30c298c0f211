//! The fixed-function shape path: byte components tagged with a shape
//! kind, and the builder that unpacks them into flat buffers.
//!
//! A component carries the raw bytes of one shape — a triangle is 36
//! position bytes followed by 36 color bytes; a rectangle is two such
//! triangles; a rectangular prism is six rectangles.  The builder splits
//! each 72-byte triangle into its position and color halves, appends them
//! to the growing buffers, and emits three consecutive index values per
//! triangle starting at the running index count.

use core::marker::PhantomData;
use vstd::prelude::*;

use crate::buffer::{IndexBufferData, Layout, VertexBufferDynamicData};
use crate::codec;
use crate::opengl::{GLIndexType, GLVertexType};

verus! {

/// Which shape a byte component holds.
#[derive(Debug, Clone, Copy, PartialEq, Eq, Structural)]
pub enum ComponentKind {
    /// One triangle: 72 bytes.
    Triangle,
    /// One rectangle: two triangles, 144 bytes.
    Rectangle,
    /// One rectangular prism: six rectangles, 864 bytes.
    RectangularPrism,
}

/// How many bytes a component of the given kind holds.
pub open spec fn spec_kind_len(kind: ComponentKind) -> int {
    match kind {
        ComponentKind::Triangle => 72,
        ComponentKind::Rectangle => 144,
        ComponentKind::RectangularPrism => 864,
    }
}

/// The position halves of a run of 72-byte triangle chunks, concatenated.
pub open spec fn tri_positions(data: Seq<u8>) -> Seq<u8>
    decreases data.len(),
{
    if data.len() < 72 {
        Seq::empty()
    } else {
        data.subrange(0, 36) + tri_positions(data.skip(72))
    }
}

/// The color halves of a run of 72-byte triangle chunks, concatenated.
pub open spec fn tri_colors(data: Seq<u8>) -> Seq<u8>
    decreases data.len(),
{
    if data.len() < 72 {
        Seq::empty()
    } else {
        data.subrange(36, 72) + tri_colors(data.skip(72))
    }
}

/// `count` consecutive index values starting at `start`.
pub open spec fn consecutive<I: GLIndexType>(start: int, count: int) -> Seq<I> {
    Seq::new(count as nat, |j: int| I::from_int(start + j))
}

/// Splitting a run of triangle chunks at a chunk boundary splits its
/// position and color halves the same way.
pub proof fn lemma_tri_halves_concat(a: Seq<u8>, b: Seq<u8>)
    requires
        a.len() % 72 == 0,
    ensures
        tri_positions(a + b) == tri_positions(a) + tri_positions(b),
        tri_colors(a + b) == tri_colors(a) + tri_colors(b),
    decreases a.len(),
{
    if a.len() == 0 {
        assert(a + b =~= b);
        assert(tri_positions(a + b) =~= tri_positions(a) + tri_positions(b));
        assert(tri_colors(a + b) =~= tri_colors(a) + tri_colors(b));
    } else {
        assert(a.len() >= 72) by (nonlinear_arith)
            requires a.len() % 72 == 0, a.len() > 0;
        let ar = a.skip(72);
        assert(ar.len() % 72 == 0) by (nonlinear_arith)
            requires a.len() % 72 == 0, ar.len() == a.len() - 72;
        assert((a + b).subrange(0, 36) =~= a.subrange(0, 36));
        assert((a + b).subrange(36, 72) =~= a.subrange(36, 72));
        assert((a + b).skip(72) =~= ar + b);
        lemma_tri_halves_concat(ar, b);
        assert(tri_positions(a + b) =~= tri_positions(a) + tri_positions(b));
        assert(tri_colors(a + b) =~= tri_colors(a) + tri_colors(b));
    }
}

/// The byte ranges that a run of `triangles` unpacked triangles fills in
/// the position (or color) buffer, when `filled` triangles came before:
/// one 36-byte range per triangle, consecutive from byte `filled * 36`.
pub fn triangle_pockets(filled: usize, triangles: usize) -> (r: Vec<(usize, usize)>)
    requires
        (filled + triangles) * 36 <= usize::MAX,
    ensures
        r@.len() == triangles,
        forall|t: int|
            0 <= t < triangles ==> (#[trigger] r@[t]).0 == (filled + t) * 36 && r@[t].1
                == (filled + t + 1) * 36,
{
    let mut r: Vec<(usize, usize)> = Vec::new();
    let mut t: usize = 0;
    while t < triangles
        invariant
            t <= triangles,
            (filled + triangles) * 36 <= usize::MAX,
            r@.len() == t,
            forall|j: int|
                0 <= j < t ==> (#[trigger] r@[j]).0 == (filled + j) * 36 && r@[j].1
                    == (filled + j + 1) * 36,
        decreases triangles - t,
    {
        proof {
            assert((filled + t) * 36 <= (filled + t + 1) * 36 <= (filled + triangles) * 36)
                by (nonlinear_arith)
                requires t + 1 <= triangles;
            assert((filled + t) * 36 + 36 == (filled + t + 1) * 36) by (nonlinear_arith);
        }
        let start = (filled + t) * 36;
        let end = start + 36;
        r.push((start, end));
        t += 1;
    }
    r
}

/// A shape kept as its raw bytes, tagged with the kind that gives the
/// bytes their meaning.
#[derive(Debug)]
pub struct Component {
    component_kind: ComponentKind,
    data: Vec<u8>,
}

impl Component {
    /// Which shape the component holds.
    pub closed spec fn kind_view(self) -> ComponentKind {
        self.component_kind
    }

    /// The component's raw bytes.
    pub closed spec fn data_view(self) -> Seq<u8> {
        self.data@
    }

    /// The bytes have the length the kind asks for.
    pub open spec fn wf(self) -> bool {
        self.data_view().len() == spec_kind_len(self.kind_view())
    }

    /// Which shape the component holds.
    pub fn kind(&self) -> (r: ComponentKind)
        ensures
            r == self.kind_view(),
    {
        self.component_kind
    }

    /// How many bytes the component holds.
    pub fn byte_count(&self) -> (r: usize)
        ensures
            r == self.data_view().len(),
    {
        self.data.len()
    }

    /// A component holding the given shape bytes.  The bytes are not
    /// validated here; a builder only accepts components whose byte
    /// length matches their kind.
    pub fn new(kind: ComponentKind, data: Vec<u8>) -> (r: Self)
        ensures
            r.kind_view() == kind,
            r.data_view() == data@,
    {
        Self { component_kind: kind, data }
    }
}

/// Accumulates byte components into flat position, color and index
/// buffers: position bound to attribute location 0, color to location 1,
/// three consecutive indices per unpacked triangle.
#[derive(Debug)]
pub struct BuilderDefault<P: GLVertexType, I: GLIndexType, C: GLVertexType> {
    vertex_data: VertexBufferDynamicData,
    index_data: IndexBufferData,
    color_data: VertexBufferDynamicData,
    _pb: PhantomData<P>,
    _ib: PhantomData<I>,
    _cb: PhantomData<C>,
}

impl<P: GLVertexType, I: GLIndexType, C: GLVertexType> BuilderDefault<P, I, C> {
    /// The accumulated position bytes.
    pub closed spec fn vertex_bytes(self) -> Seq<u8> {
        self.vertex_data.data@
    }

    /// The accumulated color bytes.
    pub closed spec fn color_bytes(self) -> Seq<u8> {
        self.color_data.data@
    }

    /// The accumulated index values.
    pub closed spec fn indices(self) -> Seq<I> {
        codec::decode::<I>(self.index_data.data@)
    }

    /// The index buffer holds whole index elements of the right type.
    pub closed spec fn wf(self) -> bool {
        &&& (self.index_data.data@.len() as int) % I::spec_size() == 0
        &&& self.index_data.ty == I::spec_glenum()
    }

    /// The position attribute's layout.
    pub closed spec fn vertex_layout(self) -> Layout {
        self.vertex_data.layout
    }

    /// The color attribute's layout.
    pub closed spec fn color_layout(self) -> Layout {
        self.color_data.layout
    }

    /// The device tag of the index element type.
    pub closed spec fn index_ty(self) -> u32 {
        self.index_data.ty
    }

    /// An empty builder with position at attribute location 0 and color
    /// at location 1, both three elements per vertex.
    pub fn create() -> (r: Self)
        ensures
            r.wf(),
            r.vertex_bytes() == Seq::<u8>::empty(),
            r.color_bytes() == Seq::<u8>::empty(),
            r.indices() == Seq::<I>::empty(),
            r.vertex_layout().attrib_loc == 0,
            r.vertex_layout().attrib_len == 3,
            r.vertex_layout().attrib_type == P::spec_glenum(),
            r.color_layout().attrib_loc == 1,
            r.color_layout().attrib_len == 3,
            r.color_layout().attrib_type == C::spec_glenum(),
            r.index_ty() == I::spec_glenum(),
    {
        let r = Self {
            vertex_data: VertexBufferDynamicData::new::<P>(
                None,
                Layout { attrib_len: 3, attrib_type: P::to_glenum(), attrib_loc: 0 },
            ),
            index_data: IndexBufferData::new::<I>(None),
            color_data: VertexBufferDynamicData::new::<C>(
                None,
                Layout { attrib_len: 3, attrib_type: C::to_glenum(), attrib_loc: 1 },
            ),
            _pb: PhantomData,
            _ib: PhantomData,
            _cb: PhantomData,
        };
        proof {
            I::lemma_size();
            vstd::arithmetic::div_mod::lemma_small_mod(0, I::spec_size() as nat);
        }
        r
    }

    /// The number of index values accumulated so far.
    fn index_count(&self) -> (r: usize)
        requires
            self.wf(),
        ensures
            r == self.indices().len(),
    {
        proof {
            I::lemma_size();
            codec::lemma_decode_len::<I>(self.index_data.data@);
            assert(self.indices().len() == self.index_data.data@.len() as int
                / I::spec_size()) by (nonlinear_arith)
                requires
                    self.indices().len() * I::spec_size() == self.index_data.data@.len(),
                    I::spec_size() >= 1,
            ;
        }
        let n = self.index_data.data.len();
        let size = I::size();
        n / size
    }

    /// Unpack one 72-byte triangle: position half, color half, and three
    /// consecutive indices starting at the running index count.
    fn triangle(&mut self, tri: &Vec<u8>, start: usize)
        requires
            old(self).wf(),
            start + 72 <= tri@.len(),
            old(self).indices().len() + 3 <= I::spec_max(),
        ensures
            final(self).wf(),
            final(self).vertex_bytes() == old(self).vertex_bytes() + tri@.subrange(
                start as int, start + 36),
            final(self).color_bytes() == old(self).color_bytes() + tri@.subrange(start + 36,
                start + 72),
            final(self).indices() == old(self).indices() + consecutive::<I>(old(
            self).indices().len() as int, 3),
            final(self).vertex_layout() == old(self).vertex_layout(),
            final(self).color_layout() == old(self).color_layout(),
            final(self).index_ty() == old(self).index_ty(),
    {
        let tn: usize = tri.len();
        let len = self.index_count();
        codec::copy_range(&mut self.vertex_data.data, tri, start, start + 36);
        codec::copy_range(&mut self.color_data.data, tri, start + 36, start + 72);
        proof {
            I::lemma_int();
        }
        let mut idx: Vec<I> = Vec::new();
        idx.push(I::from_usize(len));
        idx.push(I::from_usize(len + 1));
        idx.push(I::from_usize(len + 2));
        let ghost old_bytes = self.index_data.data@;
        codec::write_all(&mut self.index_data.data, &idx);
        proof {
            I::lemma_size();
            codec::lemma_decode_concat::<I>(old_bytes, codec::encode(idx@));
            codec::lemma_decode_encode::<I>(idx@);
            codec::lemma_encode_len::<I>(idx@);
            vstd::arithmetic::div_mod::lemma_mod_multiples_basic(idx@.len() as int,
                I::spec_size());
            vstd::arithmetic::div_mod::lemma_add_mod_noop(old_bytes.len() as int,
                codec::encode(idx@).len() as int, I::spec_size());
            assert(idx@ =~= consecutive::<I>(old(self).indices().len() as int, 3));
        }
    }

    /// Unpack a run of 72-byte triangle chunks starting at `start`.
    fn rectangle(&mut self, rect: &Vec<u8>, start: usize, chunks: usize)
        requires
            old(self).wf(),
            start + 72 * chunks <= rect@.len(),
            old(self).indices().len() + 3 * chunks <= I::spec_max(),
        ensures
            final(self).wf(),
            final(self).vertex_bytes() == old(self).vertex_bytes() + tri_positions(
                rect@.subrange(start as int, start + 72 * chunks)),
            final(self).color_bytes() == old(self).color_bytes() + tri_colors(rect@.subrange(
                start as int, start + 72 * chunks)),
            final(self).indices() == old(self).indices() + consecutive::<I>(old(
            self).indices().len() as int, 3 * chunks),
            final(self).vertex_layout() == old(self).vertex_layout(),
            final(self).color_layout() == old(self).color_layout(),
            final(self).index_ty() == old(self).index_ty(),
    {
        let rn: usize = rect.len();
        let ghost base = old(self).indices().len() as int;
        let mut k: usize = 0;
        proof {
            assert(rect@.subrange(start as int, start as int) =~= Seq::<u8>::empty());
            assert(self.vertex_bytes() =~= old(self).vertex_bytes() + tri_positions(
                rect@.subrange(start as int, start as int)));
            assert(self.color_bytes() =~= old(self).color_bytes() + tri_colors(
                rect@.subrange(start as int, start as int)));
            assert(self.indices() =~= old(self).indices() + consecutive::<I>(base, 0));
        }
        while k < chunks
            invariant
                self.wf(),
                rn == rect@.len(),
                start + 72 * chunks <= rect@.len(),
                k <= chunks,
                base == old(self).indices().len() as int,
                base + 3 * chunks <= I::spec_max(),
                self.indices().len() == base + 3 * k,
                self.vertex_bytes() == old(self).vertex_bytes() + tri_positions(
                    rect@.subrange(start as int, start + 72 * k)),
                self.color_bytes() == old(self).color_bytes() + tri_colors(rect@.subrange(
                    start as int, start + 72 * k)),
                self.indices() == old(self).indices() + consecutive::<I>(base, 3 * k),
                self.vertex_layout() == old(self).vertex_layout(),
                self.color_layout() == old(self).color_layout(),
                self.index_ty() == old(self).index_ty(),
            decreases chunks - k,
        {
            proof {
                assert(72 * k + 72 == 72 * (k + 1) && 72 * (k + 1) <= 72 * chunks)
                    by (nonlinear_arith)
                    requires k + 1 <= chunks;
            }
            let off = start + 72 * k;
            let ghost pre = *self;
            self.triangle(rect, off);
            proof {
                let done0 = rect@.subrange(start as int, start + 72 * k);
                let done1 = rect@.subrange(start as int, start + 72 * (k + 1));
                let chunk = rect@.subrange(off as int, off + 72);
                assert(done1 =~= done0 + chunk);
                assert(done0.len() % 72 == 0) by (nonlinear_arith)
                    requires done0.len() == 72 * k;
                lemma_tri_halves_concat(done0, chunk);
                assert(chunk.skip(72) =~= Seq::<u8>::empty());
                assert(tri_positions(Seq::<u8>::empty()) =~= Seq::<u8>::empty());
                assert(tri_colors(Seq::<u8>::empty()) =~= Seq::<u8>::empty());
                assert(tri_positions(chunk) =~= chunk.subrange(0, 36));
                assert(tri_colors(chunk) =~= chunk.subrange(36, 72));
                assert(chunk.subrange(0, 36) =~= rect@.subrange(off as int, off + 36));
                assert(chunk.subrange(36, 72) =~= rect@.subrange(off + 36, off + 72));
                assert(self.vertex_bytes() =~= old(self).vertex_bytes() + tri_positions(
                    done1));
                assert(self.color_bytes() =~= old(self).color_bytes() + tri_colors(done1));
                assert(self.indices() =~= old(self).indices() + consecutive::<I>(base, 3 * (k
                    + 1)));
            }
            k += 1;
        }
    }

    /// Hand the three accumulated buffers over, in the order position,
    /// color, index: the boundary where device-buffer construction takes
    /// ownership.
    pub fn build(self) -> (r: (VertexBufferDynamicData, VertexBufferDynamicData,
        IndexBufferData))
        requires
            self.wf(),
        ensures
            r.0.data@ == self.vertex_bytes(),
            r.0.layout == self.vertex_layout(),
            r.1.data@ == self.color_bytes(),
            r.1.layout == self.color_layout(),
            r.2.ty == self.index_ty(),
            (r.2.data@.len() as int) % I::spec_size() == 0,
            codec::decode::<I>(r.2.data@) == self.indices(),
    {
        (self.vertex_data, self.color_data, self.index_data)
    }

    /// Append one byte component: its triangles' position and color
    /// halves go to the buffers, and each triangle emits three
    /// consecutive index values starting at the running index count.
    pub fn add(self, dob: Component) -> (r: Self)
        requires
            self.wf(),
            dob.wf(),
            self.indices().len() + 3 * (spec_kind_len(dob.kind_view()) / 72)
                <= I::spec_max(),
        ensures
            r.wf(),
            r.vertex_bytes() == self.vertex_bytes() + tri_positions(dob.data_view()),
            r.color_bytes() == self.color_bytes() + tri_colors(dob.data_view()),
            r.indices() == self.indices() + consecutive::<I>(self.indices().len() as int, 3
                * (spec_kind_len(dob.kind_view()) / 72)),
            r.vertex_layout() == self.vertex_layout(),
            r.color_layout() == self.color_layout(),
            r.index_ty() == self.index_ty(),
    {
        let mut b = self;
        let chunks: usize = match dob.component_kind {
            ComponentKind::Triangle => 1,
            ComponentKind::Rectangle => 2,
            ComponentKind::RectangularPrism => 12,
        };
        b.rectangle(&dob.data, 0, chunks);
        proof {
            assert(dob.data@.subrange(0, 72 * chunks as int) =~= dob.data_view());
        }
        b
    }
}

} // verus!
