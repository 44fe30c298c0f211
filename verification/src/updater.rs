//! Device-resident buffer handles and the scoped-write protocol that
//! refreshes a dynamic buffer from its CPU mirror.
//!
//! A dynamic buffer owns a live device buffer id together with the CPU
//! mirror it was created from; the bytes the device holds are tracked as a
//! ghost view.  Write access goes through a `VertexBufferUpdater`, which
//! takes the handle over, lets the caller rewrite mirror elements, and on
//! `write` performs the synchronization step exactly once: the device view
//! becomes the mirror, byte for byte.  The call layer outside this crate
//! realizes that step as: bind the buffer, check the device size against
//! the mirror (the `wf` invariant here), map the full range with the
//! write-and-discard flags of `sync_access` (orphaning, so queued draws
//! can drain from the old allocation), copy the mirror in, unmap.
//!
//! A static buffer drops its mirror after the one upload; recovering a
//! mirror from the device is deliberately not offered, so the static form
//! cannot be written again — re-create it from the source data instead.

use vstd::prelude::*;

use crate::buffer::{IndexBufferData, IndexBufferT};
use crate::buffers::{MapAccess, MapAccessBF, MAP_INVALIDATE_BUFFER_BIT, MAP_WRITE_BIT};
use crate::codec;
use crate::opengl::GLVertexType;
use crate::vertex::{DynamicData, Layout, StaticData};

verus! {

/// A device-resident vertex buffer that keeps its CPU mirror for
/// frequent updates.
pub struct DynamicBuffer<V: GLVertexType, const L: usize> {
    id: u32,
    data: DynamicData<V, L>,
    device: Ghost<Seq<u8>>,
}

impl<V: GLVertexType, const L: usize> DynamicBuffer<V, L> {
    /// The device buffer's size equals the mirror's, and the mirror holds
    /// a whole number of elements.
    pub closed spec fn wf(self) -> bool {
        &&& self.device@.len() == self.data.data@.len()
        &&& (self.data.data@.len() as int) % V::spec_size() == 0
    }

    /// The device holds exactly the mirror's bytes.
    pub closed spec fn synced(self) -> bool {
        self.device@ == self.data.data@
    }

    /// The CPU mirror's bytes.
    pub closed spec fn mirror(self) -> Seq<u8> {
        self.data.data@
    }

    /// The bytes the device buffer holds.
    pub closed spec fn device_view(self) -> Seq<u8> {
        self.device@
    }

    /// The live device buffer id.
    pub closed spec fn id_view(self) -> u32 {
        self.id
    }

    /// The attribute location the buffer feeds.
    pub closed spec fn loc_view(self) -> u32 {
        self.data.layout.attrib_loc
    }

    /// The typed elements the mirror holds.
    pub open spec fn elems(self) -> Seq<V> {
        codec::decode::<V>(self.mirror())
    }

    /// The handle for a device buffer with id `id` that was just created
    /// by uploading `data`'s bytes once.
    pub fn from(data: DynamicData<V, L>, id: u32) -> (r: Self)
        requires
            (data.data@.len() as int) % V::spec_size() == 0,
        ensures
            r.wf(),
            r.synced(),
            r.mirror() == data.data@,
            r.id_view() == id,
            r.loc_view() == data.layout.attrib_loc,
    {
        let ghost device = data.data@;
        Self { id, data, device: Ghost(device) }
    }

    /// The live device buffer id.
    pub fn id(&self) -> (r: u32)
        ensures
            r == self.id_view(),
    {
        self.id
    }

    /// A read-only view of the CPU mirror.
    pub fn as_data(&self) -> (r: &DynamicData<V, L>)
        ensures
            r.data@ == self.mirror(),
            r.layout.attrib_loc == self.loc_view(),
    {
        &self.data
    }

    /// Drop the CPU mirror, keeping only the device buffer: for data that
    /// has stopped changing.  The static form cannot be updated again.
    pub fn to_static(self) -> (r: StaticBuffer<V, L>)
        ensures
            r.id_view() == self.id_view(),
            r.loc_view() == self.loc_view(),
    {
        StaticBuffer { id: self.id, layout: self.data.layout }
    }

    /// Take the buffer over for writing.  No device call happens yet; the
    /// caller mutates mirror elements through the updater and ends it with
    /// `write`.  Holding the handle inside the updater grants at most one
    /// live writer per buffer.
    pub fn update(self) -> (r: VertexBufferUpdater<V, L>)
        ensures
            r.wf() == self.wf(),
            r.mirror() == self.mirror(),
            r.device_view() == self.device_view(),
            r.id_view() == self.id_view(),
            r.loc_view() == self.loc_view(),
    {
        VertexBufferUpdater { id: self.id, inner: self.data, device: self.device }
    }
}

/// A device-resident vertex buffer whose CPU mirror was dropped after the
/// one upload.
pub struct StaticBuffer<V: GLVertexType, const L: usize> {
    id: u32,
    /// Which shader input slot the buffer feeds, and how.
    pub layout: Layout<V, L>,
}

impl<V: GLVertexType, const L: usize> StaticBuffer<V, L> {
    /// The live device buffer id.
    pub closed spec fn id_view(self) -> u32 {
        self.id
    }

    /// The attribute location the buffer feeds.
    pub closed spec fn loc_view(self) -> u32 {
        self.layout.attrib_loc
    }

    /// The handle for a device buffer with id `id` that was just created
    /// by uploading `data`'s bytes once; the bytes are dropped here.
    pub fn from(data: StaticData<V, L>, id: u32) -> (r: Self)
        ensures
            r.id_view() == id,
            r.loc_view() == data.layout.attrib_loc,
    {
        Self { id, layout: data.layout }
    }

    /// The live device buffer id.
    pub fn id(&self) -> (r: u32)
        ensures
            r == self.id_view(),
    {
        self.id
    }
}

/// A device-resident index buffer: a live id plus the index data it was
/// created from.
pub struct IndexBuffer {
    id: u32,
    data: IndexBufferData,
}

impl IndexBuffer {
    #[verifier::type_invariant]
    spec fn type_inv(self) -> bool {
        self.data.wf()
    }

    /// The live device buffer id.
    pub closed spec fn id_view(self) -> u32 {
        self.id
    }

    /// The index bytes the buffer was created from.
    pub closed spec fn bytes(self) -> Seq<u8> {
        self.data.data@
    }

    /// The device tag of the index element type.
    pub closed spec fn ty_view(self) -> u32 {
        self.data.ty
    }

    /// The device tag of the index element type, for the draw-call
    /// boundary.
    pub fn ty(&self) -> (r: u32)
        ensures
            r == self.ty_view(),
    {
        self.data.ty
    }

    /// The handle for a device index buffer with id `id` that was just
    /// created by uploading `data`'s bytes.
    pub fn from(data: IndexBufferData, id: u32) -> (r: Self)
        requires
            data.wf(),
        ensures
            r.id_view() == id,
            r.bytes() == data.data@,
            r.ty_view() == data.ty,
    {
        Self { id, data }
    }
}

impl IndexBufferT for IndexBuffer {
    open spec fn spec_id(&self) -> u32 {
        self.id_view()
    }

    open spec fn spec_len(&self) -> int {
        self.bytes().len() as int / (crate::opengl::spec_get_size(self.ty_view()).unwrap()
            as int)
    }

    fn id(&self) -> (r: u32) {
        self.id
    }

    fn len(&self) -> (r: usize) {
        proof {
            use_type_invariant(self);
        }
        let n = self.data.len();
        proof {
            let sz = crate::opengl::spec_get_size(self.data.ty).unwrap() as int;
            assert(1 <= sz <= 4);
            assert(n == self.bytes().len() as int / sz) by (nonlinear_arith)
                requires n * sz == self.bytes().len(), 1 <= sz;
        }
        n
    }
}

/// A scoped writer over a dynamic buffer's CPU mirror.
///
/// Mutations touch only the mirror; the device buffer keeps its old
/// contents until `write` ends the scope and performs the
/// synchronization.
pub struct VertexBufferUpdater<V: GLVertexType, const L: usize> {
    id: u32,
    inner: DynamicData<V, L>,
    device: Ghost<Seq<u8>>,
}

impl<V: GLVertexType, const L: usize> VertexBufferUpdater<V, L> {
    /// The device buffer's size equals the mirror's, and the mirror holds
    /// a whole number of elements.
    pub closed spec fn wf(self) -> bool {
        &&& self.device@.len() == self.inner.data@.len()
        &&& (self.inner.data@.len() as int) % V::spec_size() == 0
    }

    /// The CPU mirror's bytes.
    pub closed spec fn mirror(self) -> Seq<u8> {
        self.inner.data@
    }

    /// The bytes the device buffer holds.
    pub closed spec fn device_view(self) -> Seq<u8> {
        self.device@
    }

    /// The live device buffer id.
    pub closed spec fn id_view(self) -> u32 {
        self.id
    }

    /// The attribute location the buffer feeds.
    pub closed spec fn loc_view(self) -> u32 {
        self.inner.layout.attrib_loc
    }

    /// The typed elements the mirror holds.
    pub open spec fn elems(self) -> Seq<V> {
        codec::decode::<V>(self.mirror())
    }

    /// How many elements the mirror holds.
    pub fn len(&self) -> (r: usize)
        requires
            self.wf(),
        ensures
            r == self.elems().len(),
    {
        proof {
            V::lemma_size();
            codec::lemma_decode_len::<V>(self.inner.data@);
            assert(self.elems().len() == self.inner.data@.len() as int / V::spec_size())
                by (nonlinear_arith)
                requires
                    self.elems().len() * V::spec_size() == self.inner.data@.len(),
                    V::spec_size() >= 1,
            ;
        }
        self.inner.data.len() / V::size()
    }

    /// Overwrite the `k`-th mirror element.  The device buffer is not
    /// touched.
    pub fn set(&mut self, k: usize, v: V)
        requires
            old(self).wf(),
            k < old(self).elems().len(),
        ensures
            final(self).wf(),
            final(self).elems() == old(self).elems().update(k as int, v),
            final(self).device_view() == old(self).device_view(),
            final(self).id_view() == old(self).id_view(),
            final(self).loc_view() == old(self).loc_view(),
    {
        proof {
            V::lemma_size();
            codec::lemma_decode_len::<V>(self.inner.data@);
            assert((k + 1) * V::spec_size() <= self.elems().len() * V::spec_size())
                by (nonlinear_arith)
                requires k + 1 <= self.elems().len(), 1 <= V::spec_size();
        }
        let end = self.inner.data.len();
        codec::write_element::<V>(&mut self.inner.data, 0, end, k, v);
        proof {
            assert(self.inner.data@.subrange(0, self.inner.data@.len() as int)
                =~= self.inner.data@);
            assert(old(self).inner.data@.subrange(0, old(self).inner.data@.len() as int)
                =~= old(self).inner.data@);
        }
    }

    /// The access flags of the synchronization's mapping request: write
    /// access with the whole previous contents discarded, so the device
    /// may orphan the old allocation instead of stalling on it.
    pub fn sync_access() -> (r: MapAccessBF)
        ensures
            r.0 == MAP_WRITE_BIT | MAP_INVALIDATE_BUFFER_BIT,
    {
        let r = MapAccessBF::new().add(MapAccess::Write).add(MapAccess::DiscardBuffer);
        proof {
            assert((0u32 | 0x0002u32) == 0x0002u32) by (bit_vector);
        }
        r
    }

    /// End the scope and synchronize: the device buffer's bytes become the
    /// mirror's, exactly once, and the handle comes back.
    ///
    /// Ending an updater whose mirror was never mutated leaves the device
    /// buffer's contents bit-identical.
    pub fn write(self) -> (r: DynamicBuffer<V, L>)
        requires
            self.wf(),
        ensures
            r.wf(),
            r.synced(),
            r.mirror() == self.mirror(),
            r.id_view() == self.id_view(),
            r.loc_view() == self.loc_view(),
            self.mirror() == self.device_view() ==> r.device_view() == self.device_view(),
    {
        let ghost device = self.inner.data@;
        DynamicBuffer { id: self.id, data: self.inner, device: Ghost(device) }
    }
}

} // verus!
