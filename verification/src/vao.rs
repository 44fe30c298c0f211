//! The builder that accumulates drawable shapes into the three flat CPU
//! buffers a vertex-array object is made from.
//!
//! Every added shape's vertex and color bytes are appended verbatim; its
//! index values are first rebased by the running vertex count, so they
//! keep referencing the shape's own vertices inside the combined vertex
//! array.  Shapes are concatenated in call order, so draw order follows
//! append order.

use core::marker::PhantomData;
use vstd::prelude::*;

use crate::buffer::IndexBufferData;
use crate::codec;
use crate::opengl::{GLIndexType, GLVertexType};
use crate::primitives::rebased;
use crate::vertex::{DynamicData, Layout};
use crate::Drawable;

verus! {

/// Accumulates drawable shapes into three growing CPU buffers: vertex
/// data bound to attribute location 0, color data bound to location 1,
/// and index data.
pub struct Builder<V: GLVertexType, I: GLIndexType, C: GLVertexType, const L: usize> {
    /// The growing vertex buffer.
    pub vertex_data: DynamicData<V, L>,
    /// The growing index buffer.
    pub index_data: IndexBufferData,
    /// The growing color buffer.
    pub color_data: DynamicData<C, 3>,
    /// Ties the builder to its index element type.
    pub marker: PhantomData<I>,
}

impl<V: GLVertexType, I: GLIndexType, C: GLVertexType, const L: usize> Builder<V, I, C, L> {
    /// Each buffer holds a whole number of its elements, and the index
    /// buffer is tagged with the index element type.
    pub open spec fn wf(self) -> bool {
        &&& (self.vertex_data.data@.len() as int) % V::spec_size() == 0
        &&& (self.color_data.data@.len() as int) % C::spec_size() == 0
        &&& (self.index_data.data@.len() as int) % I::spec_size() == 0
        &&& self.index_data.ty == I::spec_glenum()
    }

    /// The vertex elements accumulated so far.
    pub open spec fn vertices(self) -> Seq<V> {
        codec::decode::<V>(self.vertex_data.data@)
    }

    /// The color elements accumulated so far.
    pub open spec fn colors(self) -> Seq<C> {
        codec::decode::<C>(self.color_data.data@)
    }

    /// The index values accumulated so far.
    pub open spec fn indices(self) -> Seq<I> {
        codec::decode::<I>(self.index_data.data@)
    }

    /// The running vertex count, recoverable from the vertex buffer's
    /// byte length.
    pub open spec fn vertex_count(self) -> int {
        self.vertices().len() as int
    }

    /// Every accumulated index value references an existing vertex.
    pub open spec fn indices_ok(self) -> bool {
        forall|k: int|
            0 <= k < self.indices().len() ==> (#[trigger] self.indices()[k]).to_int()
                < self.vertex_count()
    }

    /// An empty builder, with the position attribute pre-configured at
    /// location 0 and the color attribute at location 1.
    pub fn create() -> (r: Self)
        ensures
            r.wf(),
            r.vertices() == Seq::<V>::empty(),
            r.colors() == Seq::<C>::empty(),
            r.indices() == Seq::<I>::empty(),
            r.indices_ok(),
            r.vertex_data.layout.attrib_loc == 0,
            r.color_data.layout.attrib_loc == 1,
    {
        let r = Self {
            vertex_data: DynamicData::new(None, Layout::new(0)),
            index_data: IndexBufferData::new::<I>(None),
            color_data: DynamicData::new(None, Layout::new(1)),
            marker: PhantomData,
        };
        proof {
            V::lemma_size();
            C::lemma_size();
            I::lemma_size();
            vstd::arithmetic::div_mod::lemma_small_mod(0, V::spec_size() as nat);
            vstd::arithmetic::div_mod::lemma_small_mod(0, C::spec_size() as nat);
            vstd::arithmetic::div_mod::lemma_small_mod(0, I::spec_size() as nat);
        }
        r
    }

    /// The running vertex count.
    pub fn len_vertices(&self) -> (r: usize)
        requires
            self.wf(),
        ensures
            r == self.vertex_count(),
    {
        proof {
            V::lemma_size();
            codec::lemma_decode_len::<V>(self.vertex_data.data@);
            assert(self.vertices().len() == self.vertex_data.data@.len() as int
                / V::spec_size()) by (nonlinear_arith)
                requires
                    self.vertices().len() * V::spec_size() == self.vertex_data.data@.len(),
                    V::spec_size() >= 1,
            ;
        }
        self.vertex_data.data.len() / V::size()
    }

    /// Append one drawable shape: its vertex and color bytes verbatim,
    /// its index values rebased by the running vertex count.
    ///
    /// A shape whose indices reference its own vertices keeps every
    /// accumulated index value inside the final vertex array, however many
    /// shapes follow.
    pub fn add<D: Drawable<V, I, C>>(self, drawable: D) -> (r: Self)
        requires
            self.wf(),
            drawable.inv(),
            // rebasing must not overflow the index element type
            forall|k: int|
                0 <= k < drawable.indices().len()
                    ==> (#[trigger] drawable.indices()[k]).to_int() + self.vertex_count()
                    <= I::spec_max(),
        ensures
            r.wf(),
            r.vertices() == self.vertices() + drawable.vertices(),
            r.colors() == self.colors() + drawable.colors(),
            r.indices() == self.indices() + rebased(drawable.indices(), self.vertex_count()),
            r.vertex_data.layout == self.vertex_data.layout,
            r.color_data.layout == self.color_data.layout,
            r.index_data.ty == self.index_data.ty,
            // a shape with self-referencing indices keeps the builder valid
            self.indices_ok() && (forall|k: int|
                0 <= k < drawable.indices().len()
                    ==> (#[trigger] drawable.indices()[k]).to_int()
                    < drawable.vertices().len()) ==> r.indices_ok(),
    {
        let mut b = self;
        let base = b.len_vertices();

        let vs = drawable.get_vertices();
        codec::write_all(&mut b.vertex_data.data, &vs);

        let cs = drawable.get_colors();
        codec::write_all(&mut b.color_data.data, &cs);

        let is0 = drawable.get_indices();
        let mut ridx: Vec<I> = Vec::new();
        let icount = is0.len();
        let mut k: usize = 0;
        while k < icount
            invariant
                icount == is0@.len(),
                is0@ == drawable.indices(),
                k <= icount,
                base == self.vertex_count(),
                forall|j: int|
                    0 <= j < is0@.len() ==> (#[trigger] is0@[j]).to_int() + base
                        <= I::spec_max(),
                ridx@.len() == k,
                forall|j: int|
                    0 <= j < k ==> ridx@[j] == I::from_int((#[trigger] is0@[j]).to_int()
                        + base),
            decreases icount - k,
        {
            proof {
                I::lemma_int();
            }
            let x = is0[k].rebase(base);
            ridx.push(x);
            k += 1;
        }
        proof {
            assert(ridx@ =~= rebased(drawable.indices(), self.vertex_count()));
        }
        codec::write_all(&mut b.index_data.data, &ridx);

        proof {
            V::lemma_size();
            C::lemma_size();
            I::lemma_size();
            I::lemma_int();
            codec::lemma_encode_len::<V>(vs@);
            codec::lemma_encode_len::<C>(cs@);
            codec::lemma_encode_len::<I>(ridx@);
            codec::lemma_decode_concat::<V>(self.vertex_data.data@, codec::encode(vs@));
            codec::lemma_decode_concat::<C>(self.color_data.data@, codec::encode(cs@));
            codec::lemma_decode_concat::<I>(self.index_data.data@, codec::encode(ridx@));
            codec::lemma_decode_encode::<V>(vs@);
            codec::lemma_decode_encode::<C>(cs@);
            codec::lemma_decode_encode::<I>(ridx@);
            vstd::arithmetic::div_mod::lemma_mod_multiples_basic(vs@.len() as int,
                V::spec_size());
            vstd::arithmetic::div_mod::lemma_mod_multiples_basic(cs@.len() as int,
                C::spec_size());
            vstd::arithmetic::div_mod::lemma_mod_multiples_basic(ridx@.len() as int,
                I::spec_size());
            vstd::arithmetic::div_mod::lemma_add_mod_noop(self.vertex_data.data@.len() as int,
                vs@.len() * V::spec_size(), V::spec_size());
            vstd::arithmetic::div_mod::lemma_add_mod_noop(self.color_data.data@.len() as int,
                cs@.len() * C::spec_size(), C::spec_size());
            vstd::arithmetic::div_mod::lemma_add_mod_noop(self.index_data.data@.len() as int,
                ridx@.len() * I::spec_size(), I::spec_size());
            vstd::arithmetic::div_mod::lemma_small_mod(0, V::spec_size() as nat);
            vstd::arithmetic::div_mod::lemma_small_mod(0, C::spec_size() as nat);
            vstd::arithmetic::div_mod::lemma_small_mod(0, I::spec_size() as nat);
            assert(b.vertices() == self.vertices() + drawable.vertices());
            assert(b.indices() == self.indices() + ridx@);
            if self.indices_ok() && (forall|k: int|
                0 <= k < drawable.indices().len()
                    ==> (#[trigger] drawable.indices()[k]).to_int()
                    < drawable.vertices().len()) {
                assert forall|k: int|
                    0 <= k < b.indices().len() implies (#[trigger] b.indices()[k]).to_int()
                    < b.vertex_count() by {
                    let old_n = self.indices().len() as int;
                    if k < old_n {
                        assert(b.indices()[k] == self.indices()[k]);
                        assert(self.indices()[k].to_int() < self.vertex_count());
                    } else {
                        let j = k - old_n;
                        assert(b.indices()[k] == ridx@[j]);
                        assert(ridx@[j] == I::from_int(is0@[j].to_int() + base));
                        assert(is0@[j].to_int() + base <= I::spec_max());
                        assert(is0@[j].to_int() >= 0);
                        assert(ridx@[j].to_int() == is0@[j].to_int() + base);
                        assert(is0@[j].to_int() < drawable.vertices().len());
                    }
                    assert(b.vertex_count() == self.vertex_count()
                        + drawable.vertices().len());
                }
            }
        }
        b
    }

    /// Hand the three accumulated buffers over, in the order vertex,
    /// color, index: the boundary where device-buffer construction takes
    /// ownership.
    pub fn build(self) -> (r: (DynamicData<V, L>, DynamicData<C, 3>, IndexBufferData))
        ensures
            r.0 == self.vertex_data,
            r.1 == self.color_data,
            r.2 == self.index_data,
    {
        (self.vertex_data, self.color_data, self.index_data)
    }
}

} // verus!
