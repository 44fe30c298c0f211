//! The packed mesh component: one contiguous byte buffer holding three
//! typed arrays — vertices, colors, indices — split by two offsets.
//!
//! The layout is `[vertices | colors | indices]`: vertices occupy
//! `[0, c_index)`, colors `[c_index, i_index)`, indices
//! `[i_index, data.len())`.  Components are created from three typed
//! arrays, read back through typed accessors, and merged pairwise; a merge
//! rebases the second component's index values by the first one's vertex
//! count so they keep referencing the right positions in the combined
//! vertex array.

use core::marker::PhantomData;
use vstd::prelude::*;

use crate::codec;
use crate::opengl::{GLIndexType, GLVertexType};

verus! {

/// The sequence of index values `s`, each increased by `base`.
pub open spec fn rebased<I: GLIndexType>(s: Seq<I>, base: int) -> Seq<I> {
    s.map(|k: int, x: I| I::from_int(x.to_int() + base))
}

/// A packed mesh component over a vertex element type `V`, an index element
/// type `I` and a color element type `C`.
pub struct Component<V: GLVertexType, I: GLIndexType, C: GLVertexType> {
    data: Vec<u8>,
    c_index: usize,
    i_index: usize,
    _v: PhantomData<V>,
    _i: PhantomData<I>,
    _c: PhantomData<C>,
}

impl<V: GLVertexType, I: GLIndexType, C: GLVertexType> Component<V, I, C> {
    /// The offset invariant: the two cut points are ordered and in bounds,
    /// and each region holds a whole number of its elements.
    pub closed spec fn wf(self) -> bool {
        &&& self.c_index <= self.i_index <= self.data@.len()
        &&& (self.c_index as int) % V::spec_size() == 0
        &&& (self.i_index - self.c_index) % C::spec_size() == 0
        &&& (self.data@.len() - self.i_index) % I::spec_size() == 0
    }

    /// The bytes of the vertex region.
    pub closed spec fn vertex_bytes(self) -> Seq<u8> {
        self.data@.subrange(0, self.c_index as int)
    }

    /// The bytes of the color region.
    pub closed spec fn color_bytes(self) -> Seq<u8> {
        self.data@.subrange(self.c_index as int, self.i_index as int)
    }

    /// The bytes of the index region.
    pub closed spec fn index_bytes(self) -> Seq<u8> {
        self.data@.subrange(self.i_index as int, self.data@.len() as int)
    }

    /// The vertex array the component holds.
    pub open spec fn vertices_view(self) -> Seq<V> {
        codec::decode::<V>(self.vertex_bytes())
    }

    /// The color array the component holds.
    pub open spec fn colors_view(self) -> Seq<C> {
        codec::decode::<C>(self.color_bytes())
    }

    /// The index array the component holds.
    pub open spec fn indices_view(self) -> Seq<I> {
        codec::decode::<I>(self.index_bytes())
    }

    /// The component's vertex count: the number of position elements.
    pub open spec fn vertex_count(self) -> int {
        self.vertices_view().len() as int
    }

    /// The total byte length of the backing buffer.
    pub closed spec fn byte_len(self) -> int {
        self.data@.len() as int
    }

    /// The backing buffer's byte length is the three views' lengths,
    /// each weighted by its element's byte size.
    pub proof fn lemma_byte_len(self)
        requires
            self.wf(),
        ensures
            self.byte_len() == self.vertices_view().len() * V::spec_size()
                + self.colors_view().len() * C::spec_size()
                + self.indices_view().len() * I::spec_size(),
    {
        V::lemma_size();
        C::lemma_size();
        I::lemma_size();
        codec::lemma_decode_len::<V>(self.vertex_bytes());
        codec::lemma_decode_len::<C>(self.color_bytes());
        codec::lemma_decode_len::<I>(self.index_bytes());
    }

    /// Pack three typed arrays into one contiguous byte buffer.
    ///
    /// Always succeeds; the three arrays may have any lengths, zero
    /// included.
    pub fn new(v_data: Vec<V>, c_data: Vec<C>, i_data: Vec<I>) -> (r: Self)
        ensures
            r.wf(),
            r.vertices_view() == v_data@,
            r.colors_view() == c_data@,
            r.indices_view() == i_data@,
    {
        let mut data: Vec<u8> = Vec::new();
        codec::write_all(&mut data, &v_data);
        let c_index = data.len();
        codec::write_all(&mut data, &c_data);
        let i_index = data.len();
        codec::write_all(&mut data, &i_data);
        proof {
            V::lemma_size();
            C::lemma_size();
            I::lemma_size();
            codec::lemma_encode_len::<V>(v_data@);
            codec::lemma_encode_len::<C>(c_data@);
            codec::lemma_encode_len::<I>(i_data@);
            assert((v_data@.len() * V::spec_size()) % V::spec_size() == 0) by (nonlinear_arith)
                requires V::spec_size() >= 1;
            assert((c_data@.len() * C::spec_size()) % C::spec_size() == 0) by (nonlinear_arith)
                requires C::spec_size() >= 1;
            assert((i_data@.len() * I::spec_size()) % I::spec_size() == 0) by (nonlinear_arith)
                requires I::spec_size() >= 1;
        }
        let r = Self {
            data,
            c_index,
            i_index,
            _v: PhantomData,
            _i: PhantomData,
            _c: PhantomData,
        };
        proof {
            assert(r.vertex_bytes() =~= codec::encode(v_data@));
            assert(r.color_bytes() =~= codec::encode(c_data@));
            assert(r.index_bytes() =~= codec::encode(i_data@));
            codec::lemma_decode_encode::<V>(v_data@);
            codec::lemma_decode_encode::<C>(c_data@);
            codec::lemma_decode_encode::<I>(i_data@);
        }
        r
    }

    /// The vertex array the component holds.
    pub fn get_vertices(&self) -> (r: Vec<V>)
        requires
            self.wf(),
        ensures
            r@ == self.vertices_view(),
    {
        codec::read_all::<V>(&self.data, 0, self.c_index)
    }

    /// The color array the component holds.
    pub fn get_colors(&self) -> (r: Vec<C>)
        requires
            self.wf(),
        ensures
            r@ == self.colors_view(),
    {
        codec::read_all::<C>(&self.data, self.c_index, self.i_index)
    }

    /// The index array the component holds.
    pub fn get_indices(&self) -> (r: Vec<I>)
        requires
            self.wf(),
        ensures
            r@ == self.indices_view(),
    {
        let n = self.data.len();
        codec::read_all::<I>(&self.data, self.i_index, n)
    }

    /// The component's vertex count.
    pub fn len_vertices(&self) -> (r: usize)
        requires
            self.wf(),
        ensures
            r == self.vertex_count(),
    {
        proof {
            V::lemma_size();
            codec::lemma_decode_len::<V>(self.vertex_bytes());
            assert(self.vertices_view().len() == self.c_index as int / V::spec_size())
                by (nonlinear_arith)
                requires
                    self.vertices_view().len() * V::spec_size() == self.c_index,
                    V::spec_size() >= 1,
            ;
        }
        self.c_index / V::size()
    }

    /// Overwrite the `k`-th vertex element: the mutable counterpart of
    /// `get_vertices` for a single element.
    pub fn set_vertex(&mut self, k: usize, v: V)
        requires
            old(self).wf(),
            k < old(self).vertices_view().len(),
        ensures
            final(self).wf(),
            final(self).vertices_view() == old(self).vertices_view().update(k as int, v),
            final(self).colors_view() == old(self).colors_view(),
            final(self).indices_view() == old(self).indices_view(),
    {
        proof {
            V::lemma_size();
            codec::lemma_decode_len::<V>(self.vertex_bytes());
            assert((k + 1) * V::spec_size() <= self.vertices_view().len() * V::spec_size())
                by (nonlinear_arith)
                requires k + 1 <= self.vertices_view().len(), 1 <= V::spec_size();
        }
        let end = self.c_index;
        codec::write_element::<V>(&mut self.data, 0, end, k, v);
        proof {
            let n = old(self).data@.len() as int;
            let c = self.c_index as int;
            assert forall|j: int| c <= j < n implies self.data@[j] == old(self).data@[j] by {
                assert(self.data@.subrange(c, n)[j - c] == self.data@[j]);
                assert(old(self).data@.subrange(c, n)[j - c] == old(self).data@[j]);
            }
            assert(self.color_bytes() =~= old(self).color_bytes());
            assert(self.index_bytes() =~= old(self).index_bytes());
        }
    }

    /// Overwrite the `k`-th color element: the mutable counterpart of
    /// `get_colors` for a single element.
    pub fn set_color(&mut self, k: usize, v: C)
        requires
            old(self).wf(),
            k < old(self).colors_view().len(),
        ensures
            final(self).wf(),
            final(self).colors_view() == old(self).colors_view().update(k as int, v),
            final(self).vertices_view() == old(self).vertices_view(),
            final(self).indices_view() == old(self).indices_view(),
    {
        proof {
            C::lemma_size();
            codec::lemma_decode_len::<C>(self.color_bytes());
            assert((k + 1) * C::spec_size() <= self.colors_view().len() * C::spec_size())
                by (nonlinear_arith)
                requires k + 1 <= self.colors_view().len(), 1 <= C::spec_size();
        }
        let start = self.c_index;
        let end = self.i_index;
        codec::write_element::<C>(&mut self.data, start, end, k, v);
        proof {
            assert(self.vertex_bytes() =~= old(self).vertex_bytes());
            assert(self.index_bytes() =~= old(self).index_bytes());
        }
    }

    /// Overwrite the `k`-th index element: the mutable counterpart of
    /// `get_indices` for a single element.
    pub fn set_index(&mut self, k: usize, v: I)
        requires
            old(self).wf(),
            k < old(self).indices_view().len(),
        ensures
            final(self).wf(),
            final(self).indices_view() == old(self).indices_view().update(k as int, v),
            final(self).vertices_view() == old(self).vertices_view(),
            final(self).colors_view() == old(self).colors_view(),
    {
        proof {
            I::lemma_size();
            codec::lemma_decode_len::<I>(self.index_bytes());
            assert((k + 1) * I::spec_size() <= self.indices_view().len() * I::spec_size())
                by (nonlinear_arith)
                requires k + 1 <= self.indices_view().len(), 1 <= I::spec_size();
        }
        let start = self.i_index;
        let end = self.data.len();
        codec::write_element::<I>(&mut self.data, start, end, k, v);
        proof {
            let i = self.i_index as int;
            assert forall|j: int| 0 <= j < i implies self.data@[j] == old(self).data@[j] by {
                assert(self.data@.subrange(0, i)[j] == self.data@[j]);
                assert(old(self).data@.subrange(0, i)[j] == old(self).data@[j]);
            }
            assert(self.vertex_bytes() =~= old(self).vertex_bytes());
            assert(self.color_bytes() =~= old(self).color_bytes());
        }
    }

    /// Merge two components into one that acts as `self` followed by
    /// `other`: vertex and color arrays are concatenated, and `other`'s
    /// index values are rebased by `self`'s vertex count.
    ///
    /// The merge grows `self`'s backing buffer to the combined size and
    /// moves `other`'s regions into their final places in descending
    /// address order — indices first, then colors, then vertices — so no
    /// region is overwritten before it has been read and no scratch copy
    /// of a whole region is needed.
    #[verifier::rlimit(100)]
    #[verifier::spinoff_prover]
    pub fn merge(self, other: Self) -> (r: Self)
        requires
            self.wf(),
            other.wf(),
            // rebasing must not overflow the index element type
            forall|k: int|
                0 <= k < other.indices_view().len()
                    ==> (#[trigger] other.indices_view()[k]).to_int() + self.vertex_count()
                    <= I::spec_max(),
            // the combined buffer must fit in host memory
            self.byte_len() + other.byte_len() <= usize::MAX,
        ensures
            r.wf(),
            r.vertices_view() == self.vertices_view() + other.vertices_view(),
            r.colors_view() == self.colors_view() + other.colors_view(),
            r.indices_view() == self.indices_view()
                + rebased(other.indices_view(), self.vertex_count()),
    {
        let ghost sv = self.vertex_bytes();
        let ghost sc = self.color_bytes();
        let ghost si = self.index_bytes();
        let ghost ov = other.vertex_bytes();
        let ghost oc = other.color_bytes();

        let base = self.len_vertices();
        let mut other = other;

        // rebase other's index values in place, before any bytes move
        let idx = other.get_indices();
        let mut ridx: Vec<I> = Vec::new();
        let icount = idx.len();
        let mut k: usize = 0;
        while k < icount
            invariant
                icount == idx@.len(),
                idx@ == other.indices_view(),
                k <= icount,
                base == self.vertex_count(),
                forall|j: int|
                    0 <= j < idx@.len() ==> (#[trigger] idx@[j]).to_int() + base
                        <= I::spec_max(),
                ridx@.len() == k,
                forall|j: int|
                    0 <= j < k ==> ridx@[j] == I::from_int((#[trigger] idx@[j]).to_int()
                        + base),
            decreases icount - k,
        {
            proof {
                I::lemma_int();
            }
            let x = idx[k].rebase(base);
            ridx.push(x);
            k += 1;
        }
        proof {
            assert(ridx@ =~= rebased(other.indices_view(), self.vertex_count()));
        }
        let ghost oib0 = other.index_bytes();
        let oi_start = other.i_index;
        other.data.truncate(oi_start);
        codec::write_all(&mut other.data, &ridx);
        let ghost oi = codec::encode(ridx@);
        proof {
            I::lemma_size();
            codec::lemma_encode_len::<I>(ridx@);
            codec::lemma_decode_len::<I>(si);
            codec::lemma_decode_len::<I>(oib0);
            assert((oi.len() as int) % I::spec_size() == 0) by (nonlinear_arith)
                requires
                    oi.len() == ridx@.len() * I::spec_size(),
                    I::spec_size() >= 1,
            ;
            assert(other.data@ =~= ov + oc + oi);
            assert(oi.len() == oib0.len());
        }

        // grow self's buffer to the combined size and splice right to left
        let mut data = self.data;
        let init_len = data.len();
        let other_len = other.data.len();
        let oi_len = other_len - oi_start;
        codec::extend_zeros(&mut data, other_len);
        let total = init_len + other_len;
        let ghost zeros = Seq::<u8>::new(other_len as nat, |i: int| 0u8);

        let new_c = self.c_index + other.c_index;
        let new_i = self.i_index + oi_start;

        // other's rebased indices land at the very end
        codec::copy_in(&mut data, total - oi_len, &other.data, oi_start, oi_len);
        proof {
            assert(data@ =~= sv + sc + si + zeros.subrange(0, oi_start as int) + oi);
        }
        // self's indices move right to their final place
        codec::shift_right(&mut data, self.i_index, new_i, init_len - self.i_index);
        let ghost j1 = data@.subrange(self.i_index as int, new_i as int);
        proof {
            assert(j1.len() == oi_start);
            assert(data@ =~= sv + sc + j1 + si + oi);
        }
        // other's colors land just before self's moved indices
        codec::copy_in(&mut data, self.i_index + other.c_index, &other.data, other.c_index,
            oi_start - other.c_index);
        let ghost j2 = data@.subrange(self.i_index as int, self.i_index + other.c_index);
        proof {
            assert(j2.len() == other.c_index);
            assert(data@ =~= sv + sc + j2 + oc + si + oi);
        }
        // self's colors move right to their final place
        codec::shift_right(&mut data, self.c_index, new_c, self.i_index - self.c_index);
        let ghost j3 = data@.subrange(self.c_index as int, new_c as int);
        proof {
            assert(j3.len() == other.c_index);
            assert(data@ =~= sv + j3 + sc + oc + si + oi);
        }
        // other's vertices land right after self's, which never move
        codec::copy_in(&mut data, self.c_index, &other.data, 0, other.c_index);
        proof {
            assert(data@ =~= sv + ov + sc + oc + si + oi);
        }

        let r = Self {
            data,
            c_index: new_c,
            i_index: new_i,
            _v: PhantomData,
            _i: PhantomData,
            _c: PhantomData,
        };
        proof {
            V::lemma_size();
            C::lemma_size();
            I::lemma_size();
            assert(r.vertex_bytes() =~= sv + ov);
            assert(r.color_bytes() =~= sc + oc);
            assert(r.index_bytes() =~= si + oi);
            vstd::arithmetic::div_mod::lemma_add_mod_noop(self.c_index as int,
                other.c_index as int, V::spec_size());
            vstd::arithmetic::div_mod::lemma_add_mod_noop(self.i_index - self.c_index,
                other.i_index - other.c_index, C::spec_size());
            vstd::arithmetic::div_mod::lemma_add_mod_noop(si.len() as int, oi.len() as int,
                I::spec_size());
            vstd::arithmetic::div_mod::lemma_small_mod(0, V::spec_size() as nat);
            vstd::arithmetic::div_mod::lemma_small_mod(0, C::spec_size() as nat);
            vstd::arithmetic::div_mod::lemma_small_mod(0, I::spec_size() as nat);
            codec::lemma_decode_concat::<V>(sv, ov);
            codec::lemma_decode_concat::<C>(sc, oc);
            codec::lemma_decode_concat::<I>(si, oi);
            codec::lemma_decode_encode::<I>(ridx@);
        }
        r
    }
}

impl<V: GLVertexType, I: GLIndexType, C: GLVertexType> crate::Drawable<V, I, C> for Component<
    V,
    I,
    C,
> {
    open spec fn inv(&self) -> bool {
        self.wf()
    }

    open spec fn vertices(&self) -> Seq<V> {
        self.vertices_view()
    }

    open spec fn indices(&self) -> Seq<I> {
        self.indices_view()
    }

    open spec fn colors(&self) -> Seq<C> {
        self.colors_view()
    }

    fn get_vertices(&self) -> (r: Vec<V>) {
        Component::get_vertices(self)
    }

    fn get_indices(&self) -> (r: Vec<I>) {
        Component::get_indices(self)
    }

    fn get_colors(&self) -> (r: Vec<C>) {
        Component::get_colors(self)
    }
}

} // verus!
