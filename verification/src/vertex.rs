//! CPU-side vertex buffer data: a typed byte buffer plus the layout that
//! tells the device which shader input slot it feeds.
//!
//! `DynamicData` is the mirror of a frequently rewritten device buffer;
//! `StaticData` holds bytes only until they are uploaded once.  The const
//! parameter `L` is the number of scalar elements per vertex attribute.

use core::marker::PhantomData;
use vstd::prelude::*;

use crate::codec;
use crate::opengl::GLVertexType;

verus! {

/// The layout of one vertex attribute: which shader input slot it binds
/// to.  `L` elements of type `V` feed the slot per vertex.
#[derive(Debug)]
pub struct Layout<V: GLVertexType, const L: usize> {
    /// The shader input slot (the attribute location).
    pub attrib_loc: u32,
    /// Ties the layout to its element type.
    pub marker: PhantomData<V>,
}

impl<V: GLVertexType, const L: usize> Layout<V, L> {
    /// A layout bound to the given attribute location.
    pub fn new(attrib_loc: u32) -> (r: Self)
        ensures
            r.attrib_loc == attrib_loc,
    {
        Self { attrib_loc, marker: PhantomData }
    }
}

/// The CPU mirror of a vertex buffer meant for frequent updates: the
/// element bytes stay on the CPU side so they can be rewritten and
/// re-synchronized every frame.
#[derive(Debug)]
pub struct DynamicData<V: GLVertexType, const L: usize> {
    /// Which shader input slot the buffer feeds.
    pub layout: Layout<V, L>,
    /// The element bytes.
    pub data: Vec<u8>,
}

impl<V: GLVertexType, const L: usize> DynamicData<V, L> {
    /// Fresh buffer data: the byte image of `data`, or empty when there is
    /// none yet.
    pub fn new(data: Option<&Vec<V>>, layout: Layout<V, L>) -> (r: Self)
        ensures
            r.layout.attrib_loc == layout.attrib_loc,
            data matches Some(d) ==> r.data@ == codec::encode(d@),
            data is None ==> r.data@ == Seq::<u8>::empty(),
    {
        match data {
            Some(d) => {
                let mut bytes: Vec<u8> = Vec::new();
                codec::write_all(&mut bytes, d);
                Self { data: bytes, layout }
            },
            None => Self { data: Vec::new(), layout },
        }
    }

    /// The typed elements the buffer holds.
    pub open spec fn elems(self) -> Seq<V> {
        codec::decode::<V>(self.data@)
    }
}

/// Vertex buffer data whose bytes are kept only until the one upload to
/// the device: afterwards the CPU copy is dropped to save host memory.
#[derive(Debug)]
pub struct StaticData<V: GLVertexType, const L: usize> {
    /// Which shader input slot the buffer feeds.
    pub layout: Layout<V, L>,
    /// The element bytes, held until upload.
    pub data: Vec<u8>,
}

impl<V: GLVertexType, const L: usize> StaticData<V, L> {
    /// Fresh buffer data: the byte image of `data`, or empty when there is
    /// none yet.
    pub fn new(data: Option<&Vec<V>>, layout: Layout<V, L>) -> (r: Self)
        ensures
            r.layout.attrib_loc == layout.attrib_loc,
            data matches Some(d) ==> r.data@ == codec::encode(d@),
            data is None ==> r.data@ == Seq::<u8>::empty(),
    {
        match data {
            Some(d) => {
                let mut bytes: Vec<u8> = Vec::new();
                codec::write_all(&mut bytes, d);
                Self { data: bytes, layout }
            },
            None => Self { data: Vec::new(), layout },
        }
    }
}

} // verus!
