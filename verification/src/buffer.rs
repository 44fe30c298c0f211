//! CPU-side buffer data in its untyped form: a byte buffer tagged with the
//! layout, or with the device tag of its index element type.
//!
//! These are the containers a builder fills before anything is handed to
//! the device; the device-resident handles that own a live buffer id are
//! modeled in `updater`.

use vstd::prelude::*;

use crate::codec;
use crate::opengl;
use crate::opengl::{GLIndexType, GLVertexType};

verus! {

/// The layout of one vertex attribute, untyped: the shader input slot,
/// how many elements feed it per vertex, and the device tag of the
/// element type.
#[derive(Debug, Clone, Copy)]
pub struct Layout {
    /// The shader input slot (the attribute location).
    pub attrib_loc: u32,
    /// How many elements per vertex, in `[1, 4]`.
    pub attrib_len: i32,
    /// The device tag of the element type.
    pub attrib_type: u32,
}

/// The CPU mirror of a vertex buffer meant for frequent updates.
#[derive(Debug)]
pub struct VertexBufferDynamicData {
    /// Which shader input slot the buffer feeds, and how.
    pub layout: Layout,
    /// The element bytes.
    pub data: Vec<u8>,
}

impl VertexBufferDynamicData {
    /// Fresh buffer data: the byte image of `data`, or empty when there
    /// is none yet.
    pub fn new<T: GLVertexType>(data: Option<&Vec<T>>, layout: Layout) -> (r: Self)
        ensures
            r.layout == layout,
            data matches Some(d) ==> r.data@ == codec::encode(d@),
            data is None ==> r.data@ == Seq::<u8>::empty(),
    {
        match data {
            Some(d) => {
                let mut bytes: Vec<u8> = Vec::new();
                codec::write_all(&mut bytes, d);
                Self { data: bytes, layout }
            },
            None => Self { data: Vec::new(), layout },
        }
    }
}

/// Vertex buffer data whose bytes are kept only until the one upload to
/// the device.
#[derive(Debug)]
pub struct VertexBufferStaticData {
    /// Which shader input slot the buffer feeds, and how.
    pub layout: Layout,
    /// The element bytes, held until upload.
    pub data: Vec<u8>,
}

impl VertexBufferStaticData {
    /// Fresh buffer data: the byte image of `data`, or empty when there
    /// is none yet.
    pub fn new<T: GLVertexType>(data: Option<&Vec<T>>, layout: Layout) -> (r: Self)
        ensures
            r.layout == layout,
            data matches Some(d) ==> r.data@ == codec::encode(d@),
            data is None ==> r.data@ == Seq::<u8>::empty(),
    {
        match data {
            Some(d) => {
                let mut bytes: Vec<u8> = Vec::new();
                codec::write_all(&mut bytes, d);
                Self { data: bytes, layout }
            },
            None => Self { data: Vec::new(), layout },
        }
    }
}

/// The CPU-side contents of an index buffer: the index bytes and the
/// device tag of the index element type they are read as.
#[derive(Debug)]
pub struct IndexBufferData {
    /// The index element bytes.
    pub data: Vec<u8>,
    /// The device tag of the index element type.
    pub ty: u32,
}

impl IndexBufferData {
    /// The tag names a supported element type and the bytes hold a whole
    /// number of its elements.
    pub open spec fn wf(self) -> bool {
        &&& opengl::spec_get_size(self.ty) is Some
        &&& (self.data@.len() as int) % (opengl::spec_get_size(self.ty).unwrap() as int) == 0
    }

    /// Fresh index buffer data: the byte image of `data`, or empty when
    /// there is none yet.
    pub fn new<T: GLIndexType>(data: Option<&Vec<T>>) -> (r: Self)
        ensures
            r.wf(),
            r.ty == T::spec_glenum(),
            data matches Some(d) ==> r.data@ == codec::encode(d@),
            data is None ==> r.data@ == Seq::<u8>::empty(),
    {
        let ty = T::to_glenum();
        let r = match data {
            Some(d) => {
                let mut bytes: Vec<u8> = Vec::new();
                codec::write_all(&mut bytes, d);
                Self { data: bytes, ty }
            },
            None => Self { data: Vec::new(), ty },
        };
        proof {
            T::lemma_size();
            T::lemma_glenum();
            match data {
                Some(d) => {
                    codec::lemma_encode_len::<T>(d@);
                    vstd::arithmetic::div_mod::lemma_mod_multiples_basic(d@.len() as int,
                        T::spec_size());
                },
                None => {
                    vstd::arithmetic::div_mod::lemma_small_mod(0, T::spec_size() as nat);
                },
            }
        }
        r
    }

    /// The number of index elements the buffer holds.
    pub fn len(&self) -> (r: usize)
        requires
            self.wf(),
        ensures
            r * (opengl::spec_get_size(self.ty).unwrap() as int) == self.data@.len(),
    {
        let n = self.data.len();
        let size = match opengl::get_size(self.ty) {
            Some(s) => s,
            None => {
                proof {
                    assert(false);
                }
                1
            },
        };
        proof {
            let sz = opengl::spec_get_size(self.ty).unwrap() as int;
            assert(1 <= sz <= 4);
            assert((n as int / sz) * sz == n) by (nonlinear_arith)
                requires (n as int) % sz == 0, 1 <= sz;
        }
        n / size
    }
}

/// What a device-resident index buffer exposes: its device id and how
/// many indices it holds.
pub trait IndexBufferT {
    /// The live device buffer id.
    spec fn spec_id(&self) -> u32;

    /// The number of index elements the device buffer holds.
    spec fn spec_len(&self) -> int;

    /// The live device buffer id.
    fn id(&self) -> (r: u32)
        ensures
            r == self.spec_id(),
    ;

    /// The number of index elements the device buffer holds.
    fn len(&self) -> (r: usize)
        ensures
            r == self.spec_len(),
    ;
}

} // verus!
