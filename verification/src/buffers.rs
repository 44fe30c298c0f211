//! Buffer binding targets and mapping access flags, as the device call
//! layer takes them.
//!
//! The numeric values are the device API's own; the functions here compute
//! them exactly, so the call layer outside this crate passes flag words the
//! contracts pin down.

use vstd::prelude::*;

verus! {

/// Map flag: the mapped range will be read.
pub const MAP_READ_BIT: u32 = 0x0001;

/// Map flag: the mapped range will be written.
pub const MAP_WRITE_BIT: u32 = 0x0002;

/// Map flag: the previous contents of the mapped range may be discarded.
pub const MAP_INVALIDATE_RANGE_BIT: u32 = 0x0004;

/// Map flag: the previous contents of the whole buffer may be discarded.
pub const MAP_INVALIDATE_BUFFER_BIT: u32 = 0x0008;

/// Map flag: modified ranges are flushed explicitly.
pub const MAP_FLUSH_EXPLICIT_BIT: u32 = 0x0010;

/// Map flag: the device does not synchronize pending operations.
pub const MAP_UNSYNCHRONIZED_BIT: u32 = 0x0020;

/// Device tag for the vertex attribute binding target.
pub const ARRAY_BUFFER: u32 = 0x8892;

/// Device tag for the index binding target.
pub const ELEMENT_ARRAY_BUFFER: u32 = 0x8893;

/// Device tag for the copy-write binding target.
pub const COPY_WRITE_BUFFER: u32 = 0x8F37;

/// A buffer binding target.
#[derive(Clone, Copy, PartialEq, Eq, Structural, Debug)]
pub enum BufferTarget {
    /// The vertex attribute target.
    ArrayBuffer,
    /// The index target.
    ElementArrayBuffer,
    /// The copy-write target.
    CopyWriteBuffer,
}

/// The device tag of a buffer binding target.
pub open spec fn spec_target_glenum(t: BufferTarget) -> u32 {
    match t {
        BufferTarget::ArrayBuffer => ARRAY_BUFFER,
        BufferTarget::ElementArrayBuffer => ELEMENT_ARRAY_BUFFER,
        BufferTarget::CopyWriteBuffer => COPY_WRITE_BUFFER,
    }
}

impl BufferTarget {
    /// The device tag of this binding target.
    pub fn get_glenum(self) -> (r: u32)
        ensures
            r == spec_target_glenum(self),
    {
        match self {
            BufferTarget::ArrayBuffer => ARRAY_BUFFER,
            BufferTarget::ElementArrayBuffer => ELEMENT_ARRAY_BUFFER,
            BufferTarget::CopyWriteBuffer => COPY_WRITE_BUFFER,
        }
    }
}

/// One access flag for a buffer mapping request.
#[derive(Clone, Copy, PartialEq, Eq, Structural, Debug)]
pub enum MapAccess {
    /// The mapping will be read.
    Read,
    /// The mapping will be written.
    Write,
    /// The mapped range's previous contents may be discarded.
    DiscardRange,
    /// The whole buffer's previous contents may be discarded.
    DiscardBuffer,
    /// Modified ranges are flushed explicitly.
    FlushExplicit,
    /// The device does not synchronize pending operations.
    Unsynchronized,
}

/// The bit of one access flag.
pub open spec fn spec_access_bit(a: MapAccess) -> u32 {
    match a {
        MapAccess::Read => MAP_READ_BIT,
        MapAccess::Write => MAP_WRITE_BIT,
        MapAccess::DiscardRange => MAP_INVALIDATE_RANGE_BIT,
        MapAccess::DiscardBuffer => MAP_INVALIDATE_BUFFER_BIT,
        MapAccess::FlushExplicit => MAP_FLUSH_EXPLICIT_BIT,
        MapAccess::Unsynchronized => MAP_UNSYNCHRONIZED_BIT,
    }
}

/// A set of access flags for a buffer mapping request, as one bit field.
#[derive(Clone, Copy, PartialEq, Eq, Structural, Debug)]
pub struct MapAccessBF(pub u32);

impl MapAccessBF {
    /// The empty flag set.
    pub fn new() -> (r: Self)
        ensures
            r.0 == 0,
    {
        Self(0)
    }

    /// The flag set with `other`'s bit added.
    pub fn add(self, other: MapAccess) -> (r: Self)
        ensures
            r.0 == self.0 | spec_access_bit(other),
    {
        Self(
            self.0 | match other {
                MapAccess::Read => MAP_READ_BIT,
                MapAccess::Write => MAP_WRITE_BIT,
                MapAccess::DiscardRange => MAP_INVALIDATE_RANGE_BIT,
                MapAccess::DiscardBuffer => MAP_INVALIDATE_BUFFER_BIT,
                MapAccess::FlushExplicit => MAP_FLUSH_EXPLICIT_BIT,
                MapAccess::Unsynchronized => MAP_UNSYNCHRONIZED_BIT,
            },
        )
    }
}

} // verus!
