//! Capability traits for the scalar element types a mesh buffer may hold,
//! together with the device-side numeric tags of those types.
//!
//! An element type has a fixed byte size and a fixed little-endian byte
//! image; the packed containers of this crate store elements through that
//! image only, so every reinterpretation of a byte region as a typed array
//! goes through the contracts below.

use vstd::prelude::*;

verus! {

/// Device tag for a signed byte element.
pub const GL_BYTE: u32 = 0x1400;

/// Device tag for an unsigned byte element.
pub const GL_UNSIGNED_BYTE: u32 = 0x1401;

/// Device tag for a signed 16-bit element.
pub const GL_SHORT: u32 = 0x1402;

/// Device tag for an unsigned 16-bit element.
pub const GL_UNSIGNED_SHORT: u32 = 0x1403;

/// Device tag for a signed 32-bit element.
pub const GL_INT: u32 = 0x1404;

/// Device tag for an unsigned 32-bit element.
pub const GL_UNSIGNED_INT: u32 = 0x1405;

/// Device tag for a 32-bit floating-point element.
pub const GL_FLOAT: u32 = 0x1406;

/// The byte size of the element type named by a device tag.
pub open spec fn spec_get_size(gl_type: u32) -> Option<usize> {
    if gl_type == GL_BYTE {
        Some(1usize)
    } else if gl_type == GL_UNSIGNED_BYTE {
        Some(1usize)
    } else if gl_type == GL_SHORT {
        Some(2usize)
    } else if gl_type == GL_UNSIGNED_SHORT {
        Some(2usize)
    } else if gl_type == GL_INT {
        Some(4usize)
    } else if gl_type == GL_UNSIGNED_INT {
        Some(4usize)
    } else if gl_type == GL_FLOAT {
        Some(4usize)
    } else {
        None
    }
}

/// Returns the byte size of the element type named by a device tag,
/// or `None` for a tag that names no supported type.
pub fn get_size(gl_type: u32) -> (r: Option<usize>)
    ensures
        r == spec_get_size(gl_type),
{
    if gl_type == GL_BYTE || gl_type == GL_UNSIGNED_BYTE {
        Some(1)
    } else if gl_type == GL_SHORT || gl_type == GL_UNSIGNED_SHORT {
        Some(2)
    } else if gl_type == GL_INT || gl_type == GL_UNSIGNED_INT || gl_type == GL_FLOAT {
        Some(4)
    } else {
        None
    }
}

/// An element type a vertex attribute buffer may hold.
///
/// The type has a fixed byte size, a device tag, and a little-endian byte
/// image through which it is stored in packed buffers.
pub trait GLVertexType: Sized + Copy {
    /// The byte size of one element.
    spec fn spec_size() -> int;

    /// The device tag of the element type.
    spec fn spec_glenum() -> u32;

    /// The byte image of one element, least significant byte first.
    spec fn to_bytes(self) -> Seq<u8>;

    /// The element whose byte image the given bytes are.
    spec fn from_bytes(b: Seq<u8>) -> Self;

    /// The byte size is positive and small.
    proof fn lemma_size()
        ensures
            1 <= Self::spec_size() <= 4,
    ;

    /// The device tag names this element type's byte size.
    proof fn lemma_glenum()
        ensures
            spec_get_size(Self::spec_glenum()) == Some(Self::spec_size() as usize),
    ;

    /// A byte image has exactly `spec_size()` bytes and determines
    /// the element.
    proof fn lemma_to_bytes(self)
        ensures
            self.to_bytes().len() == Self::spec_size(),
            Self::from_bytes(self.to_bytes()) == self,
    ;

    /// The byte size of one element.
    fn size() -> (r: usize)
        ensures
            r == Self::spec_size(),
    ;

    /// The device tag of the element type.
    fn to_glenum() -> (r: u32)
        ensures
            r == Self::spec_glenum(),
    ;

    /// Append the element's byte image to `out`.
    fn write_to(self, out: &mut Vec<u8>)
        ensures
            final(out)@ == old(out)@ + self.to_bytes(),
    ;

    /// Overwrite the bytes at `off` with the element's byte image.
    fn store_to(self, buf: &mut Vec<u8>, off: usize)
        requires
            off + Self::spec_size() <= old(buf)@.len(),
        ensures
            final(buf)@ == old(buf)@.subrange(0, off as int) + self.to_bytes()
                + old(buf)@.subrange(off + Self::spec_size(), old(buf)@.len() as int),
            final(buf)@.len() == old(buf)@.len(),
    ;

    /// Read the element whose byte image starts at `off`.
    fn read_from(buf: &Vec<u8>, off: usize) -> (r: Self)
        requires
            off + Self::spec_size() <= buf@.len(),
        ensures
            r == Self::from_bytes(buf@.subrange(off as int, off + Self::spec_size())),
    ;
}

/// An element type an index buffer may hold: a vertex element type that is
/// also an unsigned integer, so index values can be rebased when vertex
/// arrays are concatenated.
pub trait GLIndexType: GLVertexType {
    /// The largest value of the type.
    spec fn spec_max() -> int;

    /// The index value as a mathematical integer.
    spec fn to_int(self) -> int;

    /// The index value holding the given integer.
    spec fn from_int(v: int) -> Self;

    /// `to_int` and `from_int` are inverse bijections on `[0, spec_max()]`.
    proof fn lemma_int()
        ensures
            0 < Self::spec_max() <= usize::MAX,
            forall|x: Self| 0 <= #[trigger] x.to_int() <= Self::spec_max(),
            forall|x: Self| Self::from_int(#[trigger] x.to_int()) == x,
            forall|v: int|
                0 <= v <= Self::spec_max() ==> (#[trigger] Self::from_int(v)).to_int() == v,
    ;

    /// The index value holding the given host-size integer.
    fn from_usize(value: usize) -> (r: Self)
        requires
            value <= Self::spec_max(),
        ensures
            r == Self::from_int(value as int),
    ;

    /// The index value as a host-size integer.
    fn to_usize(self) -> (r: usize)
        ensures
            r == self.to_int(),
    ;

    /// Add a host-size base to the index value: the rebase step applied
    /// when a shape's vertices are appended after `base` vertices.
    fn rebase(self, base: usize) -> (r: Self)
        requires
            self.to_int() + base <= Self::spec_max(),
        ensures
            r == Self::from_int(self.to_int() + base),
    ;
}

impl GLVertexType for u8 {
    open spec fn spec_size() -> int {
        1
    }

    open spec fn spec_glenum() -> u32 {
        GL_UNSIGNED_BYTE
    }

    open spec fn to_bytes(self) -> Seq<u8> {
        seq![self]
    }

    open spec fn from_bytes(b: Seq<u8>) -> Self {
        b[0]
    }

    proof fn lemma_size() {
    }

    proof fn lemma_glenum() {
    }

    proof fn lemma_to_bytes(self) {
    }

    fn size() -> (r: usize) {
        1
    }

    fn to_glenum() -> (r: u32) {
        GL_UNSIGNED_BYTE
    }

    fn write_to(self, out: &mut Vec<u8>) {
        out.push(self);
        proof {
            assert(out@ =~= old(out)@ + self.to_bytes());
        }
    }

    fn store_to(self, buf: &mut Vec<u8>, off: usize) {
        buf.set(off, self);
        proof {
            assert(buf@ =~= old(buf)@.subrange(0, off as int) + self.to_bytes()
                + old(buf)@.subrange(off + 1, old(buf)@.len() as int));
        }
    }

    fn read_from(buf: &Vec<u8>, off: usize) -> (r: Self) {
        let r = buf[off];
        proof {
            assert(buf@.subrange(off as int, off + 1)[0] == buf@[off as int]);
        }
        r
    }
}

impl GLVertexType for u16 {
    open spec fn spec_size() -> int {
        2
    }

    open spec fn spec_glenum() -> u32 {
        GL_UNSIGNED_SHORT
    }

    open spec fn to_bytes(self) -> Seq<u8> {
        seq![(self & 0xff) as u8, (self >> 8) as u8]
    }

    open spec fn from_bytes(b: Seq<u8>) -> Self {
        (b[0] as u16) | ((b[1] as u16) << 8)
    }

    proof fn lemma_size() {
    }

    proof fn lemma_glenum() {
    }

    proof fn lemma_to_bytes(self) {
        let x = self;
        assert((((x & 0xff) as u8) as u16) | ((((x >> 8) as u8) as u16) << 8) == x)
            by (bit_vector);
    }

    fn size() -> (r: usize) {
        2
    }

    fn to_glenum() -> (r: u32) {
        GL_UNSIGNED_SHORT
    }

    fn write_to(self, out: &mut Vec<u8>) {
        let lo: u8 = (self & 0xff) as u8;
        let hi: u8 = (self >> 8) as u8;
        out.push(lo);
        out.push(hi);
        proof {
            assert(out@ =~= old(out)@ + self.to_bytes());
        }
    }

    fn store_to(self, buf: &mut Vec<u8>, off: usize) {
        let n: usize = buf.len();
        let lo: u8 = (self & 0xff) as u8;
        let hi: u8 = (self >> 8) as u8;
        buf.set(off, lo);
        buf.set(off + 1, hi);
        proof {
            assert(buf@ =~= old(buf)@.subrange(0, off as int) + self.to_bytes()
                + old(buf)@.subrange(off + 2, old(buf)@.len() as int));
        }
    }

    fn read_from(buf: &Vec<u8>, off: usize) -> (r: Self) {
        let n: usize = buf.len();
        let lo = buf[off];
        let hi = buf[off + 1];
        let r = (lo as u16) | ((hi as u16) << 8);
        proof {
            let b = buf@.subrange(off as int, off + 2);
            assert(b[0] == buf@[off as int]);
            assert(b[1] == buf@[off + 1]);
        }
        r
    }
}

impl GLVertexType for u32 {
    open spec fn spec_size() -> int {
        4
    }

    open spec fn spec_glenum() -> u32 {
        GL_UNSIGNED_INT
    }

    open spec fn to_bytes(self) -> Seq<u8> {
        seq![
            (self & 0xff) as u8,
            ((self >> 8) & 0xff) as u8,
            ((self >> 16) & 0xff) as u8,
            (self >> 24) as u8,
        ]
    }

    open spec fn from_bytes(b: Seq<u8>) -> Self {
        (b[0] as u32) | ((b[1] as u32) << 8) | ((b[2] as u32) << 16) | ((b[3] as u32) << 24)
    }

    proof fn lemma_size() {
    }

    proof fn lemma_glenum() {
    }

    proof fn lemma_to_bytes(self) {
        let x = self;
        assert((((x & 0xff) as u8) as u32) | ((((x >> 8) & 0xff) as u8 as u32) << 8)
            | ((((x >> 16) & 0xff) as u8 as u32) << 16) | ((((x >> 24) as u8) as u32) << 24)
            == x) by (bit_vector);
    }

    fn size() -> (r: usize) {
        4
    }

    fn to_glenum() -> (r: u32) {
        GL_UNSIGNED_INT
    }

    fn write_to(self, out: &mut Vec<u8>) {
        let b0: u8 = (self & 0xff) as u8;
        let b1: u8 = ((self >> 8) & 0xff) as u8;
        let b2: u8 = ((self >> 16) & 0xff) as u8;
        let b3: u8 = (self >> 24) as u8;
        out.push(b0);
        out.push(b1);
        out.push(b2);
        out.push(b3);
        proof {
            assert(out@ =~= old(out)@ + self.to_bytes());
        }
    }

    fn store_to(self, buf: &mut Vec<u8>, off: usize) {
        let n: usize = buf.len();
        let b0: u8 = (self & 0xff) as u8;
        let b1: u8 = ((self >> 8) & 0xff) as u8;
        let b2: u8 = ((self >> 16) & 0xff) as u8;
        let b3: u8 = (self >> 24) as u8;
        buf.set(off, b0);
        buf.set(off + 1, b1);
        buf.set(off + 2, b2);
        buf.set(off + 3, b3);
        proof {
            assert(buf@ =~= old(buf)@.subrange(0, off as int) + self.to_bytes()
                + old(buf)@.subrange(off + 4, old(buf)@.len() as int));
        }
    }

    fn read_from(buf: &Vec<u8>, off: usize) -> (r: Self) {
        let n: usize = buf.len();
        let b0 = buf[off];
        let b1 = buf[off + 1];
        let b2 = buf[off + 2];
        let b3 = buf[off + 3];
        let r = (b0 as u32) | ((b1 as u32) << 8) | ((b2 as u32) << 16) | ((b3 as u32) << 24);
        proof {
            let b = buf@.subrange(off as int, off + 4);
            assert(b[0] == buf@[off as int]);
            assert(b[1] == buf@[off + 1]);
            assert(b[2] == buf@[off + 2]);
            assert(b[3] == buf@[off + 3]);
        }
        r
    }
}

impl GLVertexType for i8 {
    open spec fn spec_size() -> int {
        1
    }

    open spec fn spec_glenum() -> u32 {
        GL_BYTE
    }

    open spec fn to_bytes(self) -> Seq<u8> {
        seq![self as u8]
    }

    open spec fn from_bytes(b: Seq<u8>) -> Self {
        b[0] as i8
    }

    proof fn lemma_size() {
    }

    proof fn lemma_glenum() {
    }

    proof fn lemma_to_bytes(self) {
        let x = self;
        assert(((x as u8) as i8) == x) by (bit_vector);
    }

    fn size() -> (r: usize) {
        1
    }

    fn to_glenum() -> (r: u32) {
        GL_BYTE
    }

    fn write_to(self, out: &mut Vec<u8>) {
        out.push(self as u8);
        proof {
            assert(out@ =~= old(out)@ + self.to_bytes());
        }
    }

    fn store_to(self, buf: &mut Vec<u8>, off: usize) {
        buf.set(off, self as u8);
        proof {
            assert(buf@ =~= old(buf)@.subrange(0, off as int) + self.to_bytes()
                + old(buf)@.subrange(off + 1, old(buf)@.len() as int));
        }
    }

    fn read_from(buf: &Vec<u8>, off: usize) -> (r: Self) {
        let r = buf[off] as i8;
        proof {
            assert(buf@.subrange(off as int, off + 1)[0] == buf@[off as int]);
        }
        r
    }
}

impl GLVertexType for i16 {
    open spec fn spec_size() -> int {
        2
    }

    open spec fn spec_glenum() -> u32 {
        GL_SHORT
    }

    open spec fn to_bytes(self) -> Seq<u8> {
        seq![((self as u16) & 0xff) as u8, ((self as u16) >> 8) as u8]
    }

    open spec fn from_bytes(b: Seq<u8>) -> Self {
        ((b[0] as u16) | ((b[1] as u16) << 8)) as i16
    }

    proof fn lemma_size() {
    }

    proof fn lemma_glenum() {
    }

    proof fn lemma_to_bytes(self) {
        let x = self;
        assert(((((x as u16) & 0xff) as u8 as u16) | ((((x as u16) >> 8) as u8 as u16) << 8))
            as i16 == x) by (bit_vector);
    }

    fn size() -> (r: usize) {
        2
    }

    fn to_glenum() -> (r: u32) {
        GL_SHORT
    }

    fn write_to(self, out: &mut Vec<u8>) {
        let bits: u16 = self as u16;
        let lo: u8 = (bits & 0xff) as u8;
        let hi: u8 = (bits >> 8) as u8;
        out.push(lo);
        out.push(hi);
        proof {
            assert(out@ =~= old(out)@ + self.to_bytes());
        }
    }

    fn store_to(self, buf: &mut Vec<u8>, off: usize) {
        let n: usize = buf.len();
        let bits: u16 = self as u16;
        let lo: u8 = (bits & 0xff) as u8;
        let hi: u8 = (bits >> 8) as u8;
        buf.set(off, lo);
        buf.set(off + 1, hi);
        proof {
            assert(buf@ =~= old(buf)@.subrange(0, off as int) + self.to_bytes()
                + old(buf)@.subrange(off + 2, old(buf)@.len() as int));
        }
    }

    fn read_from(buf: &Vec<u8>, off: usize) -> (r: Self) {
        let n: usize = buf.len();
        let lo = buf[off];
        let hi = buf[off + 1];
        let r = ((lo as u16) | ((hi as u16) << 8)) as i16;
        proof {
            let b = buf@.subrange(off as int, off + 2);
            assert(b[0] == buf@[off as int]);
            assert(b[1] == buf@[off + 1]);
        }
        r
    }
}

impl GLVertexType for i32 {
    open spec fn spec_size() -> int {
        4
    }

    open spec fn spec_glenum() -> u32 {
        GL_INT
    }

    open spec fn to_bytes(self) -> Seq<u8> {
        seq![
            ((self as u32) & 0xff) as u8,
            (((self as u32) >> 8) & 0xff) as u8,
            (((self as u32) >> 16) & 0xff) as u8,
            ((self as u32) >> 24) as u8,
        ]
    }

    open spec fn from_bytes(b: Seq<u8>) -> Self {
        ((b[0] as u32) | ((b[1] as u32) << 8) | ((b[2] as u32) << 16) | ((b[3] as u32) << 24))
            as i32
    }

    proof fn lemma_size() {
    }

    proof fn lemma_glenum() {
    }

    proof fn lemma_to_bytes(self) {
        let x = self;
        assert(((((x as u32) & 0xff) as u8 as u32) | (((((x as u32) >> 8) & 0xff) as u8
            as u32) << 8) | (((((x as u32) >> 16) & 0xff) as u8 as u32) << 16) | ((((x
            as u32) >> 24) as u8 as u32) << 24)) as i32 == x) by (bit_vector);
    }

    fn size() -> (r: usize) {
        4
    }

    fn to_glenum() -> (r: u32) {
        GL_INT
    }

    fn write_to(self, out: &mut Vec<u8>) {
        let bits: u32 = self as u32;
        let b0: u8 = (bits & 0xff) as u8;
        let b1: u8 = ((bits >> 8) & 0xff) as u8;
        let b2: u8 = ((bits >> 16) & 0xff) as u8;
        let b3: u8 = (bits >> 24) as u8;
        out.push(b0);
        out.push(b1);
        out.push(b2);
        out.push(b3);
        proof {
            assert(out@ =~= old(out)@ + self.to_bytes());
        }
    }

    fn store_to(self, buf: &mut Vec<u8>, off: usize) {
        let n: usize = buf.len();
        let bits: u32 = self as u32;
        let b0: u8 = (bits & 0xff) as u8;
        let b1: u8 = ((bits >> 8) & 0xff) as u8;
        let b2: u8 = ((bits >> 16) & 0xff) as u8;
        let b3: u8 = (bits >> 24) as u8;
        buf.set(off, b0);
        buf.set(off + 1, b1);
        buf.set(off + 2, b2);
        buf.set(off + 3, b3);
        proof {
            assert(buf@ =~= old(buf)@.subrange(0, off as int) + self.to_bytes()
                + old(buf)@.subrange(off + 4, old(buf)@.len() as int));
        }
    }

    fn read_from(buf: &Vec<u8>, off: usize) -> (r: Self) {
        let n: usize = buf.len();
        let b0 = buf[off];
        let b1 = buf[off + 1];
        let b2 = buf[off + 2];
        let b3 = buf[off + 3];
        let r = ((b0 as u32) | ((b1 as u32) << 8) | ((b2 as u32) << 16) | ((b3 as u32) << 24))
            as i32;
        proof {
            let b = buf@.subrange(off as int, off + 4);
            assert(b[0] == buf@[off as int]);
            assert(b[1] == buf@[off + 1]);
            assert(b[2] == buf@[off + 2]);
            assert(b[3] == buf@[off + 3]);
        }
        r
    }
}

impl GLIndexType for u8 {
    open spec fn spec_max() -> int {
        0xff
    }

    open spec fn to_int(self) -> int {
        self as int
    }

    open spec fn from_int(v: int) -> Self {
        v as u8
    }

    proof fn lemma_int() {
    }

    fn from_usize(value: usize) -> (r: Self) {
        value as u8
    }

    fn to_usize(self) -> (r: usize) {
        self as usize
    }

    fn rebase(self, base: usize) -> (r: Self) {
        self + (base as u8)
    }
}

impl GLIndexType for u16 {
    open spec fn spec_max() -> int {
        0xffff
    }

    open spec fn to_int(self) -> int {
        self as int
    }

    open spec fn from_int(v: int) -> Self {
        v as u16
    }

    proof fn lemma_int() {
    }

    fn from_usize(value: usize) -> (r: Self) {
        value as u16
    }

    fn to_usize(self) -> (r: usize) {
        self as usize
    }

    fn rebase(self, base: usize) -> (r: Self) {
        self + (base as u16)
    }
}

impl GLIndexType for u32 {
    open spec fn spec_max() -> int {
        0xffff_ffff
    }

    open spec fn to_int(self) -> int {
        self as int
    }

    open spec fn from_int(v: int) -> Self {
        v as u32
    }

    proof fn lemma_int() {
    }

    fn from_usize(value: usize) -> (r: Self) {
        value as u32
    }

    fn to_usize(self) -> (r: usize) {
        self as usize
    }

    fn rebase(self, base: usize) -> (r: Self) {
        self + (base as u32)
    }
}

} // verus!
