//! The capability a shader-uniform slot implements.
//!
//! A uniform handle sends values of one type to the device; obtaining a
//! handle from a shader program yields the slot's location, or `-1` when
//! the program has no such uniform.  The device call itself belongs to the
//! implementing type, outside this crate.

use vstd::prelude::*;

verus! {

/// A slot that can be filled with values of type `T`: implementors send
/// the value to the device.
pub trait Uniform<T> {
    /// Send one value to the device.
    fn update(&self, data: T);
}

/// A uniform slot made from a raw location id, as a shader program
/// reports it.
pub trait GLUniform<T>: Uniform<T> + From<i32> + Sized {
    /// The slot for a reported location: `None` exactly when the program
    /// reported no such uniform (location `-1`).
    fn new(id: i32) -> (r: Option<Self>)
        ensures
            r is Some <==> id != -1,
    {
        if id == -1 {
            None
        } else {
            Some(Self::from(id))
        }
    }
}

} // verus!
