//! A CPU-side mesh-buffer model for a graphics pipeline.
//!
//! The library packs per-vertex position, color and index data into
//! contiguous byte buffers ready for upload to a graphics device, merges
//! independently built shapes into one buffer while rebasing index values,
//! and models the scoped-write protocol that refreshes a device buffer from
//! its CPU mirror.  Everything that touches the device itself (window and
//! context creation, the raw calls) lives outside this crate; here live the
//! binary layout, the algorithms and their proofs.

use vstd::prelude::*;

pub mod buffer;
pub mod buffers;
pub mod codec;
pub mod game_of_life;
pub mod opengl;
pub mod primitives;
pub mod simple;
pub mod uniform;
pub mod updater;
pub mod vao;
pub mod vertex;

use crate::opengl::{GLIndexType, GLVertexType};

verus! {

/// The capability a shape producer needs to take part in building or
/// merging: it reports a vertex array, an index array and a color array.
///
/// A producer should already be in its base representation when it
/// implements this; richer shape descriptions convert down first.
pub trait Drawable<V: GLVertexType, I: GLIndexType, C: GLVertexType> {
    /// The producer is in a fit state to report its arrays.
    spec fn inv(&self) -> bool;

    /// The vertex array the producer reports.
    spec fn vertices(&self) -> Seq<V>;

    /// The index array the producer reports, referencing its own
    /// vertices.
    spec fn indices(&self) -> Seq<I>;

    /// The color array the producer reports.
    spec fn colors(&self) -> Seq<C>;

    /// The vertex array the producer reports.
    fn get_vertices(&self) -> (r: Vec<V>)
        requires
            self.inv(),
        ensures
            r@ == self.vertices(),
    ;

    /// The index array the producer reports.
    fn get_indices(&self) -> (r: Vec<I>)
        requires
            self.inv(),
        ensures
            r@ == self.indices(),
    ;

    /// The color array the producer reports.
    fn get_colors(&self) -> (r: Vec<C>)
        requires
            self.inv(),
        ensures
            r@ == self.colors(),
    ;
}

/// A conversion into a drawable form, for producers that must first
/// materialize their packed representation.
pub trait IntoDrawable<V: GLVertexType, I: GLIndexType, C: GLVertexType> {
    /// The drawable form the value converts into.
    type IntoDrawable: Drawable<V, I, C>;

    /// Convert into a value ready to be drawn.
    fn into_drawable(self) -> Self::IntoDrawable;
}

/// A rectangular grid of index values, counted left to right, top to bottom.
pub struct IndexGrid<I> {
    pub width: usize,
    pub height: usize,
    pub indices: Vec<I>,
}

impl<I> IndexGrid<I> {
    /// Create a new grid.
    ///
    /// Returns `None` when a dimension is zero or when the number of
    /// indices does not match `width * height`.
    pub fn new(width: usize, height: usize, indices: Vec<I>) -> (r: Option<Self>)
        ensures
            width == 0 || height == 0 ==> r is None,
            width >= 1 && height >= 1 && indices@.len() == width * height ==> (r
                matches Some(g) && g.width == width && g.height == height && g.indices
                == indices),
            indices@.len() != width * height ==> r is None,
    {
        if width == 0 || height == 0 {
            return None;
        }
        let count = indices.len();
        let area = match width.checked_mul(height) {
            Some(a) => a,
            None => {
                // the product does not fit in usize, so no Vec can hold
                // that many elements
                return None;
            },
        };
        if count != area {
            None
        } else {
            Some(Self { width, height, indices })
        }
    }
}

} // verus!
