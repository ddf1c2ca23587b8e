//! A native memory arena for objects whose shape is described at run time by
//! a host object system: a decoder for compact type-signature strings, class
//! layouts assembled from host-supplied field descriptors, and an arena
//! allocator that hands out zero-initialized, stably owned instance storage.

pub mod allocators;
pub mod classes;

use vstd::prelude::*;

verus! {

/// Byte width of a reference (object or array) value: the platform pointer
/// width this arena targets.
pub const REFERENCE_WIDTH: usize = 8;

} // verus!
