//! Allocation-reusing conversions for the elements of a vector, a boxed
//! slice, or a box.
//!
//! Converting a container of `A` values into a container of `B` values
//! normally allocates fresh storage and copies every element. When the two
//! element layouts are compatible, the backing storage of the input can be
//! reused for the output instead. This crate decides when that reuse is
//! legal (the compatibility oracle in [`compat`]) and performs the
//! element-by-element transformation (the engine in [`engine`]), for three
//! container shapes: `Vec<A>`, `Box<[A]>`, and `Box<A>`.
//!
//! Each shape offers a lenient entry point (`map`, and `filter_map` for
//! vectors), which silently falls back to a freshly allocated container
//! when the layouts are incompatible, and a strict entry point
//! (`map_in_place`, `filter_map_in_place`), which demands compatible
//! layouts up front.

pub mod box_transforms;
pub mod compat;
pub mod engine;
pub mod samples;
pub mod slice_transforms;
pub mod vec_transforms;

pub use box_transforms::MapBoxInPlace;
pub use compat::{classify, layouts_reusable, Mode, Verdict};
pub use samples::{nfv, ns, nv};
pub use slice_transforms::MapSliceInPlace;
pub use vec_transforms::MapVecInPlace;
