//! Transformations over an owned vector: the divisible-size shape. The
//! vector may hold spare capacity, so its storage is reusable whenever the
//! old element size is a whole multiple of the new one.

use vstd::prelude::*;

use crate::compat::{layouts_reusable, reusable_for, Mode};
use crate::engine::{
    callable_on, fallback_filter_map, fallback_map, filter_map_reusing, filter_transformed,
    map_reusing, transformed,
};

verus! {

/// Convert the elements of an owned vector to another type, reusing the
/// vector's backing storage when the element layouts allow it.
pub trait MapVecInPlace<A>: Sized + View<V = Seq<A>> {
    /// Map the elements as an iterator would, but reuse the allocation
    /// when the layouts are compatible in divisible mode; fall back to a
    /// fresh allocation otherwise.
    fn map<B, F: Fn(A) -> B>(self, f: F) -> (out: Vec<B>)
        requires
            callable_on(f, self@),
        ensures
            transformed(f, self@, out@),
    ;

    /// Map the elements over the input's own backing storage. The caller
    /// must have established that the layouts are compatible in divisible
    /// mode: the alignments equal and the size of `A` a whole multiple of
    /// the size of `B`.
    fn map_in_place<B, F: Fn(A) -> B>(self, f: F) -> (out: Vec<B>)
        requires
            reusable_for::<A, B>(Mode::DivisibleAtoB),
            callable_on(f, self@),
        ensures
            transformed(f, self@, out@),
    ;

    /// Map the elements, keeping only the present results, in source
    /// order; reuse the allocation when the layouts are compatible in
    /// divisible mode, fall back to a fresh one otherwise.
    fn filter_map<B, F: Fn(A) -> Option<B>>(self, f: F) -> (out: Vec<B>)
        requires
            callable_on(f, self@),
        ensures
            filter_transformed(f, self@, out@),
    ;

    /// Map the elements over the input's own backing storage, keeping only
    /// the present results, in source order. The caller must have
    /// established that the layouts are compatible in divisible mode.
    fn filter_map_in_place<B, F: Fn(A) -> Option<B>>(self, f: F) -> (out: Vec<B>)
        requires
            reusable_for::<A, B>(Mode::DivisibleAtoB),
            callable_on(f, self@),
        ensures
            filter_transformed(f, self@, out@),
    ;
}

impl<A> MapVecInPlace<A> for Vec<A> {
    fn map<B, F: Fn(A) -> B>(self, f: F) -> (out: Vec<B>) {
        if layouts_reusable::<A, B>(Mode::DivisibleAtoB) {
            map_reusing(self, f)
        } else {
            fallback_map(self, f)
        }
    }

    fn map_in_place<B, F: Fn(A) -> B>(self, f: F) -> (out: Vec<B>) {
        map_reusing(self, f)
    }

    fn filter_map<B, F: Fn(A) -> Option<B>>(self, f: F) -> (out: Vec<B>) {
        if layouts_reusable::<A, B>(Mode::DivisibleAtoB) {
            filter_map_reusing(self, f)
        } else {
            fallback_filter_map(self, f)
        }
    }

    fn filter_map_in_place<B, F: Fn(A) -> Option<B>>(self, f: F) -> (out: Vec<B>) {
        filter_map_reusing(self, f)
    }
}

} // verus!
