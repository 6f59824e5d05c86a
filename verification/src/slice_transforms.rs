//! Transformations over an owned boxed slice: the exact shape. A boxed
//! slice has no spare capacity — its length is its capacity — so its
//! storage suits the new element type only when the two layouts agree
//! exactly.

use vstd::prelude::*;

use crate::compat::{layouts_reusable, lemma_exact_implies_divisible, reusable_for, Mode};
use crate::engine::{callable_on, fallback_map, transformed};
use crate::vec_transforms::MapVecInPlace;

verus! {

/// Convert the elements of an owned boxed slice to another type, reusing
/// the slice's backing storage when the element layouts agree exactly.
pub trait MapSliceInPlace<A>: Sized + View<V = Seq<A>> {
    /// Map the elements as an iterator would, but reuse the allocation
    /// when the layouts agree exactly; fall back to a fresh allocation
    /// otherwise.
    fn map<B, F: Fn(A) -> B>(self, f: F) -> (out: Box<[B]>)
        requires
            callable_on(f, self@),
        ensures
            transformed(f, self@, out@),
    ;

    /// Map the elements over the input's own backing storage. The caller
    /// must have established that the two layouts agree exactly.
    fn map_in_place<B, F: Fn(A) -> B>(self, f: F) -> (out: Box<[B]>)
        requires
            reusable_for::<A, B>(Mode::Exact),
            callable_on(f, self@),
        ensures
            transformed(f, self@, out@),
    ;
}

/// Relies on `Vec::into_boxed_slice` from alloc: the boxed slice holds
/// exactly the vector's elements in order. When the vector's length equals
/// its capacity — always the case on the paths below, which fill every
/// slot they allocate — no new allocation is made.
#[verifier::external_body]
pub(crate) fn into_boxed<T>(v: Vec<T>) -> (b: Box<[T]>)
    ensures
        b@ == v@,
{
    v.into_boxed_slice()
}

impl<A> MapSliceInPlace<A> for Box<[A]> {
    fn map<B, F: Fn(A) -> B>(self, f: F) -> (out: Box<[B]>) {
        if layouts_reusable::<A, B>(Mode::Exact) {
            self.map_in_place(f)
        } else {
            let v: Vec<A> = self.into_vec();
            into_boxed(fallback_map(v, f))
        }
    }

    fn map_in_place<B, F: Fn(A) -> B>(self, f: F) -> (out: Box<[B]>) {
        proof {
            lemma_exact_implies_divisible(
                vstd::layout::size_of::<A>(),
                vstd::layout::align_of::<A>(),
                vstd::layout::size_of::<B>(),
                vstd::layout::align_of::<B>(),
            );
        }
        let v: Vec<A> = self.into_vec();
        into_boxed(v.map_in_place(f))
    }
}

} // verus!
