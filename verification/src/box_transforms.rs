//! Transformation of a single boxed value: the exact shape. A box holds
//! exactly one element and no spare capacity, so its storage suits the new
//! type only when the two layouts agree exactly.

use vstd::prelude::*;

use crate::compat::{reusable_for, Mode};

verus! {

/// Replace the single value held by a box with one that may have another
/// type.
pub trait MapBoxInPlace<A>: Sized {
    /// The value the container holds.
    spec fn inner(self) -> A;

    /// Replace the value with the result of `f` on it. When the two
    /// layouts agree exactly the old slot is released before the
    /// replacement is boxed, so the allocator can hand the same block
    /// back; otherwise the old slot is kept until the replacement has been
    /// boxed.
    fn map<B, F: FnOnce(A) -> B>(self, f: F) -> (out: Box<B>)
        requires
            call_requires(f, (self.inner(),)),
        ensures
            call_ensures(f, (self.inner(),), *out),
    ;

    /// Replace the value with the result of `f` on it, releasing the old
    /// slot before the replacement is boxed. The caller must have
    /// established that the two layouts agree exactly.
    fn map_in_place<B, F: FnOnce(A) -> B>(self, f: F) -> (out: Box<B>)
        requires
            reusable_for::<A, B>(Mode::Exact),
            call_requires(f, (self.inner(),)),
        ensures
            call_ensures(f, (self.inner(),), *out),
    ;
}

/// Take the value out of a box, releasing the box's storage before this
/// function returns.
fn unbox<A>(b: Box<A>) -> (a: A)
    ensures
        a == *b,
{
    *b
}

impl<A> MapBoxInPlace<A> for Box<A> {
    open spec fn inner(self) -> A {
        *self
    }

    fn map<B, F: FnOnce(A) -> B>(self, f: F) -> (out: Box<B>) {
        // The old storage stays allocated until this function returns, so
        // the replacement's box is a distinct block.
        let b = f(*self);
        Box::new(b)
    }

    fn map_in_place<B, F: FnOnce(A) -> B>(self, f: F) -> (out: Box<B>) {
        // `unbox` returns the old storage to the allocator first: with
        // exactly agreeing layouts the replacement's box can be served
        // from the same block.
        let a = unbox(self);
        let b = f(a);
        Box::new(b)
    }
}

/// Round-trip law: replacing a boxed value through a transformation that
/// can only hand its argument back yields the value unchanged.
pub proof fn lemma_box_round_trip<A, F: FnOnce(A) -> A>(f: F, v: A, w: A)
    requires
        forall|a: A, b: A| #[trigger] call_ensures(f, (a,), b) ==> b == a,
        call_ensures(f, (v,), w),
    ensures
        w == v,
{
}

} // verus!
