//! Small sample containers: four-element vectors and boxed slices with
//! known contents, convenient for exercising the transforms.

use vstd::prelude::*;

verus! {

/// A four-element vector holding `fill` in every slot.
pub fn nv<T: Copy>(fill: T) -> (v: Vec<T>)
    ensures
        v@ == seq![fill, fill, fill, fill],
{
    let mut v: Vec<T> = Vec::new();
    v.push(fill);
    v.push(fill);
    v.push(fill);
    v.push(fill);
    proof {
        assert(v@ =~= seq![fill, fill, fill, fill]);
    }
    v
}

/// A four-element vector holding `f(0)` through `f(3)`, in order.
pub fn nfv<T, F: Fn(u32) -> T>(f: F) -> (v: Vec<T>)
    requires
        forall|i: u32| i < 4 ==> call_requires(f, (i,)),
    ensures
        v@.len() == 4,
        forall|i: int| 0 <= i < 4 ==> call_ensures(f, ((i as u32),), #[trigger] v@[i]),
{
    let mut v: Vec<T> = Vec::new();
    v.push(f(0));
    v.push(f(1));
    v.push(f(2));
    v.push(f(3));
    v
}

/// A four-element boxed slice holding `fill` in every slot.
pub fn ns<T: Copy>(fill: T) -> (b: Box<[T]>)
    ensures
        b@ == seq![fill, fill, fill, fill],
{
    crate::slice_transforms::into_boxed(nv(fill))
}

} // verus!
