//! The compatibility oracle: decides from two element layouts whether the
//! backing storage of a container of `A` may be reinterpreted as storage
//! for `B`.

use vstd::prelude::*;

verus! {

/// Which rule relates the two element sizes.
///
/// A vector may hold spare capacity, so its storage can be reused whenever
/// the old element size is a whole multiple of the new one: the same bytes
/// then hold proportionally more elements. A boxed slice or a single box
/// has no such slack, so the sizes must agree exactly.
#[derive(Clone, Copy, Debug, PartialEq, Eq, Structural)]
pub enum Mode {
    /// The sizes of `A` and `B` must be identical.
    Exact,
    /// The size of `A` must be a whole multiple of the size of `B`.
    DivisibleAtoB,
}

/// The oracle's answer: either reuse is legal, or the reason it is not.
#[derive(Clone, Copy, Debug, PartialEq, Eq, Structural)]
pub enum Verdict {
    /// The storage may be reused.
    Reusable,
    /// One of the element types has size zero; reuse is meaningless.
    ZeroSized,
    /// The element alignments differ.
    AlignmentMismatch,
    /// Exact mode: the element sizes differ.
    SizeMismatch,
    /// Divisible mode: the old size is not a whole multiple of the new one.
    SizeNotDivisible,
}

/// What [`classify`] answers, as a function of the four layout numbers and
/// the mode.
pub open spec fn verdict_of(
    size_a: nat,
    align_a: nat,
    size_b: nat,
    align_b: nat,
    mode: Mode,
) -> Verdict {
    if size_a == 0 || size_b == 0 {
        Verdict::ZeroSized
    } else if align_a != align_b {
        Verdict::AlignmentMismatch
    } else if mode == Mode::Exact && size_a != size_b {
        Verdict::SizeMismatch
    } else if mode == Mode::DivisibleAtoB && size_a % size_b != 0 {
        Verdict::SizeNotDivisible
    } else {
        Verdict::Reusable
    }
}

/// Whether reusing the storage of a container of `A` for elements of `B`
/// is legal under the given mode.
pub open spec fn reusable_for<A, B>(mode: Mode) -> bool {
    verdict_of(
        vstd::layout::size_of::<A>(),
        vstd::layout::align_of::<A>(),
        vstd::layout::size_of::<B>(),
        vstd::layout::align_of::<B>(),
        mode,
    ) == Verdict::Reusable
}

/// Decides whether storage for elements of one layout may be reused for
/// elements of another. Pure: the answer depends on nothing but the four
/// numbers and the mode, and no storage is touched.
pub fn classify(
    size_a: usize,
    align_a: usize,
    size_b: usize,
    align_b: usize,
    mode: Mode,
) -> (v: Verdict)
    ensures
        v == verdict_of(size_a as nat, align_a as nat, size_b as nat, align_b as nat, mode),
{
    if size_a == 0 || size_b == 0 {
        Verdict::ZeroSized
    } else if align_a != align_b {
        Verdict::AlignmentMismatch
    } else {
        match mode {
            Mode::Exact => {
                if size_a != size_b {
                    Verdict::SizeMismatch
                } else {
                    Verdict::Reusable
                }
            },
            Mode::DivisibleAtoB => {
                if size_a % size_b != 0 {
                    Verdict::SizeNotDivisible
                } else {
                    Verdict::Reusable
                }
            },
        }
    }
}

/// Runs the oracle on the layouts of the two type parameters.
pub fn layouts_reusable<A, B>(mode: Mode) -> (r: bool)
    ensures
        r == reusable_for::<A, B>(mode),
{
    let v = classify(
        core::mem::size_of::<A>(),
        core::mem::align_of::<A>(),
        core::mem::size_of::<B>(),
        core::mem::align_of::<B>(),
        mode,
    );
    match v {
        Verdict::Reusable => true,
        _ => false,
    }
}

/// Compatibility law: the oracle answers `Reusable` exactly when neither
/// size is zero, the alignments agree, and the sizes fit the mode's rule
/// (equal in exact mode; old size a whole multiple of the new one in
/// divisible mode).
pub proof fn lemma_reusable_iff(size_a: nat, align_a: nat, size_b: nat, align_b: nat, mode: Mode)
    ensures
        verdict_of(size_a, align_a, size_b, align_b, mode) == Verdict::Reusable <==> (size_a != 0
            && size_b != 0 && align_a == align_b && (mode == Mode::Exact ==> size_a == size_b) && (
        mode == Mode::DivisibleAtoB ==> size_a % size_b == 0)),
{
}

/// A pair of layouts that passes in exact mode also passes in divisible
/// mode: equal nonzero sizes divide evenly.
pub proof fn lemma_exact_implies_divisible(size_a: nat, align_a: nat, size_b: nat, align_b: nat)
    requires
        verdict_of(size_a, align_a, size_b, align_b, Mode::Exact) == Verdict::Reusable,
    ensures
        verdict_of(size_a, align_a, size_b, align_b, Mode::DivisibleAtoB) == Verdict::Reusable,
{
    assert(size_a % size_b == 0) by {
        assert(size_a == size_b);
        assert(size_b != 0);
    };
}

} // verus!
