//! The transform engine: walks the elements of a consumed container in
//! source order, applies the caller's function to each, and collects the
//! results — either into the input's own backing storage, when the
//! compatibility oracle allows it, or into a fresh container.

use vstd::prelude::*;

verus! {

/// The sequence of outputs that a pass keeps: one entry of `ds` per source
/// element, in source order; `Some` entries survive in order, `None`
/// entries leave no trace.
pub open spec fn kept<B>(ds: Seq<Option<B>>) -> Seq<B>
    decreases ds.len(),
{
    if ds.len() == 0 {
        Seq::empty()
    } else {
        match ds.last() {
            Some(b) => kept(ds.drop_last()).push(b),
            None => kept(ds.drop_last()),
        }
    }
}

/// `f` may be called on every element of `input`.
pub open spec fn callable_on<A, R, F: FnOnce(A) -> R>(f: F, input: Seq<A>) -> bool {
    forall|i: int| 0 <= i < input.len() ==> call_requires(f, (#[trigger] input[i],))
}

/// `ds` records, element by element and in source order, an outcome that
/// `f` can produce on the corresponding element of `input`.
pub open spec fn decided<A, B, F: FnOnce(A) -> Option<B>>(
    f: F,
    input: Seq<A>,
    ds: Seq<Option<B>>,
) -> bool {
    &&& ds.len() == input.len()
    &&& forall|i: int| 0 <= i < ds.len() ==> call_ensures(f, (input[i],), #[trigger] ds[i])
}

/// Order and filtering law: `output` is, in source order, a possible
/// result of `f` on each element of `input` where that result is present;
/// dropped elements leave no trace.
pub open spec fn filter_transformed<A, B, F: FnOnce(A) -> Option<B>>(
    f: F,
    input: Seq<A>,
    output: Seq<B>,
) -> bool {
    exists|ds: Seq<Option<B>>| #[trigger] decided(f, input, ds) && output == kept(ds)
}

/// `output` holds, in source order, a possible result of `f` on every
/// element of `input`, one output per input.
pub open spec fn transformed<A, B, F: FnOnce(A) -> B>(
    f: F,
    input: Seq<A>,
    output: Seq<B>,
) -> bool {
    &&& output.len() == input.len()
    &&& forall|i: int| 0 <= i < input.len() ==> call_ensures(f, (input[i],), #[trigger] output[i])
}

/// The verified walk used whenever the storage is not reused: consume the
/// source vector front to back, apply `f` to each element, and push every
/// present result onto a fresh vector.
pub(crate) fn fallback_filter_map<A, B, F: Fn(A) -> Option<B>>(input: Vec<A>, f: F) -> (out: Vec<
    B,
>)
    requires
        callable_on(f, input@),
    ensures
        filter_transformed(f, input@, out@),
{
    let ghost whole: Seq<A> = input@;
    let mut src = input;
    let mut out: Vec<B> = Vec::new();
    let ghost mut ds: Seq<Option<B>> = Seq::empty();
    while src.len() > 0
        invariant
            callable_on(f, whole),
            ds.len() + src@.len() == whole.len(),
            src@ == whole.skip(ds.len() as int),
            decided(f, whole.take(ds.len() as int), ds),
            out@ == kept(ds),
        decreases src@.len(),
    {
        let ghost k = ds.len() as int;
        assert(src@[0] == whole[k]);
        let a = src.remove(0);
        let d = f(a);
        let ghost dd = d;
        match d {
            Some(b) => out.push(b),
            None => (),
        }
        proof {
            assert(ds.push(dd).drop_last() =~= ds);
            assert(whole.take(k + 1) =~= whole.take(k).push(whole[k]));
            assert(src@ =~= whole.skip(k + 1));
            ds = ds.push(dd);
        }
    }
    proof {
        assert(whole.take(ds.len() as int) =~= whole);
        assert(decided(f, whole, ds) && out@ == kept(ds));
    }
    out
}

/// Reuses the input vector's storage for the output whenever the element
/// layouts allow it, falling back to a fresh allocation otherwise.
///
/// Relies on `Vec::into_iter`, `Iterator::filter_map` and
/// `Iterator::collect` from alloc: the iterator yields the elements in
/// source order, `filter_map` keeps the present results in that order, and
/// collecting an owning vector iterator back into a vector writes the
/// results over the source allocation when the new element size divides
/// the old one and the new alignment does not exceed the old one — the
/// compatibility oracle's `Reusable` verdict, which the strict entry
/// points demand before they reach this call, implies both. On a panic
/// inside `f`, that machinery destroys the remaining source elements and
/// the partial output before unwinding further.
#[verifier::external_body]
pub(crate) fn filter_map_reusing<A, B, F: Fn(A) -> Option<B>>(input: Vec<A>, f: F) -> (out: Vec<B>)
    requires
        callable_on(f, input@),
    ensures
        filter_transformed(f, input@, out@),
{
    input.into_iter().filter_map(f).collect()
}

/// The verified walk used whenever the storage is not reused: consume the
/// source vector front to back, apply `f` to each element, and push each
/// result onto a fresh vector.
pub(crate) fn fallback_map<A, B, F: Fn(A) -> B>(input: Vec<A>, f: F) -> (out: Vec<B>)
    requires
        callable_on(f, input@),
    ensures
        transformed(f, input@, out@),
{
    let ghost whole: Seq<A> = input@;
    let mut src = input;
    let mut out: Vec<B> = Vec::new();
    while src.len() > 0
        invariant
            callable_on(f, whole),
            out@.len() + src@.len() == whole.len(),
            src@ == whole.skip(out@.len() as int),
            forall|i: int| 0 <= i < out@.len() ==> call_ensures(f, (whole[i],), #[trigger] out@[i]),
        decreases src@.len(),
    {
        let ghost k = out@.len() as int;
        assert(src@[0] == whole[k]);
        let a = src.remove(0);
        let b = f(a);
        out.push(b);
        proof {
            assert(src@ =~= whole.skip(k + 1));
        }
    }
    out
}

/// Reuses the input vector's storage for the output whenever the element
/// layouts allow it, falling back to a fresh allocation otherwise.
///
/// Relies on `Vec::into_iter`, `Iterator::map` and `Iterator::collect`
/// from alloc, exactly as [`filter_map_reusing`] relies on the
/// `filter_map` chain: the elements are visited in source order, one
/// output per input, and the collect step writes the results over the
/// source allocation when the layouts allow it.
#[verifier::external_body]
pub(crate) fn map_reusing<A, B, F: Fn(A) -> B>(input: Vec<A>, f: F) -> (out: Vec<B>)
    requires
        callable_on(f, input@),
    ensures
        transformed(f, input@, out@),
{
    input.into_iter().map(f).collect()
}

/// `f` can complete normally on `a`, producing some decision.
pub open spec fn succeeds_on<A, B, E, F: FnOnce(A) -> Result<Option<B>, E>>(f: F, a: A) -> bool {
    exists|d: Option<B>| call_ensures(f, (a,), Ok(d))
}

/// `ds` records, element by element and in source order, a decision that
/// `f` can complete normally with on the corresponding element of `input`.
pub open spec fn decided_ok<A, B, E, F: FnOnce(A) -> Result<Option<B>, E>>(
    f: F,
    input: Seq<A>,
    ds: Seq<Option<B>>,
) -> bool {
    &&& ds.len() == input.len()
    &&& forall|i: int| 0 <= i < ds.len() ==> call_ensures(f, (input[i],), Ok(#[trigger] ds[i]))
}

/// `f` terminated abnormally with `e` on some element of `input`, every
/// element before that one having completed normally.
pub open spec fn aborted_at<A, B, E, F: FnOnce(A) -> Result<Option<B>, E>>(
    f: F,
    input: Seq<A>,
    e: E,
) -> bool {
    exists|k: int|
        0 <= k < input.len() && #[trigger] call_ensures(f, (input[k],), Err::<Option<B>, E>(e)) && (
        forall|i: int| 0 <= i < k ==> succeeds_on(f, #[trigger] input[i]))
}

/// The engine's pass with a transformation that may terminate abnormally,
/// the abnormal outcome modelled as `Err`. The elements are consumed in
/// source order; the first abnormal outcome stops the walk. Everything the
/// pass owns at that point — the elements not yet visited and the partial
/// output already produced — is consumed right here, destroyed once each
/// by ownership, and the abnormal outcome is passed on unchanged, never
/// swallowed.
pub fn try_filter_map<A, B, E, F: Fn(A) -> Result<Option<B>, E>>(input: Vec<A>, f: F) -> (out:
    Result<Vec<B>, E>)
    requires
        callable_on(f, input@),
    ensures
        out matches Ok(v) ==> exists|ds: Seq<Option<B>>|
            #[trigger] decided_ok(f, input@, ds) && v@ == kept(ds),
        out matches Err(e) ==> aborted_at(f, input@, e),
{
    let ghost whole: Seq<A> = input@;
    let mut src = input;
    let mut out: Vec<B> = Vec::new();
    let ghost mut ds: Seq<Option<B>> = Seq::empty();
    while src.len() > 0
        invariant
            whole == input@,
            callable_on(f, whole),
            ds.len() + src@.len() == whole.len(),
            src@ == whole.skip(ds.len() as int),
            decided_ok(f, whole.take(ds.len() as int), ds),
            out@ == kept(ds),
        decreases src@.len(),
    {
        let ghost k = ds.len() as int;
        assert(src@[0] == whole[k]);
        let a = src.remove(0);
        let r = f(a);
        let ghost rr = r;
        match r {
            Ok(d) => {
                let ghost dd = d;
                match d {
                    Some(b) => out.push(b),
                    None => (),
                }
                proof {
                    assert(ds.push(dd).drop_last() =~= ds);
                    assert(whole.take(k + 1) =~= whole.take(k).push(whole[k]));
                    assert(src@ =~= whole.skip(k + 1));
                    ds = ds.push(dd);
                }
            },
            Err(e) => {
                proof {
                    assert(call_ensures(f, (whole[k],), rr));
                    assert(rr == Err::<Option<B>, E>(e));
                    assert forall|i: int| 0 <= i < k implies succeeds_on(
                        f,
                        #[trigger] whole[i],
                    ) by {
                        assert(call_ensures(f, (whole.take(k)[i],), Ok(ds[i])));
                    }
                    assert(aborted_at(f, input@, e));
                }
                // The not-yet-visited elements in `src` and the partial
                // output in `out` go out of scope here: each is destroyed
                // exactly once before the abnormal outcome is passed on.
                return Err(e);
            },
        }
    }
    proof {
        assert(whole.take(ds.len() as int) =~= whole);
        assert(decided_ok(f, whole, ds) && out@ == kept(ds));
    }
    Ok(out)
}

/// Fallback equivalence, filtering form: when the transformation is
/// deterministic — equal arguments can only produce equal decisions — all
/// strategies agree: any two outputs a filtering pass can produce from one
/// input are the same sequence, whether the storage was reused or a fresh
/// container was filled.
pub proof fn lemma_filter_transform_deterministic<A, B, F: FnOnce(A) -> Option<B>>(
    f: F,
    input: Seq<A>,
    out1: Seq<B>,
    out2: Seq<B>,
)
    requires
        forall|a: A, r1: Option<B>, r2: Option<B>|
            #![trigger call_ensures(f, (a,), r1), call_ensures(f, (a,), r2)]
            call_ensures(f, (a,), r1) && call_ensures(f, (a,), r2) ==> r1 == r2,
        filter_transformed(f, input, out1),
        filter_transformed(f, input, out2),
    ensures
        out1 == out2,
{
    let ds1 = choose|ds: Seq<Option<B>>| #[trigger] decided(f, input, ds) && out1 == kept(ds);
    let ds2 = choose|ds: Seq<Option<B>>| #[trigger] decided(f, input, ds) && out2 == kept(ds);
    assert forall|i: int| 0 <= i < ds1.len() implies ds1[i] == ds2[i] by {
        assert(call_ensures(f, (input[i],), ds1[i]));
        assert(call_ensures(f, (input[i],), ds2[i]));
    }
    assert(ds1 =~= ds2);
}

/// Fallback equivalence, one-for-one form: when the transformation is
/// deterministic, any two outputs a plain mapping pass can produce from
/// one input are the same sequence.
pub proof fn lemma_transform_deterministic<A, B, F: FnOnce(A) -> B>(
    f: F,
    input: Seq<A>,
    out1: Seq<B>,
    out2: Seq<B>,
)
    requires
        forall|a: A, r1: B, r2: B|
            #![trigger call_ensures(f, (a,), r1), call_ensures(f, (a,), r2)]
            call_ensures(f, (a,), r1) && call_ensures(f, (a,), r2) ==> r1 == r2,
        transformed(f, input, out1),
        transformed(f, input, out2),
    ensures
        out1 == out2,
{
    assert forall|i: int| 0 <= i < out1.len() implies out1[i] == out2[i] by {
        assert(call_ensures(f, (input[i],), out1[i]));
        assert(call_ensures(f, (input[i],), out2[i]));
    }
    assert(out1 =~= out2);
}

} // verus!
