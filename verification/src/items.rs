//! The items a value of the pipeline yields, and copying them.
//!
//! A value of the pipeline is the finite sequence of results it yields, held
//! as a `Vec<Result<T, E>>`; its model is the sequence of the results' models.
use vstd::prelude::*;

verus! {

broadcast use vstd::seq::group_seq_axioms, vstd::seq_lib::group_seq_properties;

/// Types whose values can be copied into a value with the same model.
pub trait Duplicate: View + Sized {
    fn duplicate(&self) -> (r: Self)
        ensures
            r@ == self@,
    ;
}

impl Duplicate for String {
    fn duplicate(&self) -> (r: Self) {
        self.clone()
    }
}

/// The error of a value that cannot fail: no value of this type exists.
#[derive(Debug, PartialEq)]
pub struct Never(pub core::convert::Infallible);

impl View for Never {
    type V = ();

    open spec fn view(&self) -> () {
        ()
    }
}

impl Duplicate for Never {
    fn duplicate(&self) -> (r: Self)
        ensures
            r == *self,
    {
        Never(self.0)
    }
}

/// The model of one result.
pub open spec fn result_model<T: View, E: View>(r: Result<T, E>) -> Result<T::V, E::V> {
    match r {
        Ok(t) => Ok(t@),
        Err(e) => Err(e@),
    }
}

/// The model of a sequence of results.
pub open spec fn items_model<T: View, E: View>(s: Seq<Result<T, E>>) -> Seq<Result<T::V, E::V>> {
    s.map_values(|r: Result<T, E>| result_model(r))
}

/// Models distribute over concatenation and over `take`.
pub proof fn lemma_items_model_add<T: View, E: View>(a: Seq<Result<T, E>>, b: Seq<Result<T, E>>)
    ensures
        items_model(a + b) == items_model(a) + items_model(b),
{
    assert(items_model(a + b) =~= items_model(a) + items_model(b));
}

/// Appending one result appends its model.
pub proof fn lemma_items_model_push<T: View, E: View>(a: Seq<Result<T, E>>, r: Result<T, E>)
    ensures
        items_model(a.push(r)) == items_model(a).push(result_model(r)),
{
    assert(items_model(a.push(r)) =~= items_model(a).push(result_model(r)));
}

/// One more input appends its outputs to a `flat_map`.
pub proof fn lemma_flat_map_take<A, B>(s: Seq<A>, f: spec_fn(A) -> Seq<B>, i: int)
    requires
        0 <= i < s.len(),
    ensures
        s.take(i + 1).flat_map(f) == s.take(i).flat_map(f) + f(s[i]),
{
    assert(s.take(i + 1).map_values(f) =~= s.take(i).map_values(f).push(f(s[i])));
    s.take(i).map_values(f).lemma_flatten_push(f(s[i]));
}

/// A copy of `items`, result by result.
pub fn duplicate_items<T: Duplicate, E: Duplicate>(items: &Vec<Result<T, E>>) -> (r: Vec<
    Result<T, E>,
>)
    ensures
        items_model(r@) == items_model(items@),
{
    let mut out: Vec<Result<T, E>> = Vec::new();
    let mut i: usize = 0;
    while i < items.len()
        invariant
            i <= items.len(),
            items_model(out@) == items_model(items@.take(i as int)),
        decreases items.len() - i,
    {
        let copy = match &items[i] {
            Ok(t) => Ok(t.duplicate()),
            Err(e) => Err(e.duplicate()),
        };
        proof {
            lemma_items_model_push(out@, copy);
            assert(items@.take(i + 1) =~= items@.take(i as int).push(items@[i as int]));
            lemma_items_model_push(items@.take(i as int), items@[i as int]);
        }
        out.push(copy);
        i += 1;
    }
    assert(items@.take(items.len() as int) =~= items@);
    out
}

/// The items of a value that yields each of `values` and cannot fail.
pub fn constant_items<T, E>(values: Vec<T>) -> (r: Vec<Result<T, E>>)
    ensures
        r@ == values@.map_values(|t: T| Ok::<T, E>(t)),
{
    let mut out: Vec<Result<T, E>> = Vec::new();
    for t in it: values.into_iter()
        invariant
            it.seq() == values@,
            out@ == values@.take(it.index() as int).map_values(|t: T| Ok::<T, E>(t)),
    {
        let ghost i = it.index();
        out.push(Ok(t));
        assert(values@.take(i + 1).map_values(|t: T| Ok::<T, E>(t)) =~= values@.take(
            i,
        ).map_values(|t: T| Ok::<T, E>(t)).push(Ok(t)));
    }
    assert(values@.take(values@.len() as int) =~= values@);
    out
}

/// The items of a value that yields `value` once and cannot fail.
pub fn single_item<T, E>(value: T) -> (r: Vec<Result<T, E>>)
    ensures
        r@ == seq![Ok::<T, E>(value)],
{
    let mut out: Vec<Result<T, E>> = Vec::new();
    out.push(Ok(value));
    out
}

} // verus!
