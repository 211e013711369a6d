//! Resolving a link against the address of the page it was found on.
use vstd::prelude::*;

verus! {

#[verifier::external_type_specification]
#[verifier::external_body]
pub struct ExUrlParseError(url::ParseError);

/// What `url` makes of `reference` resolved against `base`: the address it
/// serializes to, or the error that parsing `base` or joining reports.
pub uninterp spec fn spec_join_url(base: Seq<char>, reference: Seq<char>) -> Result<
    Seq<char>,
    url::ParseError,
>;

/// `url::Url::parse(base)`, then `Url::join(reference)` on the result, then
/// the joined address as text (`Display`). The result depends on the two
/// texts alone; what it is, following the URL standard, is left to the name.
#[verifier::external_body]
pub(crate) fn join_url(base: &str, reference: &str) -> (r: Result<String, url::ParseError>)
    ensures
        match r {
            Ok(s) => spec_join_url(base@, reference@) == Ok::<Seq<char>, url::ParseError>(s@),
            Err(e) => spec_join_url(base@, reference@) == Err::<Seq<char>, url::ParseError>(e),
        },
{
    url::Url::parse(base).and_then(|b| b.join(reference)).map(|u| u.to_string())
}

} // verus!
