//! URL parsing and resolution, done by the `url` crate.
use vstd::prelude::*;

verus! {

/// What `Url::parse(input)` gives: the serialised URL, or the text of the
/// crate's `ParseError` when it refuses `input` as an absolute URL.
pub uninterp spec fn parsed_url(input: Seq<char>) -> Result<Seq<char>, Seq<char>>;

/// What `Url::parse(base)` followed by `join(input)` gives: the serialised
/// URL, or the text of the `ParseError` of the step that refused.
pub uninterp spec fn joined_url(base: Seq<char>, input: Seq<char>) -> Result<Seq<char>, Seq<char>>;

/// Calls `url::Url::parse` and returns the parsed URL in its serialised form,
/// or the text (`Display`) of the crate's parse error. Trusted: the result is
/// the name `parsed_url` of the input.
#[verifier::external_body]
pub(crate) fn parse_url(input: &str) -> (res: Result<String, String>)
    ensures
        match res {
            Ok(u) => parsed_url(input@) == Ok::<Seq<char>, Seq<char>>(u@),
            Err(e) => parsed_url(input@) == Err::<Seq<char>, Seq<char>>(e@),
        },
{
    url::Url::parse(input).map(String::from).map_err(|e| e.to_string())
}

/// Parses `base` with `url::Url::parse` and resolves `input` against it with
/// `url::Url::join`, returning the serialised result or the text of the
/// parse error. Trusted: the result is the name `joined_url` of the two
/// arguments.
#[verifier::external_body]
pub(crate) fn join_url(base: &str, input: &str) -> (res: Result<String, String>)
    ensures
        match res {
            Ok(u) => joined_url(base@, input@) == Ok::<Seq<char>, Seq<char>>(u@),
            Err(e) => joined_url(base@, input@) == Err::<Seq<char>, Seq<char>>(e@),
        },
{
    url::Url::parse(base).and_then(|b| b.join(input)).map(String::from).map_err(|e| e.to_string())
}

} // verus!
