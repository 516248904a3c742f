//! URL parsing and resolution, done by the `url` crate.

use url::Url;
use vstd::prelude::*;
use crate::text::text_of;

verus! {

/// What `Url::parse` makes of `input`: the serialization of the URL that it
/// parses to, or `None` where `input` is no absolute URL.
pub uninterp spec fn absolute_url(input: Seq<char>) -> Option<Seq<char>>;

/// What `Url::join` makes of `reference` against the URL that `base` parses
/// to: the serialization of the resolved URL, or `None` where `base` is no
/// absolute URL or `reference` cannot be resolved against it.
pub uninterp spec fn joined_url(base: Seq<char>, reference: Seq<char>) -> Option<Seq<char>>;

/// What `Url::path` gives for the URL that `input` parses to, or `None`
/// where `input` is no absolute URL.
pub uninterp spec fn url_path(input: Seq<char>) -> Option<Seq<char>>;

/// `Url::parse`, followed by the conversion of the URL into its
/// serialization. The result is `None` where the parser returns an error.
#[verifier::external_body]
pub(crate) fn parse_url(input: &str) -> (serialized: Option<String>)
    ensures
        text_of(serialized) == absolute_url(input@),
{
    Url::parse(input).ok().map(String::from)
}

/// `Url::join` on the URL that `base` parses to, followed by the conversion
/// of the resolved URL into its serialization. The result is `None` where
/// either `Url::parse` or `Url::join` returns an error.
#[verifier::external_body]
pub(crate) fn join_url(base: &str, reference: &str) -> (serialized: Option<String>)
    ensures
        text_of(serialized) == joined_url(base@, reference@),
{
    Url::parse(base).ok()?.join(reference).ok().map(String::from)
}

/// `Url::path` on the URL that `input` parses to, copied into a string. The
/// result is `None` where `Url::parse` returns an error.
#[verifier::external_body]
pub(crate) fn path_of_url(input: &str) -> (path: Option<String>)
    ensures
        text_of(path) == url_path(input@),
{
    Url::parse(input).ok().map(|u| u.path().to_string())
}

} // verus!
