//! Locations, kept as the canonical text of a URL.
//!
//! The URL parser alone decides what a text means. Each function here hands it one canonical text
//! and names the parser's answer; what is done with an answer is decided elsewhere.

use crate::bytes::{byte_len, utf8};
use crate::sizing::plus;
use vstd::arithmetic::overflow::CheckedUsize;
use vstd::prelude::*;

verus! {

/// What `url::Url::parse` makes of a text: its canonical text, unless it is no URL.
pub uninterp spec fn canonical(text: Seq<char>) -> Option<Seq<char>>;

/// What `url::Url::join` makes of a relative reference against a base: the canonical text of the
/// result, unless the base is no URL or the reference cannot be resolved.
pub uninterp spec fn joined(base: Seq<char>, reference: Seq<char>) -> Option<Seq<char>>;

/// Whether `url::Url::query` finds a query in a URL, or none where the text is no URL.
pub uninterp spec fn query_present(text: Seq<char>) -> Option<bool>;

/// Whether `url::Url::fragment` finds a fragment in a URL, or none where the text is no URL.
pub uninterp spec fn fragment_present(text: Seq<char>) -> Option<bool>;

/// What `url::Url::cannot_be_a_base` says of a URL, or none where the text is no URL.
pub uninterp spec fn base_impossible(text: Seq<char>) -> Option<bool>;

/// The path that `url::Url::path` finds in a URL, or none where the text is no URL.
pub uninterp spec fn path_part(text: Seq<char>) -> Option<Seq<char>>;

/// What `url::PathSegmentsMut::push` makes of a URL by one more segment: its canonical text, unless
/// the text is no URL or its path has no segments.
pub uninterp spec fn with_segment(text: Seq<char>, segment: Seq<char>) -> Option<Seq<char>>;

/// The scheme that `url::Url::scheme` finds in a URL, or none where the text is no URL.
pub uninterp spec fn scheme(text: Seq<char>) -> Option<Seq<char>>;

/// What `url::Url::set_path` makes of a URL by another path: its canonical text, unless the text is
/// no URL.
pub uninterp spec fn with_path(text: Seq<char>, path: Seq<char>) -> Option<Seq<char>>;

/// An optional text is the named one.
pub open spec fn names(text: Option<String>, name: Option<Seq<char>>) -> bool {
    match text {
        Some(text) => name == Some(text@),
        None => name is None,
    }
}

/// Calls `url::Url::parse` and keeps the serialization.
#[verifier::external_body]
pub(crate) fn parse_location(text: &str) -> (r: Option<String>)
    ensures
        names(r, canonical(text@)),
{
    url::Url::parse(text).ok().map(String::from)
}

/// Calls `url::Url::join` on the URL of a canonical text and keeps the serialization.
#[verifier::external_body]
pub(crate) fn join_location(base: &str, reference: &str) -> (r: Option<String>)
    ensures
        names(r, joined(base@, reference@)),
{
    url::Url::parse(base).ok()?.join(reference).ok().map(String::from)
}

/// Calls `url::Url::query` on the URL of a canonical text.
#[verifier::external_body]
pub(crate) fn has_query(text: &str) -> (r: Option<bool>)
    ensures
        r == query_present(text@),
{
    Some(url::Url::parse(text).ok()?.query().is_some())
}

/// Calls `url::Url::fragment` on the URL of a canonical text.
#[verifier::external_body]
pub(crate) fn has_fragment(text: &str) -> (r: Option<bool>)
    ensures
        r == fragment_present(text@),
{
    Some(url::Url::parse(text).ok()?.fragment().is_some())
}

/// Calls `url::Url::cannot_be_a_base` on the URL of a canonical text.
#[verifier::external_body]
pub(crate) fn cannot_be_a_base(text: &str) -> (r: Option<bool>)
    ensures
        r == base_impossible(text@),
{
    Some(url::Url::parse(text).ok()?.cannot_be_a_base())
}

/// Calls `url::Url::path` on the URL of a canonical text.
#[verifier::external_body]
pub(crate) fn path_of(text: &str) -> (r: Option<String>)
    ensures
        names(r, path_part(text@)),
{
    Some(url::Url::parse(text).ok()?.path().to_owned())
}

/// The path of a text's URL can be changed by `addition`. The parser keeps positions in 32 bits and
/// panics where the path ends behind them: its serialization, the addition with each byte
/// percent-encoded, and the few characters that separate them must fit.
pub open spec fn editable(text: Seq<char>, addition: Seq<char>) -> bool {
    canonical(text) matches Some(whole) ==> utf8(whole).len() + 3 * utf8(addition).len() + 16
        <= u32::MAX
}

/// Whether the path of a text's URL can be changed by `addition`.
pub fn is_editable(text: &str, addition: &str) -> (r: bool)
    ensures
        r == editable(text@, addition@),
{
    match parse_location(text) {
        Some(whole) => {
            let added = CheckedUsize::new(byte_len(addition)).mul_value(3);
            match plus(&added, &CheckedUsize::new(byte_len(whole.as_str()))).add_value(
                16,
            ).to_option() {
                Some(total) => total <= u32::MAX as usize,
                None => false,
            }
        },
        None => true,
    }
}

/// Calls `url::PathSegmentsMut::push` on the URL of a canonical text and keeps the serialization.
/// It panics where the changed path would not fit the parser's positions.
#[verifier::external_body]
pub(crate) fn push_segment(text: &str, segment: &str) -> (r: Option<String>)
    requires
        editable(text@, segment@),
    ensures
        names(r, with_segment(text@, segment@)),
{
    let mut location = url::Url::parse(text).ok()?;
    location.path_segments_mut().ok()?.push(segment);
    Some(String::from(location))
}

/// Calls `url::Url::scheme` on the URL of a text.
#[verifier::external_body]
pub(crate) fn scheme_of(text: &str) -> (r: Option<String>)
    ensures
        names(r, scheme(text@)),
{
    Some(url::Url::parse(text).ok()?.scheme().to_owned())
}

/// Calls `url::Url::set_path` on the URL of a text and keeps the serialization. It panics where the
/// changed path would not fit the parser's positions.
#[verifier::external_body]
pub(crate) fn set_path(text: &str, path: &str) -> (r: Option<String>)
    requires
        editable(text@, path@),
    ensures
        names(r, with_path(text@, path@)),
{
    let mut location = url::Url::parse(text).ok()?;
    location.set_path(path);
    Some(String::from(location))
}

/// What is read of a table root before it is used.
#[derive(Debug, Clone, Copy, PartialEq, Eq, Structural)]
pub struct RootFacts {
    /// The URL has a query.
    pub query: bool,
    /// The URL has a fragment.
    pub fragment: bool,
    /// No reference can be resolved against the URL.
    pub opaque: bool,
    /// The URL's path ends in a slash.
    pub directory: bool,
}

/// The facts of a canonical text, where the parser accepts it.
pub open spec fn root_facts(text: Seq<char>) -> Option<RootFacts> {
    match (query_present(text), fragment_present(text), base_impossible(text), path_part(text)) {
        (Some(query), Some(fragment), Some(opaque), Some(path)) => Some(
            RootFacts {
                query,
                fragment,
                opaque,
                directory: crate::bytes::is_directory(crate::bytes::utf8(path)),
            },
        ),
        _ => None,
    }
}

/// Reads a table root.
pub fn read_root(text: &str) -> (r: Option<RootFacts>)
    ensures
        r == root_facts(text@),
{
    let query = has_query(text);
    let fragment = has_fragment(text);
    let opaque = cannot_be_a_base(text);
    let path = path_of(text);
    match (query, fragment, opaque, path) {
        (Some(query), Some(fragment), Some(opaque), Some(path)) => Some(
            RootFacts {
                query,
                fragment,
                opaque,
                directory: crate::bytes::ends_in_slash(path.as_str()),
            },
        ),
        _ => None,
    }
}

/// A location that a text names, in canonical form.
pub fn location(text: &str) -> (r: Option<String>)
    ensures
        names(r, canonical(text@)),
{
    parse_location(text)
}

} // verus!
