//! URLs, as hyper reads them (hyper hands the work to the `url` crate).
//!
//! A `Url` is carried through the library as hyper made it. What the
//! library needs to know of one it asks of hyper through the few functions
//! below, whose contracts are taken on trust.

use vstd::prelude::*;
use hyper::client::IntoUrl;
use hyper::error::ParseError;
use hyper::Url;

verus! {

/// hyper's `Url`: a URL that was parsed with success.
#[verifier::external_type_specification]
#[verifier::external_body]
pub struct ExUrl(hyper::Url);

/// hyper's `ParseError`: why a text is no URL.
#[verifier::external_type_specification]
#[verifier::external_body]
pub struct ExParseError(hyper::error::ParseError);

/// What `IntoUrl::into_url` makes of a text: the URL, or the reason why the
/// text is none.
pub uninterp spec fn parsed_url(text: Seq<char>) -> Result<Url, ParseError>;

/// The message that a `ParseError` gives through `Display`.
pub uninterp spec fn parse_error_text(error: ParseError) -> Seq<char>;

/// What `Url::path_segments` gives for a URL: the pieces of its path between
/// the slashes, each still percent-encoded, or nothing for a URL that cannot
/// be a base.
pub uninterp spec fn path_segments_of(url: Url) -> Option<Seq<Seq<char>>>;

/// Calls hyper's `IntoUrl::into_url` on a string slice, which is
/// `Url::parse`. Taken on trust: what comes back depends on the text alone,
/// so it is `parsed_url` of the text.
#[verifier::external_body]
pub(crate) fn parse_url(text: &str) -> (r: Result<Url, ParseError>)
    ensures
        r == parsed_url(text@),
{
    text.into_url()
}

/// Formats a `ParseError` through its `Display`. Taken on trust: the
/// message depends on the error alone, so it is `parse_error_text` of the
/// error.
#[verifier::external_body]
pub(crate) fn error_text(error: &ParseError) -> (r: String)
    ensures
        r@ == parse_error_text(*error),
{
    format!("{}", error)
}

/// Calls `Url::path_segments` and copies each segment into a `String`, in
/// the order of the path. Taken on trust: the segments depend on the URL
/// alone, so they are `path_segments_of` the URL.
#[verifier::external_body]
pub(crate) fn path_segments(url: &Url) -> (r: Option<Vec<String>>)
    ensures
        r.deep_view() == path_segments_of(*url),
{
    url.path_segments().map(|segments| segments.map(String::from).collect())
}

/// `Clone` of `Url`. Taken on trust: the copy is the same URL.
pub assume_specification[ <Url as Clone>::clone ](url: &Url) -> (r: Url)
    ensures
        r == *url,
;

/// Whether a text is a URL: `Ok` if hyper can parse it, else the parser's
/// message.
pub fn is_url(val: String) -> (r: Result<(), String>)
    ensures
        match parsed_url(val@) {
            Ok(_) => r is Ok,
            Err(error) => r matches Err(message) && message@ == parse_error_text(error),
        },
{
    match parse_url(val.as_str()) {
        Ok(_) => Ok(()),
        Err(error) => Err(error_text(&error)),
    }
}

} // verus!
