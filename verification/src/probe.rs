//! The capability probe: what the headers of a response say about whether
//! the resource can be fetched in segments.
//!
//! The lines of a header field are read by hyper's type for that field,
//! through four functions whose contracts are taken on trust. What is made
//! of the values is verified.

use vstd::prelude::*;
use hyper::header::{AcceptRanges, ContentEncoding, ContentLength, Header, TransferEncoding};

verus! {

/// A unit in which a server offers ranges.
#[derive(Clone, Copy, Debug, PartialEq, Eq, Structural)]
pub enum RangeUnit {
    /// `bytes`: ranges of bytes can be asked for.
    Bytes,
    /// `none`: the server takes no range requests.
    NoRanges,
    /// Any other unit.
    Unregistered,
}

/// A content or transfer coding.
#[derive(Clone, Copy, Debug, PartialEq, Eq, Structural)]
pub enum Encoding {
    /// `chunked`
    Chunked,
    /// `gzip`
    Gzip,
    /// `deflate`
    Deflate,
    /// `compress`
    Compress,
    /// `identity`: the bytes as they are.
    Identity,
    /// Any other coding.
    Other,
}

impl DeepView for RangeUnit {
    type V = RangeUnit;

    open spec fn deep_view(&self) -> RangeUnit {
        *self
    }
}

impl DeepView for Encoding {
    type V = Encoding;

    open spec fn deep_view(&self) -> Encoding {
        *self
    }
}

/// The lines of the response header fields that decide how a resource is
/// fetched, as the server sent them. A field that the response does not
/// have is `None`; a field sent several times has several lines.
pub struct ResponseHeaders {
    /// The lines of `Accept-Ranges`.
    pub accept_ranges: Option<Vec<Vec<u8>>>,
    /// The lines of `Content-Encoding`.
    pub content_encoding: Option<Vec<Vec<u8>>>,
    /// The lines of `Transfer-Encoding`.
    pub transfer_encoding: Option<Vec<Vec<u8>>>,
    /// The lines of `Content-Length`.
    pub content_length: Option<Vec<Vec<u8>>>,
}

/// What a response says about fetching its resource in segments.
#[derive(Clone, Copy, Debug, PartialEq, Eq, Structural)]
pub struct CapabilityReport {
    /// The server declares that it takes range requests in bytes.
    pub accepts_byte_ranges: bool,
    /// The content is not encoded.
    pub identity_content_encoding: bool,
    /// The transfer is not encoded.
    pub identity_transfer_encoding: bool,
    /// The length of the resource in bytes, where the server gives it.
    pub content_length: Option<u64>,
}

/// The units that hyper's `AcceptRanges` reads from the lines of the field,
/// or `None` where it cannot read them.
pub uninterp spec fn parsed_accept_ranges(lines: Seq<Seq<u8>>) -> Option<Seq<RangeUnit>>;

/// The codings that hyper's `ContentEncoding` reads from the lines of the
/// field, or `None` where it cannot read them.
pub uninterp spec fn parsed_content_encoding(lines: Seq<Seq<u8>>) -> Option<Seq<Encoding>>;

/// The codings that hyper's `TransferEncoding` reads from the lines of the
/// field, or `None` where it cannot read them.
pub uninterp spec fn parsed_transfer_encoding(lines: Seq<Seq<u8>>) -> Option<Seq<Encoding>>;

/// The length that hyper's `ContentLength` reads from the lines of the
/// field, or `None` where it cannot read one.
pub uninterp spec fn parsed_content_length(lines: Seq<Seq<u8>>) -> Option<u64>;

/// Calls `parse_header` of hyper's `AcceptRanges` and maps each unit to its
/// kind. Taken on trust: the units depend on the lines alone, so they are
/// `parsed_accept_ranges` of the lines; a failure to read them is `None`.
#[verifier::external_body]
fn parse_accept_ranges(lines: &Vec<Vec<u8>>) -> (r: Option<Vec<RangeUnit>>)
    ensures
        r.deep_view() == parsed_accept_ranges(lines.deep_view()),
{
    let parsed = AcceptRanges::parse_header(lines).ok()?;
    Some(parsed.0.into_iter().map(|unit| match unit {
        hyper::header::RangeUnit::Bytes => RangeUnit::Bytes,
        hyper::header::RangeUnit::None => RangeUnit::NoRanges,
        hyper::header::RangeUnit::Unregistered(_) => RangeUnit::Unregistered,
    }).collect())
}

/// Calls `parse_header` of hyper's `ContentEncoding` and maps each coding
/// to its kind. Taken on trust: the codings depend on the lines alone, so
/// they are `parsed_content_encoding` of the lines; a failure to read them
/// is `None`.
#[verifier::external_body]
fn parse_content_encoding(lines: &Vec<Vec<u8>>) -> (r: Option<Vec<Encoding>>)
    ensures
        r.deep_view() == parsed_content_encoding(lines.deep_view()),
{
    let parsed = ContentEncoding::parse_header(lines).ok()?;
    Some(parsed.0.into_iter().map(|coding| match coding {
        hyper::header::Encoding::Chunked => Encoding::Chunked,
        hyper::header::Encoding::Gzip => Encoding::Gzip,
        hyper::header::Encoding::Deflate => Encoding::Deflate,
        hyper::header::Encoding::Compress => Encoding::Compress,
        hyper::header::Encoding::Identity => Encoding::Identity,
        hyper::header::Encoding::EncodingExt(_) => Encoding::Other,
    }).collect())
}

/// Calls `parse_header` of hyper's `TransferEncoding` and maps each coding
/// to its kind. Taken on trust: the codings depend on the lines alone, so
/// they are `parsed_transfer_encoding` of the lines; a failure to read them
/// is `None`.
#[verifier::external_body]
fn parse_transfer_encoding(lines: &Vec<Vec<u8>>) -> (r: Option<Vec<Encoding>>)
    ensures
        r.deep_view() == parsed_transfer_encoding(lines.deep_view()),
{
    let parsed = TransferEncoding::parse_header(lines).ok()?;
    Some(parsed.0.into_iter().map(|coding| match coding {
        hyper::header::Encoding::Chunked => Encoding::Chunked,
        hyper::header::Encoding::Gzip => Encoding::Gzip,
        hyper::header::Encoding::Deflate => Encoding::Deflate,
        hyper::header::Encoding::Compress => Encoding::Compress,
        hyper::header::Encoding::Identity => Encoding::Identity,
        hyper::header::Encoding::EncodingExt(_) => Encoding::Other,
    }).collect())
}

/// Calls `parse_header` of hyper's `ContentLength`. Taken on trust: the
/// length depends on the lines alone, so it is `parsed_content_length` of
/// the lines; a failure to read it is `None`.
#[verifier::external_body]
fn parse_content_length(lines: &Vec<Vec<u8>>) -> (r: Option<u64>)
    ensures
        r == parsed_content_length(lines.deep_view()),
{
    ContentLength::parse_header(lines).ok().map(|length| length.0)
}

/// Whether the units of an `Accept-Ranges` field say that the server takes
/// ranges of bytes. Without the field it does not.
pub open spec fn declares_bytes(units: Option<Seq<RangeUnit>>) -> bool {
    units matches Some(units) && units.contains(RangeUnit::Bytes)
}

/// Whether the codings of a `Content-Encoding` or `Transfer-Encoding` field
/// leave the bytes as they are: the field is absent, or names `identity`
/// and nothing else.
pub open spec fn only_identity(codings: Option<Seq<Encoding>>) -> bool {
    match codings {
        Some(codings) => codings.len() == 1 && codings[0] == Encoding::Identity,
        None => true,
    }
}

/// The report for the values of the four fields.
pub open spec fn report_of(
    accept_ranges: Option<Seq<RangeUnit>>,
    content_encoding: Option<Seq<Encoding>>,
    transfer_encoding: Option<Seq<Encoding>>,
    content_length: Option<u64>,
) -> CapabilityReport {
    CapabilityReport {
        accepts_byte_ranges: declares_bytes(accept_ranges),
        identity_content_encoding: only_identity(content_encoding),
        identity_transfer_encoding: only_identity(transfer_encoding),
        content_length: content_length,
    }
}

/// The value that hyper reads from the lines of a field, where the response
/// has the field.
pub open spec fn accept_ranges_in(headers: ResponseHeaders) -> Option<Seq<RangeUnit>> {
    match headers.accept_ranges {
        Some(lines) => parsed_accept_ranges(lines.deep_view()),
        None => None,
    }
}

/// See `accept_ranges_in`.
pub open spec fn content_encoding_in(headers: ResponseHeaders) -> Option<Seq<Encoding>> {
    match headers.content_encoding {
        Some(lines) => parsed_content_encoding(lines.deep_view()),
        None => None,
    }
}

/// See `accept_ranges_in`.
pub open spec fn transfer_encoding_in(headers: ResponseHeaders) -> Option<Seq<Encoding>> {
    match headers.transfer_encoding {
        Some(lines) => parsed_transfer_encoding(lines.deep_view()),
        None => None,
    }
}

/// See `accept_ranges_in`.
pub open spec fn content_length_in(headers: ResponseHeaders) -> Option<u64> {
    match headers.content_length {
        Some(lines) => parsed_content_length(lines.deep_view()),
        None => None,
    }
}

/// The report for a response with the given headers.
pub open spec fn report_in(headers: ResponseHeaders) -> CapabilityReport {
    report_of(
        accept_ranges_in(headers),
        content_encoding_in(headers),
        transfer_encoding_in(headers),
        content_length_in(headers),
    )
}

impl CapabilityReport {
    /// Whether the resource may be fetched in segments: the server takes
    /// ranges of bytes, neither content nor transfer is encoded, and the
    /// length is known.
    pub open spec fn eligible(self) -> bool {
        &&& self.accepts_byte_ranges
        &&& self.identity_content_encoding
        &&& self.identity_transfer_encoding
        &&& self.content_length is Some
    }

    /// Whether the resource may be fetched in segments.
    pub fn is_eligible(&self) -> (r: bool)
        ensures
            r == self.eligible(),
    {
        self.accepts_byte_ranges && self.identity_content_encoding
            && self.identity_transfer_encoding && self.content_length.is_some()
    }
}

fn has_bytes(units: &Option<Vec<RangeUnit>>) -> (r: bool)
    ensures
        r == declares_bytes(units.deep_view()),
{
    match units {
        Some(list) => {
            let mut i: usize = 0;
            while i < list.len()
                invariant
                    i <= list.len(),
                    units.deep_view() == Some(list.deep_view()),
                    forall|j: int| 0 <= j < i ==> list.deep_view()[j] != RangeUnit::Bytes,
                decreases list.len() - i,
            {
                if list[i] == RangeUnit::Bytes {
                    assert(list.deep_view()[i as int] == RangeUnit::Bytes);
                    assert(list.deep_view().contains(RangeUnit::Bytes));
                    return true;
                }
                i = i + 1;
            }
            false
        },
        None => false,
    }
}

fn is_identity(codings: &Option<Vec<Encoding>>) -> (r: bool)
    ensures
        r == only_identity(codings.deep_view()),
{
    match codings {
        Some(codings) => {
            if codings.len() == 1 {
                assert(codings.deep_view()[0] == codings@[0]);
                codings[0] == Encoding::Identity
            } else {
                false
            }
        },
        None => true,
    }
}

/// Makes the report from the values of the four fields.
pub fn capability_report(
    accept_ranges: &Option<Vec<RangeUnit>>,
    content_encoding: &Option<Vec<Encoding>>,
    transfer_encoding: &Option<Vec<Encoding>>,
    content_length: Option<u64>,
) -> (r: CapabilityReport)
    ensures
        r == report_of(
            accept_ranges.deep_view(),
            content_encoding.deep_view(),
            transfer_encoding.deep_view(),
            content_length,
        ),
{
    CapabilityReport {
        accepts_byte_ranges: has_bytes(accept_ranges),
        identity_content_encoding: is_identity(content_encoding),
        identity_transfer_encoding: is_identity(transfer_encoding),
        content_length: content_length,
    }
}

/// Reads the headers of a response and makes the report.
pub fn probe(headers: &ResponseHeaders) -> (r: CapabilityReport)
    ensures
        r == report_in(*headers),
{
    let accept_ranges = match &headers.accept_ranges {
        Some(lines) => parse_accept_ranges(lines),
        None => None,
    };
    let content_encoding = match &headers.content_encoding {
        Some(lines) => parse_content_encoding(lines),
        None => None,
    };
    let transfer_encoding = match &headers.transfer_encoding {
        Some(lines) => parse_transfer_encoding(lines),
        None => None,
    };
    let content_length = match &headers.content_length {
        Some(lines) => parse_content_length(lines),
        None => None,
    };
    capability_report(&accept_ranges, &content_encoding, &transfer_encoding, content_length)
}

} // verus!
