//! From the probe's report to the plan: whether a resource is fetched in
//! segments, and in which.

use vstd::prelude::*;
use hyper::Url;
use crate::dl::{Download, DownloadView, FullView, PartView};
use crate::planner::{law_plan_is_partition, plan_ranges, planned_ranges};
use crate::probe::{
    content_length_in, only_identity, probe, report_in, report_of, transfer_encoding_in,
    CapabilityReport, Encoding, RangeUnit, ResponseHeaders,
};
use crate::range::is_partition;

verus! {

/// Whether a resource with the given report is fetched in segments: it is
/// eligible, and it is not empty.
pub open spec fn wants_segments(report: CapabilityReport) -> bool {
    report.eligible() && report.content_length->0 > 0
}

/// The plan for a resource with the given report: in segments, with the
/// planner's ranges for its length, where `wants_segments` holds; else in
/// one piece.
pub open spec fn planned_download(
    url: Url,
    name: Option<Seq<char>>,
    sections: u64,
    report: CapabilityReport,
) -> DownloadView {
    if wants_segments(report) {
        DownloadView::Partial(
            PartView { url, name, ranges: planned_ranges(report.content_length->0, sections) },
        )
    } else {
        DownloadView::Full(FullView { url, name })
    }
}

/// Makes the plan for a resource from the probe's report.
pub fn plan_download(url: Url, name: Option<String>, sections: u64, report: &CapabilityReport) -> (d:
    Download)
    requires
        sections >= 1,
    ensures
        d@ == planned_download(url, name.deep_view(), sections, *report),
{
    if report.is_eligible() {
        match report.content_length {
            Some(len) => {
                if len > 0 {
                    return Download::new(url, name, Some(plan_ranges(len, sections)));
                }
            },
            None => {},
        }
    }
    Download::new(url, name, None)
}

/// Makes the plan for a resource from the headers of the response to the
/// probe. A transfer coding of `chunked` and a length that is not known
/// each give a plan in one piece.
pub fn get_download(url: Url, name: Option<String>, sections: u64, headers: &ResponseHeaders) -> (d:
    Download)
    requires
        sections >= 1,
    ensures
        d@ == planned_download(url, name.deep_view(), sections, report_in(*headers)),
        transfer_encoding_in(*headers) matches Some(codings) && codings.contains(Encoding::Chunked)
            ==> d@ is Full,
        content_length_in(*headers) is None ==> d@ is Full,
{
    let report = probe(headers);
    plan_download(url, name, sections, &report)
}

/// A plan in segments is made only for a resource that is eligible, and its
/// ranges split the resource into pieces.
pub proof fn law_partial_plan(
    url: Url,
    name: Option<Seq<char>>,
    sections: u64,
    report: CapabilityReport,
)
    requires
        sections >= 1,
        planned_download(url, name, sections, report) is Partial,
    ensures
        report.accepts_byte_ranges,
        report.identity_content_encoding,
        report.identity_transfer_encoding,
        report.content_length is Some,
        is_partition(
            planned_download(url, name, sections, report)->Partial_0.ranges,
            report.content_length->0 as nat,
        ),
{
    law_plan_is_partition(report.content_length->0, sections);
}

/// A transfer coding of `chunked` gives a plan in one piece, whatever the
/// other fields say.
pub proof fn law_chunked_forces_full(
    url: Url,
    name: Option<Seq<char>>,
    sections: u64,
    accept_ranges: Option<Seq<RangeUnit>>,
    content_encoding: Option<Seq<Encoding>>,
    transfer_encoding: Seq<Encoding>,
    content_length: Option<u64>,
)
    requires
        transfer_encoding.contains(Encoding::Chunked),
    ensures
        planned_download(
            url,
            name,
            sections,
            report_of(accept_ranges, content_encoding, Some(transfer_encoding), content_length),
        ) == DownloadView::Full(FullView { url, name }),
{
    assert(!only_identity(Some(transfer_encoding)));
}

/// Without a content length the plan is in one piece, whatever the other
/// fields say.
pub proof fn law_unknown_length_forces_full(
    url: Url,
    name: Option<Seq<char>>,
    sections: u64,
    accept_ranges: Option<Seq<RangeUnit>>,
    content_encoding: Option<Seq<Encoding>>,
    transfer_encoding: Option<Seq<Encoding>>,
)
    ensures
        planned_download(
            url,
            name,
            sections,
            report_of(accept_ranges, content_encoding, transfer_encoding, None),
        ) == DownloadView::Full(FullView { url, name }),
{
}

/// A content coding other than `identity` alone gives a plan in one piece,
/// whatever the other fields say.
pub proof fn law_encoded_content_forces_full(
    url: Url,
    name: Option<Seq<char>>,
    sections: u64,
    accept_ranges: Option<Seq<RangeUnit>>,
    content_encoding: Seq<Encoding>,
    transfer_encoding: Option<Seq<Encoding>>,
    content_length: Option<u64>,
)
    requires
        content_encoding != seq![Encoding::Identity],
    ensures
        planned_download(
            url,
            name,
            sections,
            report_of(accept_ranges, Some(content_encoding), transfer_encoding, content_length),
        ) == DownloadView::Full(FullView { url, name }),
{
    if content_encoding.len() == 1 && content_encoding[0] == Encoding::Identity {
        assert(content_encoding =~= seq![Encoding::Identity]);
    }
}

} // verus!
