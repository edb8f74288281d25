//! The plan for one download: the whole resource in one piece, or a list
//! of byte ranges fetched side by side.

use vstd::prelude::*;
use hyper::Url;
use crate::naming::{resolve_name, resolved_name};
use crate::range::ByteRange;
use crate::url::path_segments_of;

verus! {

/// How a resource is fetched.
pub enum Download {
    /// In segments, one for each byte range.
    Partial(PartDl),
    /// In one piece.
    Full(FullDl),
}

/// A download in segments.
#[derive(Clone)]
pub struct PartDl {
    /// Where the resource is.
    pub url: Url,
    name: Option<String>,
    ranges: Vec<ByteRange>,
}

/// A download in one piece.
pub struct FullDl {
    /// Where the resource is.
    pub url: Url,
    name: Option<String>,
}

/// What a `PartDl` holds.
pub struct PartView {
    /// Where the resource is.
    pub url: Url,
    /// The name to store it under, if one was given.
    pub name: Option<Seq<char>>,
    /// The byte ranges of the segments, in the order of their numbers.
    pub ranges: Seq<ByteRange>,
}

/// What a `FullDl` holds.
pub struct FullView {
    /// Where the resource is.
    pub url: Url,
    /// The name to store it under, if one was given.
    pub name: Option<Seq<char>>,
}

/// What a `Download` holds.
pub enum DownloadView {
    /// A download in segments.
    Partial(PartView),
    /// A download in one piece.
    Full(FullView),
}

impl DownloadView {
    /// Where the resource is.
    pub open spec fn url(self) -> Url {
        match self {
            DownloadView::Partial(part) => part.url,
            DownloadView::Full(full) => full.url,
        }
    }

    /// The name to store the download under, if one was given.
    pub open spec fn name(self) -> Option<Seq<char>> {
        match self {
            DownloadView::Partial(part) => part.name,
            DownloadView::Full(full) => full.name,
        }
    }

    /// The number of pieces in which the resource is fetched.
    pub open spec fn parts(self) -> nat {
        match self {
            DownloadView::Partial(part) => part.ranges.len(),
            DownloadView::Full(_) => 1,
        }
    }

    /// The view of a download made from the given values: in segments where
    /// there are ranges, in one piece where there are none.
    pub open spec fn of(url: Url, name: Option<Seq<char>>, ranges: Option<Seq<ByteRange>>) -> Self {
        match ranges {
            Some(ranges) => DownloadView::Partial(PartView { url, name, ranges }),
            None => DownloadView::Full(FullView { url, name }),
        }
    }
}

impl View for PartDl {
    type V = PartView;

    closed spec fn view(&self) -> PartView {
        PartView { url: self.url, name: self.name.deep_view(), ranges: self.ranges@ }
    }
}

impl View for FullDl {
    type V = FullView;

    closed spec fn view(&self) -> FullView {
        FullView { url: self.url, name: self.name.deep_view() }
    }
}

impl View for Download {
    type V = DownloadView;

    open spec fn view(&self) -> DownloadView {
        match self {
            Download::Partial(part) => DownloadView::Partial(part@),
            Download::Full(full) => DownloadView::Full(full@),
        }
    }
}

impl Download {
    /// A download in segments where ranges are given, in one piece where
    /// none are.
    pub fn new(url: Url, name: Option<String>, ranges: Option<Vec<ByteRange>>) -> (d: Self)
        ensures
            d@ == DownloadView::of(
                url,
                name.deep_view(),
                match ranges {
                    Some(ranges) => Some(ranges@),
                    None => None,
                },
            ),
    {
        match ranges {
            Some(ranges) => { Download::Partial(PartDl::new(url, name, ranges)) },
            None => { Download::Full(FullDl::new(url, name)) },
        }
    }

    /// The number of pieces in which the resource is fetched.
    pub fn num_parts(&self) -> (n: usize)
        ensures
            n == self@.parts(),
    {
        match self {
            Download::Partial(part_dl) => { part_dl.ranges.len() },
            Download::Full(_) => { 1 },
        }
    }
}

impl PartDl {
    fn new(url: Url, name: Option<String>, ranges: Vec<ByteRange>) -> (d: Self)
        ensures
            d@ == (PartView { url, name: name.deep_view(), ranges: ranges@ }),
    {
        PartDl { url: url, name: name, ranges: ranges }
    }

    /// Where the resource is.
    pub fn url(&self) -> (r: Url)
        ensures
            r == self@.url,
    {
        self.url.clone()
    }

    /// The byte ranges of the segments, in the order of their numbers.
    pub fn ranges(&self) -> (r: Vec<ByteRange>)
        ensures
            r@ == self@.ranges,
    {
        let mut copy: Vec<ByteRange> = Vec::new();
        let mut i: usize = 0;
        while i < self.ranges.len()
            invariant
                i <= self.ranges.len(),
                copy@ == self.ranges@.take(i as int),
            decreases self.ranges.len() - i,
        {
            copy.push(self.ranges[i]);
            assert(copy@ =~= self.ranges@.take(i + 1));
            i = i + 1;
        }
        assert(copy@ =~= self.ranges@);
        copy
    }

    /// The name under which the download is stored: the name that was
    /// given for it; without one, the last path segment of the URL that is
    /// not empty; and `default_index` where there is no such segment.
    pub fn name(&self, default_index: &str) -> (r: String)
        ensures
            r@ == resolved_name(self@.name, path_segments_of(self@.url), default_index@),
    {
        resolve_name(&self.name, &self.url, default_index)
    }
}

impl FullDl {
    fn new(url: Url, name: Option<String>) -> (d: Self)
        ensures
            d@ == (FullView { url, name: name.deep_view() }),
    {
        FullDl { url: url, name: name }
    }

    /// Where the resource is.
    pub fn url(&self) -> (r: Url)
        ensures
            r == self@.url,
    {
        self.url.clone()
    }

    /// The name under which the download is stored: the name that was
    /// given for it; without one, the last path segment of the URL that is
    /// not empty; and `default_index` where there is no such segment.
    pub fn name(&self, default_index: &str) -> (r: String)
        ensures
            r@ == resolved_name(self@.name, path_segments_of(self@.url), default_index@),
    {
        resolve_name(&self.name, &self.url, default_index)
    }
}

} // verus!
