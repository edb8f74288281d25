//! Names for what is written to disk: the name of a download, taken from
//! its URL where none is given, and the names of its parts.

use vstd::prelude::*;
use hyper::Url;
use crate::text::{decimal, lemma_decimal_injective, to_decimal};
use crate::url::{path_segments, path_segments_of};

verus! {

/// The name for a download whose URL gives none.
pub const DEFAULT_INDEX: &'static str = "index.html";

/// The last of the segments that is not empty, or the default if there is
/// none.
pub open spec fn last_non_empty(segments: Seq<Seq<char>>, default_index: Seq<char>) -> Seq<
    char,
>
    decreases segments.len(),
{
    if segments.len() == 0 {
        default_index
    } else if segments.last().len() > 0 {
        segments.last()
    } else {
        last_non_empty(segments.drop_last(), default_index)
    }
}

/// The name under which a download is stored: the name that was given for
/// it; without one, the last path segment of its URL that is not empty;
/// and the default where the URL has no path segments or only empty ones.
pub open spec fn resolved_name(
    given: Option<Seq<char>>,
    segments: Option<Seq<Seq<char>>>,
    default_index: Seq<char>,
) -> Seq<char> {
    match given {
        Some(name) => name,
        None => match segments {
            Some(segments) => last_non_empty(segments, default_index),
            None => default_index,
        },
    }
}

/// The name of the part with the given number: the name of the download,
/// `.part` and the number in decimal.
pub open spec fn part_name_of(base: Seq<char>, number: nat) -> Seq<char> {
    base + ".part"@ + decimal(number)
}

/// Looks from the last path segment to the first for one that is not empty.
pub fn derived_name(segments: &Vec<String>, default_index: &str) -> (r: String)
    ensures
        r@ == last_non_empty(segments.deep_view(), default_index@),
{
    let ghost all = segments.deep_view();
    let mut i: usize = segments.len();
    assert(all.take(i as int) =~= all);
    while i > 0
        invariant
            i <= segments.len(),
            all == segments.deep_view(),
            last_non_empty(all, default_index@) == last_non_empty(
                all.take(i as int),
                default_index@,
            ),
        decreases i,
    {
        i = i - 1;
        proof {
            let seen = all.take(i + 1);
            assert(seen.last() == segments@[i as int]@);
            assert(seen.drop_last() =~= all.take(i as int));
        }
        if !segments[i].as_str().is_empty() {
            return segments[i].clone();
        }
    }
    String::from_str(default_index)
}

/// The name under which to store what `url` points to.
pub fn resolve_name(given: &Option<String>, url: &Url, default_index: &str) -> (r: String)
    ensures
        r@ == resolved_name(given.deep_view(), path_segments_of(*url), default_index@),
{
    match given {
        Some(name) => name.clone(),
        None => match path_segments(url) {
            Some(segments) => derived_name(&segments, default_index),
            None => String::from_str(default_index),
        },
    }
}

/// The name of a part of a download. Parts are numbered from 1.
pub fn part_name(base: &str, number: u64) -> (r: String)
    ensures
        r@ == part_name_of(base@, number as nat),
{
    let mut name = String::from_str(base);
    name.append(".part");
    let digits = to_decimal(number);
    name.append(digits.as_str());
    assert(name@ =~= part_name_of(base@, number as nat));
    name
}

/// Parts of one download with different numbers have different names.
pub proof fn law_part_names_differ(base: Seq<char>, first: nat, second: nat)
    requires
        first != second,
    ensures
        part_name_of(base, first) != part_name_of(base, second),
{
    if part_name_of(base, first) == part_name_of(base, second) {
        let prefix = base + ".part"@;
        let a = prefix + decimal(first);
        let b = prefix + decimal(second);
        assert(a.subrange(prefix.len() as int, a.len() as int) =~= decimal(first));
        assert(b.subrange(prefix.len() as int, b.len() as int) =~= decimal(second));
        lemma_decimal_injective(first, second);
    }
}

} // verus!
