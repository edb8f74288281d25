//! The range planner: how a resource of known length is cut into the
//! segments that are fetched side by side.

use vstd::prelude::*;
use crate::range::{
    all_offsets, ascending, contiguous, covered, disjoint, is_partition, total_size, ByteRange,
};

verus! {

/// The size that the planner aims at for a segment: the length divided by
/// the number of sections asked for, rounded down.
pub open spec fn segment_size(len: u64, sections: u64) -> int {
    len as int / sections as int
}

/// How many ranges the plan for a resource of `len` bytes has.
///
/// None for an empty resource, and one where the first range, `0..=size`,
/// leaves no byte over. Else closed ranges of `size` bytes follow the first
/// for as long as more than `size` bytes are left, and one open range takes
/// the rest: with a size of 0 that is 2 ranges, and else as many as it takes
/// to get from byte 1 to the last byte, `len - 1`, in steps of `size`.
pub open spec fn planned_count(len: u64, sections: u64) -> nat {
    let size = segment_size(len, sections);
    if len == 0 {
        0
    } else if size + 1 >= len {
        1
    } else if size == 0 {
        2
    } else {
        ((len - 2) / size + 1) as nat
    }
}

/// The range at place `i` of the plan for a resource of `len` bytes: the
/// first is `0..=size`, the last of several is open, and every range after
/// the first starts at `i * size + 1`.
pub open spec fn planned_range(i: int, len: u64, sections: u64) -> ByteRange {
    let size = segment_size(len, sections);
    if i == 0 {
        ByteRange::FromTo(0, size as u64)
    } else if i == planned_count(len, sections) - 1 {
        ByteRange::AllFrom((i * size + 1) as u64)
    } else {
        ByteRange::FromTo((i * size + 1) as u64, ((i + 1) * size) as u64)
    }
}

/// The plan for a resource of `len` bytes that is asked for in `sections`.
/// `law_plan_follows_steps` says the same range by range.
pub open spec fn planned_ranges(len: u64, sections: u64) -> Seq<ByteRange> {
    Seq::new(planned_count(len, sections), |i: int| planned_range(i, len, sections))
}

/// The range that the planner's rule puts after a closed range that ends
/// at `end`, where the resource has a byte after `end`: a closed range of
/// `size` bytes where the size is not 0 and more than `size` bytes are left,
/// else the open range that takes the rest.
pub open spec fn next_range(end: u64, len: u64, sections: u64) -> ByteRange {
    let size = segment_size(len, sections);
    let start = end + 1;
    if size > 0 && start + size < len {
        ByteRange::FromTo(start as u64, (start + size - 1) as u64)
    } else {
        ByteRange::AllFrom(start as u64)
    }
}

/// Cuts a resource of `len` bytes into the ranges of its segments, of
/// `len / sections` bytes each but for the first, which has one more, and
/// the last, which takes what is left.
pub fn plan_ranges(len: u64, sections: u64) -> (ranges: Vec<ByteRange>)
    requires
        sections >= 1,
    ensures
        ranges@ == planned_ranges(len, sections),
        len > 0 ==> is_partition(ranges@, len as nat),
{
    proof {
        if len > 0 {
            law_plan_is_partition(len, sections);
        }
    }
    let mut ranges: Vec<ByteRange> = Vec::new();
    if len == 0 {
        assert(ranges@ =~= planned_ranges(len, sections));
        return ranges;
    }
    let size: u64 = len / sections;
    ranges.push(ByteRange::FromTo(0, size));
    if size >= len - 1 {
        assert(ranges@ =~= planned_ranges(len, sections));
        return ranges;
    }
    let mut start: u64 = size + 1;
    let ghost count = planned_count(len, sections) as int;
    let ghost mut i: int = 1;
    proof {
        if size > 0 {
            lemma_quotient_at_least(len - 2, size as int, 1);
        }
    }
    loop
        invariant_except_break
            1 <= i < count,
            start == i * size + 1,
            start < len,
            ranges@.len() == i,
            forall|j: int| 0 <= j < i ==> ranges@[j] == planned_range(j, len, sections),
        invariant
            sections >= 1,
            len > 0,
            size == segment_size(len, sections),
            size + 1 < len,
            count == planned_count(len, sections),
        ensures
            ranges@ == planned_ranges(len, sections),
        decreases len - start,
    {
        if size > 0 && size < len - start {
            proof {
                assert((i + 1) * size == i * size + size) by (nonlinear_arith);
                lemma_quotient_at_least(len - 2, size as int, i + 1);
            }
            ranges.push(ByteRange::FromTo(start, start + size - 1));
            start = start + size;
            proof {
                i = i + 1;
            }
        } else {
            proof {
                if size > 0 {
                    assert((i + 1) * size == i * size + size) by (nonlinear_arith);
                    lemma_quotient(len - 2, size as int, i);
                }
            }
            ranges.push(ByteRange::AllFrom(start));
            assert(ranges@ =~= planned_ranges(len, sections));
            break;
        }
    }
    ranges
}

/// The plan, range by range. The first range is `0..=size`. Each later range
/// comes after a closed range that leaves bytes over, and is what
/// `next_range` gives for the end of that range. The plan ends with an open
/// range, or with a closed range that reaches the end of the resource.
pub proof fn law_plan_follows_steps(len: u64, sections: u64, i: int)
    requires
        len > 0,
        sections >= 1,
        0 <= i < planned_ranges(len, sections).len(),
    ensures
        i == 0 ==> planned_ranges(len, sections)[i] == ByteRange::FromTo(
            0,
            segment_size(len, sections) as u64,
        ),
        i > 0 ==> (planned_ranges(len, sections)[i - 1] matches ByteRange::FromTo(_, end) && end
            + 1 < len && planned_ranges(len, sections)[i] == next_range(end, len, sections)),
        i < planned_ranges(len, sections).len() - 1 ==> planned_ranges(len, sections)[i] is FromTo,
        i == planned_ranges(len, sections).len() - 1 ==> (match planned_ranges(len, sections)[i] {
            ByteRange::FromTo(_, end) => end + 1 >= len,
            ByteRange::AllFrom(_) => true,
        }),
{
    let size = segment_size(len, sections);
    let count = planned_count(len, sections) as int;
    lemma_plan_shape(len, sections);
    lemma_planned_range(i, len, sections);
    if i > 0 {
        lemma_planned_range(i - 1, len, sections);
        assert(i * size == (i - 1) * size + size) by (nonlinear_arith);
        assert((i + 1) * size == i * size + size) by (nonlinear_arith);
        if i == count - 1 && size > 0 {
            lemma_quotient_bounds(len - 2, size);
        }
    }
}

/// For every resource that is not empty and every number of sections, the
/// planned ranges begin at offset 0, follow one another without gap in
/// ascending order, hold no byte twice, and together hold exactly the bytes
/// of the resource.
pub proof fn law_plan_is_partition(len: u64, sections: u64)
    requires
        len > 0,
        sections >= 1,
    ensures
        is_partition(planned_ranges(len, sections), len as nat),
{
    let ranges = planned_ranges(len, sections);
    let size = segment_size(len, sections);
    let count = planned_count(len, sections) as int;
    lemma_plan_shape(len, sections);
    lemma_planned_range(0, len, sections);
    assert(contiguous(ranges)) by {
        assert forall|i: int| 0 <= i < ranges.len() - 1 implies match #[trigger] ranges[i] {
            ByteRange::FromTo(a, b) => a <= b && ranges[i + 1].start() == b + 1,
            ByteRange::AllFrom(_) => false,
        } by {
            lemma_planned_range(i, len, sections);
            lemma_planned_range(i + 1, len, sections);
        }
    }
    assert(ascending(ranges)) by {
        assert forall|i: int, j: int| 0 <= i < j < ranges.len() implies (#[trigger] ranges[i]).start()
            < (#[trigger] ranges[j]).start() by {
            lemma_planned_range(i, len, sections);
            lemma_planned_range(j, len, sections);
            if i > 0 {
                lemma_product_grows(i + 1, j, size);
                assert((i + 1) * size == i * size + size) by (nonlinear_arith);
            }
        }
    }
    assert(disjoint(ranges, len as nat)) by {
        assert forall|i: int, j: int, offset: nat| 0 <= i < j < ranges.len() implies !(
        #[trigger] ranges[i].holds(offset, len as nat) && #[trigger] ranges[j].holds(
            offset,
            len as nat,
        )) by {
            lemma_planned_range(i, len, sections);
            lemma_planned_range(j, len, sections);
            lemma_product_grows(i + 1, j, size);
        }
    }
    assert forall|offset: nat| offset < len implies covered(ranges, len as nat).contains(
        offset,
    ) by {
        let i = lemma_offset_is_held(offset, len, sections);
        assert(ranges[i].holds(offset, len as nat));
    }
    assert(covered(ranges, len as nat) =~= all_offsets(len as nat));
}

/// With two sections or more, no planned range names an offset that the
/// resource does not have.
pub proof fn law_plan_stays_within(len: u64, sections: u64)
    requires
        len > 0,
        sections >= 2,
    ensures
        forall|i: int|
            0 <= i < planned_ranges(len, sections).len() ==> (#[trigger] planned_ranges(
                len,
                sections,
            )[i]).within(len as nat),
{
    let ranges = planned_ranges(len, sections);
    lemma_segment_size(len, sections);
    assert forall|i: int| 0 <= i < ranges.len() implies (#[trigger] ranges[i]).within(
        len as nat,
    ) by {
        lemma_planned_range(i, len, sections);
    }
}

/// The planned ranges hold as many bytes together as the resource has.
pub proof fn law_plan_total_size(len: u64, sections: u64)
    requires
        sections >= 1,
    ensures
        total_size(planned_ranges(len, sections), len as nat) == len,
{
    let ranges = planned_ranges(len, sections);
    let count = planned_count(len, sections) as int;
    if len > 0 {
        lemma_plan_shape(len, sections);
        lemma_planned_range(count - 1, len, sections);
        assert(ranges.last() == planned_range(count - 1, len, sections));
        if count == 1 {
            assert(total_size(ranges.drop_last(), len as nat) == 0);
        } else {
            assert(ranges.drop_last() =~= ranges.take(count - 1));
            lemma_prefix_size(len, sections, count - 1);
        }
    }
}

/// A resource that is not empty gets at least one range.
pub proof fn law_at_least_one_range(len: u64, sections: u64)
    requires
        len > 0,
        sections >= 1,
    ensures
        planned_ranges(len, sections).len() >= 1,
{
}

/// Where the length is below the number of sections, or leaves a remainder
/// of at most 1 when divided by it, the plan has no more ranges than
/// sections.
pub proof fn law_range_count(len: u64, sections: u64)
    requires
        sections >= 1,
        len < sections || len % sections <= 1,
    ensures
        planned_ranges(len, sections).len() <= sections,
{
    let size = segment_size(len, sections);
    lemma_segment_size(len, sections);
    if len > 0 && size + 1 < len {
        if size == 0 {
            assert(1 * sections == sections) by (nonlinear_arith);
        } else {
            if len < sections {
                vstd::arithmetic::div_mod::lemma_basic_div(len as int, sections as int);
            }
            vstd::arithmetic::div_mod::lemma_fundamental_div_mod(len as int, sections as int);
            assert(sections * size == sections as int * size) by (nonlinear_arith);
            assert(len - 2 < sections * size);
            lemma_quotient_bounds(len - 2, size);
            lemma_factor_below((len - 2) / size, sections as int, size);
        }
    }
}

/// Where the length is at least the number of sections and leaves a
/// remainder of 2 or more when divided by it, the plan has more ranges than
/// sections: the ranges after the first hold one byte fewer than the first,
/// and the remainder is left for ranges of their own.
pub proof fn law_range_count_exceeds(len: u64, sections: u64)
    requires
        sections >= 1,
        len >= sections,
        len % sections >= 2,
    ensures
        planned_ranges(len, sections).len() > sections,
{
    let size = segment_size(len, sections);
    lemma_segment_size(len, sections);
    vstd::arithmetic::div_mod::lemma_fundamental_div_mod(len as int, sections as int);
    assert(sections * size == sections as int * size) by (nonlinear_arith);
    assert(1 * sections == sections) by (nonlinear_arith);
    lemma_quotient_at_least(len as int, sections as int, 1);
    lemma_product_grows(1, sections as int, size);
    assert(sections as int * size == size * sections) by (nonlinear_arith);
    lemma_quotient_at_least(len - 2, size, sections as int);
}

/// Where the ranges of a plan begin and end, in terms of the segment size.
proof fn lemma_plan_shape(len: u64, sections: u64)
    requires
        len > 0,
        sections >= 1,
    ensures
        planned_count(len, sections) >= 1,
        0 <= segment_size(len, sections) <= len,
        planned_count(len, sections) >= 2 <==> segment_size(len, sections) + 1 < len,
        planned_count(len, sections) >= 3 ==> segment_size(len, sections) >= 1,
        forall|i: int|
            1 <= i < planned_count(len, sections) ==> 0 < #[trigger] (i * segment_size(
                len,
                sections,
            )) + 1 < len,
        forall|i: int|
            0 <= i < planned_count(len, sections) - 1 ==> 0 <= #[trigger] ((i + 1) * segment_size(
                len,
                sections,
            )) < len - 1,
{
    let size = segment_size(len, sections);
    let count = planned_count(len, sections) as int;
    lemma_segment_size(len, sections);
    if size + 1 < len && size > 0 {
        let last = (len - 2) / size;
        lemma_quotient_bounds(len - 2, size);
        lemma_quotient_at_least(len - 2, size, 1);
        assert(count == last + 1);
        assert forall|i: int| 1 <= i < count implies 0 < #[trigger] (i * size) + 1 < len by {
            lemma_product_grows(i, last, size);
            lemma_product_grows(1, i, size);
        }
        assert forall|i: int| 0 <= i < count - 1 implies 0 <= #[trigger] ((i + 1) * size) < len
            - 1 by {
            lemma_product_grows(i + 1, last, size);
            lemma_product_grows(0, i + 1, size);
        }
    } else if size + 1 < len {
        assert forall|i: int| 1 <= i < count implies 0 < #[trigger] (i * size) + 1 < len by {
            assert(i * size == 0) by (nonlinear_arith)
                requires
                    size == 0,
            ;
        }
        assert forall|i: int| 0 <= i < count - 1 implies 0 <= #[trigger] ((i + 1) * size) < len
            - 1 by {
            assert((i + 1) * size == 0) by (nonlinear_arith)
                requires
                    size == 0,
            ;
        }
    }
}

/// The first and last offsets of the range at place `i` of a plan.
proof fn lemma_planned_range(i: int, len: u64, sections: u64)
    requires
        len > 0,
        sections >= 1,
        0 <= i < planned_count(len, sections),
    ensures
        planned_range(i, len, sections).start() == (if i == 0 {
            0
        } else {
            i * segment_size(len, sections) + 1
        }),
        i < planned_count(len, sections) - 1 ==> planned_range(i, len, sections)
            == ByteRange::FromTo(
            planned_range(i, len, sections).start() as u64,
            ((i + 1) * segment_size(len, sections)) as u64,
        ) && planned_range(i, len, sections).start() <= (i + 1) * segment_size(len, sections) < len
            - 1,
        i == planned_count(len, sections) - 1 && i > 0 ==> planned_range(i, len, sections)
            == ByteRange::AllFrom(planned_range(i, len, sections).start() as u64),
        i > 0 ==> planned_range(i, len, sections).start() < len,
{
    let size = segment_size(len, sections);
    lemma_plan_shape(len, sections);
    if i > 0 {
        assert(0 < (i * size) + 1 < len);
    }
    if i < planned_count(len, sections) - 1 {
        assert(0 <= ((i + 1) * size) < len - 1);
        assert((i + 1) * size == i * size + size) by (nonlinear_arith);
        assert(1 * size == size) by (nonlinear_arith);
    }
}

/// The place of the planned range that holds a given byte of the resource.
proof fn lemma_offset_is_held(offset: nat, len: u64, sections: u64) -> (i: int)
    requires
        sections >= 1,
        offset < len,
    ensures
        0 <= i < planned_count(len, sections),
        planned_range(i, len, sections).holds(offset, len as nat),
{
    let size = segment_size(len, sections);
    let count = planned_count(len, sections) as int;
    lemma_plan_shape(len, sections);
    if offset <= size {
        lemma_planned_range(0, len, sections);
        0
    } else if size == 0 {
        lemma_planned_range(1, len, sections);
        assert(1 * size == 0) by (nonlinear_arith)
            requires
                size == 0,
        ;
        1
    } else {
        let place = (offset - 1) / size;
        lemma_quotient_bounds(offset - 1, size);
        lemma_quotient_at_least(offset - 1, size, 1);
        if place >= count - 1 {
            lemma_planned_range(count - 1, len, sections);
            lemma_product_grows(count - 1, place, size);
            count - 1
        } else {
            lemma_planned_range(place, len, sections);
            place
        }
    }
}

/// The first `k` ranges of a plan that has more hold the bytes up to the
/// start of the next.
proof fn lemma_prefix_size(len: u64, sections: u64, k: int)
    requires
        len > 0,
        sections >= 1,
        1 <= k < planned_count(len, sections),
    ensures
        total_size(planned_ranges(len, sections).take(k), len as nat) == k * segment_size(
            len,
            sections,
        ) + 1,
    decreases k,
{
    let ranges = planned_ranges(len, sections);
    let size = segment_size(len, sections);
    lemma_plan_shape(len, sections);
    lemma_planned_range(k - 1, len, sections);
    assert(ranges.take(k).last() == planned_range(k - 1, len, sections));
    assert(ranges.take(k).drop_last() =~= ranges.take(k - 1));
    assert(k * size == (k - 1) * size + size) by (nonlinear_arith);
    if k == 1 {
        assert(total_size(ranges.take(0), len as nat) == 0);
    } else {
        lemma_prefix_size(len, sections, k - 1);
    }
}

/// The segment size is at most the length, and below it from two sections
/// on.
proof fn lemma_segment_size(len: u64, sections: u64)
    requires
        sections >= 1,
    ensures
        0 <= segment_size(len, sections) <= len,
        segment_size(len, sections) * sections <= len < (segment_size(len, sections) + 1)
            * sections,
        sections >= 2 && len > 0 ==> segment_size(len, sections) < len,
{
    let size = segment_size(len, sections);
    lemma_quotient_bounds(len as int, sections as int);
    lemma_product_grows(1, sections as int, size);
    assert(size * sections == sections * size) by (nonlinear_arith);
    if sections >= 2 && len > 0 {
        lemma_product_grows(2, sections as int, size);
    }
}

/// A number between `q * d` and `(q + 1) * d` has the quotient `q` by `d`.
proof fn lemma_quotient(x: int, d: int, q: int)
    requires
        d > 0,
        q * d <= x < (q + 1) * d,
    ensures
        x / d == q,
{
    assert((q + 1) * d == q * d + d) by (nonlinear_arith);
    vstd::arithmetic::div_mod::lemma_fundamental_div_mod_converse_div(x, d, q, x - q * d);
}

/// A number that is at least `q * d` has a quotient of at least `q` by `d`.
proof fn lemma_quotient_at_least(x: int, d: int, q: int)
    requires
        d > 0,
        q >= 0,
        q * d <= x,
    ensures
        x / d >= q,
{
    vstd::arithmetic::div_mod::lemma_div_is_ordered(q * d, x, d);
    vstd::arithmetic::div_mod::lemma_div_by_multiple(q, d);
}

/// A number lies between its quotient times the divisor and the next
/// multiple.
proof fn lemma_quotient_bounds(x: int, d: int)
    requires
        d > 0,
        x >= 0,
    ensures
        (x / d) * d <= x < (x / d + 1) * d,
        x / d >= 0,
{
    vstd::arithmetic::div_mod::lemma_fundamental_div_mod(x, d);
    vstd::arithmetic::div_mod::lemma_mod_bound(x, d);
    vstd::arithmetic::div_mod::lemma_div_pos_is_pos(x, d);
    assert((x / d) * d == d * (x / d)) by (nonlinear_arith);
    assert((x / d + 1) * d == (x / d) * d + d) by (nonlinear_arith);
}

/// Multiplying by a number that is not negative keeps the order.
proof fn lemma_product_grows(a: int, b: int, d: int)
    requires
        a <= b,
        d >= 0,
    ensures
        a * d <= b * d,
{
    assert(a * d <= b * d) by (nonlinear_arith)
        requires
            a <= b,
            d >= 0,
    ;
}

/// Of two products with the same positive factor, the smaller has the
/// smaller other factor.
proof fn lemma_factor_below(a: int, b: int, d: int)
    requires
        a * d < b * d,
        d > 0,
    ensures
        a < b,
{
    assert(a < b) by (nonlinear_arith)
        requires
            a * d < b * d,
            d > 0,
    ;
}

} // verus!
