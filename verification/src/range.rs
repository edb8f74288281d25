//! Byte ranges of a resource, and what it means for a list of them to
//! split a resource into pieces.

use vstd::prelude::*;
use crate::text::{decimal, to_decimal};

verus! {

/// A range of byte offsets within a resource.
#[derive(Clone, Copy, Debug, PartialEq, Eq, Structural)]
pub enum ByteRange {
    /// The bytes from the first offset to the second, both included.
    FromTo(u64, u64),
    /// Every byte from the offset to the end of the resource.
    AllFrom(u64),
}

impl ByteRange {
    /// The offset of the first byte of the range.
    pub open spec fn start(self) -> nat {
        match self {
            ByteRange::FromTo(a, _) => a as nat,
            ByteRange::AllFrom(a) => a as nat,
        }
    }

    /// Whether the range, asked of a resource of `len` bytes, holds the byte
    /// at `offset`. A resource has no byte at or past `len`, so a closed
    /// range that names such offsets holds only those below `len`, as a
    /// server answers it.
    pub open spec fn holds(self, offset: nat, len: nat) -> bool {
        match self {
            ByteRange::FromTo(a, b) => a <= offset <= b && offset < len,
            ByteRange::AllFrom(a) => a <= offset < len,
        }
    }

    /// Whether the range names no offset at or past `len`.
    pub open spec fn within(self, len: nat) -> bool {
        match self {
            ByteRange::FromTo(a, b) => a <= b < len,
            ByteRange::AllFrom(a) => a < len,
        }
    }

    /// How many bytes of a resource of `len` bytes the range holds.
    pub open spec fn size_in(self, len: nat) -> nat {
        match self {
            ByteRange::FromTo(a, b) => if a <= b && a < len {
                if b < len {
                    (b + 1 - a) as nat
                } else {
                    (len - a) as nat
                }
            } else {
                0
            },
            ByteRange::AllFrom(a) => if a < len {
                (len - a) as nat
            } else {
                0
            },
        }
    }

    /// The value of the `Range` header that asks for the range:
    /// `bytes=<first>-<last>` for a closed range, `bytes=<first>-` for an
    /// open one, the offsets in decimal.
    pub open spec fn header_text(self) -> Seq<char> {
        match self {
            ByteRange::FromTo(a, b) => "bytes="@ + decimal(a as nat) + "-"@ + decimal(b as nat),
            ByteRange::AllFrom(a) => "bytes="@ + decimal(a as nat) + "-"@,
        }
    }

    /// The value of the `Range` header that asks for the range.
    pub fn header_value(&self) -> (r: String)
        ensures
            r@ == self.header_text(),
    {
        let mut value = String::from_str("bytes=");
        match *self {
            ByteRange::FromTo(a, b) => {
                let first = to_decimal(a);
                let last = to_decimal(b);
                value.append(first.as_str());
                value.append("-");
                value.append(last.as_str());
                assert(value@ =~= self.header_text());
            },
            ByteRange::AllFrom(a) => {
                let first = to_decimal(a);
                value.append(first.as_str());
                value.append("-");
                assert(value@ =~= self.header_text());
            },
        }
        value
    }

    /// How many bytes of a resource of `len` bytes the range holds.
    pub fn byte_count(&self, len: u64) -> (n: u64)
        ensures
            n == self.size_in(len as nat),
    {
        match *self {
            ByteRange::FromTo(a, b) => {
                if a <= b && a < len {
                    if b < len {
                        b - a + 1
                    } else {
                        len - a
                    }
                } else {
                    0
                }
            },
            ByteRange::AllFrom(a) => {
                if a < len {
                    len - a
                } else {
                    0
                }
            },
        }
    }

    /// The offset of the first byte of the range.
    pub fn first_byte(&self) -> (r: u64)
        ensures
            r == self.start(),
    {
        match *self {
            ByteRange::FromTo(a, _) => a,
            ByteRange::AllFrom(a) => a,
        }
    }
}

/// Each range but the last is closed and not empty, and the next one starts
/// at the byte after its end.
pub open spec fn contiguous(ranges: Seq<ByteRange>) -> bool {
    forall|i: int|
        0 <= i < ranges.len() - 1 ==> match #[trigger] ranges[i] {
            ByteRange::FromTo(a, b) => a <= b && ranges[i + 1].start() == b + 1,
            ByteRange::AllFrom(_) => false,
        }
}

/// The ranges start at strictly growing offsets.
pub open spec fn ascending(ranges: Seq<ByteRange>) -> bool {
    forall|i: int, j: int|
        0 <= i < j < ranges.len() ==> (#[trigger] ranges[i]).start() < (#[trigger] ranges[j]).start()
}

/// No byte of a resource of `len` bytes is held by two of the ranges.
pub open spec fn disjoint(ranges: Seq<ByteRange>, len: nat) -> bool {
    forall|i: int, j: int, offset: nat|
        0 <= i < j < ranges.len() ==> !(#[trigger] ranges[i].holds(offset, len)
            && #[trigger] ranges[j].holds(offset, len))
}

/// The offsets of a resource of `len` bytes that at least one of the ranges
/// holds.
pub open spec fn covered(ranges: Seq<ByteRange>, len: nat) -> Set<nat> {
    Set::new(
        |offset: nat|
            exists|i: int| 0 <= i < ranges.len() && #[trigger] ranges[i].holds(offset, len),
    )
}

/// Every offset of a resource of `len` bytes.
pub open spec fn all_offsets(len: nat) -> Set<nat> {
    Set::new(|offset: nat| offset < len)
}

/// How many bytes of a resource of `len` bytes the ranges hold, each range
/// counted for itself.
pub open spec fn total_size(ranges: Seq<ByteRange>, len: nat) -> nat
    decreases ranges.len(),
{
    if ranges.len() == 0 {
        0
    } else {
        total_size(ranges.drop_last(), len) + ranges.last().size_in(len)
    }
}

/// The ranges split a resource of `len` bytes into pieces: they begin at
/// offset 0, follow one another without gap or overlap in ascending order,
/// and together hold every byte of the resource and nothing else.
pub open spec fn is_partition(ranges: Seq<ByteRange>, len: nat) -> bool {
    &&& ranges.len() >= 1
    &&& ranges[0].start() == 0
    &&& contiguous(ranges)
    &&& ascending(ranges)
    &&& disjoint(ranges, len)
    &&& covered(ranges, len) == all_offsets(len)
}

} // verus!
