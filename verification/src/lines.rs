//! Line numbers of byte offsets.
//!
//! A [`LineIndex`] records where the line feeds of a text stand, so that the
//! line of any byte offset can be found with a binary search.

use vstd::prelude::*;
use vstd::slice::slice_index_get;
use vstd::string::StringSliceAdditionalSpecFns;

verus! {

/// The byte that ends a line.
pub const LINE_FEED: u8 = 10;

/// How many line feeds `bytes` holds.
pub open spec fn count_line_feeds(bytes: Seq<u8>) -> nat
    decreases bytes.len(),
{
    if bytes.len() == 0 {
        0
    } else {
        count_line_feeds(bytes.drop_last()) + if bytes.last() == LINE_FEED {
            1nat
        } else {
            0nat
        }
    }
}

/// The part of `bytes` that stands before `offset`.
pub open spec fn before(bytes: Seq<u8>, offset: int) -> Seq<u8> {
    if offset <= 0 {
        Seq::empty()
    } else if offset >= bytes.len() {
        bytes
    } else {
        bytes.take(offset)
    }
}

/// The 1-based line on which the byte at `offset` stands: one more than the
/// number of line feeds before it.
pub open spec fn line_at(bytes: Seq<u8>, offset: int) -> nat {
    1 + count_line_feeds(before(bytes, offset))
}

/// The line of `offset` as the scanner reports it: [`line_at`], held at
/// `usize::MAX` where it would not fit.
pub open spec fn line_number(bytes: Seq<u8>, offset: int) -> usize {
    if line_at(bytes, offset) <= usize::MAX {
        line_at(bytes, offset) as usize
    } else {
        usize::MAX
    }
}

/// `index` lists the offsets of all line feeds of `bytes`, in increasing order.
pub open spec fn is_newline_index(index: Seq<usize>, bytes: Seq<u8>) -> bool {
    &&& forall|i: int, j: int| 0 <= i < j < index.len() ==> index[i] < index[j]
    &&& forall|i: int| 0 <= i < index.len() ==> index[i] < bytes.len() && bytes[index[i] as int] == LINE_FEED
    &&& forall|p: int| 0 <= p < bytes.len() && bytes[p] == LINE_FEED ==> exists|i: int| 0 <= i < index.len() && index[i] == p
}

/// `rank` entries of `index` are below `offset`, and they are its first ones.
pub open spec fn splits_at(index: Seq<usize>, offset: int, rank: int) -> bool {
    &&& 0 <= rank <= index.len()
    &&& forall|i: int| 0 <= i < rank ==> index[i] < offset
    &&& forall|i: int| rank <= i < index.len() ==> index[i] >= offset
}

/// In a newline index, the number of entries below an offset is the number of
/// line feeds before that offset.
pub proof fn lemma_rank_counts_line_feeds(index: Seq<usize>, bytes: Seq<u8>, offset: int, rank: int)
    requires
        is_newline_index(index, bytes),
        0 <= offset <= bytes.len(),
        splits_at(index, offset, rank),
    ensures
        rank == count_line_feeds(before(bytes, offset)),
    decreases offset,
{
    if offset == 0 {
        if rank > 0 {
            assert(index[0] < offset);
        }
    } else {
        let shorter = offset - 1;
        assert(before(bytes, offset).drop_last() =~= before(bytes, shorter));
        assert(before(bytes, offset).last() == bytes[shorter]);
        if bytes[shorter] == LINE_FEED {
            let at = choose|i: int| 0 <= i < index.len() && index[i] == shorter;
            assert(at < rank);
            if at < rank - 1 {
                assert(index[at] < index[rank - 1]);
            }
            assert(splits_at(index, shorter, rank - 1)) by {
                assert forall|i: int| 0 <= i < rank - 1 implies index[i] < shorter by {
                    assert(index[i] < index[at]);
                }
            }
            lemma_rank_counts_line_feeds(index, bytes, shorter, rank - 1);
        } else {
            assert(splits_at(index, shorter, rank)) by {
                assert forall|i: int| 0 <= i < rank implies index[i] < shorter by {
                    assert(bytes[index[i] as int] == LINE_FEED);
                }
            }
            lemma_rank_counts_line_feeds(index, bytes, shorter, rank);
        }
    }
}

/// A later offset never stands on an earlier line.
pub proof fn lemma_line_at_monotonic(bytes: Seq<u8>, first: int, second: int)
    requires
        first <= second,
    ensures
        line_at(bytes, first) <= line_at(bytes, second),
    decreases second - first,
{
    if first < second {
        lemma_line_at_monotonic(bytes, first, second - 1);
        if 0 < second <= bytes.len() {
            assert(before(bytes, second).drop_last() =~= before(bytes, second - 1));
        } else {
            assert(before(bytes, second) =~= before(bytes, second - 1));
        }
    }
}

/// A later offset never gets an earlier line number.
pub proof fn lemma_line_number_monotonic(bytes: Seq<u8>, first: int, second: int)
    requires
        first <= second,
    ensures
        line_number(bytes, first) <= line_number(bytes, second),
{
    lemma_line_at_monotonic(bytes, first, second);
}

/// Line numbers start at 1, and an offset on the first line has line 1.
pub proof fn lemma_line_number_starts_at_one(bytes: Seq<u8>, offset: int)
    ensures
        line_number(bytes, offset) >= 1,
        count_line_feeds(before(bytes, offset)) == 0 ==> line_number(bytes, offset) == 1,
{
}

/// The offsets of the line feeds of one text.
pub struct LineIndex {
    newlines: Vec<usize>,
    source: Ghost<Seq<u8>>,
}

impl LineIndex {
    #[verifier::type_invariant]
    spec fn well_formed(self) -> bool {
        is_newline_index(self.newlines@, self.source@)
    }

    /// The bytes of the text that the index was built from.
    pub closed spec fn source(self) -> Seq<u8> {
        self.source@
    }

    /// The recorded offsets.
    pub closed spec fn offsets(self) -> Seq<usize> {
        self.newlines@
    }

    /// Records the line feeds of `text`.
    pub fn new(text: &str) -> (index: LineIndex)
        ensures
            index.source() == text.spec_bytes(),
            is_newline_index(index.offsets(), index.source()),
    {
        let bytes = text.as_bytes();
        let mut newlines: Vec<usize> = Vec::new();
        let mut at: usize = 0;
        while at < bytes.len()
            invariant
                at <= bytes@.len(),
                is_newline_index(newlines@, bytes@.take(at as int)),
            decreases bytes@.len() - at,
        {
            let ghost earlier = newlines@;
            if *slice_index_get(bytes, at) == LINE_FEED {
                newlines.push(at);
                proof {
                    let seen = bytes@.take(at as int + 1);
                    assert forall|i: int, j: int| 0 <= i < j < newlines@.len() implies newlines@[i] < newlines@[j] by {
                        if j < earlier.len() {
                            assert(earlier[i] < earlier[j]);
                        } else {
                            assert(earlier[i] < at);
                        }
                    }
                    assert forall|p: int| 0 <= p < seen.len() && seen[p] == LINE_FEED implies exists|i: int|
                        0 <= i < newlines@.len() && newlines@[i] == p by {
                        if p < at {
                            assert(bytes@.take(at as int)[p] == LINE_FEED);
                            let i = choose|i: int| 0 <= i < earlier.len() && earlier[i] == p;
                            assert(newlines@[i] == p);
                        } else {
                            assert(newlines@[earlier.len() as int] == p);
                        }
                    }
                }
            } else {
                proof {
                    let seen = bytes@.take(at as int + 1);
                    assert forall|p: int| 0 <= p < seen.len() && seen[p] == LINE_FEED implies exists|i: int|
                        0 <= i < newlines@.len() && newlines@[i] == p by {
                        assert(bytes@.take(at as int)[p] == LINE_FEED);
                    }
                }
            }
            at = at + 1;
        }
        assert(bytes@.take(at as int) =~= bytes@);
        LineIndex { newlines, source: Ghost(bytes@) }
    }

    /// The number of recorded line feeds that stand before `offset`.
    fn rank(&self, offset: usize) -> (rank: usize)
        ensures
            splits_at(self.offsets(), offset as int, rank as int),
    {
        proof {
            use_type_invariant(self);
        }
        let mut low: usize = 0;
        let mut high: usize = self.newlines.len();
        while low < high
            invariant
                low <= high <= self.newlines@.len(),
                is_newline_index(self.newlines@, self.source@),
                forall|i: int| 0 <= i < low ==> self.newlines@[i] < offset,
                forall|i: int| high <= i < self.newlines@.len() ==> self.newlines@[i] >= offset,
            decreases high - low,
        {
            let middle = low + (high - low) / 2;
            if self.newlines[middle] < offset {
                assert forall|i: int| 0 <= i < middle + 1 implies self.newlines@[i] < offset by {
                    if i < middle {
                        assert(self.newlines@[i] < self.newlines@[middle as int]);
                    }
                }
                low = middle + 1;
            } else {
                assert forall|i: int| middle <= i < self.newlines@.len() implies self.newlines@[i] >= offset by {
                    if middle < i {
                        assert(self.newlines@[middle as int] < self.newlines@[i]);
                    }
                }
                high = middle;
            }
        }
        low
    }

    /// The 1-based line of the byte at `offset`, held at `usize::MAX` where
    /// the line number would not fit.
    pub fn line_of(&self, offset: usize) -> (line: usize)
        ensures
            line == line_number(self.source(), offset as int),
    {
        let rank = self.rank(offset);
        proof {
            use_type_invariant(self);
            let bytes = self.source@;
            if offset <= bytes.len() {
                lemma_rank_counts_line_feeds(self.newlines@, bytes, offset as int, rank as int);
            } else {
                assert(splits_at(self.newlines@, bytes.len() as int, rank as int)) by {
                    if rank < self.newlines@.len() {
                        assert(self.newlines@[rank as int] < bytes.len());
                    }
                }
                lemma_rank_counts_line_feeds(self.newlines@, bytes, bytes.len() as int, rank as int);
            }
        }
        if rank < usize::MAX {
            rank + 1
        } else {
            usize::MAX
        }
    }
}

} // verus!
