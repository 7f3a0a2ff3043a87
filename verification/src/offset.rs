//! Byte-offset to char-offset conversion for tokenizer spans.
//!
//! Byte-oriented tokenizers report spans as UTF-8 byte offsets, while chunk
//! positions are half-open char (Unicode scalar) offsets. [`CharByteMap`]
//! converts between the two and rejects offsets that fall inside a multi-byte
//! code point instead of rounding them.

use vstd::prelude::*;
use crate::utf8_len::{exec_char_width, lemma_utf8_len_prefix_strict, lemma_utf8_len_push, utf8_len};

verus! {

/// Byte offset at which char `i` of `text` begins (`i == text.len()` gives
/// the total byte length).
pub open spec fn char_start_byte(text: Seq<char>, i: int) -> int {
    utf8_len(text.take(i)) as int
}

/// All char start offsets of `text`, plus the total byte length as sentinel.
pub open spec fn char_starts(text: Seq<char>) -> Seq<usize> {
    Seq::new((text.len() + 1) as nat, |i: int| char_start_byte(text, i) as usize)
}

/// Why a byte offset or byte range could not be converted.
#[derive(Debug, Clone, Copy, PartialEq, Eq)]
pub enum OffsetError {
    /// The byte offset is out of range or not at the start of a char.
    NotCharBoundary { byte: usize, text_bytes: usize },
    /// Both ends convert, but the end lies before the start.
    InvertedRange { start: usize, end: usize, char_start: usize, char_end: usize },
}

/// Precomputed map from byte offsets to char offsets for one text.
///
/// `starts[i]` is the byte offset at which char `i` begins; the last element
/// is the total byte length, so that offset maps to the char count.
#[derive(Debug)]
pub struct CharByteMap {
    starts: Vec<usize>,
}

impl View for CharByteMap {
    type V = Seq<usize>;

    closed spec fn view(&self) -> Seq<usize> {
        self.starts@
    }
}

impl Clone for CharByteMap {
    fn clone(&self) -> (r: Self)
        ensures
            r@ == self@,
    {
        proof {
            use_type_invariant(self);
        }
        CharByteMap { starts: self.starts.clone() }
    }
}

impl CharByteMap {
    #[verifier::type_invariant]
    closed spec fn inv(self) -> bool {
        &&& self.starts@.len() >= 1
        &&& self.starts@[0] == 0
        &&& forall|i: int, j: int|
            0 <= i < j < self.starts@.len() ==> self.starts@[i] < self.starts@[j]
    }

    /// The map is the one built for `text`.
    pub open spec fn is_map_of(&self, text: Seq<char>) -> bool {
        self@ == char_starts(text)
    }

    /// Build the map in a single pass over `text`.
    pub fn new(text: &str) -> (m: Self)
        requires
            utf8_len(text@) <= usize::MAX,
        ensures
            m.is_map_of(text@),
    {
        let ghost t = text@;
        let mut starts: Vec<usize> = Vec::new();
        let mut pos: usize = 0;
        starts.push(0);
        assert(t.take(0) =~= Seq::<char>::empty());
        assert(utf8_len(Seq::<char>::empty()) == 0) by {
            assert(vstd::utf8::encode_utf8(Seq::<char>::empty()) =~= Seq::<u8>::empty());
        }
        for c in it: text.chars()
            invariant
                it.seq() == t,
                utf8_len(t) <= usize::MAX,
                0 <= it.index() <= t.len(),
                starts@.len() == it.index() + 1,
                pos == char_start_byte(t, it.index() as int),
                forall|i: int| 0 <= i <= it.index() ==> #[trigger] starts@[i] == char_start_byte(t, i),
        {
            let ghost k = it.index() as int;
            proof {
                lemma_utf8_len_push(t.take(k), c);
                assert(t.take(k).push(c) =~= t.take(k + 1));
                lemma_utf8_len_prefix_strict(t, k, k + 1);
            }
            let w = exec_char_width(c);
            pos = pos + w;
            starts.push(pos);
        }
        proof {
            assert(starts@ =~= char_starts(t));
            assert forall|i: int, j: int| 0 <= i < j < starts@.len() implies starts@[i] < starts@[j] by {
                lemma_utf8_len_prefix_strict(t, i, j);
            }
        }
        CharByteMap { starts }
    }

    /// Number of chars in the source text.
    pub fn char_len(&self) -> (n: usize)
        ensures
            n == self@.len() - 1,
    {
        proof {
            use_type_invariant(self);
        }
        self.starts.len() - 1
    }

    /// Convert a byte offset to a char offset. Fails when `byte` is out of
    /// range or falls inside a multi-byte code point.
    pub fn byte_to_char(&self, byte: usize) -> (r: Result<usize, OffsetError>)
        ensures
            self@.contains(byte) <==> r is Ok,
            r matches Ok(i) ==> i < self@.len() && self@[i as int] == byte,
            r matches Err(e) ==> e == (OffsetError::NotCharBoundary {
                byte,
                text_bytes: self@.last(),
            }),
    {
        proof {
            use_type_invariant(self);
        }
        let len = self.starts.len();
        let mut lo: usize = 0;
        let mut hi: usize = len;
        while lo < hi
            invariant
                0 <= lo <= hi <= len,
                len == self@.len(),
                self.inv(),
                forall|i: int| 0 <= i < lo ==> #[trigger] self@[i] < byte,
                forall|i: int| hi <= i < len ==> #[trigger] self@[i] > byte,
            decreases hi - lo,
        {
            let mid = lo + (hi - lo) / 2;
            let v = self.starts[mid];
            if v == byte {
                proof {
                    assert(self@[mid as int] == byte);
                }
                return Ok(mid);
            } else if v < byte {
                proof {
                    assert forall|i: int| 0 <= i < mid + 1 implies #[trigger] self@[i] < byte by {
                        if i < mid {
                            assert(self@[i] < self@[mid as int]);
                        }
                    }
                }
                lo = mid + 1;
            } else {
                proof {
                    assert forall|i: int| mid <= i < len implies #[trigger] self@[i] > byte by {
                        if i > mid {
                            assert(self@[mid as int] < self@[i]);
                        }
                    }
                }
                hi = mid;
            }
        }
        proof {
            assert forall|i: int| 0 <= i < self@.len() implies self@[i] != byte by {
                if i < lo {
                    assert(self@[i] < byte);
                } else {
                    assert(self@[i] > byte);
                }
            }
        }
        Err(OffsetError::NotCharBoundary { byte, text_bytes: self.starts[len - 1] })
    }

    /// Convert a half-open byte range to a half-open char range. Fails when
    /// either end is not a char boundary, or when `end` converts before
    /// `start`.
    pub fn byte_range_to_char_range(&self, start: usize, end: usize) -> (r: Result<
        (usize, usize),
        OffsetError,
    >)
        ensures
            r is Ok <==> (self@.contains(start) && self@.contains(end) && start <= end),
            r matches Ok((cs, ce)) ==> cs <= ce < self@.len() && self@[cs as int] == start
                && self@[ce as int] == end,
            !self@.contains(start) ==> r == Err::<(usize, usize), OffsetError>(
                OffsetError::NotCharBoundary { byte: start, text_bytes: self@.last() },
            ),
            self@.contains(start) && !self@.contains(end) ==> r == Err::<
                (usize, usize),
                OffsetError,
            >(OffsetError::NotCharBoundary { byte: end, text_bytes: self@.last() }),
            r matches Err(OffsetError::InvertedRange { start: s, end: e, char_start, char_end })
                ==> s == start && e == end && char_end < char_start && self@[char_start as int]
                == start && self@[char_end as int] == end,
    {
        proof {
            use_type_invariant(self);
        }
        let cs = match self.byte_to_char(start) {
            Ok(c) => c,
            Err(e) => return Err(e),
        };
        let ce = match self.byte_to_char(end) {
            Ok(c) => c,
            Err(e) => return Err(e),
        };
        if ce < cs {
            proof {
                assert(self@[ce as int] < self@[cs as int]);
            }
            return Err(
                OffsetError::InvertedRange { start, end, char_start: cs, char_end: ce },
            );
        }
        proof {
            if cs < ce {
                assert(self@[cs as int] < self@[ce as int]);
            }
        }
        Ok((cs, ce))
    }
}

/// Distinct char positions of a text start at distinct byte offsets.
pub proof fn lemma_char_starts_strict(text: Seq<char>, i: int, j: int)
    requires
        utf8_len(text) <= usize::MAX,
        0 <= i < j <= text.len(),
    ensures
        char_starts(text)[i] < char_starts(text)[j],
{
    lemma_utf8_len_prefix_strict(text, i, j);
}

/// Round trip of the map built for `text`: the char index found for the byte
/// offset at which char `i` starts is `i` itself, for every `0 <= i <= len`.
pub proof fn law_byte_to_char_of_char_start(m: CharByteMap, text: Seq<char>, i: int, k: int)
    requires
        m.is_map_of(text),
        utf8_len(text) <= usize::MAX,
        0 <= i <= text.len(),
        0 <= k < m@.len(),
        m@[k] == char_starts(text)[i],
    ensures
        k == i,
{
    if k < i {
        lemma_char_starts_strict(text, k, i);
    } else if i < k {
        lemma_char_starts_strict(text, i, k);
    }
}

} // verus!
