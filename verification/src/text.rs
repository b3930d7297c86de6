//! Translation between UTF-16 code-unit offsets and UTF-8 byte offsets.
//!
//! Message entities carry spans measured in UTF-16 code units, while the
//! message body is UTF-8. This module maps a UTF-16 span onto the character
//! indices and byte indices of the body, and rejects spans that do not fall
//! on code-point boundaries.

use vstd::prelude::*;
use vstd::string::StrSliceExecFns;
use vstd::utf8::{char_is_scalar, encode_scalar, encode_utf8};

verus! {

/// Number of UTF-16 code units one character occupies: two for characters
/// outside the basic multilingual plane, one otherwise.
pub open spec fn utf16_width(c: char) -> int {
    if c as u32 >= 0x10000 {
        2
    } else {
        1
    }
}

/// Number of UTF-8 bytes one character occupies.
pub open spec fn utf8_width(c: char) -> int {
    if (c as u32) < 0x80 {
        1
    } else if (c as u32) < 0x800 {
        2
    } else if (c as u32) < 0x10000 {
        3
    } else {
        4
    }
}

/// Total number of UTF-16 code units of a character sequence.
pub open spec fn utf16_len(s: Seq<char>) -> int
    decreases s.len(),
{
    if s.len() == 0 {
        0
    } else {
        utf16_len(s.drop_last()) + utf16_width(s.last())
    }
}

/// Total number of UTF-8 bytes of a character sequence.
pub open spec fn utf8_len(s: Seq<char>) -> int
    decreases s.len(),
{
    if s.len() == 0 {
        0
    } else {
        utf8_len(s.drop_last()) + utf8_width(s.last())
    }
}

/// The character index at which a prefix of `s` measures exactly `off`
/// UTF-16 code units, scanning from character index `i`. `None` when `off`
/// falls inside a surrogate pair or beyond the end of `s`.
pub open spec fn utf16_cut_from(s: Seq<char>, off: int, i: int) -> Option<int>
    decreases s.len() - i,
{
    if i < 0 || i > s.len() {
        None
    } else if off == 0 {
        Some(i)
    } else if off < 0 || i == s.len() {
        None
    } else {
        utf16_cut_from(s, off - utf16_width(s[i]), i + 1)
    }
}

/// The character index at which the prefix of `s` measures exactly `off`
/// UTF-16 code units, if any.
pub open spec fn utf16_cut(s: Seq<char>, off: int) -> Option<int> {
    utf16_cut_from(s, off, 0)
}

/// One character's UTF-8 width agrees with the length of its encoding.
pub proof fn lemma_utf8_width_is_encoding_len(c: char)
    ensures
        utf8_width(c) == encode_scalar(c as u32).len(),
{
    broadcast use char_is_scalar;

}

/// Appending one character adds its encoding at the end.
pub proof fn lemma_encode_utf8_push(s: Seq<char>, c: char)
    ensures
        encode_utf8(s.push(c)) == encode_utf8(s) + encode_scalar(c as u32),
    decreases s.len(),
{
    if s.len() == 0 {
        assert(s.push(c).drop_first() =~= s);
        assert(encode_utf8(s.push(c)) =~= encode_utf8(s) + encode_scalar(c as u32));
    } else {
        assert(s.push(c).drop_first() =~= s.drop_first().push(c));
        lemma_encode_utf8_push(s.drop_first(), c);
        assert(encode_utf8(s.push(c)) =~= encode_utf8(s) + encode_scalar(c as u32));
    }
}

/// `utf8_len` counts exactly the bytes of the UTF-8 encoding.
pub proof fn lemma_utf8_len_is_encoding_len(s: Seq<char>)
    ensures
        utf8_len(s) == encode_utf8(s).len(),
    decreases s.len(),
{
    if s.len() == 0 {
    } else {
        lemma_utf8_len_is_encoding_len(s.drop_last());
        lemma_encode_utf8_push(s.drop_last(), s.last());
        lemma_utf8_width_is_encoding_len(s.last());
        assert(s.drop_last().push(s.last()) =~= s);
    }
}

/// Extending a prefix by one character adds that character's widths.
pub proof fn lemma_width_take_succ(s: Seq<char>, i: int)
    requires
        0 <= i < s.len(),
    ensures
        utf16_len(s.take(i + 1)) == utf16_len(s.take(i)) + utf16_width(s[i]),
        utf8_len(s.take(i + 1)) == utf8_len(s.take(i)) + utf8_width(s[i]),
{
    assert(s.take(i + 1).drop_last() =~= s.take(i));
    assert(s.take(i + 1).last() == s[i]);
}

/// Both length measures are non-negative, and a string never takes more
/// UTF-16 units than UTF-8 bytes; the byte count dominates the character
/// count as well.
pub proof fn lemma_len_bounds(s: Seq<char>)
    ensures
        0 <= utf16_len(s),
        0 <= utf8_len(s),
        utf16_len(s) <= utf8_len(s),
        s.len() <= utf8_len(s),
    decreases s.len(),
{
    if s.len() == 0 {
    } else {
        lemma_len_bounds(s.drop_last());
    }
}

/// Prefix byte counts grow with the prefix.
pub proof fn lemma_utf8_len_take_monotone(s: Seq<char>, i: int, j: int)
    requires
        0 <= i <= j <= s.len(),
    ensures
        utf8_len(s.take(i)) <= utf8_len(s.take(j)),
    decreases j - i,
{
    if i < j {
        lemma_width_take_succ(s, j - 1);
        lemma_utf8_len_take_monotone(s, i, j - 1);
    }
}

/// UTF-16 length splits over a concatenation point.
pub proof fn lemma_utf16_len_split(s: Seq<char>, a: int, b: int, c: int)
    requires
        0 <= a <= b <= c <= s.len(),
    ensures
        utf16_len(s.subrange(a, c)) == utf16_len(s.subrange(a, b)) + utf16_len(s.subrange(b, c)),
    decreases c - b,
{
    if b == c {
        assert(s.subrange(b, c) =~= Seq::<char>::empty());
    } else {
        lemma_utf16_len_split(s, a, b, c - 1);
        assert(s.subrange(a, c).drop_last() =~= s.subrange(a, c - 1));
        assert(s.subrange(b, c).drop_last() =~= s.subrange(b, c - 1));
        assert(s.subrange(a, c).last() == s[c - 1]);
        assert(s.subrange(b, c).last() == s[c - 1]);
    }
}

/// A single character measures its own width.
pub proof fn lemma_utf16_len_singleton(c: char)
    ensures
        utf16_len(seq![c]) == utf16_width(c),
{
    assert(seq![c].len() == 1);
    assert(seq![c].last() == c);
    assert(seq![c].drop_last() =~= Seq::<char>::empty());
    assert(utf16_len(Seq::<char>::empty()) == 0);
}

/// Where `utf16_cut_from` finds a cut, the span between the scan origin and
/// the cut measures exactly the requested number of UTF-16 units.
pub proof fn lemma_utf16_cut_measures(s: Seq<char>, off: int, i: int, k: int)
    requires
        utf16_cut_from(s, off, i) == Some(k),
    ensures
        0 <= i <= k <= s.len(),
        utf16_len(s.subrange(i, k)) == off,
    decreases s.len() - i,
{
    if off == 0 {
        assert(s.subrange(i, k) =~= Seq::<char>::empty());
    } else {
        lemma_utf16_cut_measures(s, off - utf16_width(s[i]), i + 1, k);
        lemma_utf16_len_split(s, i, i + 1, k);
        assert(s.subrange(i, i + 1) =~= seq![s[i]]);
        lemma_utf16_len_singleton(s[i]);
    }
}

/// Where a span starting at the scan origin measures exactly `off` UTF-16
/// units, `utf16_cut_from` finds its endpoint.
pub proof fn lemma_utf16_cut_exists(s: Seq<char>, i: int, k: int)
    requires
        0 <= i <= k <= s.len(),
    ensures
        utf16_cut_from(s, utf16_len(s.subrange(i, k)), i) == Some(k),
    decreases k - i,
{
    let off = utf16_len(s.subrange(i, k));
    lemma_len_bounds(s.subrange(i, k));
    if i == k {
        assert(s.subrange(i, k) =~= Seq::<char>::empty());
    } else {
        lemma_utf16_len_split(s, i, i + 1, k);
        assert(s.subrange(i, i + 1) =~= seq![s[i]]);
        lemma_utf16_len_singleton(s[i]);
        lemma_len_bounds(s.subrange(i + 1, k));
        assert(off - utf16_width(s[i]) == utf16_len(s.subrange(i + 1, k)));
        lemma_utf16_cut_exists(s, i + 1, k);
    }
}

/// Walk the characters of `s`, accumulating UTF-16 units and UTF-8 bytes,
/// until the accumulated UTF-16 count reaches `target`; report the character
/// index and byte index of that point.
fn utf16_index(s: &str, target: usize) -> (r: Option<(usize, usize)>)
    ensures
        match r {
            Some((ci, bi)) => utf16_cut(s@, target as int) == Some(ci as int) && bi == utf8_len(
                s@.take(ci as int),
            ),
            None => utf16_cut(s@, target as int) is None,
        },
{
    let n = s.unicode_len();
    let total = s.as_bytes().len();
    proof {
        lemma_utf8_len_is_encoding_len(s@);
        assert(s@.take(0) =~= Seq::<char>::empty());
    }
    let mut i: usize = 0;
    let mut units: usize = 0;
    let mut bytes: usize = 0;
    loop
        invariant
            0 <= i <= n,
            n == s@.len(),
            total == utf8_len(s@),
            units == utf16_len(s@.take(i as int)),
            bytes == utf8_len(s@.take(i as int)),
            utf16_cut(s@, target as int) == utf16_cut_from(
                s@,
                target - units,
                i as int,
            ),
        decreases n - i,
    {
        if units == target {
            return Some((i, bytes));
        }
        if i == n {
            return None;
        }
        let c = s.get_char(i);
        proof {
            lemma_width_take_succ(s@, i as int);
            lemma_utf8_len_take_monotone(s@, i + 1, s@.len() as int);
            assert(s@.take(s@.len() as int) =~= s@);
            lemma_len_bounds(s@.take(i + 1));
        }
        if (c as u32) >= 0x10000 {
            units = units + 2;
        } else {
            units = units + 1;
        }
        if (c as u32) < 0x80 {
            bytes = bytes + 1;
        } else if (c as u32) < 0x800 {
            bytes = bytes + 2;
        } else if (c as u32) < 0x10000 {
            bytes = bytes + 3;
        } else {
            bytes = bytes + 4;
        }
        i = i + 1;
    }
}

/// Map the UTF-16 span `[offset, offset + length)` of `s` onto a UTF-8 byte
/// range of `s`. Returns `None` when either end of the span misses every
/// code-point boundary, including when it lands inside a surrogate pair or
/// past the end of the text.
pub fn utf16_range_to_utf8(s: &str, offset: usize, length: usize) -> (r: Option<(usize, usize)>)
    requires
        offset + length <= usize::MAX,
    ensures
        match r {
            Some((bs, be)) => {
                &&& utf16_cut(s@, offset as int) matches Some(ci) && bs == utf8_len(
                    s@.take(ci),
                )
                &&& utf16_cut(s@, offset + length) matches Some(cj) && be == utf8_len(s@.take(cj))
            },
            None => utf16_cut(s@, offset as int) is None || utf16_cut(s@, offset + length) is None,
        },
{
    let start = match utf16_index(s, offset) {
        Some((_, b)) => b,
        None => {
            return None;
        },
    };
    let end = match utf16_index(s, offset + length) {
        Some((_, b)) => b,
        None => {
            return None;
        },
    };
    Some((start, end))
}

/// Map the UTF-16 span `[offset, offset + length)` of `s` onto a character
/// index range of `s`, under the same boundary rules as
/// [`utf16_range_to_utf8`].
pub fn utf16_range_to_chars(s: &str, offset: usize, length: usize) -> (r: Option<(usize, usize)>)
    requires
        offset + length <= usize::MAX,
    ensures
        match r {
            Some((ci, cj)) => utf16_cut(s@, offset as int) == Some(ci as int) && utf16_cut(
                s@,
                offset + length,
            ) == Some(cj as int),
            None => utf16_cut(s@, offset as int) is None || utf16_cut(s@, offset + length) is None,
        },
{
    let start = match utf16_index(s, offset) {
        Some((c, _)) => c,
        None => {
            return None;
        },
    };
    let end = match utf16_index(s, offset + length) {
        Some((c, _)) => c,
        None => {
            return None;
        },
    };
    Some((start, end))
}

/// A successful cut never lies outside the text, and cuts are ordered as
/// their offsets are.
pub proof fn lemma_utf16_cut_ordered(s: Seq<char>, off1: int, off2: int, i: int, j: int)
    requires
        0 <= off1 <= off2,
        utf16_cut(s, off1) == Some(i),
        utf16_cut(s, off2) == Some(j),
    ensures
        0 <= i <= j <= s.len(),
        utf16_len(s.subrange(i, j)) == off2 - off1,
{
    lemma_utf16_cut_measures(s, off1, 0, i);
    lemma_utf16_cut_measures(s, off2, 0, j);
    if j < i {
        lemma_utf16_len_split(s, 0, j, i);
        lemma_len_bounds(s.subrange(j, i));
        assert(s.subrange(0, i) =~= s.take(i));
        assert(s.subrange(0, j) =~= s.take(j));
        lemma_len_bounds(s.subrange(j, i));
        if i > j {
            assert(utf16_len(s.subrange(j, i)) >= i - j) by {
                lemma_width_at_least_one(s.subrange(j, i));
            }
        }
        assert(false);
    }
    lemma_utf16_len_split(s, 0, i, j);
    assert(s.subrange(0, i) =~= s.take(i));
    assert(s.subrange(0, j) =~= s.take(j));
    assert(s.subrange(0, i) =~= s.subrange(0, i));
}

/// Every character contributes at least one UTF-16 unit.
pub proof fn lemma_width_at_least_one(s: Seq<char>)
    ensures
        utf16_len(s) >= s.len(),
    decreases s.len(),
{
    if s.len() > 0 {
        lemma_width_at_least_one(s.drop_last());
    }
}

/// Round trip of the UTF-16 span mapping: when both ends of a span fall on
/// code-point boundaries, the selected characters cover exactly `length`
/// UTF-16 units starting `offset` units into the text.
pub proof fn lemma_utf16_round_trip(s: Seq<char>, offset: int, length: int)
    requires
        0 <= offset,
        0 <= length,
        utf16_cut(s, offset) is Some,
        utf16_cut(s, offset + length) is Some,
    ensures
        ({
            let i = utf16_cut(s, offset)->0;
            let j = utf16_cut(s, offset + length)->0;
            &&& 0 <= i <= j <= s.len()
            &&& utf16_len(s.take(i)) == offset
            &&& utf16_len(s.subrange(i, j)) == length
        }),
{
    let i = utf16_cut(s, offset)->0;
    let j = utf16_cut(s, offset + length)->0;
    lemma_utf16_cut_ordered(s, offset, offset + length, i, j);
    lemma_utf16_cut_measures(s, offset, 0, i);
    assert(s.subrange(0, i) =~= s.take(i));
}

} // verus!
