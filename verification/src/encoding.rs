//! UTF-8 and UTF-16 lengths of text, and facts about character boundaries in UTF-8 bytes.

use vstd::prelude::*;
use vstd::utf8::*;

verus! {

/// The number of UTF-16 code units that encode `c`: two for characters outside the basic
/// multilingual plane, one otherwise.
pub open spec fn utf16_width(c: char) -> int {
    if (c as u32) >= 0x10000 { 2 } else { 1 }
}

/// The number of bytes of the UTF-8 encoding of `c`.
pub open spec fn utf8_width(c: char) -> int {
    encode_scalar(c as u32).len() as int
}

/// The number of UTF-16 code units that encode the characters `cs`.
pub open spec fn utf16_len(cs: Seq<char>) -> int
    decreases cs.len(),
{
    if cs.len() == 0 {
        0
    } else {
        utf16_len(cs.drop_last()) + utf16_width(cs.last())
    }
}

/// `char::len_utf16`.
pub fn char_utf16_width(c: char) -> (w: usize)
    ensures
        w == utf16_width(c),
{
    if (c as u32) >= 0x10000 {
        2
    } else {
        1
    }
}

/// `char::len_utf8`.
pub fn char_utf8_width(c: char) -> (w: usize)
    ensures
        w == utf8_width(c),
        1 <= w <= 4,
{
    proof {
        char_is_scalar(c);
    }
    let u = c as u32;
    if u < 0x80 {
        1
    } else if u < 0x800 {
        2
    } else if u < 0x10000 {
        3
    } else {
        4
    }
}

pub proof fn lemma_utf16_width_le_utf8_width(c: char)
    ensures
        1 <= utf16_width(c) <= utf8_width(c),
{
    char_is_scalar(c);
}

/// Encoding distributes over concatenation.
pub proof fn lemma_encode_utf8_append(a: Seq<char>, b: Seq<char>)
    ensures
        encode_utf8(a + b) == encode_utf8(a) + encode_utf8(b),
    decreases a.len(),
{
    if a.len() == 0 {
        assert(a + b =~= b);
        assert(encode_utf8(a) + encode_utf8(b) =~= encode_utf8(b));
    } else {
        assert((a + b).drop_first() =~= a.drop_first() + b);
        assert((a + b)[0] == a[0]);
        lemma_encode_utf8_append(a.drop_first(), b);
        assert(encode_utf8(a + b) =~= encode_utf8(a) + encode_utf8(b));
    }
}

/// The encoding of one character.
pub proof fn lemma_encode_utf8_single(c: char)
    ensures
        encode_utf8(seq![c]) == encode_scalar(c as u32),
{
    assert(seq![c].drop_first() =~= Seq::<char>::empty());
    assert(encode_utf8(Seq::<char>::empty()) =~= Seq::<u8>::empty());
    assert(encode_utf8(seq![c]) =~= encode_scalar(c as u32));
}

/// Appending one character adds its width to the encoded length.
pub proof fn lemma_encode_utf8_push(a: Seq<char>, c: char)
    ensures
        encode_utf8(a.push(c)).len() == encode_utf8(a).len() + utf8_width(c),
{
    assert(a.push(c) =~= a + seq![c]);
    lemma_encode_utf8_append(a, seq![c]);
    lemma_encode_utf8_single(c);
}

/// A text needs no more UTF-16 units than UTF-8 bytes.
pub proof fn lemma_utf16_len_le_utf8_len(cs: Seq<char>)
    ensures
        0 <= utf16_len(cs) <= encode_utf8(cs).len(),
    decreases cs.len(),
{
    if cs.len() > 0 {
        lemma_utf16_len_le_utf8_len(cs.drop_last());
        assert(cs =~= cs.drop_last().push(cs.last()));
        lemma_encode_utf8_push(cs.drop_last(), cs.last());
        lemma_utf16_width_le_utf8_width(cs.last());
    }
}

/// The prefix sums of `utf16_len` along a sequence.
pub proof fn lemma_utf16_len_take_step(cs: Seq<char>, i: int)
    requires
        0 <= i < cs.len(),
    ensures
        utf16_len(cs.take(i + 1)) == utf16_len(cs.take(i)) + utf16_width(cs[i]),
{
    assert(cs.take(i + 1).drop_last() =~= cs.take(i));
}

/// After an ASCII byte at a character boundary comes another character boundary.
pub proof fn lemma_boundary_after_ascii(b: Seq<u8>, i: int)
    requires
        valid_utf8(b),
        0 <= i < b.len(),
        b[i] < 0x80,
        is_char_boundary(b, i),
    ensures
        is_char_boundary(b, i + 1),
    decreases b.len(),
{
    let l = length_of_first_scalar(b);
    let p = pop_first_scalar(b);
    assert(valid_first_scalar(b) && valid_utf8(p));
    assert(1 <= l <= b.len());
    assert(p.len() == b.len() - l);
    if i == 0 {
        assert(l == 1);
        assert(is_char_boundary(p, 0));
        assert(is_char_boundary(b, 1) == is_char_boundary(p, 0));
    } else {
        assert(is_char_boundary(b, i) == is_char_boundary(p, i - l));
        if i < l {
            assert(!is_char_boundary(p, i - l));
        }
        assert(p[i - l] == b[i]);
        lemma_boundary_after_ascii(p, i - l);
        assert(is_char_boundary(b, i + 1) == is_char_boundary(p, i + 1 - l));
    }
}

/// A character boundary of `b` at or after `i` is a character boundary of the suffix that
/// starts at the boundary `i`.
pub proof fn lemma_boundary_in_suffix(b: Seq<u8>, i: int, j: int)
    requires
        valid_utf8(b),
        is_char_boundary(b, i),
        is_char_boundary(b, j),
        0 <= i <= j <= b.len(),
    ensures
        valid_utf8(b.subrange(i, b.len() as int)),
        is_char_boundary(b.subrange(i, b.len() as int), j - i),
{
    let r = b.subrange(i, b.len() as int);
    valid_utf8_split(b, i);
    if j == b.len() {
        is_char_boundary_start_end_of_seq(r);
    } else {
        is_char_boundary_iff_not_is_continuation_byte(b, j);
        is_char_boundary_iff_not_is_continuation_byte(r, j - i);
    }
}

/// A character boundary of `b` at or before `j` is a character boundary of the prefix that
/// ends at the boundary `j`.
pub proof fn lemma_boundary_in_prefix(b: Seq<u8>, i: int, j: int)
    requires
        valid_utf8(b),
        is_char_boundary(b, i),
        is_char_boundary(b, j),
        0 <= i <= j <= b.len(),
    ensures
        valid_utf8(b.subrange(0, j)),
        is_char_boundary(b.subrange(0, j), i),
{
    let r = b.subrange(0, j);
    valid_utf8_split(b, j);
    if i == j {
        is_char_boundary_start_end_of_seq(r);
    } else {
        is_char_boundary_iff_not_is_continuation_byte(b, i);
        is_char_boundary_iff_not_is_continuation_byte(r, i);
    }
}


/// The UTF-16 length counted from the first character on.
pub proof fn lemma_utf16_len_first(cs: Seq<char>)
    requires
        cs.len() > 0,
    ensures
        utf16_len(cs) == utf16_width(cs[0]) + utf16_len(cs.drop_first()),
        utf16_len(cs.drop_first()) >= 0,
    decreases cs.len(),
{
    if cs.len() == 1 {
        assert(cs.drop_first() =~= Seq::<char>::empty());
        assert(cs.drop_last() =~= Seq::<char>::empty());
    } else {
        lemma_utf16_len_first(cs.drop_last());
        assert(cs.drop_last().drop_first() =~= cs.drop_first().drop_last());
        assert(cs.drop_first().last() == cs.last());
        assert(cs.drop_last()[0] == cs[0]);
    }
}

/// The column of the first character after `p`, in `p + q`, lies at the byte offset where `q`
/// starts; past the end of the text there is no such character.
pub proof fn lemma_col_offset_after_prefix(p: Seq<char>, q: Seq<char>)
    ensures
        utf16_col_offset(p + q, utf16_len(p)) == (if q.len() > 0 {
            Some(encode_utf8(p).len() as int)
        } else {
            None
        }),
    decreases p.len(),
{
    if p.len() == 0 {
        assert(p + q =~= q);
        assert(encode_utf8(p) =~= Seq::<u8>::empty());
    } else {
        lemma_utf16_len_first(p);
        lemma_col_offset_after_prefix(p.drop_first(), q);
        assert((p + q)[0] == p[0]);
        assert((p + q).drop_first() =~= p.drop_first() + q);
        assert(p =~= seq![p[0]] + p.drop_first());
        lemma_encode_utf8_append(seq![p[0]], p.drop_first());
        lemma_encode_utf8_single(p[0]);
    }
}

/// Where, in bytes from the start of `cs`, lies the character that covers UTF-16 column `col`
/// counted from the start of `cs`; `None` when `cs` ends before that column.
pub open spec fn utf16_col_offset(cs: Seq<char>, col: int) -> Option<int>
    decreases cs.len(),
{
    if cs.len() == 0 {
        None
    } else if col < utf16_width(cs[0]) {
        Some(0)
    } else {
        match utf16_col_offset(cs.drop_first(), col - utf16_width(cs[0])) {
            Some(o) => Some(o + utf8_width(cs[0])),
            None => None,
        }
    }
}

} // verus!
