//! The text of a source file with its line table: conversion between byte offsets and
//! (line, UTF-16 column) positions.

use vstd::prelude::*;
use vstd::string::StringSliceAdditionalSpecFns;
use vstd::utf8::*;
use crate::encoding::{
    lemma_boundary_in_suffix, lemma_col_offset_after_prefix, utf16_col_offset,
    char_utf16_width, char_utf8_width, lemma_boundary_after_ascii, lemma_boundary_in_prefix,
    lemma_encode_utf8_append, lemma_encode_utf8_push, lemma_utf16_len_le_utf8_len,
    lemma_utf16_len_take_step, utf16_len, utf16_width, utf8_width,
};
use crate::text::str_chars;

verus! {

/// The language of a source file, as the editor names it.
#[derive(Clone, Copy, Debug, PartialEq, Eq, Structural)]
pub enum FileLang {
    Wxml,
    Wxss,
    Json,
    OtherSs,
}

/// Whether byte `i` of `b` ends a line: a line feed, or a carriage return that no line feed
/// follows.
pub open spec fn ends_line(b: Seq<u8>, i: int) -> bool {
    b[i] == 10u8 || (b[i] == 13u8 && !(i + 1 < b.len() && b[i + 1] == 10u8))
}

/// The offsets at which the lines of the first `n` bytes of `b` start: zero, and the offset just
/// after each line end.
pub open spec fn line_starts_upto(b: Seq<u8>, n: int) -> Seq<int>
    decreases n,
{
    if n <= 0 {
        seq![0]
    } else if ends_line(b, n - 1) {
        line_starts_upto(b, n - 1).push(n)
    } else {
        line_starts_upto(b, n - 1)
    }
}

/// The offsets at which the lines of `b` start.
pub open spec fn line_starts_of(b: Seq<u8>) -> Seq<int> {
    line_starts_upto(b, b.len() as int)
}

/// The position of the last element of `starts` that is at most `index`, or -1 if there is none.
pub open spec fn last_start_at_or_before(starts: Seq<usize>, index: int) -> int
    decreases starts.len(),
{
    if starts.len() == 0 {
        -1
    } else if starts.last() <= index {
        starts.len() - 1
    } else {
        last_start_at_or_before(starts.drop_last(), index)
    }
}

/// The line table starts at zero, rises strictly, stays within the first `n` bytes, and each
/// later entry follows a line feed or a carriage return.
pub proof fn lemma_line_starts_shape(b: Seq<u8>, n: int)
    requires
        0 <= n <= b.len(),
    ensures
        line_starts_upto(b, n).len() >= 1,
        line_starts_upto(b, n)[0] == 0,
        forall|i: int, j: int|
            0 <= i < j < line_starts_upto(b, n).len() ==> line_starts_upto(b, n)[i]
                < line_starts_upto(b, n)[j],
        forall|i: int|
            0 <= i < line_starts_upto(b, n).len() ==> 0 <= #[trigger] line_starts_upto(b, n)[i]
                <= n,
        forall|i: int|
            0 < i < line_starts_upto(b, n).len() ==> 1 <= #[trigger] line_starts_upto(b, n)[i]
                && (b[line_starts_upto(b, n)[i] - 1] == 10u8 || b[line_starts_upto(b, n)[i] - 1]
                == 13u8),
    decreases n,
{
    if n > 0 {
        lemma_line_starts_shape(b, n - 1);
    }
}

/// Every line of valid UTF-8 text starts at a character boundary.
pub proof fn lemma_line_starts_boundaries(b: Seq<u8>)
    requires
        valid_utf8(b),
    ensures
        forall|i: int|
            0 <= i < line_starts_of(b).len() ==> is_char_boundary(b, #[trigger] line_starts_of(b)[i]),
{
    let l = line_starts_of(b);
    lemma_line_starts_shape(b, b.len() as int);
    assert forall|i: int| 0 <= i < l.len() implies is_char_boundary(b, #[trigger] l[i]) by {
        if i == 0 {
            is_char_boundary_start_end_of_seq(b);
        } else {
            let k = l[i] - 1;
            is_char_boundary_iff_not_is_continuation_byte(b, k);
            lemma_boundary_after_ascii(b, k);
        }
    }
}

/// `last_start_at_or_before` names the position found by a scan from the end.
pub proof fn lemma_last_start_at_or_before(starts: Seq<usize>, index: int, l: int)
    requires
        0 <= l < starts.len(),
        starts[l] <= index,
        forall|k: int| l < k < starts.len() ==> starts[k] > index,
    ensures
        last_start_at_or_before(starts, index) == l,
    decreases starts.len(),
{
    if l + 1 < starts.len() {
        let d = starts.drop_last();
        assert forall|k: int| l < k < d.len() implies d[k] > index by {
            assert(d[k] == starts[k]);
        }
        lemma_last_start_at_or_before(d, index, l);
    }
}

/// The number of UTF-16 units of a string slice (`str::encode_utf16().count()`).
pub fn str_utf16_len(s: &str) -> (n: usize)
    ensures
        n == utf16_len(s@),
{
    let chars = str_chars(s);
    let bytes_len = s.as_bytes().len();
    proof {
        lemma_utf16_len_le_utf8_len(s@);
    }
    let mut n: usize = 0;
    let mut i: usize = 0;
    while i < chars.len()
        invariant
            chars@ == s@,
            i <= chars@.len(),
            n == utf16_len(chars@.take(i as int)),
            utf16_len(chars@) <= bytes_len,
        decreases chars@.len() - i,
    {
        proof {
            lemma_utf16_len_take_step(chars@, i as int);
            lemma_utf16_len_prefix(chars@, i + 1, chars@.len() as int);
            assert(chars@.take(chars@.len() as int) =~= chars@);
        }
        n = n + char_utf16_width(chars[i]);
        i = i + 1;
    }
    proof {
        assert(chars@.take(i as int) =~= chars@);
    }
    n
}

/// `utf16_len` grows along prefixes.
pub proof fn lemma_utf16_len_prefix(cs: Seq<char>, i: int, j: int)
    requires
        0 <= i <= j <= cs.len(),
    ensures
        utf16_len(cs.take(i)) <= utf16_len(cs.take(j)),
    decreases j - i,
{
    if i < j {
        lemma_utf16_len_take_step(cs, j - 1);
        lemma_utf16_len_prefix(cs, i, j - 1);
    }
}

/// A source file's text, whether the editor has it open, and, while it is open, the byte offset
/// at which each line starts. A line ends after a line feed, or after a carriage return that no
/// line feed follows.
#[derive(Debug)]
pub struct FileContentMetadata {
    pub opened: bool,
    pub file_lang: FileLang,
    pub content: String,
    pub line_starts: Vec<usize>,
}

impl FileContentMetadata {
    /// The UTF-8 bytes of the text.
    pub open spec fn bytes(&self) -> Seq<u8> {
        encode_utf8(self.content@)
    }

    /// The line table is that of the text while the file is open, and empty otherwise.
    pub open spec fn wf(&self) -> bool {
        let l = line_starts_of(self.bytes());
        if self.opened {
            &&& self.line_starts@.len() == l.len()
            &&& forall|i: int| 0 <= i < l.len() ==> self.line_starts@[i] == l[i]
        } else {
            self.line_starts@.len() == 0
        }
    }

    /// The byte offset at which line `line` starts.
    pub open spec fn line_start(&self, line: int) -> int {
        self.line_starts@[line] as int
    }

    /// The byte offset at which line `line` ends: where the next line starts, or the end of the
    /// text for the last line.
    pub open spec fn line_end(&self, line: int) -> int {
        if line + 1 < self.line_starts@.len() {
            self.line_starts@[line + 1] as int
        } else {
            self.bytes().len() as int
        }
    }

    /// The characters of line `line`, its line break included.
    pub open spec fn line_text(&self, line: int) -> Seq<char> {
        decode_utf8(self.bytes().subrange(self.line_start(line), self.line_end(line)))
    }

    /// The characters from the start of line `line` to the end of the text.
    pub open spec fn text_from_line(&self, line: int) -> Seq<char> {
        decode_utf8(self.bytes().subrange(self.line_start(line), self.bytes().len() as int))
    }

    /// The byte offset of UTF-16 column `col` of line `line`, counting on past the line's end
    /// through the rest of the text; the length of the text when there is no such line or
    /// column.
    pub open spec fn index_for(&self, line: int, col: int) -> int {
        if 0 <= line < self.line_starts@.len() {
            match utf16_col_offset(self.text_from_line(line), col) {
                Some(o) => self.line_start(line) + o,
                None => self.bytes().len() as int,
            }
        } else {
            self.bytes().len() as int
        }
    }

    /// The line that holds byte offset `index`.
    pub open spec fn line_of(&self, index: int) -> int {
        last_start_at_or_before(self.line_starts@, index)
    }

    /// The UTF-16 column of byte offset `index` within its line.
    pub open spec fn col_of(&self, index: int) -> int {
        utf16_len(decode_utf8(self.bytes().subrange(self.line_start(self.line_of(index)), index)))
    }

    /// A closed file with the text `content` in the language `lang`: no line table.
    pub open spec fn is_closed_with(&self, content: Seq<char>, lang: FileLang) -> bool {
        &&& !self.opened
        &&& self.line_starts@.len() == 0
        &&& self.content@ == content
        &&& self.file_lang == lang
    }

    /// A closed file with the given text.
    pub fn new(content: String, file_lang: FileLang) -> (r: Self)
        ensures
            r.wf(),
            !r.opened,
            r.content@ == content@,
            r.file_lang == file_lang,
            r.is_closed_with(content@, file_lang),
    {
        FileContentMetadata { opened: false, file_lang, content, line_starts: Vec::new() }
    }

    /// Marks the file open and builds its line table.
    pub fn open(&mut self)
        requires
            !(old(self).bytes().len() > 0 && old(self).bytes().last() == 13u8),
        ensures
            final(self).wf(),
            final(self).opened,
            final(self).content == old(self).content,
            final(self).file_lang == old(self).file_lang,
    {
        let ghost b = self.bytes();
        let mut line_starts: Vec<usize> = Vec::new();
        line_starts.push(0);
        {
            let bytes = self.content.as_str().as_bytes();
            let n = bytes.len();
            let mut idx: usize = 0;
            while idx < n
                invariant
                    bytes@ == b,
                    n == b.len(),
                    idx <= n,
                    !(b.len() > 0 && b.last() == 13u8),
                    line_starts@.len() == line_starts_upto(b, idx as int).len(),
                    forall|i: int|
                        0 <= i < line_starts@.len() ==> line_starts@[i] == line_starts_upto(
                            b,
                            idx as int,
                        )[i],
                decreases n - idx,
            {
                let byte = bytes[idx];
                if byte == 10u8 {
                    line_starts.push(idx + 1);
                } else if byte == 13u8 {
                    if bytes[idx + 1] != 10u8 {
                        line_starts.push(idx + 1);
                    }
                }
                idx = idx + 1;
            }
        }
        self.line_starts = line_starts;
        self.opened = true;
    }

    /// The number of UTF-16 units of line `line`, its line break included; zero for a line that
    /// does not exist (every line, while the file is closed).
    pub fn get_line_utf16_len(&self, line: u32) -> (r: u32)
        requires
            self.wf(),
            line < self.line_starts@.len() ==> utf16_len(self.line_text(line as int)) <= u32::MAX,
        ensures
            r == (if line < self.line_starts@.len() {
                utf16_len(self.line_text(line as int))
            } else {
                0
            }),
    {
        let li = line as usize;
        if li >= self.line_starts.len() {
            return 0;
        }
        let ghost b = self.bytes();
        let s = self.content.as_str();
        let n = s.as_bytes().len();
        proof {
            encode_utf8_valid_utf8(self.content@);
            lemma_line_starts_shape(b, b.len() as int);
            lemma_line_starts_boundaries(b);
            is_char_boundary_start_end_of_seq(b);
        }
        let start = self.line_starts[li];
        let end = if li + 1 < self.line_starts.len() {
            self.line_starts[li + 1]
        } else {
            n
        };
        proof {
            let ls = line_starts_of(b);
            assert(start == ls[li as int]);
            assert(is_char_boundary(b, ls[li as int]));
            if li + 1 < self.line_starts@.len() {
                assert(end == ls[li + 1]);
                assert(is_char_boundary(b, ls[li + 1]));
            }
            assert(is_char_boundary(b, end as int));
            assert(start <= end);
            lemma_boundary_in_prefix(b, start as int, end as int);
        }
        let (head, _) = s.split_at(end);
        let (_, text) = head.split_at(start);
        proof {
            assert(text.spec_bytes() =~= b.subrange(start as int, end as int));
            encode_utf8_decode_utf8(text@);
        }
        let chars = str_chars(text);
        let mut sum: u32 = 0;
        let mut i: usize = 0;
        while i < chars.len()
            invariant
                i <= chars@.len(),
                sum == utf16_len(chars@.take(i as int)),
                utf16_len(chars@) <= u32::MAX,
            decreases chars@.len() - i,
        {
            proof {
                lemma_utf16_len_take_step(chars@, i as int);
                lemma_utf16_len_prefix(chars@, i + 1, chars@.len() as int);
                assert(chars@.take(chars@.len() as int) =~= chars@);
            }
            sum = sum + char_utf16_width(chars[i]) as u32;
            i = i + 1;
        }
        proof {
            assert(chars@.take(i as int) =~= chars@);
        }
        sum
    }

    /// The byte offset of the character that covers UTF-16 column `utf16_col` when columns are
    /// counted from the start of line `line` on through the rest of the text; the length of the
    /// text when the line does not exist or the text ends before that column.
    pub fn content_index_for_line_utf16_col(&self, line: u32, utf16_col: u32) -> (r: usize)
        requires
            self.wf(),
        ensures
            r == self.index_for(line as int, utf16_col as int),
    {
        let ghost b = self.bytes();
        let s = self.content.as_str();
        let n = s.as_bytes().len();
        let li = line as usize;
        if li >= self.line_starts.len() {
            return n;
        }
        proof {
            encode_utf8_valid_utf8(self.content@);
            lemma_line_starts_shape(b, b.len() as int);
            lemma_line_starts_boundaries(b);
        }
        let line_start = self.line_starts[li];
        proof {
            let ls = line_starts_of(b);
            assert(line_start == ls[li as int]);
            assert(is_char_boundary(b, ls[li as int]));
        }
        let (_, rest) = s.split_at(line_start);
        let ghost rb = b.subrange(line_start as int, b.len() as int);
        proof {
            assert(rest.spec_bytes() =~= rb);
            encode_utf8_decode_utf8(rest@);
        }
        let chars = str_chars(rest);
        let mut col: usize = utf16_col as usize;
        let mut idx: usize = 0;
        let mut i: usize = 0;
        proof {
            assert(chars@.skip(0) =~= chars@);
            assert(chars@.take(0) =~= Seq::<char>::empty());
        }
        while i < chars.len()
            invariant
                chars@ == rest@,
                chars@ == self.text_from_line(line as int),
                line < self.line_starts@.len(),
                line_start == self.line_start(line as int),
                encode_utf8(chars@) == rb,
                rb.len() + line_start == n,
                n == b.len(),
                i <= chars@.len(),
                idx == encode_utf8(chars@.take(i as int)).len(),
                utf16_col_offset(chars@, utf16_col as int) == (match utf16_col_offset(
                    chars@.skip(i as int),
                    col as int,
                ) {
                    Some(o) => Some(o + idx),
                    None => None,
                }),
            decreases chars@.len() - i,
        {
            let c = chars[i];
            let w = char_utf16_width(c);
            proof {
                assert(chars@.skip(i as int)[0] == c);
                assert(chars@.skip(i as int).drop_first() =~= chars@.skip(i + 1));
                assert(chars@.take(i + 1) =~= chars@.take(i as int).push(c));
                lemma_encode_utf8_push(chars@.take(i as int), c);
                assert(chars@ =~= chars@.take(i + 1) + chars@.skip(i + 1));
                lemma_encode_utf8_append(chars@.take(i + 1), chars@.skip(i + 1));
            }
            if col < w {
                proof {
                    assert(utf16_col_offset(chars@.skip(i as int), col as int) == Some(0int));
                }
                return line_start + idx;
            }
            col = col - w;
            idx = idx + char_utf8_width(c);
            i = i + 1;
        }
        proof {
            assert(chars@.skip(i as int) =~= Seq::<char>::empty());
        }
        n
    }

    /// The line that holds byte offset `index`, and the number of UTF-16 units from the start of
    /// that line to `index`, both cast to `u32`.
    pub fn line_utf16_col_for_content_index(&self, index: usize) -> (r: (u32, u32))
        requires
            self.wf(),
            self.opened,
            index <= self.bytes().len(),
            is_char_boundary(self.bytes(), index as int),
        ensures
            0 <= self.line_of(index as int) < self.line_starts@.len(),
            r.0 == self.line_of(index as int) as u32,
            r.1 == self.col_of(index as int) as u32,
    {
        let ghost b = self.bytes();
        proof {
            encode_utf8_valid_utf8(self.content@);
            lemma_line_starts_shape(b, b.len() as int);
            lemma_line_starts_boundaries(b);
        }
        let mut l: usize = self.line_starts.len() - 1;
        while self.line_starts[l] > index
            invariant
                self.wf(),
                self.opened,
                b == self.bytes(),
                line_starts_of(b)[0] == 0,
                l < self.line_starts@.len(),
                forall|k: int| l < k < self.line_starts@.len() ==> self.line_starts@[k] > index,
            decreases l,
        {
            l = l - 1;
        }
        proof {
            lemma_last_start_at_or_before(self.line_starts@, index as int, l as int);
        }
        let start = self.line_starts[l];
        let s = self.content.as_str();
        proof {
            let ls = line_starts_of(b);
            assert(start == ls[l as int]);
            assert(is_char_boundary(b, ls[l as int]));
            lemma_boundary_in_prefix(b, start as int, index as int);
        }
        let (head, _) = s.split_at(index);
        let (_, text) = head.split_at(start);
        proof {
            assert(text.spec_bytes() =~= b.subrange(start as int, index as int));
            encode_utf8_decode_utf8(text@);
        }
        let col = str_utf16_len(text);
        (l as u32, col as u32)
    }

    /// Marks the file closed and drops its line table.
    pub fn close(&mut self)
        ensures
            final(self).wf(),
            !final(self).opened,
            final(self).content == old(self).content,
            final(self).file_lang == old(self).file_lang,
            final(self).is_closed_with(old(self).content@, old(self).file_lang),
    {
        self.opened = false;
        self.line_starts.truncate(0);
    }
}


/// Opening a file and closing it again, any number of times, gives back what `new` made:
/// the text and language stay, and a closed file holds no line table.
pub proof fn lemma_reopen_close_restores(m0: FileContentMetadata, m1: FileContentMetadata, m2: FileContentMetadata, content: Seq<char>, lang: FileLang)
    requires
        m0.is_closed_with(content, lang),
        m1.content == m0.content,
        m1.file_lang == m0.file_lang,
        m2.is_closed_with(m1.content@, m1.file_lang),
    ensures
        m2.is_closed_with(content, lang),
{
}

/// The line found for an offset starts at or before it.
proof fn lemma_last_start_found(starts: Seq<usize>, index: int)
    requires
        starts.len() > 0,
        starts[0] <= index,
    ensures
        0 <= last_start_at_or_before(starts, index) < starts.len(),
        starts[last_start_at_or_before(starts, index)] <= index,
        last_start_at_or_before(starts, index) + 1 < starts.len()
            ==> starts[last_start_at_or_before(starts, index) + 1] > index,
    decreases starts.len(),
{
    if starts.last() > index {
        lemma_last_start_found(starts.drop_last(), index);
        let l = last_start_at_or_before(starts.drop_last(), index);
        assert(starts.drop_last()[l] == starts[l]);
        if l + 1 < starts.len() - 1 {
            assert(starts.drop_last()[l + 1] == starts[l + 1]);
        }
    }
}

/// A byte offset at a character boundary, turned into its line and UTF-16 column and then back
/// into an offset, is found again.
pub proof fn lemma_position_round_trip(c: &FileContentMetadata, index: int)
    requires
        c.wf(),
        c.opened,
        0 <= index <= c.bytes().len(),
        is_char_boundary(c.bytes(), index),
    ensures
        0 <= c.line_of(index) < c.line_starts@.len(),
        c.line_start(c.line_of(index)) <= index,
        c.line_of(index) + 1 < c.line_starts@.len() ==> index < c.line_start(c.line_of(index) + 1),
        c.col_of(index) == utf16_len(decode_utf8(c.bytes().subrange(c.line_start(c.line_of(index)), index))),
        c.index_for(c.line_of(index), c.col_of(index)) == index,
{
    let b = c.bytes();
    encode_utf8_valid_utf8(c.content@);
    lemma_line_starts_shape(b, b.len() as int);
    lemma_line_starts_boundaries(b);
    let starts = c.line_starts@;
    assert(starts[0] == line_starts_of(b)[0]);
    lemma_last_start_found(starts, index);
    let l = c.line_of(index);
    let ls = c.line_start(l);
    assert(ls == line_starts_of(b)[l]);
    assert(is_char_boundary(b, ls));
    lemma_boundary_in_suffix(b, ls, index);
    let rest = b.subrange(ls, b.len() as int);
    decode_utf8_split(rest, index - ls);
    assert(rest.subrange(0, index - ls) =~= b.subrange(ls, index));
    let p = decode_utf8(b.subrange(ls, index));
    let q = decode_utf8(rest.subrange(index - ls, rest.len() as int));
    assert(c.text_from_line(l) == p + q);
    lemma_col_offset_after_prefix(p, q);
    valid_utf8_split(rest, index - ls);
    decode_utf8_encode_utf8(b.subrange(ls, index));
    if index < b.len() {
        assert(rest.subrange(index - ls, rest.len() as int).len() > 0);
        decode_utf8_encode_utf8(rest.subrange(index - ls, rest.len() as int));
        assert(q.len() > 0) by {
            if q.len() == 0 {
                assert(encode_utf8(q) =~= Seq::<u8>::empty());
            }
        }
    }
}

/// The text of a document after a list of whole-text changes: the text of the last change, or
/// the content as it was when the list is empty.
pub fn apply_content_changes(content: &str, changes: Vec<String>) -> (r: String)
    ensures
        changes@.len() == 0 ==> r@ == content@,
        changes@.len() > 0 ==> r@ == changes@.last()@,
{
    let mut ret = content.to_string();
    let mut i: usize = 0;
    while i < changes.len()
        invariant
            i <= changes@.len(),
            i == 0 ==> ret@ == content@,
            i > 0 ==> ret@ == changes@[i - 1]@,
        decreases changes@.len() - i,
    {
        ret = changes[i].clone();
        i = i + 1;
    }
    ret
}

} // verus!
