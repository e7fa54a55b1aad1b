//! Small operations on strings and characters from std.

use vstd::prelude::*;

verus! {

/// `<str as PartialEq>::eq`: two string slices are equal when they hold the same characters.
#[verifier::external_body]
pub fn str_eq(a: &str, b: &str) -> (r: bool)
    ensures
        r == (a@ == b@),
{
    a == b
}

/// `char::to_string`: the one-character string.
#[verifier::external_body]
pub fn char_to_string(c: char) -> (r: String)
    ensures
        r@ == seq![c],
{
    c.to_string()
}

/// `String::push`: appends one character.
#[verifier::external_body]
pub fn string_push(s: &mut String, c: char)
    ensures
        final(s)@ == old(s)@.push(c),
{
    s.push(c)
}

/// `str::chars`, collected: the characters of the string in order.
#[verifier::external_body]
pub fn str_chars(s: &str) -> (r: Vec<char>)
    ensures
        r@ == s@,
{
    s.chars().collect()
}

/// `char::is_whitespace`: the Unicode `White_Space` property.
pub open spec fn spec_is_whitespace(c: char) -> bool {
    let u = c as u32;
    (0x9 <= u && u <= 0xd) || u == 0x20 || u == 0x85 || u == 0xa0 || u == 0x1680
        || (0x2000 <= u && u <= 0x200a) || u == 0x2028 || u == 0x2029 || u == 0x202f
        || u == 0x205f || u == 0x3000
}

pub fn is_whitespace(c: char) -> (r: bool)
    ensures
        r == spec_is_whitespace(c),
{
    let u = c as u32;
    (0x9 <= u && u <= 0xd) || u == 0x20 || u == 0x85 || u == 0xa0 || u == 0x1680
        || (0x2000 <= u && u <= 0x200a) || u == 0x2028 || u == 0x2029 || u == 0x202f
        || u == 0x205f || u == 0x3000
}

/// The words of `s` (its maximal runs of non-whitespace characters) joined by single spaces:
/// what trimming, splitting at whitespace and joining with `" "` gives. `pending` records a
/// whitespace run seen after a word; `at_start` that no word was seen yet.
pub open spec fn collapse_ws_from(s: Seq<char>, pending: bool, at_start: bool) -> Seq<char>
    decreases s.len(),
{
    if s.len() == 0 {
        Seq::empty()
    } else if spec_is_whitespace(s[0]) {
        collapse_ws_from(s.drop_first(), !at_start, at_start)
    } else {
        (if pending { seq![' '] } else { Seq::empty() }) + seq![s[0]]
            + collapse_ws_from(s.drop_first(), false, false)
    }
}

pub open spec fn collapse_ws(s: Seq<char>) -> Seq<char> {
    collapse_ws_from(s, false, true)
}

/// Trims `s` and joins its whitespace-separated words with single spaces.
pub fn collapse_whitespace(s: &str) -> (r: String)
    ensures
        r@ == collapse_ws(s@),
{
    let chars = str_chars(s);
    let mut out = String::new();
    let mut pending = false;
    let mut at_start = true;
    let mut i: usize = 0;
    proof {
        assert(chars@.skip(0) =~= chars@);
        assert(out@ + collapse_ws(s@) =~= collapse_ws(s@));
    }
    while i < chars.len()
        invariant
            i <= chars@.len(),
            chars@ == s@,
            out@ + collapse_ws_from(chars@.skip(i as int), pending, at_start) == collapse_ws(s@),
            at_start ==> !pending,
        decreases chars@.len() - i,
    {
        let c = chars[i];
        proof {
            assert(chars@.skip(i as int).drop_first() =~= chars@.skip(i + 1));
            assert(chars@.skip(i as int)[0] == c);
        }
        if is_whitespace(c) {
            if !at_start {
                pending = true;
            }
        } else {
            let ghost o = out@;
            let ghost rest = collapse_ws_from(chars@.skip(i + 1), false, false);
            if pending {
                string_push(&mut out, ' ');
            }
            string_push(&mut out, c);
            proof {
                let pre: Seq<char> = if pending { seq![' '] } else { Seq::empty() };
                assert(out@ =~= o + pre + seq![c]);
                assert(collapse_ws_from(chars@.skip(i as int), pending, at_start) == pre + seq![c] + rest);
                assert(out@ + rest =~= o + (pre + seq![c] + rest));
            }
            pending = false;
            at_start = false;
        }
        i = i + 1;
    }
    proof {
        assert(chars@.skip(i as int) =~= Seq::<char>::empty());
    }
    out
}

/// Appends the characters of `s` to `out` (`String::push_str`).
pub fn push_str(out: &mut String, s: &str)
    ensures
        final(out)@ == old(out)@ + s@,
{
    let chars = str_chars(s);
    let mut i: usize = 0;
    while i < chars.len()
        invariant
            chars@ == s@,
            i <= chars@.len(),
            out@ == old(out)@ + chars@.take(i as int),
        decreases chars@.len() - i,
    {
        proof {
            assert(chars@.take(i + 1) =~= chars@.take(i as int).push(chars@[i as int]));
        }
        string_push(out, chars[i]);
        i = i + 1;
    }
    proof {
        assert(chars@.take(i as int) =~= chars@);
    }
}

/// What follows `prefix` in `s`, when `s` starts with it (`str::strip_prefix`).
pub fn strip_prefix(s: &str, prefix: &str) -> (r: Option<String>)
    ensures
        prefix@.is_prefix_of(s@) ==> r is Some && r->0@ == s@.skip(prefix@.len() as int),
        !prefix@.is_prefix_of(s@) ==> r is None,
{
    let a = str_chars(s);
    let p = str_chars(prefix);
    if p.len() > a.len() {
        return None;
    }
    let mut i: usize = 0;
    while i < p.len()
        invariant
            a@ == s@,
            p@ == prefix@,
            p@.len() <= a@.len(),
            i <= p@.len(),
            forall|j: int| 0 <= j < i ==> a@[j] == p@[j],
        decreases p@.len() - i,
    {
        if a[i] != p[i] {
            return None;
        }
        i = i + 1;
    }
    let mut out = String::new();
    let mut j: usize = p.len();
    proof {
        assert(a@.subrange(p@.len() as int, p@.len() as int) =~= Seq::<char>::empty());
    }
    while j < a.len()
        invariant
            a@ == s@,
            p@.len() <= j <= a@.len(),
            out@ == a@.subrange(p@.len() as int, j as int),
        decreases a@.len() - j,
    {
        proof {
            assert(a@.subrange(p@.len() as int, j + 1) =~= a@.subrange(p@.len() as int, j as int).push(a@[j as int]));
        }
        string_push(&mut out, a[j]);
        j = j + 1;
    }
    proof {
        assert(out@ =~= s@.skip(prefix@.len() as int));
    }
    Some(out)
}


/// The position of the first character from `i` on that is not whitespace.
pub open spec fn trim_start_index(s: Seq<char>, i: int) -> int
    decreases s.len() - i,
{
    if 0 <= i < s.len() && spec_is_whitespace(s[i]) {
        trim_start_index(s, i + 1)
    } else {
        i
    }
}

/// The end of `s` up to `j` once the whitespace before `j` (down to `lo`) is dropped.
pub open spec fn trim_end_index(s: Seq<char>, j: int, lo: int) -> int
    decreases j - lo,
{
    if lo < j && j <= s.len() && spec_is_whitespace(s[j - 1]) {
        trim_end_index(s, j - 1, lo)
    } else {
        j
    }
}

/// `s` without its leading and trailing whitespace (`str::trim`).
pub open spec fn spec_trim(s: Seq<char>) -> Seq<char> {
    let a = trim_start_index(s, 0);
    s.subrange(a, trim_end_index(s, s.len() as int, a))
}

/// `str::trim`: the string without its leading and trailing whitespace.
pub fn trim(s: &str) -> (r: String)
    ensures
        r@ == spec_trim(s@),
{
    let chars = str_chars(s);
    let n = chars.len();
    let mut a: usize = 0;
    while a < n && is_whitespace(chars[a])
        invariant
            chars@ == s@,
            n == chars@.len(),
            a <= n,
            trim_start_index(s@, 0) == trim_start_index(s@, a as int),
        decreases n - a,
    {
        a = a + 1;
    }
    let mut b: usize = n;
    while b > a && is_whitespace(chars[b - 1])
        invariant
            chars@ == s@,
            n == chars@.len(),
            a <= b <= n,
            trim_start_index(s@, 0) == a,
            trim_end_index(s@, n as int, a as int) == trim_end_index(s@, b as int, a as int),
        decreases b,
    {
        b = b - 1;
    }
    let mut out = String::new();
    let mut k: usize = a;
    proof {
        assert(s@.subrange(a as int, a as int) =~= Seq::<char>::empty());
    }
    while k < b
        invariant
            chars@ == s@,
            a <= k <= b <= n,
            n == chars@.len(),
            out@ == s@.subrange(a as int, k as int),
        decreases b - k,
    {
        proof {
            assert(s@.subrange(a as int, k + 1) =~= s@.subrange(a as int, k as int).push(chars@[k as int]));
        }
        string_push(&mut out, chars[k]);
        k = k + 1;
    }
    out
}

/// What `{:?}` writes for a string: the string quoted, its special characters escaped.
pub uninterp spec fn debug_quoted(s: Seq<char>) -> Seq<char>;

/// `format!("{:?}", s)`, the `Debug` form of a string; the contract names its result.
#[verifier::external_body]
pub(crate) fn debug_str(s: &str) -> (r: String)
    ensures
        r@ == debug_quoted(s@),
{
    format!("{:?}", s)
}

/// The decimal digits of `n`.
pub open spec fn decimal(n: nat) -> Seq<char>
    decreases n,
{
    if n < 10 {
        seq![digit(n)]
    } else {
        decimal(n / 10) + seq![digit(n % 10)]
    }
}

pub open spec fn digit(d: nat) -> char {
    if d == 0 { '0' } else if d == 1 { '1' } else if d == 2 { '2' } else if d == 3 { '3' } else if d == 4 { '4' }
    else if d == 5 { '5' } else if d == 6 { '6' } else if d == 7 { '7' } else if d == 8 { '8' } else { '9' }
}

fn digit_char(d: u32) -> (c: char)
    requires
        d < 10,
    ensures
        c == digit(d as nat),
{
    if d == 0 { '0' } else if d == 1 { '1' } else if d == 2 { '2' } else if d == 3 { '3' } else if d == 4 { '4' }
    else if d == 5 { '5' } else if d == 6 { '6' } else if d == 7 { '7' } else if d == 8 { '8' } else { '9' }
}

/// Appends the decimal digits of `n` (what `{}` writes for it).
pub fn push_decimal(out: &mut String, n: u32)
    ensures
        final(out)@ == old(out)@ + decimal(n as nat),
    decreases n,
{
    if n >= 10 {
        push_decimal(out, n / 10);
    }
    string_push(out, digit_char(n % 10));
    proof {
        assert(out@ =~= old(out)@ + decimal(n as nat));
    }
}

} // verus!
