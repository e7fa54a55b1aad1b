//! Lexing of style sheet sources into a tree of raw tokens.
//!
//! The tokenizer of the `cssparser` crate splits the source into tokens; the functions here drive
//! it level by level and record every token (whitespace and comments included) together with its
//! source range and text. Blocks (`(`, `[`, `{` and functions) become `RawTree::Block` nodes that
//! hold their content and the range of their closing token.

use vstd::prelude::*;
use crate::position::{Location, Position};
use crate::encoding::{lemma_boundary_in_prefix, lemma_encode_utf8_append, lemma_utf16_len_le_utf8_len, utf16_len};
use vstd::string::StringSliceAdditionalSpecFns;
use vstd::utf8::{decode_utf8, encode_utf8, encode_utf8_decode_utf8, encode_utf8_valid_utf8, is_char_boundary};

verus! {

#[verifier::external_type_specification]
#[verifier::external_body]
pub struct ExCssParser<'i>(cssparser::Parser<'i>);

#[verifier::external_type_specification]
#[verifier::external_body]
pub struct ExCssToken<'i>(cssparser::Token<'i>);


/// The kind of a raw token, with the values of the token that the parser reads.
#[derive(Debug)]
pub enum RawKind {
    Ident(String),
    AtKeyword(String),
    Hash(String),
    IDHash(String),
    QuotedString(String),
    UnquotedUrl(String),
    Function(String),
    BadUrl(String),
    BadString(String),
    Comment(String),
    WhiteSpace,
    Delim(char),
    Number(bool, Option<i32>),
    Percentage(bool, Option<i32>),
    Dimension(bool, Option<i32>, String),
    Colon,
    Semicolon,
    Comma,
    IncludeMatch,
    DashMatch,
    PrefixMatch,
    SuffixMatch,
    SubstringMatch,
    CDO,
    CDC,
    ParenthesisBlock,
    SquareBracketBlock,
    CurlyBracketBlock,
    CloseParenthesis,
    CloseSquareBracket,
    CloseCurlyBracket,
}

impl RawKind {
    /// Tokens that open a block whose content the tokenizer nests.
    pub open spec fn opens_block(self) -> bool {
        self is Function || self is ParenthesisBlock || self is SquareBracketBlock
            || self is CurlyBracketBlock
    }

    pub fn is_block_opening(&self) -> (r: bool)
        ensures
            r == self.opens_block(),
    {
        match self {
            RawKind::Function(_) | RawKind::ParenthesisBlock | RawKind::SquareBracketBlock
            | RawKind::CurlyBracketBlock => true,
            _ => false,
        }
    }

    /// Whitespace and comments, which the parser skips between tokens.
    pub open spec fn is_trivia(self) -> bool {
        self is WhiteSpace || self is Comment
    }

    pub fn is_trivia_kind(&self) -> (r: bool)
        ensures
            r == self.is_trivia(),
    {
        match self {
            RawKind::WhiteSpace | RawKind::Comment(_) => true,
            _ => false,
        }
    }
}

/// A token with the source range it covers and its source text.
#[derive(Debug)]
pub struct RawToken {
    pub kind: RawKind,
    pub location: Location,
    pub text: String,
}

/// A block: its opening token, the trees inside it, and the range and text of its closing token.
/// When the source ends before the block is closed, the closing range is empty.
#[derive(Debug)]
pub struct RawBlock {
    pub open: RawToken,
    pub children: Vec<RawTree>,
    pub close: Location,
    pub close_text: String,
}

#[derive(Debug)]
pub enum RawTree {
    Token(RawToken),
    Block(RawBlock),
}

impl RawTree {
    /// A well-formed tree holds block-opening tokens exactly at its block nodes.
    pub open spec fn wf(self) -> bool
        decreases self, 1nat,
    {
        match self {
            RawTree::Token(t) => !t.kind.opens_block(),
            RawTree::Block(b) => b.open.kind.opens_block() && raw_trees_wf(b.children@),
        }
    }

    pub open spec fn kind(self) -> RawKind {
        match self {
            RawTree::Token(t) => t.kind,
            RawTree::Block(b) => b.open.kind,
        }
    }

    pub open spec fn start(self) -> Position {
        match self {
            RawTree::Token(t) => t.location.start,
            RawTree::Block(b) => b.open.location.start,
        }
    }

    /// The position right after the tree: after its closing token for a block.
    pub open spec fn end(self) -> Position {
        match self {
            RawTree::Token(t) => t.location.end,
            RawTree::Block(b) => b.close.end,
        }
    }
}

pub open spec fn raw_trees_wf(s: Seq<RawTree>) -> bool
    decreases s, 0nat,
{
    if s.len() == 0 {
        true
    } else {
        s[0].wf() && raw_trees_wf(s.drop_first())
    }
}

pub proof fn lemma_wf_elem(s: Seq<RawTree>, i: int)
    requires
        raw_trees_wf(s),
        0 <= i < s.len(),
    ensures
        s[i].wf(),
    decreases s.len(),
{
    if i > 0 {
        lemma_wf_elem(s.drop_first(), i - 1);
    }
}

pub proof fn lemma_wf_push(s: Seq<RawTree>, t: RawTree)
    requires
        raw_trees_wf(s),
        t.wf(),
    ensures
        raw_trees_wf(s.push(t)),
    decreases s.len(),
{
    if s.len() > 0 {
        lemma_wf_push(s.drop_first(), t);
        assert(s.push(t).drop_first() =~= s.drop_first().push(t));
        assert(s.push(t)[0] == s[0]);
    } else {
        assert(s.push(t).drop_first() =~= Seq::<RawTree>::empty());
        assert(raw_trees_wf(s.push(t).drop_first()));
        assert(s.push(t)[0] == t);
    }
}

/// The content of a well-formed block is well formed.
pub proof fn lemma_block_children_wf(t: RawTree)
    requires
        t.wf(),
        t is Block,
    ensures
        raw_trees_wf(t->Block_0.children@),
{
}

/// The characters that end a line in a style sheet: line feed, carriage return and form feed
/// (a carriage return followed by a line feed ends one line).
pub open spec fn is_css_newline(c: char) -> bool {
    c == '\n' || c == '\r' || c == '\x0C'
}

/// The number of line breaks in `cs`, a `\r\n` pair counting once.
pub open spec fn css_line_count(cs: Seq<char>) -> int
    decreases cs.len(),
{
    if cs.len() == 0 {
        0
    } else if cs.last() == '\n' && cs.len() > 1 && cs[cs.len() - 2] == '\r' {
        css_line_count(cs.drop_last())
    } else if is_css_newline(cs.last()) {
        css_line_count(cs.drop_last()) + 1
    } else {
        css_line_count(cs.drop_last())
    }
}

/// What follows the last line break of `cs`.
pub open spec fn css_line_tail(cs: Seq<char>) -> Seq<char>
    decreases cs.len(),
{
    if cs.len() == 0 {
        cs
    } else if is_css_newline(cs.last()) {
        Seq::empty()
    } else {
        css_line_tail(cs.drop_last()).push(cs.last())
    }
}

/// The line (from 0) and UTF-16 column (from 0) of byte offset `off` of the source bytes `b`.
pub open spec fn css_position_at(b: Seq<u8>, off: int) -> (int, int) {
    let cs = decode_utf8(b.subrange(0, off));
    (css_line_count(cs), utf16_len(css_line_tail(cs)))
}

/// `p` is the position of byte offset `off` of `b`, where that position fits the integers of
/// a position.
pub open spec fn at_offset(p: Position, b: Seq<u8>, off: int) -> bool {
    let q = css_position_at(b, off);
    q.0 <= u32::MAX && q.1 < u32::MAX ==> p.line == q.0 && p.utf16_col == q.1
}

/// The ranges of a tree that starts at byte offset `o` of `b` are those of its text: a token
/// spans its text; a block's opening token spans the opening text, its children start right
/// after it, and its closing range spans the closing text.
pub open spec fn tree_located(t: RawTree, b: Seq<u8>, o: int) -> bool
    decreases t, 1nat,
{
    let n = encode_utf8(tree_text(t)).len();
    match t {
        RawTree::Token(x) => at_offset(x.location.start, b, o) && at_offset(x.location.end, b, o + n),
        RawTree::Block(bl) => {
            let o1 = o + encode_utf8(bl.open.text@).len();
            let o2 = o1 + encode_utf8(trees_text(bl.children@)).len();
            &&& at_offset(bl.open.location.start, b, o)
            &&& at_offset(bl.open.location.end, b, o1)
            &&& trees_located(bl.children@, b, o1)
            &&& at_offset(bl.close.start, b, o2)
            &&& at_offset(bl.close.end, b, o + n)
        },
    }
}

/// The trees, one after another from byte offset `o`, are located by their texts.
pub open spec fn trees_located(s: Seq<RawTree>, b: Seq<u8>, o: int) -> bool
    decreases s, 0nat,
{
    if s.len() == 0 {
        true
    } else {
        tree_located(s[0], b, o) && trees_located(s.drop_first(), b, o + encode_utf8(tree_text(s[0])).len())
    }
}

/// Each tree's kind, when the tokenizer's token at the tree's offset has a known kind, is
/// that kind; the children of a block start right after its opening token.
pub open spec fn tree_named(t: RawTree, b: Seq<u8>, o: int) -> bool
    decreases t, 1nat,
{
    let q = css_token_at(b, o);
    &&& q.0 is Some ==> t.kind() == q.0->0
    &&& match t {
        RawTree::Token(_) => true,
        RawTree::Block(bl) => trees_named(bl.children@, b, o + encode_utf8(bl.open.text@).len()),
    }
}

pub open spec fn trees_named(s: Seq<RawTree>, b: Seq<u8>, o: int) -> bool
    decreases s, 0nat,
{
    if s.len() == 0 {
        true
    } else {
        tree_named(s[0], b, o) && trees_named(s.drop_first(), b, o + encode_utf8(tree_text(s[0])).len())
    }
}

pub proof fn lemma_trees_named_push(s: Seq<RawTree>, t: RawTree, b: Seq<u8>, o: int)
    requires
        trees_named(s, b, o),
        tree_named(t, b, o + encode_utf8(trees_text(s)).len()),
    ensures
        trees_named(s.push(t), b, o),
    decreases s.len(),
{
    let p = s.push(t);
    assert(p.len() > 0);
    if s.len() == 0 {
        assert(p[0] == t);
        assert(p.drop_first() =~= Seq::<RawTree>::empty());
        assert(trees_text(s) == Seq::<char>::empty());
        assert(encode_utf8(Seq::<char>::empty()) =~= Seq::<u8>::empty());
        assert(trees_named(p.drop_first(), b, o + encode_utf8(tree_text(p[0])).len()));
        assert(trees_named(p, b, o));
    } else {
        let o1 = o + encode_utf8(tree_text(s[0])).len();
        assert(trees_text(s) == tree_text(s[0]) + trees_text(s.drop_first()));
        lemma_encode_utf8_append(tree_text(s[0]), trees_text(s.drop_first()));
        assert(trees_named(s.drop_first(), b, o1));
        lemma_trees_named_push(s.drop_first(), t, b, o1);
        assert(p.drop_first() =~= s.drop_first().push(t));
        assert(p[0] == s[0]);
        assert(trees_named(p, b, o));
    }
}

pub proof fn lemma_trees_located_push(s: Seq<RawTree>, t: RawTree, b: Seq<u8>, o: int)
    requires
        trees_located(s, b, o),
        tree_located(t, b, o + encode_utf8(trees_text(s)).len()),
    ensures
        trees_located(s.push(t), b, o),
    decreases s.len(),
{
    let p = s.push(t);
    assert(p.len() > 0);
    if s.len() == 0 {
        assert(p[0] == t);
        assert(p.drop_first() =~= Seq::<RawTree>::empty());
        assert(trees_text(s) == Seq::<char>::empty());
        assert(encode_utf8(Seq::<char>::empty()) =~= Seq::<u8>::empty());
        assert(trees_located(p.drop_first(), b, o + encode_utf8(tree_text(p[0])).len()));
        assert(trees_located(p, b, o));
    } else {
        let o1 = o + encode_utf8(tree_text(s[0])).len();
        assert(trees_text(s) == tree_text(s[0]) + trees_text(s.drop_first()));
        lemma_encode_utf8_append(tree_text(s[0]), trees_text(s.drop_first()));
        assert(trees_located(s.drop_first(), b, o1));
        lemma_trees_located_push(s.drop_first(), t, b, o1);
        assert(p.drop_first() =~= s.drop_first().push(t));
        assert(p[0] == s[0]);
        assert(trees_located(p, b, o));
    }
}

/// The number of nodes of a list of trees, a measure for recursion over nested blocks.
pub open spec fn trees_size(s: Seq<RawTree>) -> nat
    decreases s, 0nat,
{
    if s.len() == 0 {
        0
    } else {
        tree_size(s[0]) + trees_size(s.drop_first())
    }
}

pub open spec fn tree_size(t: RawTree) -> nat
    decreases t, 1nat,
{
    match t {
        RawTree::Token(_) => 1,
        RawTree::Block(b) => 1 + trees_size(b.children@),
    }
}

/// The size of a list is at least the size of each element, and the children of a block are
/// smaller than any list holding that block.
pub proof fn lemma_trees_size_elem(s: Seq<RawTree>, i: int)
    requires
        0 <= i < s.len(),
    ensures
        tree_size(s[i]) <= trees_size(s),
        s[i] is Block ==> trees_size(s[i]->Block_0.children@) < trees_size(s),
    decreases s.len(),
{
    assert(trees_size(s) == tree_size(s[0]) + trees_size(s.drop_first()));
    if i > 0 {
        lemma_trees_size_elem(s.drop_first(), i - 1);
        assert(s.drop_first()[i - 1] == s[i]);
    } else {
        if s[0] is Block {
            assert(tree_size(s[0]) == 1 + trees_size(s[0]->Block_0.children@));
        }
    }
}

/// The source text covered by a tree.
pub open spec fn tree_text(t: RawTree) -> Seq<char>
    decreases t, 1nat,
{
    match t {
        RawTree::Token(x) => x.text@,
        RawTree::Block(b) => b.open.text@ + trees_text(b.children@) + b.close_text@,
    }
}

/// The source text covered by a list of trees: the texts of the trees one after another.
pub open spec fn trees_text(s: Seq<RawTree>) -> Seq<char>
    decreases s, 0nat,
{
    if s.len() == 0 {
        Seq::empty()
    } else {
        tree_text(s[0]) + trees_text(s.drop_first())
    }
}

pub proof fn lemma_trees_text_split(s: Seq<RawTree>, i: int)
    requires
        0 <= i < s.len(),
    ensures
        trees_text(s.subrange(0, i + 1)) == trees_text(s.subrange(0, i)) + tree_text(s[i]),
    decreases i,
{
    if i == 0 {
        assert(s.subrange(0, 1).drop_first() =~= Seq::<RawTree>::empty());
        assert(trees_text(s.subrange(0, 0)) == Seq::<char>::empty());
        let one = s.subrange(0, 1);
        assert(one[0] == s[0]);
        assert(trees_text(one.drop_first()) == Seq::<char>::empty());
        assert(trees_text(one) == tree_text(s[0]) + trees_text(one.drop_first()));
        assert(trees_text(one) =~= tree_text(s[0]));
    } else {
        let t = s.drop_first();
        lemma_trees_text_split(t, i - 1);
        assert(s.subrange(0, i + 1).drop_first() =~= t.subrange(0, i));
        assert(s.subrange(0, i).drop_first() =~= t.subrange(0, i - 1));
        assert(trees_text(s.subrange(0, i + 1)) =~= tree_text(s[0]) + trees_text(t.subrange(0, i)));
        assert(trees_text(s.subrange(0, i)) =~= tree_text(s[0]) + trees_text(t.subrange(0, i - 1)));
    }
}

fn append_str(out: &mut String, s: &String)
    ensures
        final(out)@ == old(out)@ + s@,
{
    out.append(s.as_str());
}

/// Appends the source text of a tree to `out`.
pub fn push_tree_text(t: &RawTree, out: &mut String)
    ensures
        final(out)@ == old(out)@ + tree_text(*t),
    decreases tree_size(*t), 0nat,
{
    match t {
        RawTree::Token(x) => append_str(out, &x.text),
        RawTree::Block(b) => {
            let ghost o = out@;
            append_str(out, &b.open.text);
            push_trees_text(&b.children, 0, b.children.len(), out);
            proof { assert(b.children@.subrange(0, b.children@.len() as int) =~= b.children@); }
            append_str(out, &b.close_text);
            proof { assert(out@ =~= o + tree_text(*t)); }
        },
    }
}

/// Appends the source text of the trees `s[from..to]` to `out`.
pub fn push_trees_text(s: &Vec<RawTree>, from: usize, to: usize, out: &mut String)
    requires
        from <= to <= s@.len(),
    ensures
        final(out)@ == old(out)@ + trees_text(s@.subrange(from as int, to as int)),
    decreases trees_size(s@), 1nat,
{
    let ghost o = out@;
    let mut i = from;
    proof { assert(s@.subrange(from as int, from as int) =~= Seq::<RawTree>::empty()); }
    while i < to
        invariant
            from <= i <= to <= s@.len(),
            out@ == o + trees_text(s@.subrange(from as int, i as int)),
        decreases to - i,
    {
        proof {
            lemma_trees_size_elem(s@, i as int);
            let sub = s@.subrange(from as int, to as int);
            lemma_trees_text_split(s@.subrange(from as int, i + 1), i - from);
            assert(s@.subrange(from as int, i + 1).subrange(0, i - from) =~= s@.subrange(from as int, i as int));
            assert(s@.subrange(from as int, i + 1).subrange(0, i - from + 1) =~= s@.subrange(from as int, i + 1));
        }
        push_tree_text(&s[i], out);
        i = i + 1;
    }
}

/// Creates a tokenizing parser over `src`.
#[verifier::external_body]
fn css_parser_new<'i>(src: &'i str) -> cssparser::Parser<'i> {
    cssparser::Parser::new(src)
}

/// A tokenizing parser with a model of its state: the bytes of the source it reads, the byte
/// offset it has reached, whether it reads the content of a block (`nested`), and whether the
/// token it returned last opens a block, which is when, and only when, that block's content
/// can be read with `css_parse_nested`. Only the wrappers below change the parser, and each of
/// them states how the model follows.
pub struct CssLexer<'a, 'i> {
    parser: &'a mut cssparser::Parser<'i>,
    opened: Ghost<bool>,
    source: Ghost<Seq<u8>>,
    offset: Ghost<int>,
    nested: Ghost<bool>,
}

impl<'a, 'i> CssLexer<'a, 'i> {
    pub closed spec fn block_opened(&self) -> bool {
        self.opened@
    }

    pub closed spec fn source(&self) -> Seq<u8> {
        self.source@
    }

    pub closed spec fn offset(&self) -> int {
        self.offset@
    }

    pub closed spec fn nested(&self) -> bool {
        self.nested@
    }

    /// The offset lies on a character boundary of the source.
    pub open spec fn wf(&self) -> bool {
        &&& 0 <= self.offset() <= self.source().len()
        &&& is_char_boundary(self.source(), self.offset())
    }
}

/// `Parser::new`: starts `parser` anew over `src`, at its first byte and outside any block,
/// and returns it as a lexer.
#[verifier::external_body]
fn css_lexer_new<'a, 'i>(parser: &'a mut cssparser::Parser<'i>, src: &'i str) -> (r: CssLexer<'a, 'i>)
    ensures
        r.source() == src.spec_bytes(),
        r.offset() == 0,
        !r.nested(),
        !r.block_opened(),
{
    *parser = cssparser::Parser::new(src);
    CssLexer { parser, opened: Ghost(false), source: Ghost(src.spec_bytes()), offset: Ghost(0), nested: Ghost(false) }
}

/// The token of the source `source` that starts at byte offset `offset`, as the `cssparser`
/// tokenizer reads it: its kind (when the conversions below know it), whether it opens a
/// block, and the offset where it ends.
pub uninterp spec fn css_token_at(source: Seq<u8>, offset: int) -> (Option<RawKind>, bool, int);

/// `Parser::next_including_whitespace_and_comments`: the next token of the current level,
/// whitespace and comments included, converted, and whether it opens a block (a function, `(`,
/// `[` or `{`), which is what makes the parser ready to read that block's content; `None` at
/// the end of the level. A token takes at least one byte; the offset stays on a character
/// boundary; nothing is returned at the end of the source, and outside blocks only there.
/// When no block was skipped first, the token is the one the tokenizer reads at the offset:
/// it depends on the source and the offset alone.
#[verifier::external_body]
fn css_next(lx: &mut CssLexer) -> (r: Option<(Option<RawKind>, bool)>)
    ensures
        final(lx).block_opened() == (r matches Some(x) && x.1),
        final(lx).source() == old(lx).source(),
        final(lx).nested() == old(lx).nested(),
        final(lx).wf(),
        old(lx).offset() <= final(lx).offset(),
        r is Some ==> old(lx).offset() < final(lx).offset(),
        old(lx).offset() == old(lx).source().len() ==> r is None,
        r is None && !old(lx).nested() ==> final(lx).offset() == final(lx).source().len(),
        r is None && !old(lx).block_opened() ==> final(lx).offset() == old(lx).offset(),
        !old(lx).block_opened() ==> (r matches Some(x) ==> css_token_at(old(lx).source(), old(lx).offset())
            == (x.0, x.1, final(lx).offset())),
{
    match lx.parser.next_including_whitespace_and_comments() {
        Ok(t) => Some((token_kind(t), token_opens(t))),
        Err(_) => None,
    }
}

/// Whether a token opens a block whose content the parser can read.
#[verifier::external_body]
fn token_opens(t: &cssparser::Token) -> bool {
    match t {
        cssparser::Token::Function(_) => true,
        cssparser::Token::ParenthesisBlock => true,
        cssparser::Token::SquareBracketBlock => true,
        cssparser::Token::CurlyBracketBlock => true,
        _ => false,
    }
}

/// The kind of a token, by the first of the conversions below that knows it.
#[verifier::external_body]
fn token_kind(t: &cssparser::Token) -> Option<RawKind> {
    token_kind_named(t)
        .or_else(|| token_kind_value(t))
        .or_else(|| token_kind_number(t))
        .or_else(|| token_kind_punct(t))
        .or_else(|| token_kind_bracket(t))
}

/// `Parser::current_source_location`: the line, counted from 0, and the column, counted from 1
/// in UTF-16 code units, as `SourceLocation` documents them, of the current offset; stated
/// where they fit a `u32`.
#[verifier::external_body]
fn css_source_location(lx: &CssLexer) -> (r: (u32, u32))
    ensures
        ({
            let q = css_position_at(lx.source(), lx.offset());
            q.0 <= u32::MAX && q.1 < u32::MAX ==> r.0 == q.0 && r.1 == q.1 + 1
        }),
{
    let loc = lx.parser.current_source_location();
    (loc.line, loc.column)
}

/// `Parser::position`, as its byte offset in the source.
#[verifier::external_body]
fn css_byte_index(lx: &CssLexer) -> (r: usize)
    ensures
        r == lx.offset(),
{
    lx.parser.position().byte_index()
}

/// `Parser::parse_nested_block`: lexes the content of the block whose opening token was just
/// returned, with `lex_nested` on the same parser, which then stops before the block's
/// closing token, and afterwards consumes the rest of the block and its closing token. `None`
/// when the parser refuses to enter the block (too deep a nesting), in which case nothing is
/// consumed. The clauses on the value handed back restate what `lex_nested` ensures: the
/// parser returns the closure's result unchanged, as the closure reads its level to the end
/// (to a `None` from `css_next`, or to the end of the source, where `css_next` returns `None`).
#[verifier::external_body]
fn css_parse_nested(lx: &mut CssLexer, src: &str, fuel: &mut usize) -> (r: Option<(Vec<RawTree>, Position, usize)>)
    requires
        old(lx).block_opened(),
        old(lx).source() == src.spec_bytes(),
        old(lx).wf(),
        *old(fuel) >= src.spec_bytes().len() - old(lx).offset(),
    ensures
        !final(lx).block_opened(),
        final(lx).source() == old(lx).source(),
        final(lx).nested() == old(lx).nested(),
        final(lx).wf(),
        *final(fuel) <= *old(fuel),
        *final(fuel) >= src.spec_bytes().len() - final(lx).offset(),
        r is None ==> final(lx).offset() == old(lx).offset() && *final(fuel) == *old(fuel),
        r matches Some(x) ==> raw_trees_wf(x.0@) && old(lx).offset() <= x.2 <= final(lx).offset()
            && is_char_boundary(src.spec_bytes(), x.2 as int)
            && encode_utf8(trees_text(x.0@)) == src.spec_bytes().subrange(old(lx).offset(), x.2 as int)
            && trees_located(x.0@, src.spec_bytes(), old(lx).offset()) && at_offset(x.1, src.spec_bytes(), x.2 as int)
            && trees_named(x.0@, src.spec_bytes(), old(lx).offset()),
{
    let source = lx.source;
    let offset = lx.offset;
    lx.parser.parse_nested_block(|inner| Ok::<_, cssparser::ParseError<()>>(lex_nested(inner, src, fuel, source, offset))).ok()
}

/// Lexes the content of a block on the parser that `parse_nested_block` hands over: the same
/// parser, at `offset` in `source`, reading up to the block's closing token.
fn lex_nested<'a, 'i>(inner: &'a mut cssparser::Parser<'i>, src: &str, fuel: &mut usize, source: Ghost<Seq<u8>>, offset: Ghost<int>) -> (r: (Vec<RawTree>, Position, usize))
    requires
        source@ == src.spec_bytes(),
        0 <= offset@ <= source@.len(),
        is_char_boundary(source@, offset@),
        *old(fuel) >= source@.len() - offset@,
    ensures
        raw_trees_wf(r.0@),
        offset@ <= r.2 <= src.spec_bytes().len(),
        is_char_boundary(src.spec_bytes(), r.2 as int),
        encode_utf8(trees_text(r.0@)) == src.spec_bytes().subrange(offset@, r.2 as int),
        trees_located(r.0@, src.spec_bytes(), offset@),
        trees_named(r.0@, src.spec_bytes(), offset@),
        at_offset(r.1, src.spec_bytes(), r.2 as int),
        *final(fuel) <= *old(fuel),
        *final(fuel) >= src.spec_bytes().len() - r.2,
{
    let mut lx = CssLexer { parser: inner, opened: Ghost(false), source, offset, nested: Ghost(true) };
    lex_level(&mut lx, src, fuel)
}

/// The source text between two byte offsets; empty when they do not mark a piece of the
/// source.
pub fn source_slice(src: &str, from: usize, to: usize) -> (r: String)
    ensures
        from <= to <= src.spec_bytes().len() && src.is_char_boundary(from) && src.is_char_boundary(to)
            ==> encode_utf8(r@) == src.spec_bytes().subrange(from as int, to as int),
        !(from <= to <= src.spec_bytes().len() && src.is_char_boundary(from) && src.is_char_boundary(to))
            ==> r@.len() == 0,
{
    proof {
        encode_utf8_valid_utf8(src@);
    }
    let n = src.as_bytes().len();
    if from <= to && to <= n && src.is_char_boundary(from) && src.is_char_boundary(to) {
        let (head, _) = src.split_at(to);
        proof {
            lemma_boundary_in_prefix(src.spec_bytes(), from as int, to as int);
        }
        let (_, piece) = head.split_at(from);
        let r = piece.to_owned();
        proof {
            assert(piece.spec_bytes() =~= src.spec_bytes().subrange(from as int, to as int));
            assert(r@ == piece@);
            assert(piece.spec_bytes() == encode_utf8(piece@));
            assert(encode_utf8(r@) =~= src.spec_bytes().subrange(from as int, to as int));
        }
        r
    } else {
        String::new()
    }
}

/// Tokens that carry a name or a string value.
#[verifier::external_body]
fn token_kind_named(t: &cssparser::Token) -> Option<RawKind> {
    match t {
        cssparser::Token::Ident(s) => Some(RawKind::Ident(s.to_string())),
        cssparser::Token::AtKeyword(s) => Some(RawKind::AtKeyword(s.to_string())),
        cssparser::Token::Hash(s) => Some(RawKind::Hash(s.to_string())),
        cssparser::Token::IDHash(s) => Some(RawKind::IDHash(s.to_string())),
        cssparser::Token::QuotedString(s) => Some(RawKind::QuotedString(s.to_string())),
        cssparser::Token::UnquotedUrl(s) => Some(RawKind::UnquotedUrl(s.to_string())),
        cssparser::Token::Function(s) => Some(RawKind::Function(s.to_string())),
        _ => None,
    }
}

/// Bad tokens, trivia and delimiters.
#[verifier::external_body]
fn token_kind_value(t: &cssparser::Token) -> Option<RawKind> {
    match t {
        cssparser::Token::BadUrl(s) => Some(RawKind::BadUrl(s.to_string())),
        cssparser::Token::BadString(s) => Some(RawKind::BadString(s.to_string())),
        cssparser::Token::Comment(s) => Some(RawKind::Comment(s.to_string())),
        cssparser::Token::WhiteSpace(_) => Some(RawKind::WhiteSpace),
        cssparser::Token::Delim(c) => Some(RawKind::Delim(*c)),
        _ => None,
    }
}

/// Numbers. Their floating-point values are not kept; their sign flag and integer value are.
#[verifier::external_body]
fn token_kind_number(t: &cssparser::Token) -> Option<RawKind> {
    match t {
        cssparser::Token::Number { has_sign, int_value, .. } => Some(RawKind::Number(*has_sign, *int_value)),
        cssparser::Token::Percentage { has_sign, int_value, .. } => Some(RawKind::Percentage(*has_sign, *int_value)),
        cssparser::Token::Dimension { has_sign, int_value, unit, .. } => Some(RawKind::Dimension(*has_sign, *int_value, unit.to_string())),
        _ => None,
    }
}

/// Punctuation tokens.
#[verifier::external_body]
fn token_kind_punct(t: &cssparser::Token) -> Option<RawKind> {
    match t {
        cssparser::Token::Colon => Some(RawKind::Colon),
        cssparser::Token::Semicolon => Some(RawKind::Semicolon),
        cssparser::Token::Comma => Some(RawKind::Comma),
        cssparser::Token::IncludeMatch => Some(RawKind::IncludeMatch),
        cssparser::Token::DashMatch => Some(RawKind::DashMatch),
        cssparser::Token::PrefixMatch => Some(RawKind::PrefixMatch),
        cssparser::Token::SuffixMatch => Some(RawKind::SuffixMatch),
        cssparser::Token::SubstringMatch => Some(RawKind::SubstringMatch),
        _ => None,
    }
}

/// Markup-comment delimiters and brackets.
#[verifier::external_body]
fn token_kind_bracket(t: &cssparser::Token) -> Option<RawKind> {
    match t {
        cssparser::Token::CDO => Some(RawKind::CDO),
        cssparser::Token::CDC => Some(RawKind::CDC),
        cssparser::Token::ParenthesisBlock => Some(RawKind::ParenthesisBlock),
        cssparser::Token::SquareBracketBlock => Some(RawKind::SquareBracketBlock),
        cssparser::Token::CurlyBracketBlock => Some(RawKind::CurlyBracketBlock),
        cssparser::Token::CloseParenthesis => Some(RawKind::CloseParenthesis),
        cssparser::Token::CloseSquareBracket => Some(RawKind::CloseSquareBracket),
        cssparser::Token::CloseCurlyBracket => Some(RawKind::CloseCurlyBracket),
        _ => None,
    }
}

/// The current position, with the one-based column of the tokenizer made zero-based.
fn current_position(lx: &CssLexer) -> (r: Position)
    ensures
        at_offset(r, lx.source(), lx.offset()),
{
    let (line, col) = css_source_location(lx);
    let r = Position { line, utf16_col: if col > 0 { col - 1 } else { 0 } };
    proof {
        let q = css_position_at(lx.source(), lx.offset());
        lemma_utf16_len_le_utf8_len(css_line_tail(decode_utf8(lx.source().subrange(0, lx.offset()))));
        if q.0 <= u32::MAX && q.1 < u32::MAX {
            assert(col == q.1 + 1);
            assert(r.utf16_col == q.1);
            assert(r.line == q.0);
        }
    }
    r
}

pub proof fn lemma_trees_text_push(s: Seq<RawTree>, t: RawTree)
    ensures
        trees_text(s.push(t)) == trees_text(s) + tree_text(t),
    decreases s.len(),
{
    let p = s.push(t);
    assert(p.len() > 0);
    assert(trees_text(p) == tree_text(p[0]) + trees_text(p.drop_first()));
    if s.len() == 0 {
        assert(p.drop_first() =~= Seq::<RawTree>::empty());
        assert(p[0] == t);
        assert(trees_text(p.drop_first()) == Seq::<char>::empty());
        assert(trees_text(s) == Seq::<char>::empty());
        assert(trees_text(p) =~= trees_text(s) + tree_text(t));
    } else {
        lemma_trees_text_push(s.drop_first(), t);
        assert(p.drop_first() =~= s.drop_first().push(t));
        assert(p[0] == s[0]);
        assert(trees_text(s) == tree_text(s[0]) + trees_text(s.drop_first()));
        assert(trees_text(p) =~= trees_text(s) + tree_text(t));
    }
}

/// Three adjacent pieces of a byte sequence make the piece that spans them.
proof fn lemma_bytes_join(b: Seq<u8>, i: int, j: int, k: int)
    requires
        0 <= i <= j <= k <= b.len(),
    ensures
        b.subrange(i, j) + b.subrange(j, k) == b.subrange(i, k),
{
    assert(b.subrange(i, j) + b.subrange(j, k) =~= b.subrange(i, k));
}

/// Appending a tree whose text encodes the bytes `from..to` to trees that encode `start..from`
/// gives trees that encode `start..to`.
proof fn lemma_cover_push(s: Seq<RawTree>, t: RawTree, b: Seq<u8>, start: int, from: int, to: int)
    requires
        0 <= start <= from <= to <= b.len(),
        encode_utf8(trees_text(s)) == b.subrange(start, from),
        encode_utf8(tree_text(t)) == b.subrange(from, to),
    ensures
        encode_utf8(trees_text(s.push(t))) == b.subrange(start, to),
{
    lemma_trees_text_push(s, t);
    lemma_encode_utf8_append(trees_text(s), tree_text(t));
    lemma_bytes_join(b, start, from, to);
}

/// Lexes the tokens of the current level until its end, entering every block.
///
/// Each token takes at least one byte of the source, so `fuel`, at least the number of bytes
/// left, bounds the number of tokens. The trees' texts, one after another, are the source
/// between the offset where the level starts and the returned offset, where it ends; outside
/// blocks that is the end of the source.
pub fn lex_level(lx: &mut CssLexer, src: &str, fuel: &mut usize) -> (r: (Vec<RawTree>, Position, usize))
    requires
        !old(lx).block_opened(),
        old(lx).source() == src.spec_bytes(),
        old(lx).wf(),
        *old(fuel) >= src.spec_bytes().len() - old(lx).offset(),
    ensures
        raw_trees_wf(r.0@),
        final(lx).source() == old(lx).source(),
        final(lx).nested() == old(lx).nested(),
        final(lx).wf(),
        r.2 == final(lx).offset(),
        old(lx).offset() <= r.2,
        encode_utf8(trees_text(r.0@)) == src.spec_bytes().subrange(old(lx).offset(), r.2 as int),
        trees_located(r.0@, src.spec_bytes(), old(lx).offset()),
        trees_named(r.0@, src.spec_bytes(), old(lx).offset()),
        at_offset(r.1, src.spec_bytes(), r.2 as int),
        *final(fuel) <= *old(fuel),
        *final(fuel) >= src.spec_bytes().len() - r.2,
        !old(lx).nested() ==> r.2 == src.spec_bytes().len(),
{
    let ghost bytes = src.spec_bytes();
    let ghost start_offset = lx.offset();
    let mut ret: Vec<RawTree> = Vec::new();
    proof {
        assert(bytes.subrange(start_offset, start_offset) =~= Seq::<u8>::empty());
        assert(trees_text(ret@) =~= Seq::<char>::empty());
        assert(encode_utf8(Seq::<char>::empty()) =~= Seq::<u8>::empty());
    }
    loop
        invariant
            raw_trees_wf(ret@),
            *fuel <= *old(fuel),
            !lx.block_opened(),
            lx.source() == bytes,
            bytes == src.spec_bytes(),
            lx.nested() == old(lx).nested(),
            lx.wf(),
            start_offset == old(lx).offset(),
            0 <= start_offset <= lx.offset(),
            *fuel >= bytes.len() - lx.offset(),
            encode_utf8(trees_text(ret@)) == bytes.subrange(start_offset, lx.offset()),
            trees_located(ret@, bytes, start_offset),
            trees_named(ret@, bytes, start_offset),
        ensures
            raw_trees_wf(ret@),
            *fuel <= *old(fuel),
            !lx.block_opened(),
            lx.source() == bytes,
            lx.nested() == old(lx).nested(),
            lx.wf(),
            start_offset <= lx.offset(),
            *fuel >= bytes.len() - lx.offset(),
            encode_utf8(trees_text(ret@)) == bytes.subrange(start_offset, lx.offset()),
            trees_located(ret@, bytes, start_offset),
            trees_named(ret@, bytes, start_offset),
            !old(lx).nested() ==> lx.offset() == bytes.len(),
        decreases *fuel,
    {
        if *fuel == 0 {
            break ;
        }
        let start = current_position(lx);
        let start_byte = css_byte_index(lx);
        let (kind, opens) = match css_next(lx) {
            None => break ,
            // a token that none of the conversions knows is kept as whitespace, so that its
            // text stays in the tree and the parser passes over it
            Some((k, opens)) => (
                match k {
                    Some(k) => k,
                    None => RawKind::WhiteSpace,
                },
                opens,
            ),
        };
        *fuel = *fuel - 1;
        let end = current_position(lx);
        let after_open = css_byte_index(lx);
        let text = source_slice(src, start_byte, after_open);
        let nested = if opens {
            Some(css_parse_nested(lx, src, fuel))
        } else {
            None
        };
        let close_end = current_position(lx);
        let now = css_byte_index(lx);
        let tree = if opens && !kind.is_block_opening() {
            // the block is kept whole, as one token of the kind read
            RawTree::Token(RawToken { kind, location: Location { start, end: close_end }, text: source_slice(src, start_byte, now) })
        } else if !kind.is_block_opening() {
            RawTree::Token(RawToken { kind, location: Location { start, end }, text })
        } else {
            let token = RawToken { kind, location: Location { start, end }, text };
            match nested {
                Some(Some((children, close_start, close_byte))) => {
                    let close_text = source_slice(src, close_byte, now);
                    proof {
                        lemma_encode_utf8_append(token.text@, trees_text(children@));
                        lemma_encode_utf8_append(token.text@ + trees_text(children@), close_text@);
                        lemma_bytes_join(bytes, start_byte as int, after_open as int, close_byte as int);
                        lemma_bytes_join(bytes, start_byte as int, close_byte as int, now as int);
                    }
                    RawTree::Block(
                        RawBlock {
                            open: token,
                            children,
                            close: Location { start: close_start, end: close_end },
                            close_text,
                        },
                    )
                },
                _ => {
                    let close_text = source_slice(src, after_open, now);
                    proof {
                        assert(trees_text(Seq::<RawTree>::empty()) =~= Seq::<char>::empty());
                        lemma_encode_utf8_append(token.text@, Seq::<char>::empty());
                        lemma_encode_utf8_append(token.text@, close_text@);
                        assert(token.text@ + Seq::<char>::empty() =~= token.text@);
                        lemma_bytes_join(bytes, start_byte as int, after_open as int, now as int);
                    }
                    RawTree::Block(
                        RawBlock {
                            open: token,
                            children: Vec::new(),
                            close: Location { start: end, end: close_end },
                            close_text,
                        },
                    )
                },
            }
        };
        assert(tree.wf());
        assert(encode_utf8(tree_text(tree)) == bytes.subrange(start_byte as int, now as int));
        assert(tree_located(tree, bytes, start_byte as int));
        assert(tree_named(tree, bytes, start_byte as int));
        proof {
            lemma_trees_located_push(ret@, tree, bytes, start_offset);
            lemma_trees_named_push(ret@, tree, bytes, start_offset);
            lemma_wf_push(ret@, tree);
            lemma_cover_push(ret@, tree, bytes, start_offset, start_byte as int, now as int);
        }
        ret.push(tree);
    }
    let end = current_position(lx);
    let end_byte = css_byte_index(lx);
    (ret, end, end_byte)
}

/// Lexes a whole style sheet source. The trees' texts, one after another, are the source, and
/// every range is the line and UTF-16 column of where its text starts or ends.
pub fn lex(src: &str) -> (r: Vec<RawTree>)
    ensures
        raw_trees_wf(r@),
        trees_text(r@) == src@,
        trees_located(r@, src.spec_bytes(), 0),
        trees_named(r@, src.spec_bytes(), 0),
{
    let mut p = css_parser_new(src);
    let mut lx = css_lexer_new(&mut p, src);
    let mut fuel = src.as_bytes().len();
    proof {
        encode_utf8_valid_utf8(src@);
        assert(src.spec_bytes() == encode_utf8(src@));
        assert(is_char_boundary(src.spec_bytes(), 0));
    }
    let (trees, _, _) = lex_level(&mut lx, src, &mut fuel);
    proof {
        assert(src.spec_bytes().subrange(0, src.spec_bytes().len() as int) =~= src.spec_bytes());
        encode_utf8_decode_utf8(trees_text(trees@));
        encode_utf8_decode_utf8(src@);
    }
    trees
}

} // verus!
