//! The parse state: a cursor over one level of raw token trees, and the diagnostics, comments
//! and brace ranges collected while parsing.

use vstd::prelude::*;
use vstd::string::StringSliceAdditionalSpecFns;
use crate::position::{Location, Position, loc_at};
use super::lexer::{RawKind, RawToken, RawTree, RawBlock, raw_trees_wf, trees_size, lemma_trees_size_elem, lemma_wf_elem};
use super::token::{Comment, Dimension, Function, Group, NamedToken, Numeric, Operator, PunctToken, TokenTree};
use super::error::{ParseError, ParseErrorKind};

verus! {

/// What parsing collects besides the parsed items.
#[derive(Debug)]
pub struct ParseOutput {
    pub warnings: Vec<ParseError>,
    pub comments: Vec<Comment>,
    pub braces: Vec<Location>,
}

impl ParseOutput {
    pub fn new() -> (r: ParseOutput)
        ensures
            r.warnings@.len() == 0,
            r.comments@.len() == 0,
            r.braces@.len() == 0,
    {
        ParseOutput { warnings: Vec::new(), comments: Vec::new(), braces: Vec::new() }
    }
}

/// A cursor over the trees of one level (the whole source, or the content of a block).
pub struct ParseState<'a> {
    pub items: &'a Vec<RawTree>,
    pub pos: usize,
    /// The position where the level starts: the start of the source, or the end of the
    /// opening token of the block.
    pub level_start: Position,
    pub out: ParseOutput,
}

/// The index of the first tree at or after `i` that is neither whitespace nor a comment, or the
/// length of `s` when there is none.
pub open spec fn first_solid(s: Seq<RawTree>, i: int) -> int
    decreases s.len() - i,
{
    if i < 0 || i >= s.len() {
        s.len() as int
    } else if s[i].kind().is_trivia() {
        first_solid(s, i + 1)
    } else {
        i
    }
}

pub proof fn lemma_first_solid(s: Seq<RawTree>, i: int)
    requires
        0 <= i <= s.len(),
    ensures
        i <= first_solid(s, i) <= s.len(),
        first_solid(s, i) < s.len() ==> !s[first_solid(s, i)].kind().is_trivia(),
        forall|j: int| i <= j < first_solid(s, i) ==> #[trigger] s[j].kind().is_trivia(),
    decreases s.len() - i,
{
    if i < s.len() && s[i].kind().is_trivia() {
        lemma_first_solid(s, i + 1);
    }
}

/// A semicolon or a `{...}` block: the tokens that end a rule.
pub open spec fn is_stop(k: RawKind) -> bool {
    k is Semicolon || k is CurlyBracketBlock
}

/// `tt` is what the parser makes of a token of kind `k`, as far as its kind and values go.
pub open spec fn corresponds(tt: TokenTree, k: RawKind) -> bool {
    match k {
        RawKind::Ident(s) => tt is Ident && tt->Ident_0.content@ == s@,
        RawKind::AtKeyword(s) => tt is AtKeyword && tt->AtKeyword_0.content@ == s@,
        RawKind::Hash(s) => tt is Hash && tt->Hash_0.content@ == s@,
        RawKind::IDHash(s) => tt is IDHash && tt->IDHash_0.content@ == s@,
        RawKind::QuotedString(s) => tt is QuotedString && tt->QuotedString_0.content@ == s@,
        RawKind::UnquotedUrl(s) => tt is UnquotedUrl && tt->UnquotedUrl_0.content@ == s@,
        RawKind::Function(s) => tt is Function && tt->Function_0.name@ == s@,
        RawKind::BadUrl(s) => tt is BadUrl && tt->BadUrl_0.content@ == s@,
        RawKind::BadString(s) => tt is BadString && tt->BadString_0.content@ == s@,
        RawKind::Comment(_) => false,
        RawKind::WhiteSpace => false,
        RawKind::Delim(c) => tt is Operator && tt->Operator_0.name@ == seq![c],
        RawKind::Number(h, v) => tt is Number && tt->Number_0.has_sign == h
            && tt->Number_0.int_value == v,
        RawKind::Percentage(h, v) => tt is Percentage && tt->Percentage_0.has_sign == h
            && tt->Percentage_0.int_value == v,
        RawKind::Dimension(h, v, u) => tt is Dimension && tt->Dimension_0.has_sign == h
            && tt->Dimension_0.int_value == v && tt->Dimension_0.unit@ == u@,
        RawKind::Colon => tt is Colon,
        RawKind::Semicolon => tt is Semicolon,
        RawKind::Comma => tt is Comma,
        RawKind::IncludeMatch => tt is Operator && tt->Operator_0.name@ == seq!['~', '='],
        RawKind::DashMatch => tt is Operator && tt->Operator_0.name@ == seq!['|', '='],
        RawKind::PrefixMatch => tt is Operator && tt->Operator_0.name@ == seq!['^', '='],
        RawKind::SuffixMatch => tt is Operator && tt->Operator_0.name@ == seq!['$', '='],
        RawKind::SubstringMatch => tt is Operator && tt->Operator_0.name@ == seq!['*', '='],
        RawKind::CDO => tt is Operator && tt->Operator_0.name@ == seq!['<', '!', '-', '-'],
        RawKind::CDC => tt is Operator && tt->Operator_0.name@ == seq!['-', '-', '>'],
        RawKind::ParenthesisBlock => tt is Paren,
        RawKind::SquareBracketBlock => tt is Bracket,
        RawKind::CurlyBracketBlock => tt is Brace,
        RawKind::CloseParenthesis => tt is BadOperator && tt->BadOperator_0.name@ == seq![')'],
        RawKind::CloseSquareBracket => tt is BadOperator && tt->BadOperator_0.name@ == seq![']'],
        RawKind::CloseCurlyBracket => tt is BadOperator && tt->BadOperator_0.name@ == seq!['}'],
    }
}

/// `a` starts with `b`: what `b` holds stays, and anything new comes after it.
pub open spec fn extends<T>(a: Seq<T>, b: Seq<T>) -> bool {
    &&& b.len() <= a.len()
    &&& forall|i: int| 0 <= i < b.len() ==> #[trigger] a[i] == b[i]
}

/// The output only grew: warnings and comments were added after those already collected.
pub open spec fn out_grows(new: ParseOutput, old: ParseOutput) -> bool {
    &&& extends(new.warnings@, old.warnings@)
    &&& extends(new.comments@, old.comments@)
}

/// The comments among the trees `s[i..j]`, in order, with their text and range.
pub open spec fn comments_in(s: Seq<RawTree>, i: int, j: int) -> Seq<Comment>
    decreases j - i,
{
    if j <= i || i < 0 || j > s.len() {
        Seq::empty()
    } else {
        let prev = comments_in(s, i, j - 1);
        match s[j - 1] {
            RawTree::Token(t) => match t.kind {
                RawKind::Comment(c) => prev.push(Comment { content: c, location: t.location }),
                _ => prev,
            },
            RawTree::Block(_) => prev,
        }
    }
}

/// One more tree: its comment, if it is one, comes last.
pub proof fn lemma_comments_in_step(s: Seq<RawTree>, i: int, j: int)
    requires
        0 <= i <= j < s.len(),
    ensures
        comments_in(s, i, j + 1) == (match s[j] {
            RawTree::Token(t) => match t.kind {
                RawKind::Comment(c) => comments_in(s, i, j).push(Comment { content: c, location: t.location }),
                _ => comments_in(s, i, j),
            },
            RawTree::Block(_) => comments_in(s, i, j),
        }),
{
}

/// The kinds of the trees of `s[i..j]` that are neither whitespace nor comments, in order:
/// the tokens that reading those trees gives.
pub open spec fn solid_kinds(s: Seq<RawTree>, i: int, j: int) -> Seq<RawKind>
    decreases j - i,
{
    if j <= i || i < 0 || j > s.len() {
        Seq::empty()
    } else if s[j - 1].kind().is_trivia() {
        solid_kinds(s, i, j - 1)
    } else {
        solid_kinds(s, i, j - 1).push(s[j - 1].kind())
    }
}

/// Each token read is what the parser makes of the kind at the same place.
pub open spec fn read_as(tts: Seq<TokenTree>, ks: Seq<RawKind>) -> bool {
    &&& tts.len() == ks.len()
    &&& forall|n: int| 0 <= n < tts.len() ==> #[trigger] corresponds(tts[n], ks[n])
}

/// The children of a group token; nothing for other tokens.
pub open spec fn children_of(tt: TokenTree) -> Seq<TokenTree> {
    match tt {
        TokenTree::Function(x) => x.children@,
        TokenTree::Paren(x) => x.children@,
        TokenTree::Bracket(x) => x.children@,
        TokenTree::Brace(x) => x.children@,
        _ => Seq::empty(),
    }
}

/// Which of the token kinds a token is.
pub open spec fn token_variant(tt: TokenTree) -> int {
    match tt {
        TokenTree::Ident(_) => 0,
        TokenTree::AtKeyword(_) => 1,
        TokenTree::Hash(_) => 2,
        TokenTree::IDHash(_) => 3,
        TokenTree::QuotedString(_) => 4,
        TokenTree::UnquotedUrl(_) => 5,
        TokenTree::Number(_) => 6,
        TokenTree::Percentage(_) => 7,
        TokenTree::Dimension(_) => 8,
        TokenTree::Colon(_) => 9,
        TokenTree::Semicolon(_) => 10,
        TokenTree::Comma(_) => 11,
        TokenTree::Operator(_) => 12,
        TokenTree::Function(_) => 13,
        TokenTree::Paren(_) => 14,
        TokenTree::Bracket(_) => 15,
        TokenTree::Brace(_) => 16,
        TokenTree::BadUrl(_) => 17,
        TokenTree::BadString(_) => 18,
        TokenTree::BadOperator(_) => 19,
    }
}

/// What `peek` shows is what `next` then reads: at the end of the level both give nothing,
/// and otherwise both give a token of the same kind, made of the same tree.
pub proof fn lemma_peek_matches_next(ps: ParseState, peeked: Option<TokenTree>, read: Option<TokenTree>)
    requires
        ps.wf(),
        peeked is None <==> ps.at_end(),
        peeked is Some ==> corresponds(peeked->0, ps.next_tree().kind()),
        ps.at_end() ==> read is None,
        !ps.at_end() ==> read is Some && corresponds(read->0, ps.next_tree().kind()),
    ensures
        peeked is None <==> read is None,
        peeked is Some ==> token_variant(peeked->0) == token_variant(read->0),
{
}

/// Whitespace and comments add no token.
pub proof fn lemma_solid_kinds_skip(s: Seq<RawTree>, i: int, p: int, q: int)
    requires
        0 <= i <= p <= q <= s.len(),
        forall|j: int| p <= j < q ==> #[trigger] s[j].kind().is_trivia(),
    ensures
        solid_kinds(s, i, q) == solid_kinds(s, i, p),
    decreases q - p,
{
    if p < q {
        lemma_solid_kinds_skip(s, i, p, q - 1);
        assert(s[q - 1].kind().is_trivia());
    }
}

/// A tree that is neither whitespace nor a comment adds its kind.
pub proof fn lemma_solid_kinds_step(s: Seq<RawTree>, i: int, q: int)
    requires
        0 <= i <= q < s.len(),
        !s[q].kind().is_trivia(),
    ensures
        solid_kinds(s, i, q + 1) == solid_kinds(s, i, q).push(s[q].kind()),
{
}

/// The warning that reading a token records: a bad string, a bad URL, or a closing bracket
/// with no block to close.
pub open spec fn token_warnings(tt: TokenTree) -> Seq<ParseError> {
    match tt {
        TokenTree::BadString(x) => seq![ParseError { kind: ParseErrorKind::BadString, location: x.location }],
        TokenTree::BadUrl(x) => seq![ParseError { kind: ParseErrorKind::BadUrl, location: x.location }],
        TokenTree::BadOperator(x) => seq![ParseError { kind: ParseErrorKind::UnexpectedToken, location: x.location }],
        _ => Seq::empty(),
    }
}

/// The warning that reading the tree `t` as a token records: a bad string, a bad URL, or a
/// closing bracket with no block to close.
pub open spec fn tree_warnings(t: RawTree) -> Seq<ParseError> {
    match t {
        RawTree::Token(x) => match x.kind {
            RawKind::BadString(_) => seq![ParseError { kind: ParseErrorKind::BadString, location: x.location }],
            RawKind::BadUrl(_) => seq![ParseError { kind: ParseErrorKind::BadUrl, location: x.location }],
            RawKind::CloseParenthesis | RawKind::CloseSquareBracket | RawKind::CloseCurlyBracket
                => seq![ParseError { kind: ParseErrorKind::UnexpectedToken, location: x.location }],
            _ => Seq::empty(),
        },
        RawTree::Block(_) => Seq::empty(),
    }
}

fn operator_token(s: &str, location: Location) -> (r: TokenTree)
    requires
        s.spec_bytes().len() <= 4,
    ensures
        r is Operator && r->Operator_0.name@ == s@ && r.spec_location() == location,
{
    TokenTree::Operator(Operator::new(s, location))
}

fn bad_operator_token(s: &str, location: Location) -> (r: TokenTree)
    requires
        s.spec_bytes().len() <= 4,
    ensures
        r is BadOperator && r->BadOperator_0.name@ == s@ && r.spec_location() == location,
{
    TokenTree::BadOperator(Operator::new(s, location))
}

fn named(s: &String, location: Location) -> (r: NamedToken)
    ensures
        r.content@ == s@,
        r.location == location,
{
    NamedToken { content: s.clone(), location }
}

fn empty_group(location: Location) -> (r: Group<Vec<TokenTree>>)
    ensures
        r.children@.len() == 0,
        r.trailing@.len() == 0,
        r.left == location,
        r.right == location,
{
    Group { children: Vec::new(), left: location, right: location, trailing: Vec::new() }
}

/// Turns a token into a token tree located at `location`. A block token becomes an empty
/// group; a function's opening and closing ranges are both empty at the end of `location`.
pub fn convert_css_token(k: &RawKind, location: Location) -> (r: TokenTree)
    requires
        !k.is_trivia(),
    ensures
        corresponds(r, *k),
        !k.opens_block() ==> r.spec_location() == location,
        r is Paren || r is Bracket || r is Brace ==> r.spec_location() == location,
        r is Function ==> r->Function_0.left == loc_at(location.end)
            && r->Function_0.right == loc_at(location.end),
        r.is_group() ==> r.is_group() == k.opens_block(),
        k.opens_block() <==> r.is_group(),
        r is Function ==> r.spec_location() == loc_at(location.end),
        r.childless(),
{
    proof {
        reveal_strlit("~=");
        reveal_strlit("|=");
        reveal_strlit("^=");
        reveal_strlit("$=");
        reveal_strlit("*=");
        reveal_strlit("<!--");
        reveal_strlit("-->");
        reveal_strlit(")");
        reveal_strlit("]");
        reveal_strlit("}");
        assert("~="@ =~= seq!['~', '=']);
        assert("|="@ =~= seq!['|', '=']);
        assert("^="@ =~= seq!['^', '=']);
        assert("$="@ =~= seq!['$', '=']);
        assert("*="@ =~= seq!['*', '=']);
        assert("<!--"@ =~= seq!['<', '!', '-', '-']);
        assert("-->"@ =~= seq!['-', '-', '>']);
        assert(")"@ =~= seq![')']);
        assert("]"@ =~= seq![']']);
        assert("}"@ =~= seq!['}']);
        vstd::string::is_ascii_spec_bytes("~=");
        vstd::string::is_ascii_spec_bytes("|=");
        vstd::string::is_ascii_spec_bytes("^=");
        vstd::string::is_ascii_spec_bytes("$=");
        vstd::string::is_ascii_spec_bytes("*=");
        vstd::string::is_ascii_spec_bytes("<!--");
        vstd::string::is_ascii_spec_bytes("-->");
        vstd::string::is_ascii_spec_bytes(")");
        vstd::string::is_ascii_spec_bytes("]");
        vstd::string::is_ascii_spec_bytes("}");
    }
    match k {
        RawKind::Ident(s) => TokenTree::Ident(named(s, location)),
        RawKind::AtKeyword(s) => TokenTree::AtKeyword(named(s, location)),
        RawKind::Hash(s) => TokenTree::Hash(named(s, location)),
        RawKind::IDHash(s) => TokenTree::IDHash(named(s, location)),
        RawKind::QuotedString(s) => TokenTree::QuotedString(named(s, location)),
        RawKind::UnquotedUrl(s) => TokenTree::UnquotedUrl(named(s, location)),
        RawKind::BadUrl(s) => TokenTree::BadUrl(named(s, location)),
        RawKind::BadString(s) => TokenTree::BadString(named(s, location)),
        RawKind::Number(h, v) => TokenTree::Number(
            Numeric { has_sign: *h, int_value: *v, location },
        ),
        RawKind::Percentage(h, v) => TokenTree::Percentage(
            Numeric { has_sign: *h, int_value: *v, location },
        ),
        RawKind::Dimension(h, v, u) => TokenTree::Dimension(
            Dimension { has_sign: *h, int_value: *v, unit: u.clone(), location },
        ),
        RawKind::Colon => TokenTree::Colon(PunctToken { location }),
        RawKind::Semicolon => TokenTree::Semicolon(PunctToken { location }),
        RawKind::Comma => TokenTree::Comma(PunctToken { location }),
        RawKind::Delim(c) => TokenTree::Operator(
            Operator { name: crate::text::char_to_string(*c), location },
        ),
        RawKind::IncludeMatch => operator_token("~=", location),
        RawKind::DashMatch => operator_token("|=", location),
        RawKind::PrefixMatch => operator_token("^=", location),
        RawKind::SuffixMatch => operator_token("$=", location),
        RawKind::SubstringMatch => operator_token("*=", location),
        RawKind::CDO => operator_token("<!--", location),
        RawKind::CDC => operator_token("-->", location),
        RawKind::Function(name) => {
            let at_end = Location { start: location.end, end: location.end };
            TokenTree::Function(
                Function {
                    name: name.clone(),
                    children: Vec::new(),
                    left: at_end,
                    right: at_end,
                    trailing: Vec::new(),
                },
            )
        },
        RawKind::ParenthesisBlock => TokenTree::Paren(empty_group(location)),
        RawKind::SquareBracketBlock => TokenTree::Bracket(empty_group(location)),
        RawKind::CurlyBracketBlock => TokenTree::Brace(empty_group(location)),
        RawKind::CloseParenthesis => bad_operator_token(")", location),
        RawKind::CloseSquareBracket => bad_operator_token("]", location),
        RawKind::CloseCurlyBracket => bad_operator_token("}", location),
        RawKind::WhiteSpace | RawKind::Comment(_) => TokenTree::Colon(PunctToken { location }),
    }
}

/// The token or the opening token of a block.
fn head_of<'b>(t: &'b RawTree) -> (r: &'b RawToken)
    ensures
        r.kind == t.kind(),
        r.location.start == t.start(),
        t is Token ==> r.location.end == t.end(),
{
    match t {
        RawTree::Token(x) => x,
        RawTree::Block(b) => &b.open,
    }
}

/// Which tokens end a run of tokens read by `skip_until_before_kind`.
#[derive(Clone, Copy)]
pub enum StopAt {
    Nothing,
    Semicolon,
    BraceOrSemicolon,
}

impl StopAt {
    pub open spec fn stops(self, k: RawKind) -> bool {
        match self {
            StopAt::Nothing => false,
            StopAt::Semicolon => k is Semicolon,
            StopAt::BraceOrSemicolon => k is Semicolon || k is CurlyBracketBlock,
        }
    }

    /// Whether the token, as produced from a token of kind `k`, ends the run.
    fn stops_token(&self, tt: &TokenTree) -> (r: bool)
        ensures
            forall|k: RawKind| corresponds(*tt, k) ==> r == self.stops(k),
    {
        match self {
            StopAt::Nothing => false,
            StopAt::Semicolon => match tt {
                TokenTree::Semicolon(_) => true,
                _ => false,
            },
            StopAt::BraceOrSemicolon => match tt {
                TokenTree::Semicolon(_) | TokenTree::Brace(_) => true,
                _ => false,
            },
        }
    }
}

impl<'a> ParseState<'a> {
    pub open spec fn wf(&self) -> bool {
        &&& self.pos <= self.items@.len()
        &&& raw_trees_wf(self.items@)
    }

    /// The state keeps the level it walks over.
    pub open spec fn same_level(&self, other: &ParseState<'a>) -> bool {
        &&& self.items@ == other.items@
        &&& self.level_start == other.level_start
    }

    /// Index of the next token the parser would read.
    pub open spec fn next_solid(&self) -> int {
        first_solid(self.items@, self.pos as int)
    }

    pub open spec fn at_end(&self) -> bool {
        self.next_solid() == self.items@.len()
    }

    /// The tree the parser would read next.
    pub open spec fn next_tree(&self) -> RawTree {
        self.items@[self.next_solid()]
    }

    pub open spec fn spec_position(&self) -> Position {
        if self.pos == 0 {
            self.level_start
        } else {
            self.items@[self.pos - 1].end()
        }
    }

    pub open spec fn size(&self) -> nat {
        trees_size(self.items@)
    }

    /// The remaining trees of the level, a measure that consuming a tree decreases.
    pub open spec fn remaining(&self) -> nat {
        (self.items@.len() - self.pos) as nat
    }

    pub fn new(items: &'a Vec<RawTree>, level_start: Position, out: ParseOutput) -> (r: ParseState<'a>)
        requires
            raw_trees_wf(items@),
        ensures
            r.wf(),
            r.items == items,
            r.pos == 0,
            r.level_start == level_start,
            r.out == out,
    {
        ParseState { items, pos: 0, level_start, out }
    }

    pub fn add_warning(&mut self, kind: ParseErrorKind, location: Location)
        ensures
            final(self).items == old(self).items,
            final(self).pos == old(self).pos,
            final(self).level_start == old(self).level_start,
            final(self).out.warnings@ == old(self).out.warnings@.push(ParseError { kind, location }),
            final(self).out.comments == old(self).out.comments,
            final(self).out.braces == old(self).out.braces,
    {
        self.out.warnings.push(ParseError { kind, location })
    }

    /// The current source position: the end of the last consumed tree, or the start of the
    /// level when nothing was consumed.
    pub fn position(&self) -> (r: Position)
        requires
            self.wf(),
        ensures
            r == self.spec_position(),
    {
        if self.pos == 0 {
            self.level_start
        } else {
            let t = &self.items[self.pos - 1];
            match t {
                RawTree::Token(x) => x.location.end,
                RawTree::Block(b) => b.close.end,
            }
        }
    }

    pub fn add_warning_at_current_position(&mut self, kind: ParseErrorKind)
        requires
            old(self).wf(),
        ensures
            final(self).items == old(self).items,
            final(self).pos == old(self).pos,
            final(self).level_start == old(self).level_start,
            final(self).out.warnings@ == old(self).out.warnings@.push(
                ParseError { kind, location: loc_at(old(self).spec_position()) },
            ),
            final(self).out.comments == old(self).out.comments,
            final(self).out.braces == old(self).out.braces,
    {
        let pos = self.position();
        self.add_warning(kind, Location { start: pos, end: pos });
    }

    /// Consumes whitespace and comments, recording the comments.
    pub fn skip_comments(&mut self)
        requires
            old(self).wf(),
        ensures
            final(self).wf(),
            final(self).same_level(old(self)),
            final(self).items == old(self).items,
            final(self).pos == old(self).next_solid(),
            final(self).out.comments@ == old(self).out.comments@ + comments_in(old(self).items@, old(self).pos as int, old(self).next_solid()),
            final(self).out.warnings == old(self).out.warnings,
            final(self).out.braces == old(self).out.braces,
    {
        proof {
            lemma_first_solid(self.items@, self.pos as int);
            assert(comments_in(self.items@, self.pos as int, self.pos as int) =~= Seq::<Comment>::empty());
            assert(self.out.comments@ + Seq::<Comment>::empty() =~= self.out.comments@);
        }
        let ghost start = self.pos as int;
        while self.pos < self.items.len()
            invariant
                self.wf(),
                self.items == old(self).items,
                self.level_start == old(self).level_start,
                0 <= start <= self.pos <= first_solid(self.items@, start) <= self.items@.len(),
                start == old(self).pos,
                first_solid(self.items@, start) == old(self).next_solid(),
                forall|j: int| start <= j < first_solid(self.items@, start) ==> #[trigger] self.items@[j].kind().is_trivia(),
                first_solid(self.items@, start) < self.items@.len() ==> !self.items@[first_solid(self.items@, start)].kind().is_trivia(),
                self.out.comments@ == old(self).out.comments@ + comments_in(self.items@, start, self.pos as int),
                self.out.warnings == old(self).out.warnings,
                self.out.braces == old(self).out.braces,
            ensures
                self.pos == first_solid(self.items@, start),
                self.wf(),
                self.items == old(self).items,
                self.level_start == old(self).level_start,
                self.out.comments@ == old(self).out.comments@ + comments_in(self.items@, start, self.pos as int),
                self.out.warnings == old(self).out.warnings,
                self.out.braces == old(self).out.braces,
            decreases self.items@.len() - self.pos,
        {
            let ghost before = self.out.comments@;
            let items = self.items;
            match &items[self.pos] {
                RawTree::Token(t) => match &t.kind {
                    RawKind::WhiteSpace => {},
                    RawKind::Comment(s) => {
                        self.out.comments.push(Comment { content: s.clone(), location: t.location });
                    },
                    _ => {
                        assert(!self.items@[self.pos as int].kind().is_trivia());
                        break ;
                    },
                },
                RawTree::Block(_) => {
                    proof { lemma_wf_elem(self.items@, self.pos as int); }
                    assert(!self.items@[self.pos as int].kind().is_trivia());
                    break ;
                },
            }
            proof {
                lemma_comments_in_step(self.items@, start, self.pos as int);
                let c = comments_in(self.items@, start, self.pos + 1);
                assert(self.out.comments@ =~= old(self).out.comments@ + c);
            }
            self.pos = self.pos + 1;
        }
    }

    fn warning_for_token(&mut self, tt: &TokenTree)
        ensures
            final(self).items == old(self).items,
            final(self).pos == old(self).pos,
            final(self).level_start == old(self).level_start,
            final(self).out.warnings@ == old(self).out.warnings@ + token_warnings(*tt),
            final(self).out.comments == old(self).out.comments,
            final(self).out.braces == old(self).out.braces,
    {
        match tt {
            TokenTree::BadString(x) => self.add_warning(ParseErrorKind::BadString, x.location),
            TokenTree::BadUrl(x) => self.add_warning(ParseErrorKind::BadUrl, x.location),
            TokenTree::BadOperator(x) => self.add_warning(ParseErrorKind::UnexpectedToken, x.location),
            _ => {},
        }
    }

    /// Reads the next token that is neither whitespace nor a comment, recording the comments
    /// before it. A block is read whole: its content becomes the children of the returned group.
    pub fn next(&mut self) -> (r: Option<TokenTree>)
        requires
            old(self).wf(),
        ensures
            final(self).wf(),
            final(self).same_level(old(self)),
            final(self).items == old(self).items,
            old(self).at_end() ==> r is None && final(self).pos == old(self).items@.len(),
            !old(self).at_end() ==> r is Some && final(self).pos == old(self).next_solid() + 1
                && corresponds(r->0, old(self).next_tree().kind()),
            !old(self).at_end() && old(self).next_tree() is Token ==> r->0.spec_location()
                == old(self).next_tree()->Token_0.location,
            old(self).at_end() ==> final(self).out.comments@ == old(self).out.comments@
                + comments_in(old(self).items@, old(self).pos as int, old(self).items@.len() as int)
                && final(self).out.warnings == old(self).out.warnings,
            !old(self).at_end() && old(self).next_tree() is Token ==> final(self).out.comments@
                == old(self).out.comments@ + comments_in(old(self).items@, old(self).pos as int, old(self).next_solid())
                && final(self).out.warnings@ == old(self).out.warnings@ + token_warnings(r->0)
                && token_warnings(r->0) == tree_warnings(old(self).next_tree()),
            extends(final(self).out.comments@, old(self).out.comments@
                + comments_in(old(self).items@, old(self).pos as int, old(self).next_solid())),
            out_grows(final(self).out, old(self).out),
            !old(self).at_end() && old(self).next_tree() is Block ==> read_as(children_of(r->0),
                solid_kinds(old(self).next_tree()->Block_0.children@, 0, old(self).next_tree()->Block_0.children@.len() as int)),
            !old(self).at_end() && old(self).next_tree() is Token ==> children_of(r->0).len() == 0,
        decreases old(self).size(), 0nat,
    {
        self.skip_comments();
        proof { lemma_first_solid(self.items@, old(self).pos as int); }
        if self.pos >= self.items.len() {
            return None;
        }
        let items: &'a Vec<RawTree> = self.items;
        let k = self.pos;
        proof {
            lemma_wf_elem(items@, k as int);
            lemma_trees_size_elem(items@, k as int);
        }
        match &items[k] {
            RawTree::Token(t) => {
                let tt = convert_css_token(&t.kind, t.location);
                self.pos = k + 1;
                self.warning_for_token(&tt);
                Some(tt)
            },
            RawTree::Block(b) => {
                self.pos = k + 1;
                let mut sub = ParseState {
                    items: &b.children,
                    pos: 0,
                    level_start: b.open.location.end,
                    out: ParseOutput::new(),
                };
                std::mem::swap(&mut self.out, &mut sub.out);
                let children = sub.skip_to_end();
                std::mem::swap(&mut self.out, &mut sub.out);
                let right = Location { start: b.close.end, end: b.open.location.end };
                let tt = match &b.open.kind {
                    RawKind::Function(name) => TokenTree::Function(
                        Function {
                            name: name.clone(),
                            children,
                            left: Location { start: b.open.location.end, end: b.open.location.end },
                            right,
                            trailing: Vec::new(),
                        },
                    ),
                    RawKind::ParenthesisBlock => TokenTree::Paren(
                        Group { children, left: b.open.location, right, trailing: Vec::new() },
                    ),
                    RawKind::SquareBracketBlock => TokenTree::Bracket(
                        Group { children, left: b.open.location, right, trailing: Vec::new() },
                    ),
                    _ => {
                        let left = b.open.location;
                        self.out.braces.push(Location { start: left.end, end: right.start });
                        TokenTree::Brace(Group { children, left, right, trailing: Vec::new() })
                    },
                };
                Some(tt)
            },
        }
    }

    /// Reads tokens while the next one is not a stopper (see `is_stopper`), or until the end of
    /// the level. Whitespace and comments after the last token read are left unread.
    fn skip_until_before_kind(&mut self, stop: StopAt) -> (r: Vec<TokenTree>)
        requires
            old(self).wf(),
        ensures
            final(self).wf(),
            final(self).same_level(old(self)),
            final(self).items == old(self).items,
            final(self).pos >= old(self).pos,
            final(self).at_end() || stop.stops(final(self).next_tree().kind()),
            r@.len() == 0 ==> final(self).pos == old(self).pos,
            out_grows(final(self).out, old(self).out),
            read_as(r@, solid_kinds(old(self).items@, old(self).pos as int, final(self).pos as int)),
            forall|j: int| old(self).pos <= j < final(self).pos ==> !stop.stops(#[trigger] final(self).items@[j].kind()),
        decreases old(self).size(), 1nat,
    {
        let mut ret: Vec<TokenTree> = Vec::new();
        loop
            invariant
                self.wf(),
                self.items == old(self).items,
                self.level_start == old(self).level_start,
                self.pos >= old(self).pos,
                self.size() == old(self).size(),
                ret@.len() == 0 ==> self.pos == old(self).pos,
                out_grows(self.out, old(self).out),
                read_as(ret@, solid_kinds(self.items@, old(self).pos as int, self.pos as int)),
                forall|j: int| old(self).pos <= j < self.pos ==> !stop.stops(#[trigger] self.items@[j].kind()),
            ensures
                self.wf(),
                self.items == old(self).items,
                self.level_start == old(self).level_start,
                self.pos >= old(self).pos,
                self.at_end() || stop.stops(self.next_tree().kind()),
                ret@.len() == 0 ==> self.pos == old(self).pos,
                out_grows(self.out, old(self).out),
                read_as(ret@, solid_kinds(self.items@, old(self).pos as int, self.pos as int)),
                forall|j: int| old(self).pos <= j < self.pos ==> !stop.stops(#[trigger] self.items@[j].kind()),
            decreases self.remaining(),
        {
            let more = match self.peek() {
                None => false,
                Some(tt) => !stop.stops_token(&tt),
            };
            proof { lemma_first_solid(self.items@, self.pos as int); }
            if !more {
                break ;
            }
            let ghost before = *self;
            match self.next() {
                Some(tt) => {
                    proof {
                        lemma_first_solid(before.items@, before.pos as int);
                        assert forall|j: int| old(self).pos <= j < self.pos implies !stop.stops(#[trigger] self.items@[j].kind()) by {
                            if j >= before.pos && j < before.next_solid() {
                                assert(self.items@[j].kind().is_trivia());
                            }
                        }
                        lemma_solid_kinds_skip(before.items@, old(self).pos as int, before.pos as int, before.next_solid());
                        lemma_solid_kinds_step(before.items@, old(self).pos as int, before.next_solid());
                    }
                    ret.push(tt);
                    proof {
                        assert(read_as(ret@, solid_kinds(self.items@, old(self).pos as int, self.pos as int))) by {
                            assert forall|n: int| 0 <= n < ret@.len() implies #[trigger] corresponds(ret@[n], solid_kinds(self.items@, old(self).pos as int, self.pos as int)[n]) by {
                                if n < ret@.len() - 1 {
                                    assert(ret@[n] == ret@.drop_last()[n]);
                                }
                            }
                        }
                    }
                },
                None => break ,
            }
        }
        ret
    }

    /// Reads every remaining token of the level.
    pub fn skip_to_end(&mut self) -> (r: Vec<TokenTree>)
        requires
            old(self).wf(),
        ensures
            final(self).wf(),
            final(self).same_level(old(self)),
            final(self).items == old(self).items,
            final(self).pos >= old(self).pos,
            final(self).at_end(),
            r@.len() == 0 ==> final(self).pos == old(self).pos,
            out_grows(final(self).out, old(self).out),
            read_as(r@, solid_kinds(old(self).items@, old(self).pos as int, old(self).items@.len() as int)),
        decreases old(self).size(), 2nat,
    {
        let r = self.skip_until_before_kind(StopAt::Nothing);
        proof {
            lemma_first_solid(self.items@, self.pos as int);
            lemma_solid_kinds_skip(self.items@, old(self).pos as int, self.pos as int, self.items@.len() as int);
        }
        r
    }

    /// Reads tokens until a semicolon or the end of the level.
    pub fn skip_until_before_semicolon(&mut self) -> (r: Vec<TokenTree>)
        requires
            old(self).wf(),
        ensures
            final(self).wf(),
            final(self).same_level(old(self)),
            final(self).items == old(self).items,
            final(self).pos >= old(self).pos,
            final(self).at_end() || final(self).next_tree().kind() is Semicolon,
            r@.len() == 0 ==> final(self).pos == old(self).pos,
            out_grows(final(self).out, old(self).out),
            forall|j: int| old(self).pos <= j < final(self).pos ==> !(#[trigger] final(self).items@[j].kind() is Semicolon),
            read_as(r@, solid_kinds(old(self).items@, old(self).pos as int, final(self).pos as int)),
    {
        self.skip_until_before_kind(StopAt::Semicolon)
    }

    /// Reads tokens until a semicolon, a `{` block or the end of the level.
    pub fn skip_until_before_brace_or_semicolon(&mut self) -> (r: Vec<TokenTree>)
        requires
            old(self).wf(),
        ensures
            final(self).wf(),
            final(self).same_level(old(self)),
            final(self).items == old(self).items,
            final(self).pos >= old(self).pos,
            final(self).at_end() || final(self).next_tree().kind() is Semicolon
                || final(self).next_tree().kind() is CurlyBracketBlock,
            r@.len() == 0 ==> final(self).pos == old(self).pos,
            out_grows(final(self).out, old(self).out),
            final(self).no_stop_since(old(self)),
    {
        self.skip_until_before_kind(StopAt::BraceOrSemicolon)
    }

    /// The next token that is neither whitespace nor a comment, without reading it. Its range
    /// is empty at the current position; a block comes without content.
    pub fn peek(&self) -> (r: Option<TokenTree>)
        requires
            self.wf(),
        ensures
            r is None <==> self.at_end(),
            r is Some ==> corresponds(r->0, self.next_tree().kind()),
            r is Some ==> (r->0.is_group() <==> self.next_tree() is Block),
            r is Some ==> r->0.spec_location() == loc_at(self.spec_position()) && r->0.childless(),
    {
        proof { lemma_first_solid(self.items@, self.pos as int); }
        let mut i = self.pos;
        while i < self.items.len()
            invariant
                self.wf(),
                self.pos <= i <= self.next_solid() <= self.items@.len(),
                forall|j: int| self.pos <= j < self.next_solid() ==> #[trigger] self.items@[j].kind().is_trivia(),
                self.next_solid() < self.items@.len() ==> !self.items@[self.next_solid()].kind().is_trivia(),
            ensures
                i == self.next_solid(),
            decreases self.items@.len() - i,
        {
            let t = head_of(&self.items[i]);
            if !t.kind.is_trivia_kind() {
                break ;
            }
            i = i + 1;
        }
        if i >= self.items.len() {
            return None;
        }
        let p = self.position();
        let t = head_of(&self.items[i]);
        proof { lemma_wf_elem(self.items@, i as int); }
        Some(convert_css_token(&t.kind, Location { start: p, end: p }))
    }

    /// The index of the first tree at or after `from` that is neither whitespace nor a comment.
    fn find_solid(&self, from: usize) -> (r: usize)
        requires
            self.wf(),
            from <= self.items@.len(),
        ensures
            r == first_solid(self.items@, from as int),
    {
        proof { lemma_first_solid(self.items@, from as int); }
        let mut i = from;
        while i < self.items.len()
            invariant
                self.wf(),
                from <= i <= first_solid(self.items@, from as int) <= self.items@.len(),
                forall|j: int| from <= j < first_solid(self.items@, from as int) ==> #[trigger] self.items@[j].kind().is_trivia(),
                first_solid(self.items@, from as int) < self.items@.len() ==> !self.items@[first_solid(self.items@, from as int)].kind().is_trivia(),
            ensures
                i == first_solid(self.items@, from as int),
            decreases self.items@.len() - i,
        {
            let t = head_of(&self.items[i]);
            if !t.kind.is_trivia_kind() {
                break ;
            }
            i = i + 1;
        }
        i
    }

    /// The next two tokens, without reading them. When the first one is a block, the second
    /// is not looked at and is `None`. Both come with an empty range at the current position.
    pub fn peek2(&self) -> (r: (Option<TokenTree>, Option<TokenTree>))
        requires
            self.wf(),
        ensures
            r.0 is None <==> self.at_end(),
            r.0 is None ==> r.1 is None,
            r.0 is Some ==> corresponds(r.0->0, self.next_tree().kind()),
            r.0 is Some && self.next_tree() is Block ==> r.1 is None,
            r.0 is Some && self.next_tree() is Token ==> ({
                let k2 = first_solid(self.items@, self.next_solid() + 1);
                &&& (r.1 is None <==> k2 == self.items@.len())
                &&& r.1 is Some ==> corresponds(r.1->0, self.items@[k2].kind())
            }),
            r.0 is Some ==> r.0->0.spec_location() == loc_at(self.spec_position()) && r.0->0.childless(),
            r.1 is Some ==> r.1->0.spec_location() == loc_at(self.spec_position()) && r.1->0.childless(),
    {
        let k1 = self.find_solid(self.pos);
        proof { lemma_first_solid(self.items@, self.pos as int); }
        if k1 >= self.items.len() {
            return (None, None);
        }
        let p = self.position();
        let at = Location { start: p, end: p };
        proof {
            lemma_wf_elem(self.items@, k1 as int);
            lemma_first_solid(self.items@, self.pos as int);
        }
        let first = convert_css_token(&head_of(&self.items[k1]).kind, at);
        match &self.items[k1] {
            RawTree::Block(_) => (Some(first), None),
            RawTree::Token(_) => {
                let k2 = self.find_solid(k1 + 1);
                proof { lemma_first_solid(self.items@, k1 + 1); }
                if k2 >= self.items.len() {
                    (Some(first), None)
                } else {
                    proof {
                        lemma_wf_elem(self.items@, k2 as int);
                        lemma_first_solid(self.items@, k1 + 1);
                    }
                    let second = convert_css_token(&head_of(&self.items[k2]).kind, at);
                    (Some(first), Some(second))
                }
            },
        }
    }

    /// The next token when it directly follows the current position; `None` when whitespace
    /// or a comment comes first, or at the end of the level.
    pub fn peek_with_whitespace(&self) -> (r: Option<TokenTree>)
        requires
            self.wf(),
        ensures
            r is None <==> (self.pos == self.items@.len() || self.items@[self.pos as int].kind().is_trivia()),
            r is Some ==> self.next_solid() == self.pos && corresponds(r->0, self.next_tree().kind()),
            r is Some ==> r->0.spec_location() == loc_at(self.spec_position()) && r->0.childless(),
    {
        if self.pos >= self.items.len() {
            return None;
        }
        let t = head_of(&self.items[self.pos]);
        if t.kind.is_trivia_kind() {
            return None;
        }
        proof {
            lemma_wf_elem(self.items@, self.pos as int);
        }
        let p = self.position();
        Some(convert_css_token(&t.kind, Location { start: p, end: p }))
    }

    /// Enters the block that the parser would read next. The returned state walks over its
    /// content and holds the collected output; this state is left after the block with empty
    /// output until `leave_block` or `abandon_block` hands the output back.
    pub fn enter_block(&mut self) -> (r: (ParseState<'a>, usize, Location))
        requires
            old(self).wf(),
            !old(self).at_end(),
            old(self).next_tree() is Block,
        ensures
            final(self).wf(),
            final(self).same_level(old(self)),
            final(self).items == old(self).items,
            final(self).pos == old(self).next_solid() + 1,
            r.0.wf(),
            r.0.pos == 0,
            r.0.items@ == old(self).next_tree()->Block_0.children@,
            r.0.level_start == old(self).next_tree()->Block_0.open.location.end,
            r.0.size() < old(self).size(),
            r.0.out == old(self).out,
            r.1 == old(self).pos,
            r.2 == (Location { start: old(self).spec_position(), end: old(self).next_tree()->Block_0.open.location.end }),
    {
        let saved = self.pos;
        let start = self.position();
        let k = self.find_solid(self.pos);
        proof {
            lemma_first_solid(self.items@, self.pos as int);
            lemma_wf_elem(self.items@, k as int);
            lemma_trees_size_elem(self.items@, k as int);
        }
        let items: &'a Vec<RawTree> = self.items;
        if k >= items.len() {
            // not reached: a tree follows
            let sub = ParseState { items: self.items, pos: 0, level_start: start, out: ParseOutput::new() };
            return (sub, saved, Location { start, end: start });
        }
        match &items[k] {
            RawTree::Block(b) => {
                self.pos = k + 1;
                let mut sub = ParseState {
                    items: &b.children,
                    pos: 0,
                    level_start: b.open.location.end,
                    out: ParseOutput::new(),
                };
                std::mem::swap(&mut self.out, &mut sub.out);
                (sub, saved, Location { start, end: b.open.location.end })
            },
            RawTree::Token(_) => {
                // not reached: the next tree is a block
                let sub = ParseState { items: self.items, pos: 0, level_start: start, out: ParseOutput::new() };
                (sub, saved, Location { start, end: start })
            },
        }
    }

    /// Leaves a block after its content was parsed: reads the rest of the content as trailing
    /// tokens, takes the output back, and returns the trailing tokens and the range of the
    /// closing token (empty when the block was not closed).
    pub fn leave_block(&mut self, sub: ParseState<'a>) -> (r: (Vec<TokenTree>, Location))
        requires
            old(self).wf(),
            old(self).pos > 0,
            sub.wf(),
        ensures
            final(self).wf(),
            final(self).same_level(old(self)),
            final(self).items == old(self).items,
            final(self).pos == old(self).pos,
            r.1.end == old(self).spec_position(),
            out_grows(final(self).out, sub.out),
    {
        let mut sub = sub;
        let mut trailing: Vec<TokenTree> = Vec::new();
        let ghost sub0 = sub;
        loop
            invariant
                sub.wf(),
                out_grows(sub.out, sub0.out),
            decreases sub.remaining(),
        {
            proof { lemma_first_solid(sub.items@, sub.pos as int); }
            match sub.next() {
                Some(tt) => trailing.push(tt),
                None => break ,
            }
        }
        let inner_end = sub.position();
        std::mem::swap(&mut self.out, &mut sub.out);
        (trailing, Location { start: inner_end, end: self.position() })
    }

    /// Leaves a block whose content could not be parsed: takes the output back and returns to
    /// `saved`, the position before the block.
    pub fn abandon_block(&mut self, sub: ParseState<'a>, saved: usize)
        requires
            old(self).wf(),
            saved <= old(self).items@.len(),
        ensures
            final(self).wf(),
            final(self).same_level(old(self)),
            final(self).items == old(self).items,
            final(self).pos == saved,
            final(self).out == sub.out,
    {
        let mut sub = sub;
        std::mem::swap(&mut self.out, &mut sub.out);
        self.pos = saved;
    }
}

} // verus!
