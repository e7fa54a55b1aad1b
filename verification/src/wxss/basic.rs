//! Parsers for single tokens: each reads the next token when it has the expected kind.

use vstd::prelude::*;
use super::lexer::RawKind;
use super::state::{ParseState, comments_in, corresponds, extends, first_solid, is_stop, lemma_first_solid, out_grows, tree_warnings};
use super::token::{AtKeyword, Colon, Comma, Ident, IDHash, Operator, Percentage, QuotedString, Semicolon, TokenTree};

verus! {

/// A state that recorded the leading comments of `a`, then only moved on, still has them.
pub proof fn lemma_leading_comments_kept<'a>(a: ParseState<'a>, b: ParseState<'a>, c: ParseState<'a>)
    requires
        b.kept_leading_comments(&a),
        c.follows(&b),
    ensures
        c.kept_leading_comments(&a),
{
    let x = a.out.comments@ + comments_in(a.items@, a.pos as int, a.next_solid());
    assert forall|i: int| 0 <= i < x.len() implies #[trigger] c.out.comments@[i] == x[i] by {
        assert(b.out.comments@[i] == x[i]);
        assert(c.out.comments@[i] == b.out.comments@[i]);
    }
}

/// A state that recorded the warning of the next token of `a`, then only moved on, still has it.
pub proof fn lemma_first_warnings_kept<'a>(a: ParseState<'a>, b: ParseState<'a>, c: ParseState<'a>)
    requires
        b.kept_first_warnings(&a),
        c.follows(&b),
    ensures
        c.kept_first_warnings(&a),
{
    let x = a.out.warnings@ + tree_warnings(a.next_tree());
    assert forall|i: int| 0 <= i < x.len() implies #[trigger] c.out.warnings@[i] == x[i] by {
        assert(b.out.warnings@[i] == x[i]);
        assert(c.out.warnings@[i] == b.out.warnings@[i]);
    }
}

/// Readings that each pass no semicolon and no `{...}` block pass none together.
pub proof fn lemma_no_stop_trans<'a>(a: ParseState<'a>, b: ParseState<'a>, c: ParseState<'a>)
    requires
        b.no_stop_since(&a),
        c.no_stop_since(&b),
        a.pos <= b.pos <= c.pos,
        b.items == a.items,
        c.items == b.items,
    ensures
        c.no_stop_since(&a),
{
    assert forall|j: int| a.pos <= j < c.pos implies !is_stop(#[trigger] c.items@[j].kind()) by {
        if j < b.pos {
            assert(!is_stop(b.items@[j].kind()));
        }
    }
}

/// Reading only whitespace and comments, or those and the next token when it is no semicolon
/// and no `{...}` block, passes no such token.
pub proof fn lemma_no_stop_step<'a>(old: ParseState<'a>, new: ParseState<'a>)
    requires
        old.wf(),
        new.items == old.items,
        (old.pos <= new.pos <= old.next_solid()) || (!old.at_end() && new.pos == old.next_solid() + 1
            && !is_stop(old.next_tree().kind())),
    ensures
        new.no_stop_since(&old),
{
    lemma_first_solid(old.items@, old.pos as int);
    assert forall|j: int| old.pos <= j < new.pos implies !is_stop(#[trigger] new.items@[j].kind()) by {
        if j < old.next_solid() {
            assert(old.items@[j].kind().is_trivia());
        }
    }
}

impl<'a> ParseState<'a> {
    /// The state moved forward over the same level, and its output only grew.
    pub open spec fn follows(&self, old: &ParseState<'a>) -> bool {
        &&& self.wf()
        &&& self.same_level(old)
        &&& self.items == old.items
        &&& self.pos >= old.pos
        &&& out_grows(self.out, old.out)
    }

    /// The comments between the old position and the old next token were recorded, right
    /// after those already collected.
    pub open spec fn kept_leading_comments(&self, old: &ParseState<'a>) -> bool {
        extends(self.out.comments@, old.out.comments@ + comments_in(old.items@, old.pos as int, old.next_solid()))
    }

    /// The warning that reading the old next token records was recorded, right after those
    /// already collected.
    pub open spec fn kept_first_warnings(&self, old: &ParseState<'a>) -> bool {
        extends(self.out.warnings@, old.out.warnings@ + tree_warnings(old.next_tree()))
    }

    /// No semicolon and no `{...}` block lies between the old position and this one.
    pub open spec fn no_stop_since(&self, old: &ParseState<'a>) -> bool {
        forall|j: int| old.pos <= j < self.pos ==> !is_stop(#[trigger] self.items@[j].kind())
    }

    /// The next token exists and is of a kind accepted by `f`.
    pub open spec fn next_is(&self, f: spec_fn(RawKind) -> bool) -> bool {
        !self.at_end() && f(self.next_tree().kind())
    }

    /// The state read exactly the next token of `old`.
    pub open spec fn read_one(&self, old: &ParseState<'a>) -> bool {
        self.pos == old.next_solid() + 1
    }

    /// The next tree is a block whose content holds a token other than whitespace and
    /// comments.
    pub open spec fn next_block_filled(&self) -> bool {
        &&& !self.at_end()
        &&& self.next_tree() is Block
        &&& first_solid(self.next_tree()->Block_0.children@, 0) < self.next_tree()->Block_0.children@.len()
    }

    /// The next token exists and is of kind `k`'s variant (a `{` block, a semicolon, ...).
    pub open spec fn next_kind_is_curly(&self) -> bool {
        !self.at_end() && self.next_tree().kind() is CurlyBracketBlock
    }

    pub open spec fn next_kind_is_semicolon(&self) -> bool {
        !self.at_end() && self.next_tree().kind() is Semicolon
    }

    /// The kind of the tree `d` places after the next token (`d == 0`: the next token itself),
    /// when there is one.
    pub open spec fn kind_after(&self, d: int) -> Option<RawKind> {
        let i = self.next_solid() + d;
        if 0 <= i < self.items@.len() {
            Some(self.items@[i].kind())
        } else {
            None
        }
    }

    /// The tree `d` places after the next token is the delimiter `c`.
    pub open spec fn delim_after(&self, d: int, c: char) -> bool {
        self.kind_after(d) matches Some(k) && k is Delim && k->Delim_0 == c
    }
}

pub fn parse_ident(ps: &mut ParseState) -> (r: Option<Ident>)
    requires
        old(ps).wf(),
    ensures
        final(ps).follows(old(ps)),
        r is Some <==> (!old(ps).at_end() && ({ let k = old(ps).next_tree().kind(); k is Ident })),
        r is Some ==> final(ps).read_one(old(ps))
            && corresponds(TokenTree::Ident(r->0), old(ps).next_tree().kind())
            && r->0.location == old(ps).next_tree()->Token_0.location,
        r is None ==> final(ps).pos == old(ps).pos,
        final(ps).no_stop_since(old(ps)),
{
    proof { lemma_first_solid(ps.items@, ps.pos as int); }
    let r = match ps.peek() {
        Some(TokenTree::Ident(_)) => match ps.next() {
            Some(TokenTree::Ident(x)) => Some(x),
            _ => None,
        },
        _ => None,
    };
    proof { lemma_no_stop_step(*old(ps), *ps); }
    r
}

pub fn parse_at_keyword(ps: &mut ParseState) -> (r: Option<AtKeyword>)
    requires
        old(ps).wf(),
    ensures
        final(ps).follows(old(ps)),
        r is Some <==> (!old(ps).at_end() && ({ let k = old(ps).next_tree().kind(); k is AtKeyword })),
        r is Some ==> final(ps).read_one(old(ps))
            && corresponds(TokenTree::AtKeyword(r->0), old(ps).next_tree().kind())
            && r->0.location == old(ps).next_tree()->Token_0.location,
        r is Some ==> final(ps).kept_leading_comments(old(ps)),
        r is None ==> final(ps).pos == old(ps).pos,
        final(ps).no_stop_since(old(ps)),
{
    proof { lemma_first_solid(ps.items@, ps.pos as int); }
    let r = match ps.peek() {
        Some(TokenTree::AtKeyword(_)) => match ps.next() {
            Some(TokenTree::AtKeyword(x)) => Some(x),
            _ => None,
        },
        _ => None,
    };
    proof { lemma_no_stop_step(*old(ps), *ps); }
    r
}

pub fn parse_id_hash(ps: &mut ParseState) -> (r: Option<IDHash>)
    requires
        old(ps).wf(),
    ensures
        final(ps).follows(old(ps)),
        r is Some <==> (!old(ps).at_end() && ({ let k = old(ps).next_tree().kind(); k is IDHash })),
        r is Some ==> final(ps).read_one(old(ps))
            && corresponds(TokenTree::IDHash(r->0), old(ps).next_tree().kind())
            && r->0.location == old(ps).next_tree()->Token_0.location,
        r is None ==> final(ps).pos == old(ps).pos,
        final(ps).no_stop_since(old(ps)),
{
    proof { lemma_first_solid(ps.items@, ps.pos as int); }
    let r = match ps.peek() {
        Some(TokenTree::IDHash(_)) => match ps.next() {
            Some(TokenTree::IDHash(x)) => Some(x),
            _ => None,
        },
        _ => None,
    };
    proof { lemma_no_stop_step(*old(ps), *ps); }
    r
}

pub fn parse_quoted_string(ps: &mut ParseState) -> (r: Option<QuotedString>)
    requires
        old(ps).wf(),
    ensures
        final(ps).follows(old(ps)),
        r is Some <==> (!old(ps).at_end() && ({ let k = old(ps).next_tree().kind(); k is QuotedString })),
        r is Some ==> final(ps).read_one(old(ps))
            && corresponds(TokenTree::QuotedString(r->0), old(ps).next_tree().kind())
            && r->0.location == old(ps).next_tree()->Token_0.location,
        r is None ==> final(ps).pos == old(ps).pos,
        final(ps).no_stop_since(old(ps)),
{
    proof { lemma_first_solid(ps.items@, ps.pos as int); }
    let r = match ps.peek() {
        Some(TokenTree::QuotedString(_)) => match ps.next() {
            Some(TokenTree::QuotedString(x)) => Some(x),
            _ => None,
        },
        _ => None,
    };
    proof { lemma_no_stop_step(*old(ps), *ps); }
    r
}

pub fn parse_colon(ps: &mut ParseState) -> (r: Option<Colon>)
    requires
        old(ps).wf(),
    ensures
        final(ps).follows(old(ps)),
        r is Some <==> (!old(ps).at_end() && ({ let k = old(ps).next_tree().kind(); k is Colon })),
        r is Some ==> final(ps).read_one(old(ps))
            && r->0.location == old(ps).next_tree()->Token_0.location,
        r is None ==> final(ps).pos == old(ps).pos,
        final(ps).no_stop_since(old(ps)),
{
    proof { lemma_first_solid(ps.items@, ps.pos as int); }
    let r = match ps.peek() {
        Some(TokenTree::Colon(_)) => match ps.next() {
            Some(TokenTree::Colon(x)) => Some(x),
            _ => None,
        },
        _ => None,
    };
    proof { lemma_no_stop_step(*old(ps), *ps); }
    r
}

pub fn parse_semicolon(ps: &mut ParseState) -> (r: Option<Semicolon>)
    requires
        old(ps).wf(),
    ensures
        final(ps).follows(old(ps)),
        r is Some <==> (!old(ps).at_end() && ({ let k = old(ps).next_tree().kind(); k is Semicolon })),
        r is Some ==> final(ps).read_one(old(ps))
            && r->0.location == old(ps).next_tree()->Token_0.location,
        r is None ==> final(ps).pos == old(ps).pos,
{
    proof { lemma_first_solid(ps.items@, ps.pos as int); }
    match ps.peek() {
        Some(TokenTree::Semicolon(_)) => match ps.next() {
            Some(TokenTree::Semicolon(x)) => Some(x),
            _ => None,
        },
        _ => None,
    }
}

pub fn parse_comma(ps: &mut ParseState) -> (r: Option<Comma>)
    requires
        old(ps).wf(),
    ensures
        final(ps).follows(old(ps)),
        r is Some <==> (!old(ps).at_end() && ({ let k = old(ps).next_tree().kind(); k is Comma })),
        r is Some ==> final(ps).read_one(old(ps))
            && r->0.location == old(ps).next_tree()->Token_0.location,
        r is None ==> final(ps).pos == old(ps).pos,
        final(ps).no_stop_since(old(ps)),
{
    proof { lemma_first_solid(ps.items@, ps.pos as int); }
    let r = match ps.peek() {
        Some(TokenTree::Comma(_)) => match ps.next() {
            Some(TokenTree::Comma(x)) => Some(x),
            _ => None,
        },
        _ => None,
    };
    proof { lemma_no_stop_step(*old(ps), *ps); }
    r
}

/// Operators come from delimiters and from the two- to four-character match and comment tokens.
pub open spec fn is_operator_kind(k: RawKind) -> bool {
    k is Delim || k is IncludeMatch || k is DashMatch || k is PrefixMatch || k is SuffixMatch
        || k is SubstringMatch || k is CDO || k is CDC
}

pub fn parse_operator(ps: &mut ParseState) -> (r: Option<Operator>)
    requires
        old(ps).wf(),
    ensures
        final(ps).follows(old(ps)),
        r is Some <==> (!old(ps).at_end() && ({ let k = old(ps).next_tree().kind(); is_operator_kind(k) })),
        r is Some ==> final(ps).read_one(old(ps))
            && corresponds(TokenTree::Operator(r->0), old(ps).next_tree().kind())
            && r->0.location == old(ps).next_tree()->Token_0.location,
        r is None ==> final(ps).pos == old(ps).pos,
        final(ps).no_stop_since(old(ps)),
{
    proof { lemma_first_solid(ps.items@, ps.pos as int); }
    let r = match ps.peek() {
        Some(TokenTree::Operator(_)) => match ps.next() {
            Some(TokenTree::Operator(x)) => Some(x),
            _ => None,
        },
        _ => None,
    };
    proof { lemma_no_stop_step(*old(ps), *ps); }
    r
}

pub fn parse_percentage(ps: &mut ParseState) -> (r: Option<Percentage>)
    requires
        old(ps).wf(),
    ensures
        final(ps).follows(old(ps)),
        r is Some <==> (!old(ps).at_end() && ({ let k = old(ps).next_tree().kind(); k is Percentage })),
        r is Some ==> final(ps).read_one(old(ps))
            && corresponds(TokenTree::Percentage(r->0), old(ps).next_tree().kind())
            && r->0.location == old(ps).next_tree()->Token_0.location,
        r is None ==> final(ps).pos == old(ps).pos,
        final(ps).no_stop_since(old(ps)),
{
    proof { lemma_first_solid(ps.items@, ps.pos as int); }
    let r = match ps.peek() {
        Some(TokenTree::Percentage(_)) => match ps.next() {
            Some(TokenTree::Percentage(x)) => Some(x),
            _ => None,
        },
        _ => None,
    };
    proof { lemma_no_stop_step(*old(ps), *ps); }
    r
}

} // verus!
