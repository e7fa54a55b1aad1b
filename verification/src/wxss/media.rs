//! Media query lists of `@media` rules.

use vstd::prelude::*;
use crate::position::Location;
use super::lexer::{RawKind, RawTree, lemma_wf_elem};
use super::state::{corresponds, read_as, solid_kinds};
use super::state::{ParseState, first_solid, lemma_first_solid};
use super::token::{Colon, Comma, Group, Ident, Paren, TokenTree};
use super::list::List;
use super::basic::{lemma_no_stop_step, lemma_no_stop_trans, parse_colon, parse_comma, parse_ident};
use super::group::parse_token_list;
use super::error::ParseErrorKind;

verus! {

#[derive(Debug)]
pub enum MediaQueryList {
    Unknown(Vec<TokenTree>),
    Sub(Paren<Box<MediaQueryList>>),
    And(Vec<(MediaQueryList, MediaAndKeyword)>),
    Or(Vec<(MediaQueryList, MediaOrKeyword)>),
    Not(Ident, Box<MediaQueryList>),
    Only(Ident, Box<MediaQueryList>),
    MediaType(MediaType),
    MediaFeature(Paren<MediaFeature>),
}

#[derive(Debug)]
pub enum MediaAndKeyword {
    Absent,
    And(Ident),
}

#[derive(Debug)]
pub enum MediaOrKeyword {
    Absent,
    Or(Ident),
    Comma(Comma),
}

#[derive(Debug)]
pub enum MediaType {
    Unknown(Ident),
    All(Ident),
    Screen(Ident),
    Print(Ident),
}

#[derive(Debug)]
pub enum MediaFeature {
    Unknown(List<TokenTree>),
    Condition(Ident, Colon, Vec<TokenTree>),
}

/// A media type comes next: an identifier other than `not` and `only`.
pub open spec fn next_is_media_type(ps: &ParseState) -> bool {
    &&& !ps.at_end()
    &&& ps.next_tree().kind() is Ident
    &&& ps.next_tree().kind()->Ident_0@ != "not"@
    &&& ps.next_tree().kind()->Ident_0@ != "only"@
}

/// A `{` block is the token after the next one.
pub open spec fn brace_after_next(ps: &ParseState) -> bool {
    let k = first_solid(ps.items@, ps.next_solid() + 1);
    &&& k < ps.items@.len()
    &&& ps.items@[k].kind() is CurlyBracketBlock
}

/// The tree at `k` is a query of one token: a media type (an identifier other than `not` and
/// `only`) or a `(...)` group.
pub open spec fn one_token_query_at(items: Seq<RawTree>, k: int) -> bool {
    &&& 0 <= k < items.len()
    &&& items[k].kind() is ParenthesisBlock || (items[k].kind() is Ident
        && items[k].kind()->Ident_0@ != "not"@ && items[k].kind()->Ident_0@ != "only"@)
}

/// Where the query that comes next ends when it is a query of one token, or `not` or `only`
/// followed by one: the index right after its last token.
pub open spec fn query_end(ps: &ParseState) -> Option<int> {
    let k = ps.next_solid();
    let k2 = first_solid(ps.items@, k + 1);
    if one_token_query_at(ps.items@, k) {
        Some(k + 1)
    } else if k < ps.items@.len() && ps.items@[k].kind() is Ident
        && (ps.items@[k].kind()->Ident_0@ == "not"@ || ps.items@[k].kind()->Ident_0@ == "only"@)
        && one_token_query_at(ps.items@, k2) {
        Some(k2 + 1)
    } else {
        None
    }
}

/// A token comes at or after `e`, and it does not join queries: it is neither the `and` or
/// `or` keyword nor a comma.
pub open spec fn plain_at(items: Seq<RawTree>, e: int) -> bool {
    let k = first_solid(items, e);
    &&& k < items.len()
    &&& !(items[k].kind() is Comma)
    &&& !(items[k].kind() is Ident && (items[k].kind()->Ident_0@ == "and"@
        || items[k].kind()->Ident_0@ == "or"@))
}

/// A token comes after the next one, and it does not join queries.
pub open spec fn plain_after_next(ps: &ParseState) -> bool {
    plain_at(ps.items@, ps.next_solid() + 1)
}

/// Reads a media type: an identifier, recognized when it is `all`, `screen` or `print`.
pub fn parse_media_type(ps: &mut ParseState) -> (r: Option<MediaType>)
    requires
        old(ps).wf(),
    ensures
        final(ps).no_stop_since(old(ps)),
        final(ps).follows(old(ps)),
        r is Some <==> (!old(ps).at_end() && old(ps).next_tree().kind() is Ident),
        r is Some ==> final(ps).pos > old(ps).pos,
        r is None ==> final(ps).pos == old(ps).pos,
        r is Some ==> final(ps).read_one(old(ps)),
        r matches Some(MediaType::All(x)) ==> x.content@ == "all"@,
        r matches Some(MediaType::Screen(x)) ==> x.content@ == "screen"@,
        r matches Some(MediaType::Print(x)) ==> x.content@ == "print"@,
        r matches Some(MediaType::Unknown(x)) ==> x.content@ != "all"@ && x.content@ != "screen"@
            && x.content@ != "print"@,
{
    proof { lemma_first_solid(ps.items@, ps.pos as int); }
    let ident = match parse_ident(ps) {
        Some(x) => x,
        None => return None,
    };
    if crate::text::str_eq(ident.content.as_str(), "all") {
        Some(MediaType::All(ident))
    } else if crate::text::str_eq(ident.content.as_str(), "screen") {
        Some(MediaType::Screen(ident))
    } else if crate::text::str_eq(ident.content.as_str(), "print") {
        Some(MediaType::Print(ident))
    } else {
        Some(MediaType::Unknown(ident))
    }
}

/// Reads the content of a media feature group: `name: value`, or any tokens.
pub fn parse_media_feature(ps: &mut ParseState) -> (r: Option<MediaFeature>)
    requires
        old(ps).wf(),
    ensures
        final(ps).follows(old(ps)),
        r is Some ==> final(ps).pos > old(ps).pos,
        r is Some <==> !old(ps).at_end(),
        old(ps).next_is_property_start() ==> (r matches Some(MediaFeature::Condition(n, _, v))
            && corresponds(TokenTree::Ident(n), old(ps).next_tree().kind())
            && read_as(v@, solid_kinds(old(ps).items@, first_solid(old(ps).items@, old(ps).next_solid() + 1) + 1,
                old(ps).items@.len() as int))),
        !old(ps).next_is_property_start() && r is Some ==> (r matches Some(MediaFeature::Unknown(l))
            && read_as(l@, solid_kinds(old(ps).items@, old(ps).pos as int, old(ps).items@.len() as int))),
{
    proof { lemma_first_solid(ps.items@, ps.pos as int); }
    let (p1, p2) = ps.peek2();
    let is_condition = match (p1, p2) {
        (Some(a), Some(b)) => a.is_ident() && b.is_colon(),
        _ => false,
    };
    proof {
        if !ps.at_end() {
            lemma_wf_elem(ps.items@, ps.next_solid());
            lemma_first_solid(ps.items@, ps.next_solid() + 1);
        }
        if ps.next_is_property_start() {
            assert(ps.next_tree() is Token);
        }
    }
    if is_condition {
        let name = match parse_ident(ps) {
            Some(x) => x,
            None => return None,
        };
        proof { lemma_first_solid(ps.items@, ps.pos as int); }
        let colon = match parse_colon(ps) {
            Some(x) => x,
            None => return None,
        };
        let value = ps.skip_to_end();
        Some(MediaFeature::Condition(name, colon, value))
    } else {
        match parse_token_list(ps) {
            Some(x) => Some(MediaFeature::Unknown(x)),
            None => None,
        }
    }
}

/// Reads a `(...)` group holding a media feature. Warns when the group is not closed.
pub fn parse_paren_media_feature(ps: &mut ParseState) -> (r: Option<Paren<MediaFeature>>)
    requires
        old(ps).wf(),
    ensures
        final(ps).no_stop_since(old(ps)),
        final(ps).follows(old(ps)),
        r is Some ==> final(ps).pos > old(ps).pos,
        r is None ==> final(ps).pos == old(ps).pos,
        r is Some <==> !old(ps).at_end() && old(ps).next_tree().kind() is ParenthesisBlock
            && old(ps).next_block_filled(),
        r is Some ==> final(ps).read_one(old(ps)),
{
    proof { lemma_first_solid(ps.items@, ps.pos as int); }
    match ps.peek() {
        Some(TokenTree::Paren(_)) => {},
        _ => return None,
    }
    proof { lemma_wf_elem(ps.items@, ps.next_solid()); }
    let (mut sub, saved, left) = ps.enter_block();
    proof { lemma_first_solid(sub.items@, 0); }
    match parse_media_feature(&mut sub) {
        None => {
            ps.abandon_block(sub, saved);
            None
        },
        Some(children) => {
            let (trailing, right) = ps.leave_block(sub);
            if right.is_empty() {
                ps.add_warning(ParseErrorKind::UnmatchedParenthesis, left);
            }
            proof { lemma_no_stop_step(*old(ps), *ps); }
            Some(Group { children, left, right, trailing })
        },
    }
}

/// The content of a parenthesized media query: empty, a query starting with `not` or `only`,
/// or a parenthesized query. `None` otherwise.
fn parse_paren_content(ps: &mut ParseState) -> (r: Option<Box<MediaQueryList>>)
    requires
        old(ps).wf(),
    ensures
        final(ps).follows(old(ps)),
        old(ps).at_end() ==> r is Some,
    decreases old(ps).size(), old(ps).remaining(), 6nat,
{
    proof { lemma_first_solid(ps.items@, ps.pos as int); }
    let peek = match ps.peek() {
        None => return Some(Box::new(MediaQueryList::Unknown(Vec::new()))),
        Some(p) => p,
    };
    let go = if peek.is_keyword("not") || peek.is_keyword("only") {
        true
    } else {
        match peek {
            TokenTree::Paren(_) => true,
            _ => false,
        }
    };
    if !go {
        return None;
    }
    match parse_media_query_list(ps) {
        Some(x) => Some(Box::new(x)),
        None => None,
    }
}

/// Reads a parenthesized media query, or else a parenthesized media feature. An empty group
/// yields an empty unknown query.
fn parse_paren(ps: &mut ParseState) -> (r: Option<MediaQueryList>)
    requires
        old(ps).wf(),
    ensures
        final(ps).no_stop_since(old(ps)),
        final(ps).follows(old(ps)),
        r is Some ==> final(ps).pos > old(ps).pos,
        !old(ps).at_end() && old(ps).next_tree().kind() is ParenthesisBlock ==> r is Some && final(ps).read_one(old(ps)),
    decreases old(ps).size(), old(ps).remaining(), 1nat,
{
    proof { lemma_first_solid(ps.items@, ps.pos as int); }
    let is_paren = match ps.peek() {
        Some(TokenTree::Paren(_)) => true,
        _ => false,
    };
    if is_paren {
        proof { lemma_wf_elem(ps.items@, ps.next_solid()); }
        let (mut sub, saved, left) = ps.enter_block();
        let ghost sub0 = sub;
        match parse_paren_content(&mut sub) {
            None => {
                ps.abandon_block(sub, saved);
                proof {
                    lemma_first_solid(sub0.items@, 0);
                    assert(!sub0.at_end());
                    assert(ps.next_solid() == old(ps).next_solid());
                    assert(ps.next_tree() == old(ps).next_tree());
                    assert(ps.next_block_filled());
                }
            },
            Some(children) => {
                let (trailing, right) = ps.leave_block(sub);
                if right.is_empty() {
                    ps.add_warning(ParseErrorKind::UnmatchedParenthesis, left);
                }
                proof { lemma_no_stop_step(*old(ps), *ps); }
                let is_sub = match &*children {
                    MediaQueryList::Unknown(x) => x.len() != 0,
                    _ => true,
                };
                if is_sub {
                    return Some(MediaQueryList::Sub(Group { children, left, right, trailing }));
                } else {
                    return Some(*children);
                }
            },
        }
    }
    match parse_paren_media_feature(ps) {
        Some(x) => Some(MediaQueryList::MediaFeature(x)),
        None => None,
    }
}

/// Reads one query: `not` or `only` followed by a query, a media type, or a parenthesized
/// query or feature.
fn parse_item(ps: &mut ParseState) -> (r: Option<MediaQueryList>)
    requires
        old(ps).wf(),
    ensures
        final(ps).no_stop_since(old(ps)),
        final(ps).follows(old(ps)),
        r is Some ==> final(ps).pos > old(ps).pos,
        next_is_media_type(old(ps)) ==> (r matches Some(MediaQueryList::MediaType(_))
            && final(ps).read_one(old(ps))),
        query_end(old(ps)) matches Some(e) ==> r is Some && final(ps).pos == e,
    decreases old(ps).size(), old(ps).remaining(), 2nat,
{
    proof { lemma_first_solid(ps.items@, ps.pos as int); }
    let peek = match ps.peek() {
        None => return None,
        Some(p) => p,
    };
    if peek.is_keyword("not") {
        let kw = match parse_ident(ps) {
            Some(x) => x,
            None => return None,
        };
        match parse_item(ps) {
            Some(x) => Some(MediaQueryList::Not(kw, Box::new(x))),
            None => None,
        }
    } else if peek.is_keyword("only") {
        let kw = match parse_ident(ps) {
            Some(x) => x,
            None => return None,
        };
        match parse_item(ps) {
            Some(x) => Some(MediaQueryList::Only(kw, Box::new(x))),
            None => None,
        }
    } else if peek.is_ident() {
        match parse_media_type(ps) {
            Some(x) => Some(MediaQueryList::MediaType(x)),
            None => None,
        }
    } else {
        match peek {
            TokenTree::Paren(_) => parse_paren(ps),
            _ => None,
        }
    }
}

/// Reads queries joined by `and`. At the end of the level, after a query, the result is
/// `None`.
fn parse_and(ps: &mut ParseState) -> (r: Option<MediaQueryList>)
    requires
        old(ps).wf(),
    ensures
        final(ps).no_stop_since(old(ps)),
        final(ps).follows(old(ps)),
        r is Some ==> final(ps).pos > old(ps).pos,
        next_is_media_type(old(ps)) && plain_after_next(old(ps)) ==> (r matches Some(MediaQueryList::MediaType(_))
            && final(ps).read_one(old(ps))),
        query_end(old(ps)) is Some && plain_at(old(ps).items@, query_end(old(ps))->0) ==> r is Some
            && final(ps).pos == query_end(old(ps))->0,
    decreases old(ps).size(), old(ps).remaining(), 3nat,
{
    let ghost mt = query_end(old(ps)) is Some && plain_at(old(ps).items@, query_end(old(ps))->0);
    proof {
        lemma_first_solid(old(ps).items@, old(ps).pos as int);
        if next_is_media_type(old(ps)) {
            assert(one_token_query_at(old(ps).items@, old(ps).next_solid()));
            assert(query_end(old(ps)) == Some(old(ps).next_solid() + 1));
        }
    }
    let mut ret: Vec<(MediaQueryList, MediaAndKeyword)> = Vec::new();
    let mut cur: Option<MediaQueryList> = match parse_item(ps) {
        Some(x) => Some(x),
        None => return None,
    };
    let ghost after_first = ps.pos;
    let mut ended_without_item = false;
    loop
        invariant_except_break
            cur is Some,
        invariant
            ps.follows(old(ps)),
            ps.no_stop_since(old(ps)),
            ps.pos >= after_first > old(ps).pos,
            mt == (query_end(old(ps)) is Some && plain_at(old(ps).items@, query_end(old(ps))->0)),
            next_is_media_type(old(ps)) && plain_after_next(old(ps)) ==> mt
                && query_end(old(ps))->0 == old(ps).next_solid() + 1,
            mt ==> ps.pos == query_end(old(ps))->0 && ret@.len() == 0 && !ended_without_item
                && cur is Some && (next_is_media_type(old(ps)) ==> cur matches Some(MediaQueryList::MediaType(_))),
        decreases ps.remaining(),
    {
        proof { lemma_first_solid(ps.items@, ps.pos as int); }
        let is_and = match ps.peek() {
            None => return None,
            Some(p) => p.is_keyword("and"),
        };
        if !is_and {
            break ;
        }
        let ghost s0 = *ps;
        let and = match parse_ident(ps) {
            None => MediaAndKeyword::Absent,
            Some(x) => MediaAndKeyword::And(x),
        };
        let ghost s1 = *ps;
        let n = parse_item(ps);
        proof {
            lemma_no_stop_trans(*old(ps), s0, s1);
            lemma_no_stop_trans(*old(ps), s1, *ps);
        }
        let ended = n.is_none();
        let mut prev = n;
        std::mem::swap(&mut cur, &mut prev);
        match prev {
            Some(p) => ret.push((p, and)),
            None => {},
        }
        if ended {
            ended_without_item = true;
            break ;
        }
    }
    if ended_without_item {
        return Some(MediaQueryList::And(ret));
    }
    if ret.len() == 0 {
        cur
    } else {
        match cur {
            Some(c) => ret.push((c, MediaAndKeyword::Absent)),
            None => {},
        }
        Some(MediaQueryList::And(ret))
    }
}

/// Reads queries joined by commas or `or`.
fn parse_or(ps: &mut ParseState) -> (r: Option<MediaQueryList>)
    requires
        old(ps).wf(),
    ensures
        final(ps).no_stop_since(old(ps)),
        final(ps).follows(old(ps)),
        r is Some ==> final(ps).pos > old(ps).pos,
        next_is_media_type(old(ps)) && plain_after_next(old(ps)) ==> (r matches Some(MediaQueryList::MediaType(_))
            && final(ps).read_one(old(ps))),
        query_end(old(ps)) is Some && plain_at(old(ps).items@, query_end(old(ps))->0) ==> r is Some
            && final(ps).pos == query_end(old(ps))->0,
    decreases old(ps).size(), old(ps).remaining(), 4nat,
{
    let ghost mt = query_end(old(ps)) is Some && plain_at(old(ps).items@, query_end(old(ps))->0);
    proof {
        lemma_first_solid(old(ps).items@, old(ps).pos as int);
        if next_is_media_type(old(ps)) {
            assert(one_token_query_at(old(ps).items@, old(ps).next_solid()));
            assert(query_end(old(ps)) == Some(old(ps).next_solid() + 1));
        }
    }
    let mut ret: Vec<(MediaQueryList, MediaOrKeyword)> = Vec::new();
    let mut cur: Option<MediaQueryList> = match parse_and(ps) {
        Some(x) => Some(x),
        None => return None,
    };
    let ghost after_first = ps.pos;
    let mut ended_without_item = false;
    loop
        invariant_except_break
            cur is Some,
        invariant
            ps.follows(old(ps)),
            ps.no_stop_since(old(ps)),
            ps.pos >= after_first > old(ps).pos,
            mt == (query_end(old(ps)) is Some && plain_at(old(ps).items@, query_end(old(ps))->0)),
            next_is_media_type(old(ps)) && plain_after_next(old(ps)) ==> mt
                && query_end(old(ps))->0 == old(ps).next_solid() + 1,
            mt ==> ps.pos == query_end(old(ps))->0 && ret@.len() == 0 && !ended_without_item
                && cur is Some && (next_is_media_type(old(ps)) ==> cur matches Some(MediaQueryList::MediaType(_))),
        decreases ps.remaining(),
    {
        proof { lemma_first_solid(ps.items@, ps.pos as int); }
        let peek = match ps.peek() {
            None => break ,
            Some(p) => p,
        };
        let is_comma = match peek {
            TokenTree::Comma(_) => true,
            _ => false,
        };
        let ghost s0 = *ps;
        let or = if is_comma {
            match parse_comma(ps) {
                Some(x) => MediaOrKeyword::Comma(x),
                None => return None,
            }
        } else if peek.is_keyword("or") {
            match parse_ident(ps) {
                Some(x) => MediaOrKeyword::Or(x),
                None => return None,
            }
        } else {
            break ;
        };
        let ghost s1 = *ps;
        let n = parse_item(ps);
        proof {
            lemma_no_stop_trans(*old(ps), s0, s1);
            lemma_no_stop_trans(*old(ps), s1, *ps);
        }
        let ended = n.is_none();
        let mut prev = n;
        std::mem::swap(&mut cur, &mut prev);
        match prev {
            Some(p) => ret.push((p, or)),
            None => {},
        }
        if ended {
            ended_without_item = true;
            break ;
        }
    }
    if ended_without_item {
        return Some(MediaQueryList::Or(ret));
    }
    if ret.len() == 0 {
        cur
    } else {
        match cur {
            Some(c) => ret.push((c, MediaOrKeyword::Absent)),
            None => {},
        }
        Some(MediaQueryList::Or(ret))
    }
}

/// What reading a media query list from `before` to `after` gives: progress when there is a
/// list; a list when a media type or a `(...)` group, alone or after `not` or `only`, comes with
/// a token after it that joins no queries; and a lone media type, read alone, when a `{` block
/// follows it.
pub open spec fn media_list_read<'a>(before: ParseState<'a>, after: ParseState<'a>, r: Option<MediaQueryList>) -> bool {
    &&& after.follows(&before)
    &&& after.no_stop_since(&before)
    &&& r is Some ==> after.pos > before.pos
    &&& next_is_media_type(&before) && brace_after_next(&before) ==> (r matches Some(MediaQueryList::MediaType(_))
            && after.read_one(&before))
    &&& query_end(&before) is Some && plain_at(before.items@, query_end(&before)->0) ==> r is Some
}

/// Reads a media query list. Unless a `{` block follows, the tokens up to a semicolon or a
/// `{` block are kept as a trailing unknown query of an `or` list.
pub fn parse_media_query_list(ps: &mut ParseState) -> (r: Option<MediaQueryList>)
    requires
        old(ps).wf(),
    ensures
        media_list_read(*old(ps), *final(ps), r),
    decreases old(ps).size(), old(ps).remaining(), 5nat,
{
    let ret = match parse_or(ps) {
        Some(x) => x,
        None => return None,
    };
    proof { lemma_first_solid(ps.items@, ps.pos as int); }
    match ps.peek() {
        Some(TokenTree::Brace(_)) => return Some(ret),
        _ => {},
    }
    let trailing = ps.skip_until_before_brace_or_semicolon();
    match ret {
        MediaQueryList::Or(x) => {
            let mut x = x;
            x.push((MediaQueryList::Unknown(trailing), MediaOrKeyword::Absent));
            Some(MediaQueryList::Or(x))
        },
        other => {
            let mut x: Vec<(MediaQueryList, MediaOrKeyword)> = Vec::new();
            x.push((other, MediaOrKeyword::Absent));
            x.push((MediaQueryList::Unknown(trailing), MediaOrKeyword::Absent));
            Some(MediaQueryList::Or(x))
        },
    }
}

} // verus!
