//! Parsers for functions and bracketed groups whose content is read as plain tokens.

use vstd::prelude::*;
use crate::position::Location;
use super::lexer::{RawKind, lemma_wf_elem};
use super::state::{ParseState, corresponds, lemma_first_solid, lemma_solid_kinds_skip, lemma_solid_kinds_step, read_as, solid_kinds};
use super::token::{Bracket, Function, Group, TokenTree};
use super::list::List;
use super::error::ParseErrorKind;
use super::basic::lemma_no_stop_step;

verus! {

/// Reads every remaining token of the level; `None` when there is none.
pub fn parse_token_list(ps: &mut ParseState) -> (r: Option<List<TokenTree>>)
    requires
        old(ps).wf(),
    ensures
        final(ps).follows(old(ps)),
        final(ps).at_end(),
        r is Some <==> !old(ps).at_end(),
        r matches Some(l) ==> read_as(l@, solid_kinds(old(ps).items@, old(ps).pos as int, old(ps).items@.len() as int)),
{
    let mut items: Vec<TokenTree> = Vec::new();
    proof { lemma_first_solid(ps.items@, ps.pos as int); }
    let ghost first_at_end = ps.at_end();
    loop
        invariant_except_break
            items@.len() == 0 ==> ps.pos == old(ps).pos,
        invariant
            ps.follows(old(ps)),
            items@.len() > 0 ==> !first_at_end,
            first_at_end == old(ps).at_end(),
            read_as(items@, solid_kinds(ps.items@, old(ps).pos as int, ps.pos as int)),
        ensures
            ps.follows(old(ps)),
            ps.at_end(),
            items@.len() > 0 ==> !first_at_end,
            items@.len() == 0 ==> first_at_end,
            read_as(items@, solid_kinds(ps.items@, old(ps).pos as int, ps.pos as int)),
        decreases ps.remaining(),
    {
        proof { lemma_first_solid(ps.items@, ps.pos as int); }
        let ghost before = *ps;
        match ps.next() {
            Some(tt) => {
                proof {
                    lemma_first_solid(before.items@, before.pos as int);
                    lemma_solid_kinds_skip(before.items@, old(ps).pos as int, before.pos as int, before.next_solid());
                    lemma_solid_kinds_step(before.items@, old(ps).pos as int, before.next_solid());
                }
                items.push(tt);
                proof {
                    assert forall|n: int| 0 <= n < items@.len() implies #[trigger] corresponds(items@[n], solid_kinds(ps.items@, old(ps).pos as int, ps.pos as int)[n]) by {
                        if n < items@.len() - 1 {
                            assert(items@[n] == items@.drop_last()[n]);
                        }
                    }
                }
            },
            None => {
                proof {
                    lemma_first_solid(before.items@, before.pos as int);
                    lemma_solid_kinds_skip(before.items@, old(ps).pos as int, before.pos as int, before.items@.len() as int);
                }
                break ;
            },
        }
    }
    proof {
        lemma_first_solid(ps.items@, ps.pos as int);
        lemma_solid_kinds_skip(ps.items@, old(ps).pos as int, ps.pos as int, ps.items@.len() as int);
    }
    if items.len() == 0 {
        None
    } else {
        Some(List::from_vec(items))
    }
}

/// Reads a function whose content is read as plain tokens. Warns when the function is not
/// closed.
pub fn parse_function_tokens(ps: &mut ParseState) -> (r: Option<Function<Vec<TokenTree>>>)
    requires
        old(ps).wf(),
    ensures
        final(ps).follows(old(ps)),
        r is Some <==> (!old(ps).at_end() && ({ let k = old(ps).next_tree().kind(); k is Function })),
        r is Some ==> final(ps).read_one(old(ps)),
        r is None ==> final(ps).pos == old(ps).pos,
        final(ps).no_stop_since(old(ps)),
        r matches Some(f) ==> f.name@ == old(ps).next_tree().kind()->Function_0@
            && read_as(f.children@, solid_kinds(old(ps).next_tree()->Block_0.children@, 0,
                old(ps).next_tree()->Block_0.children@.len() as int)),
{
    proof { lemma_first_solid(ps.items@, ps.pos as int); }
    match ps.peek() {
        Some(TokenTree::Function(_)) => {},
        _ => return None,
    }
    proof { lemma_wf_elem(ps.items@, ps.next_solid()); }
    let ghost k = ps.next_tree();
    let name = match ps.peek() {
        Some(TokenTree::Function(f)) => f.name,
        _ => String::new(),
    };
    let (mut sub, _saved, left) = ps.enter_block();
    let children = sub.skip_to_end();
    let (trailing, right) = ps.leave_block(sub);
    if right.is_empty() {
        ps.add_warning(ParseErrorKind::UnmatchedParenthesis, left);
    }
    proof { lemma_no_stop_step(*old(ps), *ps); }
    Some(Function { name, children, left, right, trailing })
}

/// Reads a `[...]` group with its content read as plain tokens. Fails, reading nothing, when
/// the group is empty. Warns when the group is not closed.
pub fn parse_bracket_token_list(ps: &mut ParseState) -> (r: Option<Bracket<List<TokenTree>>>)
    requires
        old(ps).wf(),
    ensures
        final(ps).follows(old(ps)),
        r is Some <==> (!old(ps).at_end() && ({ let k = old(ps).next_tree().kind(); k is SquareBracketBlock })
            && old(ps).next_block_filled()),
        r is Some ==> final(ps).read_one(old(ps)),
        r is None ==> final(ps).pos == old(ps).pos,
        final(ps).no_stop_since(old(ps)),
        r matches Some(g) ==> read_as(g.children@, solid_kinds(old(ps).next_tree()->Block_0.children@, 0,
            old(ps).next_tree()->Block_0.children@.len() as int)),
{
    proof { lemma_first_solid(ps.items@, ps.pos as int); }
    match ps.peek() {
        Some(TokenTree::Bracket(_)) => {},
        _ => return None,
    }
    proof { lemma_wf_elem(ps.items@, ps.next_solid()); }
    let (mut sub, saved, left) = ps.enter_block();
    proof { lemma_first_solid(sub.items@, 0); }
    match parse_token_list(&mut sub) {
        None => {
            ps.abandon_block(sub, saved);
            None
        },
        Some(children) => {
            let (trailing, right) = ps.leave_block(sub);
            if right.is_empty() {
                ps.add_warning(ParseErrorKind::UnmatchedBracket, left);
            }
            proof { lemma_no_stop_step(*old(ps), *ps); }
            Some(Group { children, left, right, trailing })
        },
    }
}

} // verus!
