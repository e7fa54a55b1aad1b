//! Property declarations and `@import` rules.

use vstd::prelude::*;
use crate::position::Location;
use super::lexer::RawKind;
use super::state::{ParseState, corresponds, first_solid, is_stop, lemma_first_solid, read_as, solid_kinds};
use super::token::{AtKeyword, Colon, Ident, QuotedString, Semicolon, TokenTree};
use super::list::MaybeUnknown;
use super::basic::{parse_at_keyword, parse_colon, parse_ident, parse_quoted_string, parse_semicolon};

verus! {

/// `name: value;`, the semicolon being optional.
#[derive(Debug)]
pub struct Property {
    pub name: Ident,
    pub colon: Colon,
    pub value: Vec<TokenTree>,
    pub semicolon: Option<Semicolon>,
}

/// Between `before` and `after`, the last token read is the only one that may be a semicolon.
pub open spec fn semicolon_only_last<'a>(before: ParseState<'a>, after: ParseState<'a>) -> bool {
    forall|j: int| before.pos <= j < after.pos - 1 ==> !(#[trigger] after.items@[j].kind() is Semicolon)
}

impl<'a> ParseState<'a> {
    /// The next two tokens are an identifier and a colon.
    pub open spec fn next_is_property_start(&self) -> bool {
        &&& !self.at_end()
        &&& self.next_tree().kind() is Ident
        &&& first_solid(self.items@, self.next_solid() + 1) < self.items@.len()
        &&& self.items@[first_solid(self.items@, self.next_solid() + 1)].kind() is Colon
    }
}

/// Reads a property: a name, a colon, the value tokens up to a semicolon, and the semicolon
/// when there is one.
pub fn parse_property(ps: &mut ParseState) -> (r: Option<Property>)
    requires
        old(ps).wf(),
    ensures
        final(ps).follows(old(ps)),
        r is Some ==> final(ps).pos > old(ps).pos,
        r is Some <==> old(ps).next_is_property_start(),
        !(!old(ps).at_end() && old(ps).next_tree().kind() is Ident) ==> final(ps).pos == old(ps).pos,
        r matches Some(p) ==> exists|a: ParseState, m: ParseState| #![trigger property_value_read(a, m, p)]
            state_at(a, *old(ps), first_solid(old(ps).items@, old(ps).next_solid() + 1) + 1)
            && property_value_read(a, m, p) && property_end_read(m, *final(ps), p),
        r matches Some(p) ==> corresponds(TokenTree::Ident(p.name), old(ps).next_tree().kind()),
{
    proof { lemma_first_solid(ps.items@, ps.pos as int); }
    let name = match parse_ident(ps) {
        Some(x) => x,
        None => return None,
    };
    proof { lemma_first_solid(ps.items@, ps.pos as int); }
    let colon = match parse_colon(ps) {
        Some(x) => x,
        None => return None,
    };
    let ghost a = *ps;
    let value = ps.skip_until_before_semicolon();
    let ghost m = *ps;
    proof { lemma_first_solid(m.items@, m.pos as int); }
    let semicolon = parse_semicolon(ps);
    let p = Property { name, colon, value, semicolon };
    proof {
        assert(state_at(a, *old(ps), first_solid(old(ps).items@, old(ps).next_solid() + 1) + 1));
        assert(property_value_read(a, m, p));
        assert(property_end_read(m, *ps, p));
    }
    Some(p)
}

/// `a` is a state of the level of `old` with its cursor at `pos`.
pub open spec fn state_at<'a>(a: ParseState<'a>, old: ParseState<'a>, pos: int) -> bool {
    &&& a.items == old.items
    &&& a.level_start == old.level_start
    &&& a.pos == pos
}

/// The value of `p` is what reading from `a` to `m` gave: the tokens up to a semicolon or the
/// end of the level.
pub open spec fn property_value_read<'a>(a: ParseState<'a>, m: ParseState<'a>, p: Property) -> bool {
    &&& m.items == a.items
    &&& a.pos <= m.pos
    &&& m.at_end() || m.next_tree().kind() is Semicolon
    &&& read_as(p.value@, solid_kinds(a.items@, a.pos as int, m.pos as int))
}

/// The property ends at `f` after its value, which ended at `m`: with the semicolon, read, when
/// one comes.
pub open spec fn property_end_read<'a>(m: ParseState<'a>, f: ParseState<'a>, p: Property) -> bool {
    &&& p.semicolon is Some <==> !m.at_end()
    &&& p.semicolon is Some ==> f.read_one(&m)
    &&& p.semicolon is None ==> f.pos == m.pos
}

impl Property {
    pub open spec fn spec_location(&self) -> Location {
        Location {
            start: self.name.location.start,
            end: match self.semicolon {
                None => if self.value@.len() == 0 {
                    self.colon.location.end
                } else {
                    self.value@[self.value@.len() - 1].spec_location().end
                },
                Some(x) => x.location.end,
            },
        }
    }

    pub fn location(&self) -> (r: Location)
        ensures
            r == self.spec_location(),
    {
        let start = self.name.location.start;
        let end = match &self.semicolon {
            None => if self.value.len() == 0 {
                self.colon.location.end
            } else {
                self.value[self.value.len() - 1].location().end
            },
            Some(x) => x.location.end,
        };
        Location { start, end }
    }
}

/// `@import url condition;`
#[derive(Debug)]
pub struct ImportRule {
    pub at_import: AtKeyword,
    pub url: MaybeUnknown<QuotedString>,
    pub condition: Vec<TokenTree>,
    pub semicolon: Option<Semicolon>,
}

/// The kind of the token after the at-keyword that comes next, where the URL of an import rule
/// stands; `None` when no token comes there.
pub open spec fn import_url_kind(ps: ParseState) -> Option<RawKind> {
    let k = first_solid(ps.items@, ps.next_solid() + 1);
    if k < ps.items@.len() {
        Some(ps.items@[k].kind())
    } else {
        None
    }
}

/// Reads an import rule: the at-keyword, a quoted URL (or the tokens up to a semicolon in its
/// place), the tokens of the condition and the semicolon.
pub fn parse_import_rule(ps: &mut ParseState) -> (r: Option<ImportRule>)
    requires
        old(ps).wf(),
    ensures
        final(ps).follows(old(ps)),
        r is Some <==> (!old(ps).at_end() && old(ps).next_tree().kind() is AtKeyword),
        r is Some ==> final(ps).pos > old(ps).pos,
        r is None ==> final(ps).pos == old(ps).pos,
        r is Some ==> final(ps).kept_leading_comments(old(ps)),
        r is Some ==> semicolon_only_last(*old(ps), *final(ps)),
        r matches Some(x) ==> (x.url is Normal <==> import_url_kind(*old(ps)) matches Some(RawKind::QuotedString(_))),
        r matches Some(x) ==> (x.url matches MaybeUnknown::Normal(q, _)
            ==> corresponds(TokenTree::QuotedString(q), import_url_kind(*old(ps))->0)),
        r matches Some(x) ==> (x.semicolon is Some ==> final(ps).items@[final(ps).pos - 1].kind() is Semicolon),
        r matches Some(x) ==> (x.semicolon is None ==> final(ps).at_end()),
{
    proof { lemma_first_solid(ps.items@, ps.pos as int); }
    let at_import = match parse_at_keyword(ps) {
        Some(x) => x,
        None => return None,
    };
    let ghost b = *ps;
    let is_string = match ps.peek() {
        Some(TokenTree::QuotedString(_)) => true,
        _ => false,
    };
    let url = if is_string {
        match parse_quoted_string(ps) {
            Some(x) => MaybeUnknown::Normal(x, Vec::new()),
            None => MaybeUnknown::Unknown(Vec::new()),
        }
    } else {
        MaybeUnknown::Unknown(ps.skip_until_before_semicolon())
    };
    let ghost c = *ps;
    let condition = ps.skip_until_before_semicolon();
    let ghost d = *ps;
    proof { lemma_first_solid(d.items@, d.pos as int); }
    let semicolon = parse_semicolon(ps);
    proof {
        assert forall|j: int| old(ps).pos <= j < ps.pos - 1 implies !(#[trigger] ps.items@[j].kind() is Semicolon) by {
            if j < b.pos {
                assert(!is_stop(b.items@[j].kind()));
            } else if j < c.pos {
                assert(!is_stop(c.items@[j].kind()) || !(c.items@[j].kind() is Semicolon));
            } else if j >= d.pos {
                assert(d.items@[j].kind().is_trivia());
            }
        }
    }
    Some(ImportRule { at_import, url, condition, semicolon })
}

} // verus!
