//! Selectors of style rules.

use vstd::prelude::*;
use crate::position::Location;
use super::lexer::RawKind;
use super::state::{ParseState, corresponds, lemma_first_solid};
use super::token::{Bracket, Colon, Function, Ident, IDHash, Operator, TokenTree};
use super::list::{List, Repeat};
use super::basic::{lemma_no_stop_step, lemma_no_stop_trans, parse_colon, parse_comma, parse_id_hash, parse_ident, parse_operator, is_operator_kind};
use super::group::{parse_bracket_token_list, parse_function_tokens};
use super::token::Comma;

verus! {

/// Tokens that start a style rule's selector: identifiers, ID hashes, colons, `[...]` groups,
/// and the delimiters `.`, `:`, `*`, `&`, `#`.
pub open spec fn starts_selector(k: RawKind) -> bool {
    k is Ident || k is IDHash || k is Colon || k is SquareBracketBlock || (k is Delim && ({
        let c = k->Delim_0;
        c == '.' || c == ':' || c == '*' || c == '&' || c == '#'
    }))
}

/// What `probably_style_rule_start` accepts of a token read from a token of kind `k`.
pub proof fn lemma_style_start(tt: TokenTree, k: RawKind)
    requires
        corresponds(tt, k),
        tt is Ident || tt is IDHash || tt is Colon || tt is Bracket || (tt is Operator && ({
            let n = tt->Operator_0.name@;
            n == "."@ || n == ":"@ || n == "*"@ || n == "&"@ || n == "#"@
        })),
    ensures
        starts_selector(k),
{
    reveal_strlit(".");
    reveal_strlit(":");
    reveal_strlit("*");
    reveal_strlit("&");
    reveal_strlit("#");
    if tt is Operator {
        let n = tt->Operator_0.name@;
        assert(n.len() == 1);
        if k is Delim {
            assert(n == seq![k->Delim_0]);
            assert(n[0] == k->Delim_0);
        }
    }
}

/// A token read from a token that starts a selector is one that `probably_style_rule_start`
/// accepts.
pub proof fn lemma_style_start_back(tt: TokenTree, k: RawKind)
    requires
        corresponds(tt, k),
        starts_selector(k),
    ensures
        tt is Ident || tt is IDHash || tt is Colon || tt is Bracket || (tt is Operator && ({
            let n = tt->Operator_0.name@;
            n == "."@ || n == ":"@ || n == "*"@ || n == "&"@ || n == "#"@
        })),
{
    reveal_strlit(".");
    reveal_strlit(":");
    reveal_strlit("*");
    reveal_strlit("&");
    reveal_strlit("#");
    if k is Delim {
        let c = k->Delim_0;
        assert(tt->Operator_0.name@ == seq![c]);
        if c == '.' { assert(seq![c] =~= "."@); }
        if c == ':' { assert(seq![c] =~= ":"@); }
        if c == '*' { assert(seq![c] =~= "*"@); }
        if c == '&' { assert(seq![c] =~= "&"@); }
        if c == '#' { assert(seq![c] =~= "#"@); }
    }
}

/// The name of a pseudo class or element is the one that the token of kind `k` carries.
pub open spec fn names_token(name: IdentOrFunction, k: RawKind) -> bool {
    match name {
        IdentOrFunction::Ident(x) => k is Ident && x.content@ == k->Ident_0@,
        IdentOrFunction::Function(f) => k is Function && f.name@ == k->Function_0@,
    }
}

/// One component of a selector.
#[derive(Debug)]
pub enum Selector {
    Unknown(List<TokenTree>),
    Universal(Operator),
    TagName(Ident),
    Id(IDHash),
    Class(Operator, Ident),
    Attribute(Bracket<List<TokenTree>>),
    NextSibling(Operator),
    Child(Operator),
    Column(Operator, Operator),
    SubsequentSibling(Operator),
    Namespace(Operator),
    PseudoClass(Colon, IdentOrFunction),
    PseudoElement(Colon, Colon, IdentOrFunction),
}

/// The name of a pseudo class or element, possibly with arguments.
#[derive(Debug)]
pub enum IdentOrFunction {
    Ident(Ident),
    Function(Function<Vec<TokenTree>>),
}

impl IdentOrFunction {
    pub open spec fn spec_name(&self) -> Seq<char> {
        match self {
            IdentOrFunction::Ident(x) => x.content@,
            IdentOrFunction::Function(x) => x.name@,
        }
    }

    pub fn name(&self) -> (r: &str)
        ensures
            r@ == self.spec_name(),
    {
        match self {
            IdentOrFunction::Ident(x) => x.content.as_str(),
            IdentOrFunction::Function(x) => x.name.as_str(),
        }
    }

    pub open spec fn spec_location(&self) -> Location {
        match self {
            IdentOrFunction::Ident(x) => x.location,
            IdentOrFunction::Function(x) => x.spec_location(),
        }
    }

    pub fn location(&self) -> (r: Location)
        ensures
            r == self.spec_location(),
    {
        match self {
            IdentOrFunction::Ident(x) => x.location,
            IdentOrFunction::Function(x) => x.location(),
        }
    }
}

/// Reads an identifier, or a function whose arguments are read as plain tokens.
pub fn parse_ident_or_function(ps: &mut ParseState) -> (r: Option<IdentOrFunction>)
    requires
        old(ps).wf(),
    ensures
        final(ps).no_stop_since(old(ps)),
        final(ps).follows(old(ps)),
        r is Some <==> (!old(ps).at_end() && ({ let k = old(ps).next_tree().kind(); k is Ident || k is Function })),
        r is Some ==> final(ps).read_one(old(ps)),
        r is None ==> final(ps).pos == old(ps).pos,
        r matches Some(IdentOrFunction::Ident(x)) ==> corresponds(TokenTree::Ident(x), old(ps).next_tree().kind()),
        r matches Some(IdentOrFunction::Function(f)) ==> f.name@ == old(ps).next_tree().kind()->Function_0@,
        r is Some ==> (r->0 is Ident <==> old(ps).next_tree().kind() is Ident),
{
    proof { lemma_first_solid(ps.items@, ps.pos as int); }
    match ps.peek() {
        Some(TokenTree::Ident(_)) => match parse_ident(ps) {
            Some(x) => Some(IdentOrFunction::Ident(x)),
            None => None,
        },
        Some(TokenTree::Function(_)) => match parse_function_tokens(ps) {
            Some(x) => Some(IdentOrFunction::Function(x)),
            None => None,
        },
        _ => None,
    }
}

/// Reads tokens up to a comma, a semicolon or a `{` block, as an unrecognized selector.
fn collect_unknown(ps: &mut ParseState) -> (r: Option<Selector>)
    requires
        old(ps).wf(),
    ensures
        final(ps).no_stop_since(old(ps)),
        final(ps).follows(old(ps)),
        r is Some ==> final(ps).pos > old(ps).pos,
        r is None ==> final(ps).pos == old(ps).pos,
        r is Some ==> r->0 is Unknown,
        !old(ps).at_end() && !(old(ps).next_tree().kind() is Comma)
            && !(old(ps).next_tree().kind() is Semicolon)
            && !(old(ps).next_tree().kind() is CurlyBracketBlock) ==> r is Some,
{
    let mut v: Vec<TokenTree> = Vec::new();
    loop
        invariant
            ps.follows(old(ps)),
            ps.no_stop_since(old(ps)),
            v@.len() == 0 ==> ps.pos == old(ps).pos,
            v@.len() > 0 ==> ps.pos > old(ps).pos,
        ensures
            ps.follows(old(ps)),
            ps.no_stop_since(old(ps)),
            v@.len() == 0 ==> ps.pos == old(ps).pos,
            v@.len() > 0 ==> ps.pos > old(ps).pos,
            v@.len() == 0 ==> old(ps).at_end() || old(ps).next_tree().kind() is Comma
                || old(ps).next_tree().kind() is Semicolon
                || old(ps).next_tree().kind() is CurlyBracketBlock,
        decreases ps.remaining(),
    {
        proof { lemma_first_solid(ps.items@, ps.pos as int); }
        match ps.peek() {
            None => break ,
            Some(TokenTree::Comma(_)) | Some(TokenTree::Semicolon(_)) | Some(TokenTree::Brace(_)) => break ,
            Some(_) => {},
        }
        let ghost before = *ps;
        match ps.next() {
            Some(tt) => v.push(tt),
            None => break ,
        }
        proof {
            lemma_no_stop_step(before, *ps);
            lemma_no_stop_trans(*old(ps), before, *ps);
        }
    }
    if v.len() == 0 {
        None
    } else {
        Some(Selector::Unknown(List::from_vec(v)))
    }
}

fn single_unknown(tt: TokenTree) -> (r: Selector)
    ensures
        r matches Selector::Unknown(l) && l@ == seq![tt],
{
    let mut v: Vec<TokenTree> = Vec::new();
    v.push(tt);
    Selector::Unknown(List::from_vec(v))
}

/// What follows a `.` that was just read: a class name when an identifier comes right after
/// it, else the dot alone as an unknown component.
fn parse_after_dot(ps: &mut ParseState, op: Operator) -> (r: Selector)
    requires
        old(ps).wf(),
    ensures
        final(ps).no_stop_since(old(ps)),
        final(ps).follows(old(ps)),
        old(ps).pos < old(ps).items@.len() && old(ps).items@[old(ps).pos as int].kind() is Ident
            ==> (r matches Selector::Class(o, name) && o == op
            && corresponds(TokenTree::Ident(name), old(ps).items@[old(ps).pos as int].kind())
            && final(ps).pos == old(ps).pos + 1),
        !(old(ps).pos < old(ps).items@.len() && old(ps).items@[old(ps).pos as int].kind() is Ident)
            ==> (r matches Selector::Unknown(l) && l@ == seq![TokenTree::Operator(op)]
            && final(ps).pos == old(ps).pos),
{
    proof { lemma_first_solid(ps.items@, ps.pos as int); }
    match ps.peek_with_whitespace() {
        Some(TokenTree::Ident(t)) => {
            proof {
                assert(corresponds(TokenTree::Ident(t), ps.next_tree().kind()));
            }
            match parse_ident(ps) {
                Some(name) => Selector::Class(op, name),
                None => single_unknown(TokenTree::Operator(op)),
            }
        },
        other => {
            proof {
                if ps.pos < ps.items@.len() && ps.items@[ps.pos as int].kind() is Ident {
                    assert(other is Some);
                    assert(corresponds(other->0, ps.next_tree().kind()));
                }
            }
            single_unknown(TokenTree::Operator(op))
        },
    }
}

/// What follows a `|` that was just read: a second bar makes a column combinator; otherwise
/// the operator after the bar is the namespace.
fn parse_after_bar(ps: &mut ParseState, op: Operator) -> (r: Option<Selector>)
    requires
        old(ps).wf(),
    ensures
        final(ps).no_stop_since(old(ps)),
        final(ps).follows(old(ps)),
        old(ps).pos < old(ps).items@.len() && ({
            let k = old(ps).items@[old(ps).pos as int].kind();
            k is Delim && k->Delim_0 == '|'
        }) ==> (r matches Some(Selector::Column(a, b)) && a == op && b.name@ == seq!['|']
            && final(ps).pos == old(ps).pos + 1),
        old(ps).pos < old(ps).items@.len() && ({
            let k = old(ps).items@[old(ps).pos as int].kind();
            is_operator_kind(k) && !(k is Delim && k->Delim_0 == '|')
        }) ==> (r matches Some(Selector::Namespace(ns))
            && corresponds(TokenTree::Operator(ns), old(ps).items@[old(ps).pos as int].kind())
            && final(ps).pos == old(ps).pos + 1),
{
    proof {
        lemma_first_solid(ps.items@, ps.pos as int);
        reveal_strlit("|");
        assert("|"@ =~= seq!['|']);
    }
    let second_is_bar = match ps.peek_with_whitespace() {
        Some(TokenTree::Operator(y)) => {
            proof {
                let k = ps.next_tree().kind();
                assert(corresponds(TokenTree::Operator(y), k));
                if k is Delim && k->Delim_0 != '|' {
                    assert(y.name@[0] != "|"@[0]);
                }
            }
            y.is("|")
        },
        _ => false,
    };
    if second_is_bar {
        match parse_operator(ps) {
            Some(op2) => Some(Selector::Column(op, op2)),
            None => None,
        }
    } else {
        // the namespace is the operator after the first bar
        match parse_operator(ps) {
            Some(op2) => Some(Selector::Namespace(op2)),
            None => None,
        }
    }
}

/// Reads one selector component. Nothing is read and `None` is returned at the end of the
/// level or before a semicolon or a `{` block.
#[verifier::rlimit(40)]
pub fn parse_selector(ps: &mut ParseState) -> (r: Option<Selector>)
    requires
        old(ps).wf(),
    ensures
        final(ps).no_stop_since(old(ps)),
        final(ps).follows(old(ps)),
        r is Some ==> final(ps).pos > old(ps).pos,
        old(ps).at_end() || (!old(ps).at_end() && ({ let k = old(ps).next_tree().kind(); k is Semicolon || k is CurlyBracketBlock }))
            ==> r is None && final(ps).pos == old(ps).pos,
        (!old(ps).at_end() && ({ let k = old(ps).next_tree().kind(); k is Ident })) ==> r is Some && r->0 is TagName
            && final(ps).read_one(old(ps)),
        (!old(ps).at_end() && ({ let k = old(ps).next_tree().kind(); k is IDHash })) ==> r is Some && r->0 is Id
            && final(ps).read_one(old(ps)),
        !old(ps).at_end() && starts_selector(old(ps).next_tree().kind()) ==> r is Some,
        old(ps).delim_after(0, '*') ==> (r matches Some(Selector::Universal(op))
            && final(ps).read_one(old(ps)) && op.name@ == seq!['*']),
        old(ps).delim_after(0, '.') && old(ps).kind_after(1) is Some && old(ps).kind_after(1)->0 is Ident
            ==> (r matches Some(Selector::Class(op, name)) && op.name@ == seq!['.']
            && corresponds(TokenTree::Ident(name), old(ps).kind_after(1)->0)
            && final(ps).pos == old(ps).next_solid() + 2),
        old(ps).delim_after(0, '.') && !(old(ps).kind_after(1) is Some && old(ps).kind_after(1)->0 is Ident)
            ==> (r matches Some(Selector::Unknown(l)) && l@.len() == 1 && l@[0] is Operator
            && final(ps).read_one(old(ps))),
        old(ps).delim_after(0, '|') && old(ps).delim_after(1, '|') ==> (r matches Some(Selector::Column(a, b))
            && a.name@ == seq!['|'] && b.name@ == seq!['|'] && final(ps).pos == old(ps).next_solid() + 2),
        old(ps).delim_after(0, '|') && old(ps).kind_after(1) is Some && is_operator_kind(old(ps).kind_after(1)->0)
            && !old(ps).delim_after(1, '|') ==> (r matches Some(Selector::Namespace(ns))
            && corresponds(TokenTree::Operator(ns), old(ps).kind_after(1)->0)
            && final(ps).pos == old(ps).next_solid() + 2),
        !old(ps).at_end() && old(ps).next_tree().kind() is Colon && old(ps).kind_after(1) is Some
            && (old(ps).kind_after(1)->0 is Ident || old(ps).kind_after(1)->0 is Function)
            ==> (r matches Some(Selector::PseudoClass(_, name))
            && (name is Ident <==> old(ps).kind_after(1)->0 is Ident)
            && names_token(name, old(ps).kind_after(1)->0)
            && final(ps).pos == old(ps).next_solid() + 2),
        !old(ps).at_end() && old(ps).next_tree().kind() is Colon && old(ps).kind_after(1) is Some
            && old(ps).kind_after(1)->0 is Colon && old(ps).kind_after(2) is Some
            && (old(ps).kind_after(2)->0 is Ident || old(ps).kind_after(2)->0 is Function)
            ==> (r matches Some(Selector::PseudoElement(_, _, name))
            && (name is Ident <==> old(ps).kind_after(2)->0 is Ident)
            && names_token(name, old(ps).kind_after(2)->0)
            && final(ps).pos == old(ps).next_solid() + 3),
{
    proof {
        lemma_first_solid(ps.items@, ps.pos as int);
        reveal_strlit("|");
        reveal_strlit("*");
        reveal_strlit(".");
        reveal_strlit("+");
        reveal_strlit(">");
        reveal_strlit("~");
        reveal_strlit("&");
        assert("|"@ =~= seq!['|']);
        assert("*"@ =~= seq!['*']);
        assert("."@ =~= seq!['.']);
    }
    let peek = match ps.peek() {
        None => return None,
        Some(p) => p,
    };
    match peek {
        TokenTree::Semicolon(_) | TokenTree::Brace(_) => None,
        TokenTree::Operator(x) => {
            proof {
                assert(corresponds(TokenTree::Operator(x), old(ps).next_tree().kind()));
                if old(ps).delim_after(0, '.') || old(ps).delim_after(0, '|') {
                    assert(x.name@.len() == 1);
                    assert(x.name@[0] != "*"@[0]);
                    assert(x.name@ != "*"@);
                }
                if old(ps).delim_after(0, '|') {
                    assert(x.name@[0] != "."@[0]);
                    assert(x.name@ != "."@);
                    assert(x.name@ != "+"@);
                    assert(x.name@ != ">"@);
                    assert(x.name@ != "~"@);
                }
            }
            if x.is("*") {
                match parse_operator(ps) {
                    Some(op) => Some(Selector::Universal(op)),
                    None => None,
                }
            } else if x.is(".") {
                let op = match parse_operator(ps) {
                    Some(op) => op,
                    None => return None,
                };
                let ghost mid = *ps;
                let sel = parse_after_dot(ps, op);
                proof { lemma_no_stop_trans(*old(ps), mid, *ps); }
                Some(sel)
            } else if x.is("+") {
                match parse_operator(ps) {
                    Some(op) => Some(Selector::NextSibling(op)),
                    None => None,
                }
            } else if x.is(">") {
                match parse_operator(ps) {
                    Some(op) => Some(Selector::Child(op)),
                    None => None,
                }
            } else if x.is("~") {
                match parse_operator(ps) {
                    Some(op) => Some(Selector::SubsequentSibling(op)),
                    None => None,
                }
            } else if x.is("|") {
                proof {
                    assert(x.name@[0] == '|');
                }
                let op = match parse_operator(ps) {
                    Some(op) => op,
                    None => return None,
                };
                let ghost mid = *ps;
                let sel = parse_after_bar(ps, op);
                proof { lemma_no_stop_trans(*old(ps), mid, *ps); }
                sel
            } else if x.is("&") {
                proof { lemma_first_solid(ps.items@, ps.pos as int); }
                let ghost before = *ps;
                let next = ps.next();
                proof { lemma_no_stop_step(before, *ps); }
                match next {
                    Some(tt) => Some(single_unknown(tt)),
                    None => None,
                }
            } else {
                collect_unknown(ps)
            }
        },
        TokenTree::Colon(_) => {
            let op = match parse_colon(ps) {
                Some(op) => op,
                None => return None,
            };
            let ghost s1 = *ps;
            match ps.peek_with_whitespace() {
                Some(peek2) => {
                    if peek2.is_ident_or_function() {
                        let name = parse_ident_or_function(ps);
                        proof { lemma_no_stop_trans(*old(ps), s1, *ps); }
                        match name {
                            Some(name) => Some(Selector::PseudoClass(op, name)),
                            None => None,
                        }
                    } else if peek2.is_colon() {
                        let op2 = match parse_colon(ps) {
                            Some(op2) => op2,
                            None => return None,
                        };
                        proof { lemma_no_stop_trans(*old(ps), s1, *ps); }
                        let ghost s2 = *ps;
                        let is_name = match ps.peek_with_whitespace() {
                            Some(p3) => p3.is_ident_or_function(),
                            None => false,
                        };
                        if is_name {
                            let name = parse_ident_or_function(ps);
                            proof { lemma_no_stop_trans(*old(ps), s2, *ps); }
                            match name {
                                Some(name) => Some(Selector::PseudoElement(op, op2, name)),
                                None => None,
                            }
                        } else {
                            let mut v: Vec<TokenTree> = Vec::new();
                            v.push(TokenTree::Colon(op));
                            v.push(TokenTree::Colon(op2));
                            Some(Selector::Unknown(List::from_vec(v)))
                        }
                    } else {
                        Some(single_unknown(TokenTree::Colon(op)))
                    }
                },
                None => Some(single_unknown(TokenTree::Colon(op))),
            }
        },
        TokenTree::Ident(_) => match parse_ident(ps) {
            Some(x) => Some(Selector::TagName(x)),
            None => None,
        },
        TokenTree::IDHash(_) => match parse_id_hash(ps) {
            Some(x) => Some(Selector::Id(x)),
            None => None,
        },
        TokenTree::Bracket(_) => match parse_bracket_token_list(ps) {
            Some(x) => Some(Selector::Attribute(x)),
            None => {
                proof { lemma_first_solid(ps.items@, ps.pos as int); }
                let ghost before_next = *ps;
                let next = ps.next();
                proof { lemma_no_stop_step(before_next, *ps); }
                match next {
                    Some(tt) => Some(single_unknown(tt)),
                    None => None,
                }
            },
        },
        _ => collect_unknown(ps),
    }
}

/// Reads selector components while there are some: a compound or complex selector.
pub fn parse_selector_list(ps: &mut ParseState) -> (r: Option<List<Selector>>)
    requires
        old(ps).wf(),
    ensures
        final(ps).no_stop_since(old(ps)),
        final(ps).follows(old(ps)),
        r is Some ==> final(ps).pos > old(ps).pos,
        !old(ps).at_end() && starts_selector(old(ps).next_tree().kind()) ==> r is Some,
        old(ps).at_end() || (!old(ps).at_end() && ({ let k = old(ps).next_tree().kind(); k is Semicolon || k is CurlyBracketBlock }))
            ==> r is None && final(ps).pos == old(ps).pos,
{
    let mut items: Vec<Selector> = Vec::new();
    loop
        invariant_except_break
            items@.len() == 0 ==> ps.pos == old(ps).pos,
        invariant
            ps.follows(old(ps)),
            ps.no_stop_since(old(ps)),
            items@.len() > 0 ==> ps.pos > old(ps).pos,
            (old(ps).at_end() || (!old(ps).at_end() && ({ let k = old(ps).next_tree().kind(); k is Semicolon || k is CurlyBracketBlock })))
                ==> items@.len() == 0,
        ensures
            ps.follows(old(ps)),
            ps.no_stop_since(old(ps)),
            items@.len() > 0 ==> ps.pos > old(ps).pos,
            (old(ps).at_end() || (!old(ps).at_end() && ({ let k = old(ps).next_tree().kind(); k is Semicolon || k is CurlyBracketBlock })))
                ==> items@.len() == 0 && ps.pos == old(ps).pos,
            (!old(ps).at_end() && starts_selector(old(ps).next_tree().kind())) ==> items@.len() > 0,
        decreases ps.remaining(),
    {
        let ghost before = *ps;
        match parse_selector(ps) {
            Some(c) => items.push(c),
            None => break ,
        }
        proof { lemma_no_stop_trans(*old(ps), before, *ps); }
    }
    if items.len() == 0 {
        None
    } else {
        Some(List::from_vec(items))
    }
}

/// What reading comma-separated selector lists from `before` to `after` gives: something
/// exactly when a selector starts there, nothing (and nothing read) at the end of the level or
/// before a semicolon or a `{` block.
pub open spec fn selectors_read<'a>(before: ParseState<'a>, after: ParseState<'a>, r: Option<Repeat<List<Selector>, Comma>>) -> bool {
    &&& after.follows(&before)
    &&& after.no_stop_since(&before)
    &&& r is Some ==> after.pos > before.pos
    &&& !before.at_end() && starts_selector(before.next_tree().kind()) ==> r is Some
    &&& before.at_end() || (!before.at_end() && ({ let k = before.next_tree().kind(); k is Semicolon || k is CurlyBracketBlock }))
            ==> r is None && after.pos == before.pos
}

/// Reads comma-separated selector lists.
pub fn parse_selector_repeat(ps: &mut ParseState) -> (r: Option<Repeat<List<Selector>, Comma>>)
    requires
        old(ps).wf(),
    ensures
        selectors_read(*old(ps), *final(ps), r),
{
    let mut items: Vec<(List<Selector>, Option<Comma>)> = Vec::new();
    loop
        invariant_except_break
            items@.len() == 0 ==> ps.pos == old(ps).pos,
        invariant
            ps.follows(old(ps)),
            ps.no_stop_since(old(ps)),
            items@.len() > 0 ==> ps.pos > old(ps).pos,
            (old(ps).at_end() || (!old(ps).at_end() && ({ let k = old(ps).next_tree().kind(); k is Semicolon || k is CurlyBracketBlock })))
                ==> items@.len() == 0,
        ensures
            ps.follows(old(ps)),
            ps.no_stop_since(old(ps)),
            items@.len() > 0 ==> ps.pos > old(ps).pos,
            (old(ps).at_end() || (!old(ps).at_end() && ({ let k = old(ps).next_tree().kind(); k is Semicolon || k is CurlyBracketBlock })))
                ==> items@.len() == 0 && ps.pos == old(ps).pos,
            (!old(ps).at_end() && starts_selector(old(ps).next_tree().kind())) ==> items@.len() > 0,
        decreases ps.remaining(),
    {
        let ghost before = *ps;
        let c = match parse_selector_list(ps) {
            Some(c) => c,
            None => break ,
        };
        let ghost mid = *ps;
        let s = parse_comma(ps);
        proof {
            lemma_no_stop_trans(*old(ps), before, mid);
            lemma_no_stop_trans(*old(ps), mid, *ps);
        }
        let ended = s.is_none();
        items.push((c, s));
        if ended {
            break ;
        }
    }
    if items.len() == 0 {
        None
    } else {
        Some(Repeat::from_vec(items))
    }
}

} // verus!
