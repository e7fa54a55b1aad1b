//! Finding the token of a style sheet at a source position, classified by where it stands.

use vstd::prelude::*;
use crate::position::{
    Location, Position, exclusive_contains, inclusive_contains, pos_le, pos_lt,
    spec_exclusive_contains, spec_inclusive_contains,
};
use crate::wxss::token::{
    AtKeyword, Bracket, Brace, Colon, Function, Ident, IDHash, NamedToken, Numeric, Operator,
    Paren, Percentage, QuotedString, TokenTree, BraceOrSemicolon,
};
use crate::wxss::list::{List, MaybeUnknown, Repeat};
use crate::wxss::rule::{IdentOrFunction, Selector};
use crate::wxss::media::{MediaAndKeyword, MediaFeature, MediaOrKeyword, MediaQueryList, MediaType};
use crate::wxss::sheet::{Keyframe, Rule, RuleOrProperty, StyleSheet};
use crate::wxss::token::Comma;
use crate::wxss::location::span;
use crate::text::str_eq;

use crate::name_set::{add_all_names, add_names, views};

verus! {

/// A token found at a position, with the role it plays there. `Blank` stands for a position that
/// lies inside the searched items but on no token of interest (an operator, a number, or the
/// space between two tokens).
#[derive(Debug)]
pub enum SheetToken<'a> {
    Blank,
    Keyword(&'a Ident),
    Ident(&'a Ident),
    AtKeyword(&'a AtKeyword),
    Hash(&'a NamedToken),
    IDHash(&'a IDHash),
    QuotedString(&'a QuotedString),
    UnquotedUrl(&'a NamedToken),
    Function(&'a Function<Vec<TokenTree>>),
    Paren(&'a Paren<Vec<TokenTree>>),
    Bracket(&'a Bracket<Vec<TokenTree>>),
    Brace(&'a Brace<Vec<TokenTree>>),
    BadUrl(&'a NamedToken),
    BadString(&'a NamedToken),
    TagName(&'a Ident),
    Id(&'a IDHash),
    Class(&'a Operator, &'a Ident),
    PseudoClass(&'a Colon, &'a IdentOrFunction),
    PseudoElement(&'a Colon, &'a Colon, &'a IdentOrFunction),
    PropertyName(&'a Ident),
    StyleRuleUnknownIdent(&'a Ident),
    FontFacePropertyName(&'a Ident),
    MediaType(&'a Ident),
    MediaFeatureName(&'a Ident),
    KeyframesName(&'a Ident),
    KeyframeProgressName(&'a Ident),
    KeyframeProgressPercentage(&'a Percentage),
    ImportUrl(&'a QuotedString),
}

/// The first of two results that is there.
pub open spec fn or_else<'a>(a: Option<SheetToken<'a>>, b: Option<SheetToken<'a>>) -> Option<SheetToken<'a>> {
    if a is Some {
        a
    } else {
        b
    }
}

/// The number of leading tokens that end at or before `pos`.
pub open spec fn first_not_before(tts: Seq<TokenTree>, pos: Position) -> int
    decreases tts.len(),
{
    if tts.len() == 0 {
        0
    } else if pos_le(tts[0].spec_location().end, pos) {
        1 + first_not_before(tts.drop_first(), pos)
    } else {
        0
    }
}

/// The token at `pos` among `tts`, tokens that follow one another in the source. With `k` the
/// number of leading tokens that end at or before `pos`: when token `k` holds `pos` strictly
/// inside, the search goes into it; otherwise into token `k - 1`, then into token `k`, and a
/// position between two tokens gives `Blank`.
pub open spec fn token_in_seq<'a>(tts: Seq<TokenTree>, pos: Position) -> Option<SheetToken<'a>>
    decreases tts, 0nat,
{
    let k = first_not_before(tts, pos);
    if 0 <= k < tts.len() && pos_lt(tts[k].spec_location().start, pos) {
        token_in_tree(&tts[k], pos)
    } else {
        let left = if 0 < k <= tts.len() {
            token_in_tree(&tts[k - 1], pos)
        } else {
            None
        };
        let right = if 0 <= k < tts.len() {
            token_in_tree(&tts[k], pos)
        } else {
            None
        };
        or_else(left, or_else(right, if 0 < k < tts.len() { Some(SheetToken::Blank) } else { None }))
    }
}

/// The token at `pos` in a token tree that holds it: the token itself, or for a function or a
/// bracketed group the token inside it, or the group itself when nothing inside is found.
pub open spec fn token_in_tree<'a>(tt: &'a TokenTree, pos: Position) -> Option<SheetToken<'a>>
    decreases tt, 1nat,
{
    let loc = tt.spec_location();
    if !spec_inclusive_contains(loc, pos) {
        None
    } else {
        match tt {
            TokenTree::Ident(x) => Some(SheetToken::Ident(x)),
            TokenTree::AtKeyword(x) => Some(SheetToken::AtKeyword(x)),
            TokenTree::Hash(x) => Some(SheetToken::Hash(x)),
            TokenTree::IDHash(x) => Some(SheetToken::IDHash(x)),
            TokenTree::QuotedString(x) => Some(SheetToken::QuotedString(x)),
            TokenTree::UnquotedUrl(x) => Some(SheetToken::UnquotedUrl(x)),
            TokenTree::BadUrl(x) => Some(SheetToken::BadUrl(x)),
            TokenTree::BadString(x) => Some(SheetToken::BadString(x)),
            TokenTree::Function(x) => or_else(
                or_else(token_in_seq(x.children@, pos), token_in_seq(x.trailing@, pos)),
                if pos_le(loc.start, pos) && pos_lt(pos, loc.end) {
                    Some(SheetToken::Function(x))
                } else {
                    None
                },
            ),
            TokenTree::Paren(x) => or_else(
                or_else(token_in_seq(x.children@, pos), token_in_seq(x.trailing@, pos)),
                if spec_exclusive_contains(loc, pos) { Some(SheetToken::Paren(x)) } else { None },
            ),
            TokenTree::Bracket(x) => or_else(
                or_else(token_in_seq(x.children@, pos), token_in_seq(x.trailing@, pos)),
                if spec_exclusive_contains(loc, pos) { Some(SheetToken::Bracket(x)) } else { None },
            ),
            TokenTree::Brace(x) => or_else(
                or_else(token_in_seq(x.children@, pos), token_in_seq(x.trailing@, pos)),
                if spec_exclusive_contains(loc, pos) { Some(SheetToken::Brace(x)) } else { None },
            ),
            _ => if spec_exclusive_contains(loc, pos) {
                Some(SheetToken::Blank)
            } else {
                None
            },
        }
    }
}

/// `first_not_before` is the length of the prefix of tokens that end at or before `pos`.
pub proof fn lemma_first_not_before(tts: Seq<TokenTree>, pos: Position, k: int)
    requires
        0 <= k <= tts.len(),
        forall|j: int| 0 <= j < k ==> pos_le(#[trigger] tts[j].spec_location().end, pos),
        k < tts.len() ==> !pos_le(tts[k].spec_location().end, pos),
    ensures
        first_not_before(tts, pos) == k,
    decreases k,
{
    if k > 0 {
        let d = tts.drop_first();
        assert forall|j: int| 0 <= j < k - 1 implies pos_le(#[trigger] d[j].spec_location().end, pos) by {
            assert(d[j] == tts[j + 1]);
        }
        assert(pos_le(tts[0].spec_location().end, pos));
        lemma_first_not_before(d, pos, k - 1);
    }
}

/// Finds the token at `pos` among the tokens of a vector.
pub fn find_in_token_tree_list<'a>(tts: &'a Vec<TokenTree>, pos: Position) -> (r: Option<SheetToken<'a>>)
    ensures
        r == token_in_seq(tts@, pos),
    decreases tts@, 0nat,
{
    let n = tts.len();
    let mut k: usize = 0;
    while k < n && tts[k].location().end.le(&pos)
        invariant
            k <= n,
            n == tts@.len(),
            forall|j: int| 0 <= j < k ==> pos_le(#[trigger] tts@[j].spec_location().end, pos),
        decreases n - k,
    {
        k = k + 1;
    }
    proof {
        lemma_first_not_before(tts@, pos, k as int);
    }
    if k < n && tts[k].location().start.lt(&pos) {
        return find_in_token_tree(&tts[k], pos);
    }
    let left = if k > 0 {
        find_in_token_tree(&tts[k - 1], pos)
    } else {
        None
    };
    if left.is_some() {
        return left;
    }
    let right = if k < n {
        find_in_token_tree(&tts[k], pos)
    } else {
        None
    };
    if right.is_some() {
        return right;
    }
    if k > 0 && k < n {
        Some(SheetToken::Blank)
    } else {
        None
    }
}

/// Finds the token at `pos` among the tokens of a list.
pub fn find_in_token_list<'a>(list: &'a List<TokenTree>, pos: Position) -> (r: Option<SheetToken<'a>>)
    ensures
        r == token_in_seq(list@, pos),
{
    let tts = list.refs();
    let n = tts.len();
    let mut k: usize = 0;
    while k < n && tts[k].location().end.le(&pos)
        invariant
            k <= n,
            n == tts@.len(),
            n == list@.len(),
            forall|j: int| 0 <= j < n ==> *tts@[j] == list@[j],
            forall|j: int| 0 <= j < k ==> pos_le(#[trigger] list@[j].spec_location().end, pos),
        decreases n - k,
    {
        k = k + 1;
    }
    proof {
        lemma_first_not_before(list@, pos, k as int);
    }
    if k < n && tts[k].location().start.lt(&pos) {
        return find_in_token_tree(tts[k], pos);
    }
    let left = if k > 0 {
        find_in_token_tree(tts[k - 1], pos)
    } else {
        None
    };
    if left.is_some() {
        return left;
    }
    let right = if k < n {
        find_in_token_tree(tts[k], pos)
    } else {
        None
    };
    if right.is_some() {
        return right;
    }
    if k > 0 && k < n {
        Some(SheetToken::Blank)
    } else {
        None
    }
}

/// Finds the token at `pos` in a token tree.
pub fn find_in_token_tree<'a>(tt: &'a TokenTree, pos: Position) -> (r: Option<SheetToken<'a>>)
    ensures
        r == token_in_tree(tt, pos),
    decreases tt, 1nat,
{
    let loc = tt.location();
    if !inclusive_contains(&loc, pos) {
        return None;
    }
    match tt {
        TokenTree::Ident(x) => Some(SheetToken::Ident(x)),
        TokenTree::AtKeyword(x) => Some(SheetToken::AtKeyword(x)),
        TokenTree::Hash(x) => Some(SheetToken::Hash(x)),
        TokenTree::IDHash(x) => Some(SheetToken::IDHash(x)),
        TokenTree::QuotedString(x) => Some(SheetToken::QuotedString(x)),
        TokenTree::UnquotedUrl(x) => Some(SheetToken::UnquotedUrl(x)),
        TokenTree::BadUrl(x) => Some(SheetToken::BadUrl(x)),
        TokenTree::BadString(x) => Some(SheetToken::BadString(x)),
        TokenTree::Function(x) => {
            let inner = find_in_token_tree_list(&x.children, pos);
            if inner.is_some() {
                return inner;
            }
            let inner = find_in_token_tree_list(&x.trailing, pos);
            if inner.is_some() {
                return inner;
            }
            if loc.start.le(&pos) && pos.lt(&loc.end) {
                Some(SheetToken::Function(x))
            } else {
                None
            }
        },
        TokenTree::Paren(x) => {
            let inner = find_in_token_tree_list(&x.children, pos);
            if inner.is_some() {
                return inner;
            }
            let inner = find_in_token_tree_list(&x.trailing, pos);
            if inner.is_some() {
                return inner;
            }
            if exclusive_contains(&loc, pos) {
                Some(SheetToken::Paren(x))
            } else {
                None
            }
        },
        TokenTree::Bracket(x) => {
            let inner = find_in_token_tree_list(&x.children, pos);
            if inner.is_some() {
                return inner;
            }
            let inner = find_in_token_tree_list(&x.trailing, pos);
            if inner.is_some() {
                return inner;
            }
            if exclusive_contains(&loc, pos) {
                Some(SheetToken::Bracket(x))
            } else {
                None
            }
        },
        TokenTree::Brace(x) => {
            let inner = find_in_token_tree_list(&x.children, pos);
            if inner.is_some() {
                return inner;
            }
            let inner = find_in_token_tree_list(&x.trailing, pos);
            if inner.is_some() {
                return inner;
            }
            if exclusive_contains(&loc, pos) {
                Some(SheetToken::Brace(x))
            } else {
                None
            }
        },
        _ => if exclusive_contains(&loc, pos) {
            Some(SheetToken::Blank)
        } else {
            None
        },
    }
}

/// The token at `pos` in a selector that holds it.
pub open spec fn token_in_selector<'a>(sel: &'a Selector, pos: Position) -> Option<SheetToken<'a>> {
    let loc = sel.spec_location();
    if !spec_inclusive_contains(loc, pos) {
        None
    } else {
        match sel {
            Selector::Unknown(x) => token_in_seq(x@, pos),
            Selector::TagName(x) => Some(SheetToken::TagName(x)),
            Selector::Id(x) => Some(SheetToken::Id(x)),
            Selector::Class(op, x) => Some(SheetToken::Class(op, x)),
            Selector::Attribute(x) => or_else(token_in_seq(x.children@, pos), token_in_seq(x.trailing@, pos)),
            Selector::PseudoClass(op, x) => Some(SheetToken::PseudoClass(op, x)),
            Selector::PseudoElement(op1, op2, x) => Some(SheetToken::PseudoElement(op1, op2, x)),
            _ => if spec_exclusive_contains(loc, pos) {
                Some(SheetToken::Blank)
            } else {
                None
            },
        }
    }
}

/// The token at `pos` in the first of the selectors from `i` on that has one.
pub open spec fn token_in_selectors<'a>(sels: Seq<Selector>, i: int, pos: Position) -> Option<SheetToken<'a>>
    decreases sels.len() - i,
{
    if 0 <= i < sels.len() {
        or_else(token_in_selector(&sels[i], pos), token_in_selectors(sels, i + 1, pos))
    } else {
        None
    }
}

/// The token at `pos` in the first of the selector lists from `i` on that has one.
pub open spec fn token_in_selector_lists<'a>(
    lists: Seq<(List<Selector>, Option<Comma>)>,
    i: int,
    pos: Position,
) -> Option<SheetToken<'a>>
    decreases lists.len() - i,
{
    if 0 <= i < lists.len() {
        or_else(token_in_selectors(lists[i].0@, 0, pos), token_in_selector_lists(lists, i + 1, pos))
    } else {
        None
    }
}

/// The keyword of a media query at `pos`.
pub open spec fn keyword_at<'a>(kw: &'a Ident, pos: Position) -> Option<SheetToken<'a>> {
    if spec_inclusive_contains(kw.location, pos) {
        Some(SheetToken::Keyword(kw))
    } else {
        None
    }
}

/// The token at `pos` in a media query list that holds it. A list without a range (an empty
/// group of tokens at its start or end) gives nothing.
pub open spec fn token_in_media_query_list<'a>(x: &'a MediaQueryList, pos: Position) -> Option<SheetToken<'a>>
    decreases x, 0int,
{
    if !x.located() || !spec_inclusive_contains(x.spec_location(), pos) {
        None
    } else {
        match x {
            MediaQueryList::Unknown(v) => token_in_seq(v@, pos),
            MediaQueryList::Sub(p) => or_else(token_in_media_query_list(&*p.children, pos), token_in_seq(p.trailing@, pos)),
            MediaQueryList::Not(kw, sub) => if spec_inclusive_contains(kw.location, pos) {
                Some(SheetToken::Keyword(kw))
            } else {
                token_in_media_query_list(&**sub, pos)
            },
            MediaQueryList::Only(kw, sub) => if spec_inclusive_contains(kw.location, pos) {
                Some(SheetToken::Keyword(kw))
            } else {
                token_in_media_query_list(&**sub, pos)
            },
            MediaQueryList::And(list) => token_in_and_list(list@, 0, pos),
            MediaQueryList::Or(list) => token_in_or_list(list@, 0, pos),
            MediaQueryList::MediaType(t) => if spec_inclusive_contains(t.spec_location(), pos) {
                Some(SheetToken::MediaType(media_type_ident(t)))
            } else {
                None
            },
            MediaQueryList::MediaFeature(p) => or_else(
                match &p.children {
                    MediaFeature::Unknown(l) => token_in_seq(l@, pos),
                    MediaFeature::Condition(k, _, v) => if spec_inclusive_contains(k.location, pos) {
                        Some(SheetToken::MediaFeatureName(k))
                    } else {
                        token_in_seq(v@, pos)
                    },
                },
                token_in_seq(p.trailing@, pos),
            ),
        }
    }
}

/// The identifier of a media type.
pub open spec fn media_type_ident(t: &MediaType) -> &Ident {
    match t {
        MediaType::Unknown(x) => x,
        MediaType::All(x) => x,
        MediaType::Screen(x) => x,
        MediaType::Print(x) => x,
    }
}

/// The token at `pos` in the first of the `and`-joined conditions from `i` on that has one: in
/// the condition itself, or in the `and` after it.
pub open spec fn token_in_and_list<'a>(list: Seq<(MediaQueryList, MediaAndKeyword)>, i: int, pos: Position) -> Option<SheetToken<'a>>
    decreases list, list.len() - i,
{
    if 0 <= i < list.len() {
        or_else(
            or_else(token_in_media_query_list(&list[i].0, pos), match &list[i].1 {
                MediaAndKeyword::Absent => None,
                MediaAndKeyword::And(k) => keyword_at(k, pos),
            }),
            token_in_and_list(list, i + 1, pos),
        )
    } else {
        None
    }
}

/// The token at `pos` in the first of the `or`- or comma-joined conditions from `i` on that has
/// one: in the condition itself, or in the `or` after it.
pub open spec fn token_in_or_list<'a>(list: Seq<(MediaQueryList, MediaOrKeyword)>, i: int, pos: Position) -> Option<SheetToken<'a>>
    decreases list, list.len() - i,
{
    if 0 <= i < list.len() {
        or_else(
            or_else(token_in_media_query_list(&list[i].0, pos), match &list[i].1 {
                MediaOrKeyword::Or(k) => keyword_at(k, pos),
                _ => None,
            }),
            token_in_or_list(list, i + 1, pos),
        )
    } else {
        None
    }
}

/// Finds the token at `pos` in a selector.
pub fn find_in_selector<'a>(sel: &'a Selector, pos: Position) -> (r: Option<SheetToken<'a>>)
    ensures
        r == token_in_selector(sel, pos),
{
    let loc = sel.location();
    if !inclusive_contains(&loc, pos) {
        return None;
    }
    match sel {
        Selector::Unknown(x) => find_in_token_list(x, pos),
        Selector::TagName(x) => Some(SheetToken::TagName(x)),
        Selector::Id(x) => Some(SheetToken::Id(x)),
        Selector::Class(op, x) => Some(SheetToken::Class(op, x)),
        Selector::Attribute(x) => {
            let inner = find_in_token_list(&x.children, pos);
            if inner.is_some() {
                inner
            } else {
                find_in_token_tree_list(&x.trailing, pos)
            }
        },
        Selector::PseudoClass(op, x) => Some(SheetToken::PseudoClass(op, x)),
        Selector::PseudoElement(op1, op2, x) => Some(SheetToken::PseudoElement(op1, op2, x)),
        _ => if exclusive_contains(&loc, pos) {
            Some(SheetToken::Blank)
        } else {
            None
        },
    }
}

/// Finds the token at `pos` in the selectors of a style rule.
pub fn find_in_selector_repeat<'a>(rep: &'a Repeat<List<Selector>, Comma>, pos: Position) -> (r: Option<SheetToken<'a>>)
    ensures
        r == token_in_selector_lists(rep@, 0, pos),
{
    let lists = rep.as_vec();
    let mut i: usize = 0;
    while i < lists.len()
        invariant
            lists@ == rep@,
            i <= lists@.len(),
            token_in_selector_lists(rep@, 0, pos) == token_in_selector_lists(rep@, i as int, pos),
        decreases lists@.len() - i,
    {
        let sels = lists[i].0.refs();
        let mut j: usize = 0;
        while j < sels.len()
            invariant
                lists@ == rep@,
                i < lists@.len(),
                sels@.len() == rep@[i as int].0@.len(),
                forall|t: int| 0 <= t < sels@.len() ==> *sels@[t] == rep@[i as int].0@[t],
                j <= sels@.len(),
                token_in_selector_lists(rep@, 0, pos) == token_in_selector_lists(rep@, i as int, pos),
                token_in_selector_lists(rep@, i as int, pos) == or_else(
                    token_in_selectors(rep@[i as int].0@, 0, pos),
                    token_in_selector_lists(rep@, i + 1, pos),
                ),
                token_in_selectors(rep@[i as int].0@, 0, pos) == token_in_selectors(rep@[i as int].0@, j as int, pos),
            decreases sels@.len() - j,
        {
            let found = find_in_selector(sels[j], pos);
            proof {
                assert(token_in_selectors(rep@[i as int].0@, j as int, pos) == or_else(
                    token_in_selector(&rep@[i as int].0@[j as int], pos),
                    token_in_selectors(rep@[i as int].0@, j + 1, pos),
                ));
            }
            if found.is_some() {
                return found;
            }
            j = j + 1;
        }
        proof {
            assert(token_in_selectors(rep@[i as int].0@, j as int, pos) is None);
        }
        i = i + 1;
    }
    None
}

/// Finds the token at `pos` in a media query list.
pub fn find_in_media_query_list<'a>(x: &'a MediaQueryList, pos: Position) -> (r: Option<SheetToken<'a>>)
    ensures
        r == token_in_media_query_list(x, pos),
    decreases x, 0int,
{
    if !x.has_location() {
        return None;
    }
    let loc = x.location();
    if !inclusive_contains(&loc, pos) {
        return None;
    }
    match x {
        MediaQueryList::Unknown(v) => find_in_token_tree_list(v, pos),
        MediaQueryList::Sub(p) => {
            let inner = find_in_media_query_list(&*p.children, pos);
            if inner.is_some() {
                inner
            } else {
                find_in_token_tree_list(&p.trailing, pos)
            }
        },
        MediaQueryList::Not(kw, sub) => if inclusive_contains(&kw.location, pos) {
            Some(SheetToken::Keyword(kw))
        } else {
            find_in_media_query_list(&**sub, pos)
        },
        MediaQueryList::Only(kw, sub) => if inclusive_contains(&kw.location, pos) {
            Some(SheetToken::Keyword(kw))
        } else {
            find_in_media_query_list(&**sub, pos)
        },
        MediaQueryList::And(list) => {
            let mut i: usize = 0;
            while i < list.len()
                invariant
                    i <= list@.len(),
                    *x == MediaQueryList::And(*list),
                    token_in_media_query_list(x, pos) == token_in_and_list(list@, 0, pos),
                    token_in_and_list(list@, 0, pos) == token_in_and_list(list@, i as int, pos),
                decreases list@.len() - i,
            {
                let item = &list[i];
                proof {
                    assert(decreases_to!(*x => list@[i as int].0));
                }
                let found = find_in_media_query_list(&item.0, pos);
                if found.is_some() {
                    return found;
                }
                match &item.1 {
                    MediaAndKeyword::Absent => {},
                    MediaAndKeyword::And(k) => {
                        if inclusive_contains(&k.location, pos) {
                            return Some(SheetToken::Keyword(k));
                        }
                    },
                }
                i = i + 1;
            }
            None
        },
        MediaQueryList::Or(list) => {
            let mut i: usize = 0;
            while i < list.len()
                invariant
                    i <= list@.len(),
                    *x == MediaQueryList::Or(*list),
                    token_in_media_query_list(x, pos) == token_in_or_list(list@, 0, pos),
                    token_in_or_list(list@, 0, pos) == token_in_or_list(list@, i as int, pos),
                decreases list@.len() - i,
            {
                let item = &list[i];
                proof {
                    assert(decreases_to!(*x => list@[i as int].0));
                }
                let found = find_in_media_query_list(&item.0, pos);
                if found.is_some() {
                    return found;
                }
                match &item.1 {
                    MediaOrKeyword::Or(k) => {
                        if inclusive_contains(&k.location, pos) {
                            return Some(SheetToken::Keyword(k));
                        }
                    },
                    _ => {},
                }
                i = i + 1;
            }
            None
        },
        MediaQueryList::MediaType(t) => {
            if inclusive_contains(&t.location(), pos) {
                let kw = match t {
                    MediaType::Unknown(k) => k,
                    MediaType::All(k) => k,
                    MediaType::Screen(k) => k,
                    MediaType::Print(k) => k,
                };
                Some(SheetToken::MediaType(kw))
            } else {
                None
            }
        },
        MediaQueryList::MediaFeature(p) => {
            let inner = match &p.children {
                MediaFeature::Unknown(l) => find_in_token_list(l, pos),
                MediaFeature::Condition(k, _, v) => if inclusive_contains(&k.location, pos) {
                    Some(SheetToken::MediaFeatureName(k))
                } else {
                    find_in_token_tree_list(v, pos)
                },
            };
            if inner.is_some() {
                inner
            } else {
                find_in_token_tree_list(&p.trailing, pos)
            }
        },
    }
}

/// The token at `pos` in a property: its name, or a token of its value.
pub open spec fn token_in_rule_or_property<'a>(x: &'a RuleOrProperty, pos: Position) -> Option<SheetToken<'a>>
    decreases x, 0int,
{
    match x {
        RuleOrProperty::Rule(r) => token_in_rule(r, pos),
        RuleOrProperty::Property(p) => if spec_inclusive_contains(p.name.location, pos) {
            Some(SheetToken::PropertyName(&p.name))
        } else {
            token_in_seq(p.value@, pos)
        },
    }
}

/// The token at `pos` in the first of the items of `l` from `i` on that has one.
pub open spec fn token_in_rule_or_property_list<'a>(l: &'a List<RuleOrProperty>, i: int, pos: Position) -> Option<SheetToken<'a>>
    decreases l, l@.len() - i,
{
    if 0 <= i < l@.len() {
        proof {
            List::lemma_item_decreases(*l, i);
        }
        or_else(token_in_rule_or_property(&l@[i], pos), token_in_rule_or_property_list(l, i + 1, pos))
    } else {
        None
    }
}

/// The token at `pos` in a block of rules and properties that holds it.
pub open spec fn token_in_property_body<'a>(
    b: &'a Option<BraceOrSemicolon<List<RuleOrProperty>>>,
    pos: Position,
) -> Option<SheetToken<'a>>
    decreases b, 0int,
{
    match b {
        Some(BraceOrSemicolon::Brace(x)) => if !spec_inclusive_contains(x.spec_location(), pos) {
            None
        } else {
            or_else(token_in_rule_or_property_list(&x.children, 0, pos), token_in_seq(x.trailing@, pos))
        },
        _ => None,
    }
}

/// The token at `pos` in the first of the rules of `l` from `i` on that has one.
pub open spec fn token_in_rule_list<'a>(l: &'a List<Rule>, i: int, pos: Position) -> Option<SheetToken<'a>>
    decreases l, l@.len() - i,
{
    if 0 <= i < l@.len() {
        proof {
            List::lemma_item_decreases(*l, i);
        }
        or_else(token_in_rule(&l@[i], pos), token_in_rule_list(l, i + 1, pos))
    } else {
        None
    }
}

/// The token at `pos` in a keyframe: its progress, or a token of its block.
pub open spec fn token_in_keyframe<'a>(kf: &'a Keyframe, pos: Position) -> Option<SheetToken<'a>>
    decreases kf, 0int,
{
    match kf {
        Keyframe::Named { progress, body } => or_else(
            match progress {
                MaybeUnknown::Unknown(x) => token_in_seq(x@, pos),
                MaybeUnknown::Normal(t, tl) => or_else(
                    if spec_inclusive_contains(t.location, pos) {
                        Some(SheetToken::KeyframeProgressName(t))
                    } else {
                        None
                    },
                    token_in_seq(tl@, pos),
                ),
            },
            token_in_property_body(body, pos),
        ),
        Keyframe::Percentage { progress, body } => or_else(
            match progress {
                MaybeUnknown::Unknown(x) => token_in_seq(x@, pos),
                MaybeUnknown::Normal(t, tl) => or_else(
                    if spec_inclusive_contains(t.location, pos) {
                        Some(SheetToken::KeyframeProgressPercentage(t))
                    } else {
                        None
                    },
                    token_in_seq(tl@, pos),
                ),
            },
            token_in_property_body(body, pos),
        ),
        Keyframe::Unknown(x) => token_in_seq(x@, pos),
    }
}

/// The token at `pos` in the first of the keyframes of `l` from `i` on that has one.
pub open spec fn token_in_keyframe_list<'a>(l: &'a List<Keyframe>, i: int, pos: Position) -> Option<SheetToken<'a>>
    decreases l, l@.len() - i,
{
    if 0 <= i < l@.len() {
        proof {
            List::lemma_item_decreases(*l, i);
        }
        or_else(token_in_keyframe(&l@[i], pos), token_in_keyframe_list(l, i + 1, pos))
    } else {
        None
    }
}

/// An at-keyword at `pos`.
pub open spec fn at_keyword_at<'a>(kw: &'a AtKeyword, pos: Position) -> Option<SheetToken<'a>> {
    if spec_inclusive_contains(kw.location, pos) {
        Some(SheetToken::AtKeyword(kw))
    } else {
        None
    }
}

/// The token at `pos` in a rule, classified by where it stands in the rule.
pub open spec fn token_in_rule<'a>(r: &'a Rule, pos: Position) -> Option<SheetToken<'a>>
    decreases r, 0int,
{
    match r {
        Rule::Unknown(x) => match token_in_seq(x@, pos) {
            Some(SheetToken::Ident(i)) => if x@[0].spec_location() == i.location {
                Some(SheetToken::StyleRuleUnknownIdent(i))
            } else {
                Some(SheetToken::Ident(i))
            },
            o => o,
        },
        Rule::Style(s) => or_else(
            token_in_selector_lists(s.selector@, 0, pos),
            token_in_property_body(&s.brace, pos),
        ),
        Rule::Import(i) => if at_keyword_at(&i.at_import, pos) is Some {
            at_keyword_at(&i.at_import, pos)
        } else {
            or_else(
                match &i.url {
                    MaybeUnknown::Unknown(x) => token_in_seq(x@, pos),
                    MaybeUnknown::Normal(t, tl) => or_else(
                        if spec_inclusive_contains(t.location, pos) {
                            Some(SheetToken::ImportUrl(t))
                        } else {
                            None
                        },
                        token_in_seq(tl@, pos),
                    ),
                },
                token_in_seq(i.condition@, pos),
            )
        },
        Rule::Media(m) => if at_keyword_at(&m.at_media, pos) is Some {
            at_keyword_at(&m.at_media, pos)
        } else {
            or_else(
                match &m.list {
                    Some(l) => token_in_media_query_list(l, pos),
                    None => None,
                },
                match &m.body {
                    Some(BraceOrSemicolon::Brace(x)) => if !spec_inclusive_contains(x.spec_location(), pos) {
                        None
                    } else {
                        or_else(token_in_rule_list(&x.children, 0, pos), token_in_seq(x.trailing@, pos))
                    },
                    _ => None,
                },
            )
        },
        Rule::FontFace(f) => if at_keyword_at(&f.at_font_face, pos) is Some {
            at_keyword_at(&f.at_font_face, pos)
        } else {
            match token_in_property_body(&f.body, pos) {
                Some(SheetToken::PropertyName(x)) => Some(SheetToken::FontFacePropertyName(x)),
                o => o,
            }
        },
        Rule::Keyframes(k) => if at_keyword_at(&k.at_keyframes, pos) is Some {
            at_keyword_at(&k.at_keyframes, pos)
        } else {
            or_else(
                match &k.name {
                    MaybeUnknown::Unknown(x) => token_in_seq(x@, pos),
                    MaybeUnknown::Normal(t, tl) => or_else(
                        if spec_inclusive_contains(t.location, pos) {
                            Some(SheetToken::KeyframesName(t))
                        } else {
                            None
                        },
                        token_in_seq(tl@, pos),
                    ),
                },
                match &k.body {
                    Some(BraceOrSemicolon::Brace(x)) => if !spec_inclusive_contains(x.spec_location(), pos) {
                        None
                    } else {
                        or_else(token_in_keyframe_list(&x.children, 0, pos), token_in_seq(x.trailing@, pos))
                    },
                    _ => None,
                },
            )
        },
        Rule::UnknownAtRule(kw, x) => if at_keyword_at(kw, pos) is Some {
            at_keyword_at(kw, pos)
        } else {
            token_in_seq(x@, pos)
        },
    }
}

/// The token at `pos` in the first of the rules from `i` on that has one.
pub open spec fn token_in_rules<'a>(rules: Seq<Rule>, i: int, pos: Position) -> Option<SheetToken<'a>>
    decreases rules.len() - i,
{
    if 0 <= i < rules.len() {
        or_else(token_in_rule(&rules[i], pos), token_in_rules(rules, i + 1, pos))
    } else {
        None
    }
}

/// The token of a style sheet at `pos`: the one that the first rule holding one gives, or
/// `Blank` when no rule does.
pub open spec fn token_in_sheet<'a>(sheet: &'a StyleSheet, pos: Position) -> SheetToken<'a> {
    match token_in_rules(sheet.items@, 0, pos) {
        Some(t) => t,
        None => SheetToken::Blank,
    }
}

/// Finds the token at `pos` in a rule or property.
pub fn find_in_rule_or_property<'a>(x: &'a RuleOrProperty, pos: Position) -> (r: Option<SheetToken<'a>>)
    ensures
        r == token_in_rule_or_property(x, pos),
    decreases x, 0int,
{
    match x {
        RuleOrProperty::Rule(r) => find_in_rule(r, pos),
        RuleOrProperty::Property(p) => if inclusive_contains(&p.name.location, pos) {
            Some(SheetToken::PropertyName(&p.name))
        } else {
            find_in_token_tree_list(&p.value, pos)
        },
    }
}

/// Finds the token at `pos` in the first item of `l` that has one.
pub fn find_in_rule_or_property_list<'a>(l: &'a List<RuleOrProperty>, pos: Position) -> (r: Option<SheetToken<'a>>)
    ensures
        r == token_in_rule_or_property_list(l, 0, pos),
    decreases l, 0int,
{
    let items = l.refs();
    let mut i: usize = 0;
    while i < items.len()
        invariant
            items@.len() == l@.len(),
            forall|t: int| 0 <= t < items@.len() ==> *items@[t] == l@[t],
            i <= items@.len(),
            token_in_rule_or_property_list(l, 0, pos) == token_in_rule_or_property_list(l, i as int, pos),
        decreases items@.len() - i,
    {
        proof {
            List::lemma_item_decreases(*l, i as int);
        }
        let found = find_in_rule_or_property(items[i], pos);
        if found.is_some() {
            return found;
        }
        i = i + 1;
    }
    None
}

/// Finds the token at `pos` in a block of rules and properties.
pub fn find_in_property_body<'a>(
    b: &'a Option<BraceOrSemicolon<List<RuleOrProperty>>>,
    pos: Position,
) -> (r: Option<SheetToken<'a>>)
    ensures
        r == token_in_property_body(b, pos),
    decreases b, 0int,
{
    match b {
        Some(BraceOrSemicolon::Brace(x)) => if !inclusive_contains(&x.location(), pos) {
            None
        } else {
            let found = find_in_rule_or_property_list(&x.children, pos);
            if found.is_some() {
                found
            } else {
                find_in_token_tree_list(&x.trailing, pos)
            }
        },
        _ => None,
    }
}

/// Finds the token at `pos` in the first rule of `l` that has one.
pub fn find_in_rule_list<'a>(l: &'a List<Rule>, pos: Position) -> (r: Option<SheetToken<'a>>)
    ensures
        r == token_in_rule_list(l, 0, pos),
    decreases l, 0int,
{
    let items = l.refs();
    let mut i: usize = 0;
    while i < items.len()
        invariant
            items@.len() == l@.len(),
            forall|t: int| 0 <= t < items@.len() ==> *items@[t] == l@[t],
            i <= items@.len(),
            token_in_rule_list(l, 0, pos) == token_in_rule_list(l, i as int, pos),
        decreases items@.len() - i,
    {
        proof {
            List::lemma_item_decreases(*l, i as int);
        }
        let found = find_in_rule(items[i], pos);
        if found.is_some() {
            return found;
        }
        i = i + 1;
    }
    None
}

/// Finds the token at `pos` in a keyframe.
pub fn find_in_keyframe<'a>(kf: &'a Keyframe, pos: Position) -> (r: Option<SheetToken<'a>>)
    ensures
        r == token_in_keyframe(kf, pos),
    decreases kf, 0int,
{
    match kf {
        Keyframe::Named { progress, body } => {
            let found = match progress {
                MaybeUnknown::Unknown(x) => find_in_token_tree_list(x, pos),
                MaybeUnknown::Normal(t, tl) => if inclusive_contains(&t.location, pos) {
                    Some(SheetToken::KeyframeProgressName(t))
                } else {
                    find_in_token_tree_list(tl, pos)
                },
            };
            if found.is_some() {
                found
            } else {
                find_in_property_body(body, pos)
            }
        },
        Keyframe::Percentage { progress, body } => {
            let found = match progress {
                MaybeUnknown::Unknown(x) => find_in_token_tree_list(x, pos),
                MaybeUnknown::Normal(t, tl) => if inclusive_contains(&t.location, pos) {
                    Some(SheetToken::KeyframeProgressPercentage(t))
                } else {
                    find_in_token_tree_list(tl, pos)
                },
            };
            if found.is_some() {
                found
            } else {
                find_in_property_body(body, pos)
            }
        },
        Keyframe::Unknown(x) => find_in_token_tree_list(x, pos),
    }
}

/// Finds the token at `pos` in the first keyframe of `l` that has one.
pub fn find_in_keyframe_list<'a>(l: &'a List<Keyframe>, pos: Position) -> (r: Option<SheetToken<'a>>)
    ensures
        r == token_in_keyframe_list(l, 0, pos),
    decreases l, 0int,
{
    let items = l.refs();
    let mut i: usize = 0;
    while i < items.len()
        invariant
            items@.len() == l@.len(),
            forall|t: int| 0 <= t < items@.len() ==> *items@[t] == l@[t],
            i <= items@.len(),
            token_in_keyframe_list(l, 0, pos) == token_in_keyframe_list(l, i as int, pos),
        decreases items@.len() - i,
    {
        proof {
            List::lemma_item_decreases(*l, i as int);
        }
        let found = find_in_keyframe(items[i], pos);
        if found.is_some() {
            return found;
        }
        i = i + 1;
    }
    None
}

/// Finds the token at `pos` in a rule.
pub fn find_in_rule<'a>(r: &'a Rule, pos: Position) -> (res: Option<SheetToken<'a>>)
    ensures
        res == token_in_rule(r, pos),
    decreases r, 0int,
{
    match r {
        Rule::Unknown(x) => {
            let found = find_in_token_list(x, pos);
            match found {
                Some(SheetToken::Ident(i)) => if x.first().location() == i.location {
                    Some(SheetToken::StyleRuleUnknownIdent(i))
                } else {
                    Some(SheetToken::Ident(i))
                },
                o => o,
            }
        },
        Rule::Style(s) => {
            let found = find_in_selector_repeat(&s.selector, pos);
            if found.is_some() {
                found
            } else {
                find_in_property_body(&s.brace, pos)
            }
        },
        Rule::Import(i) => if inclusive_contains(&i.at_import.location, pos) {
            Some(SheetToken::AtKeyword(&i.at_import))
        } else {
            let found = match &i.url {
                MaybeUnknown::Unknown(x) => find_in_token_tree_list(x, pos),
                MaybeUnknown::Normal(t, tl) => if inclusive_contains(&t.location, pos) {
                    Some(SheetToken::ImportUrl(t))
                } else {
                    find_in_token_tree_list(tl, pos)
                },
            };
            if found.is_some() {
                found
            } else {
                find_in_token_tree_list(&i.condition, pos)
            }
        },
        Rule::Media(m) => if inclusive_contains(&m.at_media.location, pos) {
            Some(SheetToken::AtKeyword(&m.at_media))
        } else {
            let found = match &m.list {
                Some(l) => find_in_media_query_list(l, pos),
                None => None,
            };
            if found.is_some() {
                return found;
            }
            match &m.body {
                Some(BraceOrSemicolon::Brace(x)) => if !inclusive_contains(&x.location(), pos) {
                    None
                } else {
                    let found = find_in_rule_list(&x.children, pos);
                    if found.is_some() {
                        found
                    } else {
                        find_in_token_tree_list(&x.trailing, pos)
                    }
                },
                _ => None,
            }
        },
        Rule::FontFace(f) => if inclusive_contains(&f.at_font_face.location, pos) {
            Some(SheetToken::AtKeyword(&f.at_font_face))
        } else {
            match find_in_property_body(&f.body, pos) {
                Some(SheetToken::PropertyName(x)) => Some(SheetToken::FontFacePropertyName(x)),
                o => o,
            }
        },
        Rule::Keyframes(k) => if inclusive_contains(&k.at_keyframes.location, pos) {
            Some(SheetToken::AtKeyword(&k.at_keyframes))
        } else {
            let found = match &k.name {
                MaybeUnknown::Unknown(x) => find_in_token_tree_list(x, pos),
                MaybeUnknown::Normal(t, tl) => if inclusive_contains(&t.location, pos) {
                    Some(SheetToken::KeyframesName(t))
                } else {
                    find_in_token_tree_list(tl, pos)
                },
            };
            if found.is_some() {
                return found;
            }
            match &k.body {
                Some(BraceOrSemicolon::Brace(x)) => if !inclusive_contains(&x.location(), pos) {
                    None
                } else {
                    let found = find_in_keyframe_list(&x.children, pos);
                    if found.is_some() {
                        found
                    } else {
                        find_in_token_tree_list(&x.trailing, pos)
                    }
                },
                _ => None,
            }
        },
        Rule::UnknownAtRule(kw, x) => if inclusive_contains(&kw.location, pos) {
            Some(SheetToken::AtKeyword(kw))
        } else {
            find_in_token_tree_list(x, pos)
        },
    }
}

/// The token of a style sheet at `pos`: the one found in the first rule that holds one, or
/// `Blank`.
pub fn find_token_in_position<'a>(sheet: &'a StyleSheet, pos: Position) -> (r: SheetToken<'a>)
    ensures
        r == token_in_sheet(sheet, pos),
{
    let mut i: usize = 0;
    while i < sheet.items.len()
        invariant
            i <= sheet.items@.len(),
            token_in_rules(sheet.items@, 0, pos) == token_in_rules(sheet.items@, i as int, pos),
        decreases sheet.items@.len() - i,
    {
        match find_in_rule(&sheet.items[i], pos) {
            Some(t) => return t,
            None => {},
        }
        i = i + 1;
    }
    SheetToken::Blank
}

/// The selectors of the style rules inside a rule, nested blocks included, in source order.
pub open spec fn rule_selectors<'a>(r: &'a Rule) -> Seq<&'a Selector>
    decreases r, 0int,
{
    match r {
        Rule::Style(s) => selector_lists_selectors(s.selector@, 0) + match &s.brace {
            Some(BraceOrSemicolon::Brace(b)) => rule_or_property_list_selectors(&b.children, 0),
            _ => Seq::empty(),
        },
        Rule::Media(m) => match &m.body {
            Some(BraceOrSemicolon::Brace(b)) => rule_list_selectors(&b.children, 0),
            _ => Seq::empty(),
        },
        _ => Seq::empty(),
    }
}

/// The selectors of the selector lists from `i` on.
pub open spec fn selector_lists_selectors<'a>(lists: Seq<(List<Selector>, Option<Comma>)>, i: int) -> Seq<&'a Selector>
    decreases lists.len() - i,
{
    if 0 <= i < lists.len() {
        selectors_from(lists[i].0@, 0) + selector_lists_selectors(lists, i + 1)
    } else {
        Seq::empty()
    }
}

/// References to the selectors from `i` on.
pub open spec fn selectors_from<'a>(sels: Seq<Selector>, i: int) -> Seq<&'a Selector>
    decreases sels.len() - i,
{
    if 0 <= i < sels.len() {
        seq![&sels[i]] + selectors_from(sels, i + 1)
    } else {
        Seq::empty()
    }
}

/// The selectors of the rules among the items of `l` from `i` on.
pub open spec fn rule_or_property_list_selectors<'a>(l: &'a List<RuleOrProperty>, i: int) -> Seq<&'a Selector>
    decreases l, l@.len() - i,
{
    if 0 <= i < l@.len() {
        proof {
            List::lemma_item_decreases(*l, i);
        }
        (match &l@[i] {
            RuleOrProperty::Rule(r) => rule_selectors(r),
            RuleOrProperty::Property(_) => Seq::empty(),
        }) + rule_or_property_list_selectors(l, i + 1)
    } else {
        Seq::empty()
    }
}

/// The selectors of the rules of `l` from `i` on.
pub open spec fn rule_list_selectors<'a>(l: &'a List<Rule>, i: int) -> Seq<&'a Selector>
    decreases l, l@.len() - i,
{
    if 0 <= i < l@.len() {
        proof {
            List::lemma_item_decreases(*l, i);
        }
        rule_selectors(&l@[i]) + rule_list_selectors(l, i + 1)
    } else {
        Seq::empty()
    }
}

/// The selectors of the rules from `i` on.
pub open spec fn rules_selectors<'a>(rules: Seq<Rule>, i: int) -> Seq<&'a Selector>
    decreases rules.len() - i,
{
    if 0 <= i < rules.len() {
        rule_selectors(&rules[i]) + rules_selectors(rules, i + 1)
    } else {
        Seq::empty()
    }
}

/// Appends the selectors of a selector list.
fn push_selector_list<'a>(l: &'a List<Selector>, out: &mut Vec<&'a Selector>)
    ensures
        final(out)@ == old(out)@ + selectors_from(l@, 0),
{
    let sels = l.refs();
    let ghost o = out@;
    let mut i: usize = 0;
    while i < sels.len()
        invariant
            sels@.len() == l@.len(),
            forall|t: int| 0 <= t < sels@.len() ==> *sels@[t] == l@[t],
            i <= sels@.len(),
            out@ + selectors_from(l@, i as int) == o + selectors_from(l@, 0),
        decreases sels@.len() - i,
    {
        proof {
            assert(selectors_from(l@, i as int) == seq![&l@[i as int]] + selectors_from(l@, i + 1));
            assert(out@.push(sels@[i as int]) + selectors_from(l@, i + 1) =~= out@ + selectors_from(l@, i as int));
        }
        out.push(sels[i]);
        i = i + 1;
    }
    proof {
        assert(out@ + selectors_from(l@, i as int) =~= out@);
    }
}

/// Appends the selectors of the style rules inside a rule.
pub fn push_rule_selectors<'a>(r: &'a Rule, out: &mut Vec<&'a Selector>)
    ensures
        final(out)@ == old(out)@ + rule_selectors(r),
    decreases r, 0int,
{
    let ghost o = out@;
    match r {
        Rule::Style(s) => {
            let lists = s.selector.as_vec();
            let mut i: usize = 0;
            while i < lists.len()
                invariant
                    lists@ == s.selector@,
                    i <= lists@.len(),
                    out@ + selector_lists_selectors(s.selector@, i as int) == o + selector_lists_selectors(s.selector@, 0),
                decreases lists@.len() - i,
            {
                let ghost before = out@;
                push_selector_list(&lists[i].0, out);
                proof {
                    assert(out@ + selector_lists_selectors(s.selector@, i + 1) =~= before + selector_lists_selectors(s.selector@, i as int));
                }
                i = i + 1;
            }
            proof {
                assert(out@ + selector_lists_selectors(s.selector@, i as int) =~= out@);
            }
            match &s.brace {
                Some(BraceOrSemicolon::Brace(b)) => {
                    let ghost before = out@;
                    push_rule_or_property_list_selectors(&b.children, out);
                    proof {
                        assert(out@ =~= o + rule_selectors(r));
                    }
                },
                _ => {
                    proof {
                        assert(out@ =~= o + rule_selectors(r));
                    }
                },
            }
        },
        Rule::Media(m) => match &m.body {
            Some(BraceOrSemicolon::Brace(b)) => push_rule_list_selectors(&b.children, out),
            _ => {
                proof {
                    assert(out@ =~= o + rule_selectors(r));
                }
            },
        },
        _ => {
            proof {
                assert(out@ =~= o + rule_selectors(r));
            }
        },
    }
}

/// Appends the selectors of the rules among the items of `l`.
fn push_rule_or_property_list_selectors<'a>(l: &'a List<RuleOrProperty>, out: &mut Vec<&'a Selector>)
    ensures
        final(out)@ == old(out)@ + rule_or_property_list_selectors(l, 0),
    decreases l, 0int,
{
    let items = l.refs();
    let ghost o = out@;
    let mut i: usize = 0;
    while i < items.len()
        invariant
            items@.len() == l@.len(),
            forall|t: int| 0 <= t < items@.len() ==> *items@[t] == l@[t],
            i <= items@.len(),
            out@ + rule_or_property_list_selectors(l, i as int) == o + rule_or_property_list_selectors(l, 0),
        decreases items@.len() - i,
    {
        proof {
            List::lemma_item_decreases(*l, i as int);
        }
        let ghost before = out@;
        match items[i] {
            RuleOrProperty::Rule(r) => {
                push_rule_selectors(r, out);
            },
            RuleOrProperty::Property(_) => {},
        }
        proof {
            assert(out@ + rule_or_property_list_selectors(l, i + 1) =~= before + rule_or_property_list_selectors(l, i as int));
        }
        i = i + 1;
    }
    proof {
        assert(out@ + rule_or_property_list_selectors(l, i as int) =~= out@);
    }
}

/// Appends the selectors of the rules of `l`.
fn push_rule_list_selectors<'a>(l: &'a List<Rule>, out: &mut Vec<&'a Selector>)
    ensures
        final(out)@ == old(out)@ + rule_list_selectors(l, 0),
    decreases l, 0int,
{
    let items = l.refs();
    let ghost o = out@;
    let mut i: usize = 0;
    while i < items.len()
        invariant
            items@.len() == l@.len(),
            forall|t: int| 0 <= t < items@.len() ==> *items@[t] == l@[t],
            i <= items@.len(),
            out@ + rule_list_selectors(l, i as int) == o + rule_list_selectors(l, 0),
        decreases items@.len() - i,
    {
        proof {
            List::lemma_item_decreases(*l, i as int);
        }
        let ghost before = out@;
        push_rule_selectors(items[i], out);
        proof {
            assert(out@ + rule_list_selectors(l, i + 1) =~= before + rule_list_selectors(l, i as int));
        }
        i = i + 1;
    }
    proof {
        assert(out@ + rule_list_selectors(l, i as int) =~= out@);
    }
}

/// The selectors of every style rule of a style sheet, those nested in blocks included, in
/// source order.
pub fn selectors_in_style_sheet<'a>(sheet: &'a StyleSheet) -> (r: Vec<&'a Selector>)
    ensures
        r@ == rules_selectors(sheet.items@, 0),
{
    let mut out: Vec<&'a Selector> = Vec::new();
    let mut i: usize = 0;
    while i < sheet.items.len()
        invariant
            i <= sheet.items@.len(),
            out@ + rules_selectors(sheet.items@, i as int) == rules_selectors(sheet.items@, 0),
        decreases sheet.items@.len() - i,
    {
        let ghost before = out@;
        push_rule_selectors(&sheet.items[i], &mut out);
        proof {
            assert(out@ + rules_selectors(sheet.items@, i + 1) =~= before + rules_selectors(sheet.items@, i as int));
        }
        i = i + 1;
    }
    proof {
        assert(out@ + rules_selectors(sheet.items@, i as int) =~= out@);
    }
    out
}

/// The kind of selector that a search for references looks for.
#[derive(Debug, Clone, Copy, PartialEq, Eq, Structural)]
pub enum SelectorKind {
    TagName,
    Id,
    Class,
}

/// The range of a selector of the given kind and name: the name for a tag or an ID, the dot and
/// the name for a class.
pub open spec fn selector_match_range(sel: Selector, kind: SelectorKind, name: Seq<char>) -> Option<Location> {
    match sel {
        Selector::TagName(y) => if kind == SelectorKind::TagName && y.content@ == name {
            Some(y.location)
        } else {
            None
        },
        Selector::Id(y) => if kind == SelectorKind::Id && y.content@ == name {
            Some(y.location)
        } else {
            None
        },
        Selector::Class(op, y) => if kind == SelectorKind::Class && y.content@ == name {
            Some(span(op.location, y.location))
        } else {
            None
        },
        _ => None,
    }
}

/// The ranges of the selectors from `i` on that have the given kind and name.
pub open spec fn matching_ranges(sels: Seq<&Selector>, kind: SelectorKind, name: Seq<char>, i: int) -> Seq<Location>
    decreases sels.len() - i,
{
    if 0 <= i < sels.len() {
        (match selector_match_range(*sels[i], kind, name) {
            Some(l) => seq![l],
            None => Seq::empty(),
        }) + matching_ranges(sels, kind, name, i + 1)
    } else {
        Seq::empty()
    }
}

/// The walk `s` holds the selector `x`.
pub open spec fn has_selector<'a>(s: Seq<&'a Selector>, x: Selector) -> bool {
    exists|k: int| 0 <= k < s.len() && *s[k] == x
}

proof fn lemma_has_selector_concat<'a>(a: Seq<&'a Selector>, b: Seq<&'a Selector>, x: Selector)
    ensures
        (has_selector(a, x) || has_selector(b, x)) ==> has_selector(a + b, x),
{
    if has_selector(a, x) {
        let k = choose|k: int| 0 <= k < a.len() && *a[k] == x;
        assert((a + b)[k] == a[k]);
    } else if has_selector(b, x) {
        let k = choose|k: int| 0 <= k < b.len() && *b[k] == x;
        assert((a + b)[a.len() + k] == b[k]);
    }
}

proof fn lemma_selectors_from_has(sels: Seq<Selector>, i: int, b: int)
    requires
        0 <= i <= b < sels.len(),
    ensures
        has_selector(selectors_from(sels, i), sels[b]),
    decreases b - i,
{
    let head = seq![&sels[i]];
    let rest = selectors_from(sels, i + 1);
    if i == b {
        assert(*head[0] == sels[b]);
    } else {
        lemma_selectors_from_has(sels, i + 1, b);
    }
    lemma_has_selector_concat(head, rest, sels[b]);
}

proof fn lemma_lists_selectors_has(lists: Seq<(List<Selector>, Option<Comma>)>, i: int, a: int, b: int)
    requires
        0 <= i <= a < lists.len(),
        0 <= b < lists[a].0@.len(),
    ensures
        has_selector(selector_lists_selectors(lists, i), lists[a].0@[b]),
    decreases a - i,
{
    let head = selectors_from(lists[i].0@, 0);
    let rest = selector_lists_selectors(lists, i + 1);
    if i == a {
        lemma_selectors_from_has(lists[a].0@, 0, b);
    } else {
        lemma_lists_selectors_has(lists, i + 1, a, b);
    }
    lemma_has_selector_concat(head, rest, lists[a].0@[b]);
}

proof fn lemma_rule_list_selectors_has<'a>(l: &'a List<Rule>, i: int, k: int, x: Selector)
    requires
        0 <= i <= k < l@.len(),
        has_selector(rule_selectors(&l@[k]), x),
    ensures
        has_selector(rule_list_selectors(l, i), x),
    decreases k - i,
{
    if i < k {
        lemma_rule_list_selectors_has(l, i + 1, k, x);
    }
    lemma_has_selector_concat(rule_selectors(&l@[i]), rule_list_selectors(l, i + 1), x);
}

proof fn lemma_rop_list_selectors_has<'a>(l: &'a List<RuleOrProperty>, i: int, k: int, x: Selector)
    requires
        0 <= i <= k < l@.len(),
        l@[k] is Rule,
        has_selector(rule_selectors(&l@[k]->Rule_0), x),
    ensures
        has_selector(rule_or_property_list_selectors(l, i), x),
    decreases k - i,
{
    if i < k {
        lemma_rop_list_selectors_has(l, i + 1, k, x);
    }
    lemma_has_selector_concat(match &l@[i] {
        RuleOrProperty::Rule(r) => rule_selectors(r),
        RuleOrProperty::Property(_) => Seq::empty(),
    }, rule_or_property_list_selectors(l, i + 1), x);
}

proof fn lemma_rules_selectors_has(rules: Seq<Rule>, i: int, k: int, x: Selector)
    requires
        0 <= i <= k < rules.len(),
        has_selector(rule_selectors(&rules[k]), x),
    ensures
        has_selector(rules_selectors(rules, i), x),
    decreases k - i,
{
    if i < k {
        lemma_rules_selectors_has(rules, i + 1, k, x);
    }
    lemma_has_selector_concat(rule_selectors(&rules[i]), rules_selectors(rules, i + 1), x);
}

proof fn lemma_matching_has<'a>(sels: Seq<&'a Selector>, i: int, x: Selector, kind: SelectorKind, name: Seq<char>)
    requires
        0 <= i,
        exists|k: int| i <= k < sels.len() && *sels[k] == x,
        selector_match_range(x, kind, name) is Some,
    ensures
        matching_ranges(sels, kind, name, i).contains(selector_match_range(x, kind, name)->0),
    decreases sels.len() - i,
{
    let l = selector_match_range(x, kind, name)->0;
    let head: Seq<Location> = match selector_match_range(*sels[i], kind, name) {
        Some(m) => seq![m],
        None => Seq::empty(),
    };
    let rest = matching_ranges(sels, kind, name, i + 1);
    if *sels[i] == x {
        assert(head[0] == l);
        assert((head + rest)[0] == l);
    } else {
        let k = choose|k: int| i <= k < sels.len() && *sels[k] == x;
        assert(k > i);
        lemma_matching_has(sels, i + 1, x, kind, name);
        let j = choose|j: int| 0 <= j < rest.len() && rest[j] == l;
        assert((head + rest)[head.len() + j] == l);
    }
}

/// The selector walk of a style sheet reaches every selector: each selector of a selector list
/// of a style rule is among the selectors of that rule; the selectors of each rule nested in
/// the `{...}` block of a media or style rule are among those of the enclosing rule; those of
/// each rule of the sheet are among those of the sheet; and a search finds the range of every
/// selector of the sheet with the kind and name searched (the name for a tag or an ID, the dot
/// and the name for a class).
pub proof fn lemma_selector_walk_reaches_all(sheet: &StyleSheet, r: &Rule, i: int, k: int, a: int, b: int, x: Selector, kind: SelectorKind, name: Seq<char>)
    ensures
        r is Style && 0 <= a < r->Style_0.selector@.len() && 0 <= b < r->Style_0.selector@[a].0@.len()
            ==> has_selector(rule_selectors(r), r->Style_0.selector@[a].0@[b]),
        r is Media ==> (r->Media_0.body matches Some(BraceOrSemicolon::Brace(bl)) ==> (0 <= k < bl.children@.len()
            && has_selector(rule_selectors(&bl.children@[k]), x) ==> has_selector(rule_selectors(r), x))),
        r is Style ==> (r->Style_0.brace matches Some(BraceOrSemicolon::Brace(bl)) ==> (0 <= k < bl.children@.len()
            && bl.children@[k] is Rule && has_selector(rule_selectors(&bl.children@[k]->Rule_0), x)
            ==> has_selector(rule_selectors(r), x))),
        0 <= i < sheet.items@.len() && has_selector(rule_selectors(&sheet.items@[i]), x)
            ==> has_selector(rules_selectors(sheet.items@, 0), x),
        has_selector(rules_selectors(sheet.items@, 0), x) && selector_match_range(x, kind, name) is Some
            ==> matching_ranges(rules_selectors(sheet.items@, 0), kind, name, 0).contains(selector_match_range(x, kind, name)->0),
{
    match r {
        Rule::Style(st) => {
            let tail: Seq<&Selector> = match &st.brace {
                Some(BraceOrSemicolon::Brace(bl)) => rule_or_property_list_selectors(&bl.children, 0),
                _ => Seq::empty(),
            };
            if 0 <= a < st.selector@.len() && 0 <= b < st.selector@[a].0@.len() {
                lemma_lists_selectors_has(st.selector@, 0, a, b);
                lemma_has_selector_concat(selector_lists_selectors(st.selector@, 0), tail, st.selector@[a].0@[b]);
            }
            match &st.brace {
                Some(BraceOrSemicolon::Brace(bl)) => if 0 <= k < bl.children@.len() && bl.children@[k] is Rule
                    && has_selector(rule_selectors(&bl.children@[k]->Rule_0), x) {
                    lemma_rop_list_selectors_has(&bl.children, 0, k, x);
                    lemma_has_selector_concat(selector_lists_selectors(st.selector@, 0), tail, x);
                },
                _ => {},
            }
        },
        Rule::Media(m) => match &m.body {
            Some(BraceOrSemicolon::Brace(bl)) => if 0 <= k < bl.children@.len() && has_selector(rule_selectors(&bl.children@[k]), x) {
                lemma_rule_list_selectors_has(&bl.children, 0, k, x);
            },
            _ => {},
        },
        _ => {},
    }
    if 0 <= i < sheet.items@.len() && has_selector(rule_selectors(&sheet.items@[i]), x) {
        lemma_rules_selectors_has(sheet.items@, 0, i, x);
    }
    if has_selector(rules_selectors(sheet.items@, 0), x) && selector_match_range(x, kind, name) is Some {
        lemma_matching_has(rules_selectors(sheet.items@, 0), 0, x, kind, name);
    }
}

/// The ranges of the selectors of a style sheet that have the given kind and name, in source
/// order.
pub fn find_selector_ranges(sheet: &StyleSheet, kind: SelectorKind, name: &str) -> (r: Vec<Location>)
    ensures
        r@ == matching_ranges(rules_selectors(sheet.items@, 0), kind, name@, 0),
{
    let sels = selectors_in_style_sheet(sheet);
    let ghost all = rules_selectors(sheet.items@, 0);
    let mut r: Vec<Location> = Vec::new();
    let mut i: usize = 0;
    while i < sels.len()
        invariant
            sels@ == all,
            i <= sels@.len(),
            r@ + matching_ranges(all, kind, name@, i as int) == matching_ranges(all, kind, name@, 0),
        decreases sels@.len() - i,
    {
        let ghost before = r@;
        let found = match sels[i] {
            Selector::TagName(y) => if kind == SelectorKind::TagName && str_eq(y.content.as_str(), name) {
                Some(y.location)
            } else {
                None
            },
            Selector::Id(y) => if kind == SelectorKind::Id && str_eq(y.content.as_str(), name) {
                Some(y.location)
            } else {
                None
            },
            Selector::Class(op, y) => if kind == SelectorKind::Class && str_eq(y.content.as_str(), name) {
                Some(Location { start: op.location.start, end: y.location.end })
            } else {
                None
            },
            _ => None,
        };
        proof {
            assert(found == selector_match_range(*all[i as int], kind, name@));
        }
        match found {
            Some(l) => r.push(l),
            None => {},
        }
        proof {
            assert(r@ + matching_ranges(all, kind, name@, i + 1) =~= before + matching_ranges(all, kind, name@, i as int));
        }
        i = i + 1;
    }
    proof {
        assert(r@ + matching_ranges(all, kind, name@, i as int) =~= r@);
    }
    r
}

/// The name of a selector of the given kind.
pub open spec fn selector_name(sel: Selector, kind: SelectorKind) -> Seq<Seq<char>> {
    match sel {
        Selector::TagName(y) => if kind == SelectorKind::TagName { seq![y.content@] } else { Seq::empty() },
        Selector::Id(y) => if kind == SelectorKind::Id { seq![y.content@] } else { Seq::empty() },
        Selector::Class(_, y) => if kind == SelectorKind::Class { seq![y.content@] } else { Seq::empty() },
        _ => Seq::empty(),
    }
}

pub open spec fn selectors_names(sels: Seq<&Selector>, kind: SelectorKind) -> Seq<Seq<char>>
    decreases sels.len(),
{
    if sels.len() == 0 {
        Seq::empty()
    } else {
        selectors_names(sels.drop_last(), kind) + selector_name(*sels.last(), kind)
    }
}

/// Adds the names of the selectors of the given kind in a style sheet to `names`, each unless
/// `names` holds it.
pub fn collect_selector_names(sheet: &StyleSheet, kind: SelectorKind, names: &mut Vec<String>)
    ensures
        views(final(names)@) == add_names(views(old(names)@), selectors_names(rules_selectors(sheet.items@, 0), kind)),
{
    let sels = selectors_in_style_sheet(sheet);
    let mut flat: Vec<String> = Vec::new();
    let mut i: usize = 0;
    proof {
        assert(sels@.take(0) =~= Seq::<&Selector>::empty());
        assert(views(flat@) =~= selectors_names(sels@.take(0), kind));
    }
    while i < sels.len()
        invariant
            i <= sels@.len(),
            views(flat@) == selectors_names(sels@.take(i as int), kind),
        decreases sels@.len() - i,
    {
        let ghost before = views(flat@);
        match sels[i] {
            Selector::TagName(y) => if kind == SelectorKind::TagName {
                flat.push(y.content.clone());
            },
            Selector::Id(y) => if kind == SelectorKind::Id {
                flat.push(y.content.clone());
            },
            Selector::Class(_, y) => if kind == SelectorKind::Class {
                flat.push(y.content.clone());
            },
            _ => {},
        }
        proof {
            assert(sels@.take(i + 1).drop_last() =~= sels@.take(i as int));
            assert(views(flat@) =~= before + selector_name(*sels@[i as int], kind));
        }
        i = i + 1;
    }
    proof {
        assert(sels@.take(i as int) =~= sels@);
    }
    add_all_names(names, &flat);
}

/// The URLs of the `@import` rules from `i` on whose URL was recognized.
pub open spec fn import_urls_from(rules: Seq<Rule>, i: int) -> Seq<Seq<char>>
    decreases rules.len() - i,
{
    if 0 <= i < rules.len() {
        (match rules[i] {
            Rule::Import(imp) => match imp.url {
                MaybeUnknown::Normal(u, _) => seq![u.content@],
                _ => Seq::empty(),
            },
            _ => Seq::empty(),
        }) + import_urls_from(rules, i + 1)
    } else {
        Seq::empty()
    }
}

/// The URLs that the `@import` rules of a style sheet refer to, in order.
pub fn import_urls(sheet: &StyleSheet) -> (r: Vec<&str>)
    ensures
        r@.map_values(|u: &str| u@) == import_urls_from(sheet.items@, 0),
{
    let mut r: Vec<&str> = Vec::new();
    let mut i: usize = 0;
    while i < sheet.items.len()
        invariant
            i <= sheet.items@.len(),
            r@.map_values(|u: &str| u@) + import_urls_from(sheet.items@, i as int) == import_urls_from(sheet.items@, 0),
        decreases sheet.items@.len() - i,
    {
        let ghost before = r@.map_values(|u: &str| u@);
        match &sheet.items[i] {
            Rule::Import(imp) => match &imp.url {
                MaybeUnknown::Normal(u, _) => r.push(u.content.as_str()),
                _ => {},
            },
            _ => {},
        }
        proof {
            assert(r@.map_values(|u: &str| u@) + import_urls_from(sheet.items@, i + 1) =~= before + import_urls_from(sheet.items@, i as int));
        }
        i = i + 1;
    }
    proof {
        assert(r@.map_values(|u: &str| u@) + import_urls_from(sheet.items@, i as int) =~= r@.map_values(|u: &str| u@));
    }
    r
}

/// Where a "go to declaration" on a token of a style sheet leads: to the file that an `@import`
/// URL names, or, for a selector's tag name, ID or class, to the selector itself (which makes
/// the editor look for its references).
#[derive(Debug)]
pub enum WxssDeclaration<'a> {
    ImportUrl(&'a QuotedString),
    Itself(Location),
}

/// The declaration target of a token.
pub fn wxss_declaration<'a>(token: &SheetToken<'a>) -> (r: Option<WxssDeclaration<'a>>)
    ensures
        match *token {
            SheetToken::ImportUrl(src) => r == Some(WxssDeclaration::ImportUrl(src)),
            SheetToken::TagName(x) => r == Some(WxssDeclaration::Itself(x.location)),
            SheetToken::Id(x) => r == Some(WxssDeclaration::Itself(x.location)),
            SheetToken::Class(op, x) => r == Some(WxssDeclaration::Itself(span(op.location, x.location))),
            _ => r is None,
        },
{
    match token {
        SheetToken::ImportUrl(src) => Some(WxssDeclaration::ImportUrl(src)),
        SheetToken::TagName(x) => Some(WxssDeclaration::Itself(x.location)),
        SheetToken::Id(x) => Some(WxssDeclaration::Itself(x.location)),
        SheetToken::Class(op, x) => Some(WxssDeclaration::Itself(Location {
            start: op.location.start,
            end: x.location.end,
        })),
        _ => None,
    }
}

/// What a "find references" on a token of a style sheet looks for: selectors, and template
/// elements, with the token's tag name, ID or class.
pub fn wxss_reference_target<'a>(token: &SheetToken<'a>) -> (r: Option<(SelectorKind, &'a str)>)
    ensures
        match *token {
            SheetToken::TagName(x) => r matches Some((k, n)) && k == SelectorKind::TagName && n@ == x.content@,
            SheetToken::Id(x) => r matches Some((k, n)) && k == SelectorKind::Id && n@ == x.content@,
            SheetToken::Class(_, x) => r matches Some((k, n)) && k == SelectorKind::Class && n@ == x.content@,
            _ => r is None,
        },
{
    match token {
        SheetToken::TagName(x) => Some((SelectorKind::TagName, x.content.as_str())),
        SheetToken::Id(x) => Some((SelectorKind::Id, x.content.as_str())),
        SheetToken::Class(_, x) => Some((SelectorKind::Class, x.content.as_str())),
        _ => None,
    }
}

/// Whether a found token lies at `pos`: its range, or for a class or pseudo selector the range
/// from its first colon or dot to its name, holds `pos` (bounds included).
pub open spec fn token_covers(t: SheetToken, pos: Position) -> bool {
    match t {
        SheetToken::Blank => true,
        SheetToken::Keyword(x) => spec_inclusive_contains(x.location, pos),
        SheetToken::Ident(x) => spec_inclusive_contains(x.location, pos),
        SheetToken::AtKeyword(x) => spec_inclusive_contains(x.location, pos),
        SheetToken::Hash(x) => spec_inclusive_contains(x.location, pos),
        SheetToken::IDHash(x) => spec_inclusive_contains(x.location, pos),
        SheetToken::QuotedString(x) => spec_inclusive_contains(x.location, pos),
        SheetToken::UnquotedUrl(x) => spec_inclusive_contains(x.location, pos),
        SheetToken::Function(x) => spec_inclusive_contains(x.spec_location(), pos),
        SheetToken::Paren(x) => spec_inclusive_contains(x.spec_location(), pos),
        SheetToken::Bracket(x) => spec_inclusive_contains(x.spec_location(), pos),
        SheetToken::Brace(x) => spec_inclusive_contains(x.spec_location(), pos),
        SheetToken::BadUrl(x) => spec_inclusive_contains(x.location, pos),
        SheetToken::BadString(x) => spec_inclusive_contains(x.location, pos),
        SheetToken::TagName(x) => spec_inclusive_contains(x.location, pos),
        SheetToken::Id(x) => spec_inclusive_contains(x.location, pos),
        SheetToken::Class(op, x) => spec_inclusive_contains(span(op.location, x.location), pos),
        SheetToken::PseudoClass(op, x) => spec_inclusive_contains(span(op.location, x.spec_location()), pos),
        SheetToken::PseudoElement(op, _, x) => spec_inclusive_contains(span(op.location, x.spec_location()), pos),
        SheetToken::PropertyName(x) => spec_inclusive_contains(x.location, pos),
        SheetToken::StyleRuleUnknownIdent(x) => spec_inclusive_contains(x.location, pos),
        SheetToken::FontFacePropertyName(x) => spec_inclusive_contains(x.location, pos),
        SheetToken::MediaType(x) => spec_inclusive_contains(x.location, pos),
        SheetToken::MediaFeatureName(x) => spec_inclusive_contains(x.location, pos),
        SheetToken::KeyframesName(x) => spec_inclusive_contains(x.location, pos),
        SheetToken::KeyframeProgressName(x) => spec_inclusive_contains(x.location, pos),
        SheetToken::KeyframeProgressPercentage(x) => spec_inclusive_contains(x.location, pos),
        SheetToken::ImportUrl(x) => spec_inclusive_contains(x.location, pos),
    }
}

/// A result is sound when it is absent or covers `pos`.
pub open spec fn sound(r: Option<SheetToken>, pos: Position) -> bool {
    r matches Some(t) ==> token_covers(t, pos)
}

proof fn lemma_seq_sound(tts: Seq<TokenTree>, pos: Position)
    ensures
        sound(token_in_seq(tts, pos), pos),
    decreases tts, 0nat,
{
    let k = first_not_before(tts, pos);
    if 0 <= k < tts.len() {
        lemma_tree_sound(&tts[k], pos);
    }
    if 0 < k <= tts.len() {
        lemma_tree_sound(&tts[k - 1], pos);
    }
}

proof fn lemma_tree_sound(tt: &TokenTree, pos: Position)
    ensures
        sound(token_in_tree(tt, pos), pos),
    decreases tt, 1nat,
{
    match tt {
        TokenTree::Function(x) => {
            lemma_seq_sound(x.children@, pos);
            lemma_seq_sound(x.trailing@, pos);
        },
        TokenTree::Paren(x) => {
            lemma_seq_sound(x.children@, pos);
            lemma_seq_sound(x.trailing@, pos);
        },
        TokenTree::Bracket(x) => {
            lemma_seq_sound(x.children@, pos);
            lemma_seq_sound(x.trailing@, pos);
        },
        TokenTree::Brace(x) => {
            lemma_seq_sound(x.children@, pos);
            lemma_seq_sound(x.trailing@, pos);
        },
        _ => {},
    }
}

proof fn lemma_selector_sound(sel: &Selector, pos: Position)
    ensures
        sound(token_in_selector(sel, pos), pos),
{
    match sel {
        Selector::Unknown(x) => lemma_seq_sound(x@, pos),
        Selector::Attribute(x) => {
            lemma_seq_sound(x.children@, pos);
            lemma_seq_sound(x.trailing@, pos);
        },
        _ => {},
    }
}

proof fn lemma_selectors_sound(sels: Seq<Selector>, i: int, pos: Position)
    ensures
        sound(token_in_selectors(sels, i, pos), pos),
    decreases sels.len() - i,
{
    if 0 <= i < sels.len() {
        lemma_selector_sound(&sels[i], pos);
        lemma_selectors_sound(sels, i + 1, pos);
    }
}

proof fn lemma_selector_lists_sound(lists: Seq<(List<Selector>, Option<Comma>)>, i: int, pos: Position)
    ensures
        sound(token_in_selector_lists(lists, i, pos), pos),
    decreases lists.len() - i,
{
    if 0 <= i < lists.len() {
        lemma_selectors_sound(lists[i].0@, 0, pos);
        lemma_selector_lists_sound(lists, i + 1, pos);
    }
}

proof fn lemma_media_query_list_sound(x: &MediaQueryList, pos: Position)
    ensures
        sound(token_in_media_query_list(x, pos), pos),
    decreases x, 0int,
{
    match x {
        MediaQueryList::Unknown(v) => lemma_seq_sound(v@, pos),
        MediaQueryList::Sub(p) => {
            lemma_media_query_list_sound(&*p.children, pos);
            lemma_seq_sound(p.trailing@, pos);
        },
        MediaQueryList::Not(_, sub) => lemma_media_query_list_sound(&**sub, pos),
        MediaQueryList::Only(_, sub) => lemma_media_query_list_sound(&**sub, pos),
        MediaQueryList::And(list) => lemma_and_list_sound(list@, 0, pos),
        MediaQueryList::Or(list) => lemma_or_list_sound(list@, 0, pos),
        MediaQueryList::MediaType(_) => {},
        MediaQueryList::MediaFeature(p) => {
            match &p.children {
                MediaFeature::Unknown(l) => lemma_seq_sound(l@, pos),
                MediaFeature::Condition(_, _, v) => lemma_seq_sound(v@, pos),
            }
            lemma_seq_sound(p.trailing@, pos);
        },
    }
}

proof fn lemma_and_list_sound(list: Seq<(MediaQueryList, MediaAndKeyword)>, i: int, pos: Position)
    ensures
        sound(token_in_and_list(list, i, pos), pos),
    decreases list, list.len() - i,
{
    if 0 <= i < list.len() {
        lemma_media_query_list_sound(&list[i].0, pos);
        lemma_and_list_sound(list, i + 1, pos);
    }
}

proof fn lemma_or_list_sound(list: Seq<(MediaQueryList, MediaOrKeyword)>, i: int, pos: Position)
    ensures
        sound(token_in_or_list(list, i, pos), pos),
    decreases list, list.len() - i,
{
    if 0 <= i < list.len() {
        lemma_media_query_list_sound(&list[i].0, pos);
        lemma_or_list_sound(list, i + 1, pos);
    }
}

proof fn lemma_rule_or_property_sound(x: &RuleOrProperty, pos: Position)
    ensures
        sound(token_in_rule_or_property(x, pos), pos),
    decreases x, 0int,
{
    match x {
        RuleOrProperty::Rule(r) => lemma_rule_sound(r, pos),
        RuleOrProperty::Property(p) => lemma_seq_sound(p.value@, pos),
    }
}

proof fn lemma_rule_or_property_list_sound(l: &List<RuleOrProperty>, i: int, pos: Position)
    ensures
        sound(token_in_rule_or_property_list(l, i, pos), pos),
    decreases l, l@.len() - i,
{
    if 0 <= i < l@.len() {
        List::lemma_item_decreases(*l, i);
        lemma_rule_or_property_sound(&l@[i], pos);
        lemma_rule_or_property_list_sound(l, i + 1, pos);
    }
}

proof fn lemma_property_body_sound(b: &Option<BraceOrSemicolon<List<RuleOrProperty>>>, pos: Position)
    ensures
        sound(token_in_property_body(b, pos), pos),
    decreases b, 0int,
{
    match b {
        Some(BraceOrSemicolon::Brace(x)) => {
            lemma_rule_or_property_list_sound(&x.children, 0, pos);
            lemma_seq_sound(x.trailing@, pos);
        },
        _ => {},
    }
}

proof fn lemma_rule_list_sound(l: &List<Rule>, i: int, pos: Position)
    ensures
        sound(token_in_rule_list(l, i, pos), pos),
    decreases l, l@.len() - i,
{
    if 0 <= i < l@.len() {
        List::lemma_item_decreases(*l, i);
        lemma_rule_sound(&l@[i], pos);
        lemma_rule_list_sound(l, i + 1, pos);
    }
}

proof fn lemma_keyframe_sound(kf: &Keyframe, pos: Position)
    ensures
        sound(token_in_keyframe(kf, pos), pos),
    decreases kf, 0int,
{
    match kf {
        Keyframe::Named { progress, body } => {
            match progress {
                MaybeUnknown::Unknown(x) => lemma_seq_sound(x@, pos),
                MaybeUnknown::Normal(_, tl) => lemma_seq_sound(tl@, pos),
            }
            lemma_property_body_sound(body, pos);
        },
        Keyframe::Percentage { progress, body } => {
            match progress {
                MaybeUnknown::Unknown(x) => lemma_seq_sound(x@, pos),
                MaybeUnknown::Normal(_, tl) => lemma_seq_sound(tl@, pos),
            }
            lemma_property_body_sound(body, pos);
        },
        Keyframe::Unknown(x) => lemma_seq_sound(x@, pos),
    }
}

proof fn lemma_keyframe_list_sound(l: &List<Keyframe>, i: int, pos: Position)
    ensures
        sound(token_in_keyframe_list(l, i, pos), pos),
    decreases l, l@.len() - i,
{
    if 0 <= i < l@.len() {
        List::lemma_item_decreases(*l, i);
        lemma_keyframe_sound(&l@[i], pos);
        lemma_keyframe_list_sound(l, i + 1, pos);
    }
}

proof fn lemma_rule_sound(r: &Rule, pos: Position)
    ensures
        sound(token_in_rule(r, pos), pos),
    decreases r, 0int,
{
    match r {
        Rule::Unknown(x) => lemma_seq_sound(x@, pos),
        Rule::Style(s) => {
            lemma_selector_lists_sound(s.selector@, 0, pos);
            lemma_property_body_sound(&s.brace, pos);
        },
        Rule::Import(i) => {
            match &i.url {
                MaybeUnknown::Unknown(x) => lemma_seq_sound(x@, pos),
                MaybeUnknown::Normal(_, tl) => lemma_seq_sound(tl@, pos),
            }
            lemma_seq_sound(i.condition@, pos);
        },
        Rule::Media(m) => {
            match &m.list {
                Some(l) => lemma_media_query_list_sound(l, pos),
                None => {},
            }
            match &m.body {
                Some(BraceOrSemicolon::Brace(x)) => {
                    lemma_rule_list_sound(&x.children, 0, pos);
                    lemma_seq_sound(x.trailing@, pos);
                },
                _ => {},
            }
        },
        Rule::FontFace(f) => lemma_property_body_sound(&f.body, pos),
        Rule::Keyframes(k) => {
            match &k.name {
                MaybeUnknown::Unknown(x) => lemma_seq_sound(x@, pos),
                MaybeUnknown::Normal(_, tl) => lemma_seq_sound(tl@, pos),
            }
            match &k.body {
                Some(BraceOrSemicolon::Brace(x)) => {
                    lemma_keyframe_list_sound(&x.children, 0, pos);
                    lemma_seq_sound(x.trailing@, pos);
                },
                _ => {},
            }
        },
        Rule::UnknownAtRule(_, x) => lemma_seq_sound(x@, pos),
    }
}

proof fn lemma_rules_sound(rules: Seq<Rule>, i: int, pos: Position)
    ensures
        sound(token_in_rules(rules, i, pos), pos),
    decreases rules.len() - i,
{
    if 0 <= i < rules.len() {
        lemma_rule_sound(&rules[i], pos);
        lemma_rules_sound(rules, i + 1, pos);
    }
}

/// The token found at a position lies at that position: every token that the search returns has
/// a range (for a class or a pseudo selector, the range from its dot or colon to its name) that
/// holds the position, bounds included.
pub proof fn lemma_found_token_covers_position(sheet: &StyleSheet, pos: Position)
    ensures
        token_covers(token_in_sheet(sheet, pos), pos),
{
    lemma_rules_sound(sheet.items@, 0, pos);
}

} // verus!
