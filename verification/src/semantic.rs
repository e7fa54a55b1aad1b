//! Semantic tokens of style sheets: the walk over a sheet that lists each token with its type,
//! and the generator that encodes them, relative to one another, within a requested range.

use vstd::prelude::*;
use crate::position::{Location, Position, pos_le, pos_lt};
use crate::wxss::token::{BraceOrSemicolon, Comment, TokenTree};
use crate::wxss::list::{List, MaybeUnknown, Repeat};
use crate::wxss::rule::{IdentOrFunction, Selector};
use crate::wxss::property::{ImportRule, Property};
use crate::wxss::media::{MediaAndKeyword, MediaFeature, MediaOrKeyword, MediaQueryList, MediaType};
use crate::wxss::sheet::{Keyframe, Rule, RuleOrProperty, StyleSheet};
use crate::wxss::token::{Comma, NamedToken, Numeric};
use crate::file_content::FileContentMetadata;
use crate::wxml_match::lemma_contains_concat;
use crate::encoding::utf16_len;

verus! {

/// The semantic token types, in the order of the legend sent to the client.
#[derive(Debug, Clone, Copy, PartialEq, Eq, Structural)]
pub enum TokenType {
    Type,
    Variable,
    Property,
    Event,
    Function,
    Method,
    Keyword,
    Comment,
    String,
    Number,
    Operator,
    Macro,
}

pub open spec fn token_type_index(t: TokenType) -> u32 {
    match t {
        TokenType::Type => 0,
        TokenType::Variable => 1,
        TokenType::Property => 2,
        TokenType::Event => 3,
        TokenType::Function => 4,
        TokenType::Method => 5,
        TokenType::Keyword => 6,
        TokenType::Comment => 7,
        TokenType::String => 8,
        TokenType::Number => 9,
        TokenType::Operator => 10,
        TokenType::Macro => 11,
    }
}

/// The index of a token type in the legend.
pub fn token_type_index_of(t: TokenType) -> (r: u32)
    ensures
        r == token_type_index(t),
{
    match t {
        TokenType::Type => 0,
        TokenType::Variable => 1,
        TokenType::Property => 2,
        TokenType::Event => 3,
        TokenType::Function => 4,
        TokenType::Method => 5,
        TokenType::Keyword => 6,
        TokenType::Comment => 7,
        TokenType::String => 8,
        TokenType::Number => 9,
        TokenType::Operator => 10,
        TokenType::Macro => 11,
    }
}

/// An encoded semantic token: its line relative to the previous token's, its column relative to
/// the previous token's when on the same line, its length and its type.
#[derive(Debug, Clone, Copy, PartialEq, Eq, Structural)]
pub struct SemanticToken {
    pub delta_line: u32,
    pub delta_start: u32,
    pub length: u32,
    pub token_type: u32,
    pub token_modifiers_bitset: u32,
}

/// A token that the walk over a sheet hands to the generator. The tokens of a media query list
/// are `isolated`: when one of them falls after the requested range, the rest of the list is
/// skipped but the walk goes on with the rule's block.
#[derive(Debug, Clone, Copy, PartialEq, Eq, Structural)]
pub struct Emit {
    pub location: Location,
    pub ty: TokenType,
    pub isolated: bool,
}

pub open spec fn emit(location: Location, ty: TokenType) -> Seq<Emit> {
    seq![Emit { location, ty, isolated: false }]
}

/// The tokens of a group: its opening bracket with the given type, its content, the tokens
/// after its content and its closing bracket as an operator.
pub open spec fn group_emits(left: Location, ty: TokenType, inner: Seq<Emit>, trailing: Seq<Emit>, right: Location) -> Seq<Emit> {
    emit(left, ty) + inner + trailing + emit(right, TokenType::Operator)
}

pub open spec fn tt_emits(tt: TokenTree) -> Seq<Emit>
    decreases tt, 1nat,
{
    match tt {
        TokenTree::Ident(x) => emit(x.location, TokenType::Type),
        TokenTree::AtKeyword(x) => emit(x.location, TokenType::Keyword),
        TokenTree::Hash(x) => emit(x.location, TokenType::Number),
        TokenTree::IDHash(x) => emit(x.location, TokenType::Type),
        TokenTree::QuotedString(x) => emit(x.location, TokenType::String),
        TokenTree::UnquotedUrl(x) => emit(x.location, TokenType::String),
        TokenTree::Number(x) => emit(x.location, TokenType::Number),
        TokenTree::Percentage(x) => emit(x.location, TokenType::Number),
        TokenTree::Dimension(x) => emit(x.location, TokenType::Number),
        TokenTree::Colon(x) => emit(x.location, TokenType::Operator),
        TokenTree::Semicolon(x) => emit(x.location, TokenType::Operator),
        TokenTree::Comma(x) => emit(x.location, TokenType::Operator),
        TokenTree::Operator(x) => emit(x.location, TokenType::Operator),
        TokenTree::Function(x) => group_emits(x.left, TokenType::Function, tts_emits(x.children@), tts_emits(x.trailing@), x.right),
        TokenTree::Paren(x) => group_emits(x.left, TokenType::Operator, tts_emits(x.children@), tts_emits(x.trailing@), x.right),
        TokenTree::Bracket(x) => group_emits(x.left, TokenType::Operator, tts_emits(x.children@), tts_emits(x.trailing@), x.right),
        TokenTree::Brace(x) => group_emits(x.left, TokenType::Operator, tts_emits(x.children@), tts_emits(x.trailing@), x.right),
        TokenTree::BadUrl(x) => emit(x.location, TokenType::String),
        TokenTree::BadString(x) => emit(x.location, TokenType::String),
        TokenTree::BadOperator(x) => emit(x.location, TokenType::Operator),
    }
}

/// The tokens of a sequence of token trees, in order.
pub open spec fn tts_emits(tts: Seq<TokenTree>) -> Seq<Emit>
    decreases tts, 0nat,
{
    if tts.len() == 0 {
        Seq::empty()
    } else {
        tts_emits(tts.drop_last()) + tt_emits(tts.last())
    }
}

pub open spec fn name_or_function_emits(n: IdentOrFunction) -> Seq<Emit> {
    match n {
        IdentOrFunction::Ident(x) => emit(x.location, TokenType::Type),
        IdentOrFunction::Function(f) => group_emits(f.left, TokenType::Function, tts_emits(f.children@), tts_emits(f.trailing@), f.right),
    }
}

pub open spec fn selector_emits(sel: Selector) -> Seq<Emit> {
    match sel {
        Selector::Unknown(x) => tts_emits(x@),
        Selector::Universal(x) => emit(x.location, TokenType::Operator),
        Selector::TagName(x) => emit(x.location, TokenType::Type),
        Selector::Id(x) => emit(x.location, TokenType::Type),
        Selector::Class(op, x) => emit(op.location, TokenType::Operator) + emit(x.location, TokenType::Type),
        Selector::Attribute(x) => group_emits(x.left, TokenType::Operator, tts_emits(x.children@), tts_emits(x.trailing@), x.right),
        Selector::NextSibling(x) => emit(x.location, TokenType::Operator),
        Selector::Child(x) => emit(x.location, TokenType::Operator),
        Selector::Column(x, y) => emit(x.location, TokenType::Operator) + emit(y.location, TokenType::Operator),
        Selector::SubsequentSibling(x) => emit(x.location, TokenType::Operator),
        Selector::Namespace(x) => emit(x.location, TokenType::Operator),
        Selector::PseudoClass(x, name) => emit(x.location, TokenType::Operator) + name_or_function_emits(name),
        Selector::PseudoElement(x, y, name) => emit(x.location, TokenType::Operator) + emit(y.location, TokenType::Operator)
            + name_or_function_emits(name),
    }
}

/// The tokens of the selectors, all lists in order.
pub open spec fn selectors_emits(sels: Seq<Selector>) -> Seq<Emit>
    decreases sels.len(),
{
    if sels.len() == 0 {
        Seq::empty()
    } else {
        selectors_emits(sels.drop_last()) + selector_emits(sels.last())
    }
}

pub open spec fn selector_lists_emits(lists: Seq<(List<Selector>, Option<Comma>)>) -> Seq<Emit>
    decreases lists.len(),
{
    if lists.len() == 0 {
        Seq::empty()
    } else {
        selector_lists_emits(lists.drop_last()) + selectors_emits(lists.last().0@)
    }
}

pub open spec fn property_emits(p: Property) -> Seq<Emit> {
    emit(p.name.location, TokenType::Property) + emit(p.colon.location, TokenType::Operator) + tts_emits(p.value@)
        + match p.semicolon {
        Some(s) => emit(s.location, TokenType::Operator),
        None => Seq::empty(),
    }
}

/// The tokens of a value that may not have been recognized: its token (with the given type)
/// and what follows it, or all its tokens when it was not recognized.
pub open spec fn maybe_named_emits(m: MaybeUnknown<NamedToken>, ty: TokenType) -> Seq<Emit> {
    match m {
        MaybeUnknown::Unknown(x) => tts_emits(x@),
        MaybeUnknown::Normal(v, t) => emit(v.location, ty) + tts_emits(t@),
    }
}

pub open spec fn maybe_numeric_emits(m: MaybeUnknown<Numeric>, ty: TokenType) -> Seq<Emit> {
    match m {
        MaybeUnknown::Unknown(x) => tts_emits(x@),
        MaybeUnknown::Normal(v, t) => emit(v.location, ty) + tts_emits(t@),
    }
}

/// Marks tokens as part of a media query list.
pub open spec fn isolate(es: Seq<Emit>) -> Seq<Emit> {
    es.map_values(|e: Emit| Emit { location: e.location, ty: e.ty, isolated: true })
}

pub open spec fn media_query_list_emits(x: &MediaQueryList) -> Seq<Emit>
    decreases x, 0int,
{
    match x {
        MediaQueryList::Unknown(v) => tts_emits(v@),
        MediaQueryList::Sub(p) => group_emits(p.left, TokenType::Operator, media_query_list_emits(&*p.children), tts_emits(p.trailing@), p.right),
        MediaQueryList::And(list) => and_list_emits(list@, list@.len() as int),
        MediaQueryList::Or(list) => or_list_emits(list@, list@.len() as int),
        MediaQueryList::Not(kw, sub) => emit(kw.location, TokenType::Keyword) + media_query_list_emits(&**sub),
        MediaQueryList::Only(kw, sub) => emit(kw.location, TokenType::Keyword) + media_query_list_emits(&**sub),
        MediaQueryList::MediaType(t) => match t {
            MediaType::Unknown(k) => emit(k.location, TokenType::Type),
            MediaType::All(k) => emit(k.location, TokenType::Keyword),
            MediaType::Screen(k) => emit(k.location, TokenType::Keyword),
            MediaType::Print(k) => emit(k.location, TokenType::Keyword),
        },
        MediaQueryList::MediaFeature(p) => group_emits(
            p.left,
            TokenType::Operator,
            match &p.children {
                MediaFeature::Unknown(l) => tts_emits(l@),
                MediaFeature::Condition(k, colon, v) => emit(k.location, TokenType::Property) + emit(colon.location, TokenType::Operator) + tts_emits(v@),
            },
            tts_emits(p.trailing@),
            p.right,
        ),
    }
}

/// The tokens of the first `n` `and`-joined conditions.
pub open spec fn and_list_emits(list: Seq<(MediaQueryList, MediaAndKeyword)>, n: int) -> Seq<Emit>
    decreases list, n,
{
    if n <= 0 || n > list.len() {
        Seq::empty()
    } else {
        and_list_emits(list, n - 1) + media_query_list_emits(&list[n - 1].0) + match &list[n - 1].1 {
            MediaAndKeyword::And(k) => emit(k.location, TokenType::Keyword),
            MediaAndKeyword::Absent => Seq::empty(),
        }
    }
}

/// The tokens of the first `n` `or`- or comma-joined conditions.
pub open spec fn or_list_emits(list: Seq<(MediaQueryList, MediaOrKeyword)>, n: int) -> Seq<Emit>
    decreases list, n,
{
    if n <= 0 || n > list.len() {
        Seq::empty()
    } else {
        or_list_emits(list, n - 1) + media_query_list_emits(&list[n - 1].0) + match &list[n - 1].1 {
            MediaOrKeyword::Or(k) => emit(k.location, TokenType::Keyword),
            MediaOrKeyword::Comma(k) => emit(k.location, TokenType::Operator),
            MediaOrKeyword::Absent => Seq::empty(),
        }
    }
}

/// The tokens of a block of rules and properties (its braces included), or of the semicolon in
/// its place.
pub open spec fn rop_body_emits(b: &Option<BraceOrSemicolon<List<RuleOrProperty>>>) -> Seq<Emit>
    decreases b, 0int,
{
    match b {
        None => Seq::empty(),
        Some(BraceOrSemicolon::Semicolon(s)) => emit(s.location, TokenType::Operator),
        Some(BraceOrSemicolon::Brace(x)) => group_emits(x.left, TokenType::Operator, rop_list_emits(&x.children, x.children@.len() as int), tts_emits(x.trailing@), x.right),
    }
}

/// The tokens of the first `n` items of a block.
pub open spec fn rop_list_emits(l: &List<RuleOrProperty>, n: int) -> Seq<Emit>
    decreases l, n,
{
    if n <= 0 || n > l@.len() {
        Seq::empty()
    } else {
        proof {
            List::lemma_item_decreases(*l, n - 1);
        }
        rop_list_emits(l, n - 1) + match &l@[n - 1] {
            RuleOrProperty::Rule(r) => rule_emits(r),
            RuleOrProperty::Property(p) => property_emits(*p),
        }
    }
}

/// The tokens of the first `n` rules of a block.
pub open spec fn rule_list_emits(l: &List<Rule>, n: int) -> Seq<Emit>
    decreases l, n,
{
    if n <= 0 || n > l@.len() {
        Seq::empty()
    } else {
        proof {
            List::lemma_item_decreases(*l, n - 1);
        }
        rule_list_emits(l, n - 1) + rule_emits(&l@[n - 1])
    }
}

pub open spec fn keyframe_emits(k: &Keyframe) -> Seq<Emit>
    decreases k, 0int,
{
    match k {
        Keyframe::Named { progress, body } => maybe_named_emits(*progress, TokenType::Keyword)
            + rop_body_emits(body),
        Keyframe::Percentage { progress, body } => maybe_numeric_emits(*progress, TokenType::Number)
            + rop_body_emits(body),
        Keyframe::Unknown(x) => tts_emits(x@),
    }
}

/// The tokens of the first `n` keyframes of a block.
pub open spec fn keyframe_list_emits(l: &List<Keyframe>, n: int) -> Seq<Emit>
    decreases l, n,
{
    if n <= 0 || n > l@.len() {
        Seq::empty()
    } else {
        proof {
            List::lemma_item_decreases(*l, n - 1);
        }
        keyframe_list_emits(l, n - 1) + keyframe_emits(&l@[n - 1])
    }
}

/// The tokens of a rule, in order.
pub open spec fn rule_emits(r: &Rule) -> Seq<Emit>
    decreases r, 0int,
{
    match r {
        Rule::Unknown(x) => tts_emits(x@),
        Rule::Style(x) => selector_lists_emits(x.selector@) + rop_body_emits(&x.brace),
        Rule::Import(x) => emit(x.at_import.location, TokenType::Keyword)
            + maybe_named_emits(x.url, TokenType::String)
            + tts_emits(x.condition@) + match x.semicolon {
            Some(s) => emit(s.location, TokenType::Operator),
            None => Seq::empty(),
        },
        Rule::Media(x) => emit(x.at_media.location, TokenType::Keyword) + match &x.list {
            Some(l) => isolate(media_query_list_emits(l)),
            None => Seq::empty(),
        } + match &x.body {
            None => Seq::empty(),
            Some(BraceOrSemicolon::Semicolon(s)) => emit(s.location, TokenType::Operator),
            Some(BraceOrSemicolon::Brace(b)) => group_emits(b.left, TokenType::Operator, rule_list_emits(&b.children, b.children@.len() as int), tts_emits(b.trailing@), b.right),
        },
        Rule::FontFace(x) => emit(x.at_font_face.location, TokenType::Keyword) + rop_body_emits(&x.body),
        Rule::Keyframes(x) => emit(x.at_keyframes.location, TokenType::Keyword)
            + maybe_named_emits(x.name, TokenType::Type) + match &x.body {
            None => Seq::empty(),
            Some(BraceOrSemicolon::Semicolon(s)) => emit(s.location, TokenType::Operator),
            Some(BraceOrSemicolon::Brace(b)) => group_emits(b.left, TokenType::Operator, keyframe_list_emits(&b.children, b.children@.len() as int), tts_emits(b.trailing@), b.right),
        },
        Rule::UnknownAtRule(kw, x) => emit(kw.location, TokenType::Keyword) + tts_emits(x@),
    }
}

/// The tokens of the first `n` rules of a sheet.
pub open spec fn rules_emits(rules: Seq<Rule>, n: int) -> Seq<Emit>
    decreases n,
{
    if n <= 0 || n > rules.len() {
        Seq::empty()
    } else {
        rules_emits(rules, n - 1) + rule_emits(&rules[n - 1])
    }
}

fn push_emit(out: &mut Vec<Emit>, location: Location, ty: TokenType)
    ensures
        final(out)@ == old(out)@ + emit(location, ty),
{
    out.push(Emit { location, ty, isolated: false });
    proof {
        assert(final(out)@ =~= old(out)@ + emit(location, ty));
    }
}

fn push_tt_emits(tt: &TokenTree, out: &mut Vec<Emit>)
    ensures
        final(out)@ == old(out)@ + tt_emits(*tt),
    decreases tt, 1nat,
{
    let ghost o = out@;
    match tt {
        TokenTree::Ident(x) => push_emit(out, x.location, TokenType::Type),
        TokenTree::AtKeyword(x) => push_emit(out, x.location, TokenType::Keyword),
        TokenTree::Hash(x) => push_emit(out, x.location, TokenType::Number),
        TokenTree::IDHash(x) => push_emit(out, x.location, TokenType::Type),
        TokenTree::QuotedString(x) => push_emit(out, x.location, TokenType::String),
        TokenTree::UnquotedUrl(x) => push_emit(out, x.location, TokenType::String),
        TokenTree::Number(x) => push_emit(out, x.location, TokenType::Number),
        TokenTree::Percentage(x) => push_emit(out, x.location, TokenType::Number),
        TokenTree::Dimension(x) => push_emit(out, x.location, TokenType::Number),
        TokenTree::Colon(x) => push_emit(out, x.location, TokenType::Operator),
        TokenTree::Semicolon(x) => push_emit(out, x.location, TokenType::Operator),
        TokenTree::Comma(x) => push_emit(out, x.location, TokenType::Operator),
        TokenTree::Operator(x) => push_emit(out, x.location, TokenType::Operator),
        TokenTree::Function(x) => {
            push_emit(out, x.left, TokenType::Function);
            push_tts_emits(&x.children, out);
            push_tts_emits(&x.trailing, out);
            push_emit(out, x.right, TokenType::Operator);
            proof {
                assert(out@ =~= o + tt_emits(*tt));
            }
        },
        TokenTree::Paren(x) => {
            push_emit(out, x.left, TokenType::Operator);
            push_tts_emits(&x.children, out);
            push_tts_emits(&x.trailing, out);
            push_emit(out, x.right, TokenType::Operator);
            proof {
                assert(out@ =~= o + tt_emits(*tt));
            }
        },
        TokenTree::Bracket(x) => {
            push_emit(out, x.left, TokenType::Operator);
            push_tts_emits(&x.children, out);
            push_tts_emits(&x.trailing, out);
            push_emit(out, x.right, TokenType::Operator);
            proof {
                assert(out@ =~= o + tt_emits(*tt));
            }
        },
        TokenTree::Brace(x) => {
            push_emit(out, x.left, TokenType::Operator);
            push_tts_emits(&x.children, out);
            push_tts_emits(&x.trailing, out);
            push_emit(out, x.right, TokenType::Operator);
            proof {
                assert(out@ =~= o + tt_emits(*tt));
            }
        },
        TokenTree::BadUrl(x) => push_emit(out, x.location, TokenType::String),
        TokenTree::BadString(x) => push_emit(out, x.location, TokenType::String),
        TokenTree::BadOperator(x) => push_emit(out, x.location, TokenType::Operator),
    }
}

fn push_tts_emits(tts: &Vec<TokenTree>, out: &mut Vec<Emit>)
    ensures
        final(out)@ == old(out)@ + tts_emits(tts@),
    decreases tts@, 0nat,
{
    let ghost o = out@;
    let mut i: usize = 0;
    proof {
        assert(tts@.take(0) =~= Seq::<TokenTree>::empty());
        assert(out@ =~= o + tts_emits(tts@.take(0)));
    }
    while i < tts.len()
        invariant
            i <= tts@.len(),
            out@ == o + tts_emits(tts@.take(i as int)),
        decreases tts@.len() - i,
    {
        proof {
            assert(tts@.take(i + 1).drop_last() =~= tts@.take(i as int));
            assert(tts@.take(i + 1).last() == tts@[i as int]);
            assert(decreases_to!(tts@ => tts@[i as int]));
        }
        push_tt_emits(&tts[i], out);
        proof {
            assert(out@ =~= o + tts_emits(tts@.take(i + 1)));
        }
        i = i + 1;
    }
    proof {
        assert(tts@.take(i as int) =~= tts@);
    }
}

fn push_token_list_emits(l: &List<TokenTree>, out: &mut Vec<Emit>)
    ensures
        final(out)@ == old(out)@ + tts_emits(l@),
{
    let items = l.refs();
    let ghost o = out@;
    let mut i: usize = 0;
    proof {
        assert(l@.take(0) =~= Seq::<TokenTree>::empty());
        assert(out@ =~= o + tts_emits(l@.take(0)));
    }
    while i < items.len()
        invariant
            items@.len() == l@.len(),
            forall|t: int| 0 <= t < items@.len() ==> *items@[t] == l@[t],
            i <= items@.len(),
            out@ == o + tts_emits(l@.take(i as int)),
        decreases items@.len() - i,
    {
        proof {
            assert(l@.take(i + 1).drop_last() =~= l@.take(i as int));
            assert(l@.take(i + 1).last() == l@[i as int]);
        }
        push_tt_emits(items[i], out);
        proof {
            assert(out@ =~= o + tts_emits(l@.take(i + 1)));
        }
        i = i + 1;
    }
    proof {
        assert(l@.take(i as int) =~= l@);
    }
}

fn push_name_or_function_emits(n: &IdentOrFunction, out: &mut Vec<Emit>)
    ensures
        final(out)@ == old(out)@ + name_or_function_emits(*n),
{
    let ghost o = out@;
    match n {
        IdentOrFunction::Ident(x) => push_emit(out, x.location, TokenType::Type),
        IdentOrFunction::Function(f) => {
            push_emit(out, f.left, TokenType::Function);
            push_tts_emits(&f.children, out);
            push_tts_emits(&f.trailing, out);
            push_emit(out, f.right, TokenType::Operator);
            proof {
                assert(out@ =~= o + name_or_function_emits(*n));
            }
        },
    }
}

fn push_selector_emits(sel: &Selector, out: &mut Vec<Emit>)
    ensures
        final(out)@ == old(out)@ + selector_emits(*sel),
{
    let ghost o = out@;
    match sel {
        Selector::Unknown(x) => push_token_list_emits(x, out),
        Selector::Universal(x) => push_emit(out, x.location, TokenType::Operator),
        Selector::TagName(x) => push_emit(out, x.location, TokenType::Type),
        Selector::Id(x) => push_emit(out, x.location, TokenType::Type),
        Selector::Class(op, x) => {
            push_emit(out, op.location, TokenType::Operator);
            push_emit(out, x.location, TokenType::Type);
            proof {
                assert(out@ =~= o + selector_emits(*sel));
            }
        },
        Selector::Attribute(x) => {
            push_emit(out, x.left, TokenType::Operator);
            push_token_list_emits(&x.children, out);
            push_tts_emits(&x.trailing, out);
            push_emit(out, x.right, TokenType::Operator);
            proof {
                assert(out@ =~= o + selector_emits(*sel));
            }
        },
        Selector::NextSibling(x) => push_emit(out, x.location, TokenType::Operator),
        Selector::Child(x) => push_emit(out, x.location, TokenType::Operator),
        Selector::Column(x, y) => {
            push_emit(out, x.location, TokenType::Operator);
            push_emit(out, y.location, TokenType::Operator);
            proof {
                assert(out@ =~= o + selector_emits(*sel));
            }
        },
        Selector::SubsequentSibling(x) => push_emit(out, x.location, TokenType::Operator),
        Selector::Namespace(x) => push_emit(out, x.location, TokenType::Operator),
        Selector::PseudoClass(x, name) => {
            push_emit(out, x.location, TokenType::Operator);
            push_name_or_function_emits(name, out);
            proof {
                assert(out@ =~= o + selector_emits(*sel));
            }
        },
        Selector::PseudoElement(x, y, name) => {
            push_emit(out, x.location, TokenType::Operator);
            push_emit(out, y.location, TokenType::Operator);
            push_name_or_function_emits(name, out);
            proof {
                assert(out@ =~= o + selector_emits(*sel));
            }
        },
    }
}

fn push_selector_repeat_emits(rep: &Repeat<List<Selector>, Comma>, out: &mut Vec<Emit>)
    ensures
        final(out)@ == old(out)@ + selector_lists_emits(rep@),
{
    let lists = rep.as_vec();
    let ghost o = out@;
    let mut i: usize = 0;
    proof {
        assert(rep@.take(0) =~= Seq::<(List<Selector>, Option<Comma>)>::empty());
        assert(out@ =~= o + selector_lists_emits(rep@.take(0)));
    }
    while i < lists.len()
        invariant
            lists@ == rep@,
            i <= lists@.len(),
            out@ == o + selector_lists_emits(rep@.take(i as int)),
        decreases lists@.len() - i,
    {
        let sels = lists[i].0.refs();
        let ghost before = out@;
        let ghost l = rep@[i as int].0@;
        let mut j: usize = 0;
        proof {
            assert(l.take(0) =~= Seq::<Selector>::empty());
            assert(out@ =~= before + selectors_emits(l.take(0)));
        }
        while j < sels.len()
            invariant
                sels@.len() == l.len(),
                forall|t: int| 0 <= t < sels@.len() ==> *sels@[t] == l[t],
                j <= sels@.len(),
                out@ == before + selectors_emits(l.take(j as int)),
            decreases sels@.len() - j,
        {
            proof {
                assert(l.take(j + 1).drop_last() =~= l.take(j as int));
                assert(l.take(j + 1).last() == l[j as int]);
            }
            push_selector_emits(sels[j], out);
            proof {
                assert(out@ =~= before + selectors_emits(l.take(j + 1)));
            }
            j = j + 1;
        }
        proof {
            assert(l.take(j as int) =~= l);
            assert(rep@.take(i + 1).drop_last() =~= rep@.take(i as int));
            assert(rep@.take(i + 1).last() == rep@[i as int]);
            assert(out@ =~= o + selector_lists_emits(rep@.take(i + 1)));
        }
        i = i + 1;
    }
    proof {
        assert(rep@.take(i as int) =~= rep@);
    }
}

fn push_property_emits(p: &Property, out: &mut Vec<Emit>)
    ensures
        final(out)@ == old(out)@ + property_emits(*p),
{
    let ghost o = out@;
    push_emit(out, p.name.location, TokenType::Property);
    push_emit(out, p.colon.location, TokenType::Operator);
    push_tts_emits(&p.value, out);
    match &p.semicolon {
        Some(s) => push_emit(out, s.location, TokenType::Operator),
        None => {},
    }
    proof {
        assert(out@ =~= o + property_emits(*p));
    }
}


fn push_maybe_named_emits(m: &MaybeUnknown<NamedToken>, ty: TokenType, out: &mut Vec<Emit>)
    ensures
        final(out)@ == old(out)@ + maybe_named_emits(*m, ty),
{
    let ghost o = out@;
    match m {
        MaybeUnknown::Unknown(x) => push_tts_emits(x, out),
        MaybeUnknown::Normal(v, t) => {
            push_emit(out, v.location, ty);
            push_tts_emits(t, out);
            proof {
                assert(out@ =~= o + maybe_named_emits(*m, ty));
            }
        },
    }
}

fn push_maybe_numeric_emits(m: &MaybeUnknown<Numeric>, ty: TokenType, out: &mut Vec<Emit>)
    ensures
        final(out)@ == old(out)@ + maybe_numeric_emits(*m, ty),
{
    let ghost o = out@;
    match m {
        MaybeUnknown::Unknown(x) => push_tts_emits(x, out),
        MaybeUnknown::Normal(v, t) => {
            push_emit(out, v.location, ty);
            push_tts_emits(t, out);
            proof {
                assert(out@ =~= o + maybe_numeric_emits(*m, ty));
            }
        },
    }
}

fn push_media_query_list_emits(x: &MediaQueryList, out: &mut Vec<Emit>)
    ensures
        final(out)@ == old(out)@ + media_query_list_emits(x),
    decreases x, 0int,
{
    let ghost o = out@;
    match x {
        MediaQueryList::Unknown(v) => push_tts_emits(v, out),
        MediaQueryList::Sub(p) => {
            push_emit(out, p.left, TokenType::Operator);
            push_media_query_list_emits(&*p.children, out);
            push_tts_emits(&p.trailing, out);
            push_emit(out, p.right, TokenType::Operator);
            proof {
                assert(out@ =~= o + media_query_list_emits(x));
            }
        },
        MediaQueryList::And(list) => {
            let mut i: usize = 0;
            while i < list.len()
                invariant
                    i <= list@.len(),
                    *x == MediaQueryList::And(*list),
                    out@ == o + and_list_emits(list@, i as int),
                decreases list@.len() - i,
            {
                let item = &list[i];
                proof {
                    assert(x->And_0 == *list);
                    assert(decreases_to!(*x => list@[i as int].0));
                }
                push_media_query_list_emits(&item.0, out);
                match &item.1 {
                    MediaAndKeyword::Absent => {},
                    MediaAndKeyword::And(k) => push_emit(out, k.location, TokenType::Keyword),
                }
                proof {
                    assert(out@ =~= o + and_list_emits(list@, i + 1));
                }
                i = i + 1;
            }
        },
        MediaQueryList::Or(list) => {
            let mut i: usize = 0;
            while i < list.len()
                invariant
                    i <= list@.len(),
                    *x == MediaQueryList::Or(*list),
                    out@ == o + or_list_emits(list@, i as int),
                decreases list@.len() - i,
            {
                let item = &list[i];
                proof {
                    assert(x->Or_0 == *list);
                    assert(decreases_to!(*x => list@[i as int].0));
                }
                push_media_query_list_emits(&item.0, out);
                match &item.1 {
                    MediaOrKeyword::Absent => {},
                    MediaOrKeyword::Or(k) => push_emit(out, k.location, TokenType::Keyword),
                    MediaOrKeyword::Comma(k) => push_emit(out, k.location, TokenType::Operator),
                }
                proof {
                    assert(out@ =~= o + or_list_emits(list@, i + 1));
                }
                i = i + 1;
            }
        },
        MediaQueryList::Not(kw, sub) => {
            push_emit(out, kw.location, TokenType::Keyword);
            push_media_query_list_emits(&**sub, out);
            proof {
                assert(out@ =~= o + media_query_list_emits(x));
            }
        },
        MediaQueryList::Only(kw, sub) => {
            push_emit(out, kw.location, TokenType::Keyword);
            push_media_query_list_emits(&**sub, out);
            proof {
                assert(out@ =~= o + media_query_list_emits(x));
            }
        },
        MediaQueryList::MediaType(t) => match t {
            MediaType::Unknown(k) => push_emit(out, k.location, TokenType::Type),
            MediaType::All(k) => push_emit(out, k.location, TokenType::Keyword),
            MediaType::Screen(k) => push_emit(out, k.location, TokenType::Keyword),
            MediaType::Print(k) => push_emit(out, k.location, TokenType::Keyword),
        },
        MediaQueryList::MediaFeature(p) => {
            push_emit(out, p.left, TokenType::Operator);
            match &p.children {
                MediaFeature::Unknown(l) => push_token_list_emits(l, out),
                MediaFeature::Condition(k, colon, v) => {
                    push_emit(out, k.location, TokenType::Property);
                    push_emit(out, colon.location, TokenType::Operator);
                    push_tts_emits(v, out);
                },
            }
            push_tts_emits(&p.trailing, out);
            push_emit(out, p.right, TokenType::Operator);
            proof {
                assert(out@ =~= o + media_query_list_emits(x));
            }
        },
    }
}

/// Appends `es` marked as part of a media query list.
fn push_isolated(es: &Vec<Emit>, out: &mut Vec<Emit>)
    ensures
        final(out)@ == old(out)@ + isolate(es@),
{
    let ghost o = out@;
    let mut i: usize = 0;
    while i < es.len()
        invariant
            i <= es@.len(),
            out@ == o + isolate(es@.take(i as int)),
        decreases es@.len() - i,
    {
        let e = es[i];
        out.push(Emit { location: e.location, ty: e.ty, isolated: true });
        proof {
            assert(isolate(es@.take(i + 1)) =~= isolate(es@.take(i as int)).push(
                Emit { location: e.location, ty: e.ty, isolated: true },
            ));
            assert(out@ =~= o + isolate(es@.take(i + 1)));
        }
        i = i + 1;
    }
    proof {
        assert(es@.take(i as int) =~= es@);
    }
}

fn push_rop_body_emits(b: &Option<BraceOrSemicolon<List<RuleOrProperty>>>, out: &mut Vec<Emit>)
    ensures
        final(out)@ == old(out)@ + rop_body_emits(b),
    decreases b, 0int,
{
    let ghost o = out@;
    match b {
        None => {
            proof {
                assert(out@ =~= o + rop_body_emits(b));
            }
        },
        Some(BraceOrSemicolon::Semicolon(s)) => push_emit(out, s.location, TokenType::Operator),
        Some(BraceOrSemicolon::Brace(x)) => {
            push_emit(out, x.left, TokenType::Operator);
            push_rop_list_emits(&x.children, out);
            push_tts_emits(&x.trailing, out);
            push_emit(out, x.right, TokenType::Operator);
            proof {
                assert(out@ =~= o + rop_body_emits(b));
            }
        },
    }
}

fn push_rop_list_emits(l: &List<RuleOrProperty>, out: &mut Vec<Emit>)
    ensures
        final(out)@ == old(out)@ + rop_list_emits(l, l@.len() as int),
    decreases l, 1int,
{
    let ghost o = out@;
    let items = l.refs();
    let mut i: usize = 0;
    proof {
        assert(out@ =~= o + rop_list_emits(l, 0));
    }
    while i < items.len()
        invariant
            items@.len() == l@.len(),
            forall|t: int| 0 <= t < items@.len() ==> *items@[t] == l@[t],
            i <= items@.len(),
            out@ == o + rop_list_emits(l, i as int),
        decreases items@.len() - i,
    {
        proof {
            List::lemma_item_decreases(*l, i as int);
        }
        match items[i] {
            RuleOrProperty::Rule(r) => push_rule_emits(r, out),
            RuleOrProperty::Property(p) => push_property_emits(p, out),
        }
        proof {
            assert(out@ =~= o + rop_list_emits(l, i + 1));
        }
        i = i + 1;
    }
}

fn push_rule_list_emits(l: &List<Rule>, out: &mut Vec<Emit>)
    ensures
        final(out)@ == old(out)@ + rule_list_emits(l, l@.len() as int),
    decreases l, 1int,
{
    let ghost o = out@;
    let items = l.refs();
    let mut i: usize = 0;
    proof {
        assert(out@ =~= o + rule_list_emits(l, 0));
    }
    while i < items.len()
        invariant
            items@.len() == l@.len(),
            forall|t: int| 0 <= t < items@.len() ==> *items@[t] == l@[t],
            i <= items@.len(),
            out@ == o + rule_list_emits(l, i as int),
        decreases items@.len() - i,
    {
        proof {
            List::lemma_item_decreases(*l, i as int);
        }
        push_rule_emits(items[i], out);
        proof {
            assert(out@ =~= o + rule_list_emits(l, i + 1));
        }
        i = i + 1;
    }
}

fn push_keyframe_emits(k: &Keyframe, out: &mut Vec<Emit>)
    ensures
        final(out)@ == old(out)@ + keyframe_emits(k),
    decreases k, 0int,
{
    let ghost o = out@;
    match k {
        Keyframe::Named { progress, body } => {
            push_maybe_named_emits(progress, TokenType::Keyword, out);
            push_rop_body_emits(body, out);
        },
        Keyframe::Percentage { progress, body } => {
            push_maybe_numeric_emits(progress, TokenType::Number, out);
            push_rop_body_emits(body, out);
        },
        Keyframe::Unknown(x) => push_tts_emits(x, out),
    }
    proof {
        assert(out@ =~= o + keyframe_emits(k));
    }
}

fn push_keyframe_list_emits(l: &List<Keyframe>, out: &mut Vec<Emit>)
    ensures
        final(out)@ == old(out)@ + keyframe_list_emits(l, l@.len() as int),
    decreases l, 1int,
{
    let ghost o = out@;
    let items = l.refs();
    let mut i: usize = 0;
    proof {
        assert(out@ =~= o + keyframe_list_emits(l, 0));
    }
    while i < items.len()
        invariant
            items@.len() == l@.len(),
            forall|t: int| 0 <= t < items@.len() ==> *items@[t] == l@[t],
            i <= items@.len(),
            out@ == o + keyframe_list_emits(l, i as int),
        decreases items@.len() - i,
    {
        proof {
            List::lemma_item_decreases(*l, i as int);
        }
        push_keyframe_emits(items[i], out);
        proof {
            assert(out@ =~= o + keyframe_list_emits(l, i + 1));
        }
        i = i + 1;
    }
}

fn push_rule_emits(r: &Rule, out: &mut Vec<Emit>)
    ensures
        final(out)@ == old(out)@ + rule_emits(r),
    decreases r, 0int,
{
    let ghost o = out@;
    match r {
        Rule::Unknown(x) => push_token_list_emits(x, out),
        Rule::Style(x) => {
            push_selector_repeat_emits(&x.selector, out);
            push_rop_body_emits(&x.brace, out);
        },
        Rule::Import(x) => {
            push_emit(out, x.at_import.location, TokenType::Keyword);
            push_maybe_named_emits(&x.url, TokenType::String, out);
            push_tts_emits(&x.condition, out);
            match &x.semicolon {
                Some(s) => push_emit(out, s.location, TokenType::Operator),
                None => {},
            }
        },
        Rule::Media(x) => {
            push_emit(out, x.at_media.location, TokenType::Keyword);
            match &x.list {
                Some(l) => {
                    let mut tmp: Vec<Emit> = Vec::new();
                    push_media_query_list_emits(l, &mut tmp);
                    proof {
                        assert(tmp@ =~= media_query_list_emits(l));
                    }
                    push_isolated(&tmp, out);
                },
                None => {},
            }
            match &x.body {
                None => {},
                Some(BraceOrSemicolon::Semicolon(s)) => push_emit(out, s.location, TokenType::Operator),
                Some(BraceOrSemicolon::Brace(b)) => {
                    push_emit(out, b.left, TokenType::Operator);
                    push_rule_list_emits(&b.children, out);
                    push_tts_emits(&b.trailing, out);
                    push_emit(out, b.right, TokenType::Operator);
                },
            }
        },
        Rule::FontFace(x) => {
            push_emit(out, x.at_font_face.location, TokenType::Keyword);
            push_rop_body_emits(&x.body, out);
        },
        Rule::Keyframes(x) => {
            push_emit(out, x.at_keyframes.location, TokenType::Keyword);
            push_maybe_named_emits(&x.name, TokenType::Type, out);
            match &x.body {
                None => {},
                Some(BraceOrSemicolon::Semicolon(s)) => push_emit(out, s.location, TokenType::Operator),
                Some(BraceOrSemicolon::Brace(b)) => {
                    push_emit(out, b.left, TokenType::Operator);
                    push_keyframe_list_emits(&b.children, out);
                    push_tts_emits(&b.trailing, out);
                    push_emit(out, b.right, TokenType::Operator);
                },
            }
        },
        Rule::UnknownAtRule(kw, x) => {
            push_emit(out, kw.location, TokenType::Keyword);
            push_tts_emits(x, out);
        },
    }
    proof {
        assert(out@ =~= o + rule_emits(r));
    }
}

/// The tokens of a sheet's rules, in the order in which they are highlighted (comments apart).
pub fn sheet_emits(sheet: &StyleSheet) -> (r: Vec<Emit>)
    ensures
        r@ == rules_emits(sheet.items@, sheet.items@.len() as int),
{
    let mut out: Vec<Emit> = Vec::new();
    let mut i: usize = 0;
    proof {
        assert(out@ =~= rules_emits(sheet.items@, 0));
    }
    while i < sheet.items.len()
        invariant
            i <= sheet.items@.len(),
            out@ == rules_emits(sheet.items@, i as int),
        decreases sheet.items@.len() - i,
    {
        push_rule_emits(&sheet.items[i], &mut out);
        proof {
            assert(out@ =~= rules_emits(sheet.items@, i + 1));
        }
        i = i + 1;
    }
    out
}


proof fn lemma_selectors_emits_has(sels: Seq<Selector>, b: int, e: Emit)
    requires
        0 <= b < sels.len(),
        selector_emits(sels[b]).contains(e),
    ensures
        selectors_emits(sels).contains(e),
    decreases sels.len(),
{
    let init = sels.drop_last();
    if b < sels.len() - 1 {
        assert(init[b] == sels[b]);
        lemma_selectors_emits_has(init, b, e);
    }
    lemma_contains_concat(selectors_emits(init), selector_emits(sels.last()), e);
}

proof fn lemma_selector_lists_emits_has(lists: Seq<(List<Selector>, Option<Comma>)>, a: int, b: int, e: Emit)
    requires
        0 <= a < lists.len(),
        0 <= b < lists[a].0@.len(),
        selector_emits(lists[a].0@[b]).contains(e),
    ensures
        selector_lists_emits(lists).contains(e),
    decreases lists.len(),
{
    let init = lists.drop_last();
    if a < lists.len() - 1 {
        assert(init[a] == lists[a]);
        lemma_selector_lists_emits_has(init, a, b, e);
    } else {
        lemma_selectors_emits_has(lists.last().0@, b, e);
    }
    lemma_contains_concat(selector_lists_emits(init), selectors_emits(lists.last().0@), e);
}

proof fn lemma_rules_emits_has(rules: Seq<Rule>, n: int, i: int, e: Emit)
    requires
        0 <= i < n <= rules.len(),
        rule_emits(&rules[i]).contains(e),
    ensures
        rules_emits(rules, n).contains(e),
    decreases n,
{
    if i < n - 1 {
        lemma_rules_emits_has(rules, n - 1, i, e);
    }
    lemma_contains_concat(rules_emits(rules, n - 1), rule_emits(&rules[n - 1]), e);
}

proof fn lemma_rule_list_emits_has(l: &List<Rule>, n: int, k: int, e: Emit)
    requires
        0 <= k < n <= l@.len(),
        rule_emits(&l@[k]).contains(e),
    ensures
        rule_list_emits(l, n).contains(e),
    decreases n,
{
    if k < n - 1 {
        lemma_rule_list_emits_has(l, n - 1, k, e);
    }
    lemma_contains_concat(rule_list_emits(l, n - 1), rule_emits(&l@[n - 1]), e);
}

proof fn lemma_rop_list_emits_has(l: &List<RuleOrProperty>, n: int, k: int, e: Emit)
    requires
        0 <= k < n <= l@.len(),
        (match &l@[k] {
            RuleOrProperty::Rule(r) => rule_emits(r),
            RuleOrProperty::Property(p) => property_emits(*p),
        }).contains(e),
    ensures
        rop_list_emits(l, n).contains(e),
    decreases n,
{
    if k < n - 1 {
        lemma_rop_list_emits_has(l, n - 1, k, e);
    }
    lemma_contains_concat(rop_list_emits(l, n - 1), match &l@[n - 1] {
        RuleOrProperty::Rule(r) => rule_emits(r),
        RuleOrProperty::Property(p) => property_emits(*p),
    }, e);
}

proof fn lemma_group_emits_has(left: Location, ty: TokenType, inner: Seq<Emit>, trailing: Seq<Emit>, right: Location, e: Emit)
    requires
        inner.contains(e),
    ensures
        group_emits(left, ty, inner, trailing, right).contains(e),
{
    lemma_contains_concat(emit(left, ty), inner, e);
    lemma_contains_concat(emit(left, ty) + inner, trailing, e);
    lemma_contains_concat(emit(left, ty) + inner + trailing, emit(right, TokenType::Operator), e);
}

/// The tokens of a rule nested in the `{...}` block of a media rule, or of a rule or property
/// nested in that of a style rule, are among the tokens of the enclosing rule: nothing nested
/// goes without highlighting.
pub proof fn lemma_nested_items_highlighted(r: &Rule, k: int, e: Emit)
    ensures
        r is Media ==> (r->Media_0.body matches Some(BraceOrSemicolon::Brace(b)) ==> (0 <= k < b.children@.len()
            && rule_emits(&b.children@[k]).contains(e) ==> rule_emits(r).contains(e))),
        r is Style ==> (r->Style_0.brace matches Some(BraceOrSemicolon::Brace(b)) ==> (0 <= k < b.children@.len()
            && (match &b.children@[k] {
                RuleOrProperty::Rule(rr) => rule_emits(rr),
                RuleOrProperty::Property(p) => property_emits(*p),
            }).contains(e) ==> rule_emits(r).contains(e))),
{
    match r {
        Rule::Media(x) => match &x.body {
            Some(BraceOrSemicolon::Brace(b)) => {
                if 0 <= k < b.children@.len() && rule_emits(&b.children@[k]).contains(e) {
                    let n = b.children@.len() as int;
                    lemma_rule_list_emits_has(&b.children, n, k, e);
                    let g = group_emits(b.left, TokenType::Operator, rule_list_emits(&b.children, n), tts_emits(b.trailing@), b.right);
                    lemma_group_emits_has(b.left, TokenType::Operator, rule_list_emits(&b.children, n), tts_emits(b.trailing@), b.right, e);
                    let head = emit(x.at_media.location, TokenType::Keyword) + match &x.list {
                        Some(l) => isolate(media_query_list_emits(l)),
                        None => Seq::empty(),
                    };
                    lemma_contains_concat(head, g, e);
                }
            },
            _ => {},
        },
        Rule::Style(x) => match &x.brace {
            Some(BraceOrSemicolon::Brace(b)) => {
                let n = b.children@.len() as int;
                if 0 <= k < n && (match &b.children@[k] {
                    RuleOrProperty::Rule(rr) => rule_emits(rr),
                    RuleOrProperty::Property(p) => property_emits(*p),
                }).contains(e) {
                    lemma_rop_list_emits_has(&b.children, n, k, e);
                    lemma_group_emits_has(b.left, TokenType::Operator, rop_list_emits(&b.children, n), tts_emits(b.trailing@), b.right, e);
                    lemma_contains_concat(selector_lists_emits(x.selector@), rop_body_emits(&x.brace), e);
                }
            },
            _ => {},
        },
        _ => {},
    }
}

/// The type token over a selector name: the name of a tag name, ID or class selector.
pub open spec fn selector_name_token(sel: Selector) -> Option<Emit> {
    match sel {
        Selector::TagName(y) => Some(Emit { location: y.location, ty: TokenType::Type, isolated: false }),
        Selector::Id(y) => Some(Emit { location: y.location, ty: TokenType::Type, isolated: false }),
        Selector::Class(_, y) => Some(Emit { location: y.location, ty: TokenType::Type, isolated: false }),
        _ => None,
    }
}

/// Every selector name of a style rule is highlighted: for each tag name, ID or class selector
/// in any of its selector lists, the rule's tokens hold one of type `Type` over that name.
pub proof fn lemma_rule_selector_names_highlighted(r: &Rule, a: int, b: int)
    requires
        r is Style,
        0 <= a < r->Style_0.selector@.len(),
        0 <= b < r->Style_0.selector@[a].0@.len(),
    ensures
        selector_name_token(r->Style_0.selector@[a].0@[b]) matches Some(e) ==> rule_emits(r).contains(e),
{
    let x = r->Style_0;
    let sel = x.selector@[a].0@[b];
    match selector_name_token(sel) {
        Some(e) => {
            let se = selector_emits(sel);
            match sel {
                Selector::Class(op, y) => {
                    assert(se[1] == e);
                },
                _ => {
                    assert(se[0] == e);
                },
            }
            lemma_selector_lists_emits_has(x.selector@, a, b, e);
            lemma_contains_concat(selector_lists_emits(x.selector@), rop_body_emits(&x.brace), e);
        },
        None => {},
    }
}

/// Every selector name of a style rule of the sheet is highlighted: for each tag name, ID or
/// class selector in any selector list of a rule of the sheet, the tokens handed to the
/// generator (those that `find_wxss_semantic_tokens` encodes within the range) hold one of type
/// `Type` over that name. With `lemma_nested_items_highlighted`, the same holds of the rules
/// nested in blocks.
pub proof fn lemma_selector_names_highlighted(sheet: &StyleSheet, i: int, a: int, b: int)
    requires
        0 <= i < sheet.items@.len(),
        sheet.items@[i] is Style,
        0 <= a < sheet.items@[i]->Style_0.selector@.len(),
        0 <= b < sheet.items@[i]->Style_0.selector@[a].0@.len(),
    ensures
        selector_name_token(sheet.items@[i]->Style_0.selector@[a].0@[b]) matches Some(e)
            ==> rules_emits(sheet.items@, sheet.items@.len() as int).contains(e),
{
    let sel = sheet.items@[i]->Style_0.selector@[a].0@[b];
    lemma_rule_selector_names_highlighted(&sheet.items@[i], a, b);
    match selector_name_token(sel) {
        Some(e) => {
            lemma_rules_emits_has(sheet.items@, sheet.items@.len() as int, i, e);
        },
        None => {},
    }
}

/// The UTF-16 length of line `line`, its line break included; zero for a line that does not
/// exist.
pub open spec fn line_width(c: &FileContentMetadata, line: int) -> int {
    if 0 <= line < c.line_starts@.len() {
        utf16_len(c.line_text(line)) as int
    } else {
        0
    }
}

/// Every line of the text is at most `u32::MAX` UTF-16 units long.
pub open spec fn lines_fit(c: &FileContentMetadata) -> bool {
    forall|i: int| 0 <= i < c.line_starts@.len() ==> #[trigger] utf16_len(c.line_text(i)) <= u32::MAX
}

/// The generator's state: the line and column of the last token it encoded, and the tokens
/// encoded so far.
pub type GenState = (u32, u32, Seq<SemanticToken>);

/// Encodes the part of a token (from `start` to `end`) that lies on line `line`: nothing when
/// that part is empty, else a token relative to the last one. `None` where the column would
/// have to be taken back past the last token's column on the same line.
pub open spec fn line_step(c: &FileContentMetadata, line: int, start: Position, end: Position, ty: TokenType, modifier: u32, st: GenState) -> Option<GenState> {
    let s: int = if line == start.line { start.utf16_col as int } else { 0 };
    let e: int = if line == end.line { end.utf16_col as int } else { line_width(c, line) };
    let length: int = if e > s { e - s } else { 0 };
    if length == 0 {
        Some(st)
    } else {
        let dl: int = line - st.0;
        let ds: int = s - (if dl > 0 { 0 } else { st.1 as int });
        if dl < 0 || ds < 0 {
            None
        } else {
            Some((line as u32, s as u32, st.2.push(SemanticToken {
                delta_line: dl as u32,
                delta_start: ds as u32,
                length: length as u32,
                token_type: token_type_index(ty),
                token_modifiers_bitset: modifier,
            })))
        }
    }
}

/// Where the last of `tokens` starts, read back from their deltas: a token on a later line
/// starts at its own column there, one on the same line that many columns after the previous
/// one; nothing decodes to the start of the text.
pub open spec fn decoded_end(tokens: Seq<SemanticToken>) -> (int, int)
    decreases tokens.len(),
{
    if tokens.len() == 0 {
        (0, 0)
    } else {
        let prev = decoded_end(tokens.drop_last());
        let t = tokens.last();
        if t.delta_line > 0 {
            (prev.0 + t.delta_line, t.delta_start as int)
        } else {
            (prev.0, prev.1 + t.delta_start)
        }
    }
}

/// The generator's line and column are where its tokens, read back from their deltas, end.
pub open spec fn gen_consistent(st: GenState) -> bool {
    decoded_end(st.2) == (st.0 as int, st.1 as int)
}

/// Encoding a line of a token keeps the generator's position where the deltas lead: the token
/// added decodes to the line and column the generator moves to.
pub proof fn lemma_line_step_decodes(c: &FileContentMetadata, line: int, start: Position, end: Position, ty: TokenType, modifier: u32, st: GenState)
    requires
        gen_consistent(st),
        line_step(c, line, start, end, ty, modifier, st) is Some,
        0 <= line <= u32::MAX,
    ensures
        gen_consistent(line_step(c, line, start, end, ty, modifier, st)->0),
{
    let r = line_step(c, line, start, end, ty, modifier, st)->0;
    if r.2.len() > st.2.len() {
        assert(r.2.drop_last() =~= st.2);
    }
}

/// The lines `from .. to` of a token, encoded one after the other.
pub open spec fn lines_upto(c: &FileContentMetadata, from: int, to: int, start: Position, end: Position, ty: TokenType, modifier: u32, st: GenState) -> Option<GenState>
    decreases to - from,
{
    if to <= from {
        Some(st)
    } else {
        match lines_upto(c, from, to - 1, start, end, ty, modifier, st) {
            None => None,
            Some(s) => line_step(c, to - 1, start, end, ty, modifier, s),
        }
    }
}

/// Where a token that starts before the last encoded one is taken to lie: it starts on the last
/// token's line, and its end line is the last token's column.
pub open spec fn adjusted(loc: Location, st: GenState) -> (Position, Position) {
    if loc.start.line < st.0 || (loc.start.line == st.0 && loc.start.utf16_col < st.1) {
        (Position { line: st.0, utf16_col: loc.start.utf16_col }, Position { line: st.1, utf16_col: loc.end.utf16_col })
    } else {
        (loc.start, loc.end)
    }
}

/// Encoding the lines of a token one after the other keeps the generator's position where the
/// deltas lead.
pub proof fn lemma_lines_upto_decodes(c: &FileContentMetadata, from: int, to: int, start: Position, end: Position, ty: TokenType, modifier: u32, st: GenState)
    requires
        gen_consistent(st),
        lines_upto(c, from, to, start, end, ty, modifier, st) is Some,
        0 <= from,
        to <= u32::MAX + 1,
    ensures
        gen_consistent(lines_upto(c, from, to, start, end, ty, modifier, st)->0),
    decreases to - from,
{
    if to > from {
        lemma_lines_upto_decodes(c, from, to - 1, start, end, ty, modifier, st);
        let mid = lines_upto(c, from, to - 1, start, end, ty, modifier, st)->0;
        lemma_line_step_decodes(c, to - 1, start, end, ty, modifier, mid);
    }
}

/// Handing a token to the generator keeps its position where the deltas of the tokens it
/// encoded lead, so that a client adding the deltas up finds each token where the generator
/// placed it.
pub proof fn lemma_gen_push_decodes(c: &FileContentMetadata, range: Location, st: GenState, loc: Location, ty: TokenType, modifier: u32)
    requires
        gen_consistent(st),
        gen_push(c, range, st, loc, ty, modifier) is Some,
    ensures
        gen_consistent((gen_push(c, range, st, loc, ty, modifier)->0).1),
{
    if !pos_le(range.end, loc.start) && !pos_lt(loc.start, range.start) {
        let (start, end) = adjusted(loc, st);
        lemma_lines_upto_decodes(c, start.line as int, end.line + 1, start, end, ty, modifier, st);
    }
}

/// One token handed to the generator: `false` (and nothing encoded) when it starts at or after
/// the end of the range, `true` and nothing encoded when it starts before the range, else `true`
/// and the token encoded line by line.
pub open spec fn gen_push(c: &FileContentMetadata, range: Location, st: GenState, loc: Location, ty: TokenType, modifier: u32) -> Option<(bool, GenState)> {
    if pos_le(range.end, loc.start) {
        Some((false, st))
    } else if pos_lt(loc.start, range.start) {
        Some((true, st))
    } else {
        let (start, end) = adjusted(loc, st);
        match lines_upto(c, start.line as int, end.line + 1, start, end, ty, modifier, st) {
            None => None,
            Some(s) => Some((true, s)),
        }
    }
}

/// A token on one line, inside the range and not before the last token encoded, is encoded as
/// exactly one more semantic token: of its type and modifiers, as long as it is, and decoding
/// to the line and column where it starts.
pub proof fn lemma_gen_push_encodes_token(c: &FileContentMetadata, range: Location, st: GenState, loc: Location, ty: TokenType, modifier: u32)
    requires
        gen_consistent(st),
        pos_le(range.start, loc.start),
        pos_lt(loc.start, range.end),
        loc.start.line == loc.end.line,
        loc.start.utf16_col < loc.end.utf16_col,
        loc.start.line > st.0 || (loc.start.line == st.0 && loc.start.utf16_col >= st.1),
    ensures
        gen_push(c, range, st, loc, ty, modifier) matches Some((ok, s2)) && ok && ({
            let t = s2.2.last();
            &&& s2.2.len() == st.2.len() + 1
            &&& s2.2.drop_last() == st.2
            &&& t.length == loc.end.utf16_col - loc.start.utf16_col
            &&& t.token_type == token_type_index(ty)
            &&& t.token_modifiers_bitset == modifier
            &&& decoded_end(s2.2) == (loc.start.line as int, loc.start.utf16_col as int)
        }),
{
    let line = loc.start.line as int;
    assert(adjusted(loc, st) == (loc.start, loc.end));
    reveal_with_fuel(lines_upto, 2);
    assert(lines_upto(c, line, line, loc.start, loc.end, ty, modifier, st) == Some(st));
    let r = line_step(c, line, loc.start, loc.end, ty, modifier, st);
    assert(r is Some);
    assert(lines_upto(c, line, line + 1, loc.start, loc.end, ty, modifier, st) == r);
    let s2 = r->0;
    assert(s2.2.drop_last() =~= st.2);
    lemma_line_step_decodes(c, line, loc.start, loc.end, ty, modifier, st);
}

/// One token of the sheet, after the comments (from the `ci`-th on) that start at or before it:
/// a comment that the generator refuses ends the step with `false`. Gives the result, the state
/// and the index of the next comment.
pub open spec fn flush_push(c: &FileContentMetadata, range: Location, comments: Seq<Comment>, st: GenState, ci: int, loc: Location, ty: TokenType) -> Option<(bool, GenState, int)>
    decreases comments.len() - ci,
{
    if 0 <= ci < comments.len() && pos_le(comments[ci].location.start, loc.start) {
        match gen_push(c, range, st, comments[ci].location, TokenType::Comment, 0) {
            None => None,
            Some((ok, s)) => if !ok {
                Some((false, s, ci + 1))
            } else {
                flush_push(c, range, comments, s, ci + 1, loc, ty)
            },
        }
    } else {
        match gen_push(c, range, st, loc, ty, 0) {
            None => None,
            Some((ok, s)) => Some((ok, s, ci)),
        }
    }
}

/// The walk's state: the generator's, the index of the next comment, whether the rest of a
/// media query list is being skipped, and whether the walk has stopped.
pub type WalkState = (GenState, int, bool, bool);

pub open spec fn walk_step(c: &FileContentMetadata, range: Location, comments: Seq<Comment>, ws: WalkState, e: Emit) -> Option<WalkState> {
    if ws.3 || (e.isolated && ws.2) {
        Some(ws)
    } else {
        match flush_push(c, range, comments, ws.0, ws.1, e.location, e.ty) {
            None => None,
            Some((ok, s, ci)) => Some((s, ci, e.isolated && !ok, !e.isolated && !ok)),
        }
    }
}

/// The walk over the first `n` tokens.
pub open spec fn walk(c: &FileContentMetadata, range: Location, comments: Seq<Comment>, emits: Seq<Emit>, n: int) -> Option<WalkState>
    decreases n,
{
    if n <= 0 {
        Some(((0u32, 0u32, Seq::empty()), 0int, false, false))
    } else {
        match walk(c, range, comments, emits, n - 1) {
            None => None,
            Some(ws) => walk_step(c, range, comments, ws, emits[n - 1]),
        }
    }
}

/// The comments left after the walk, handed to the generator until it refuses one.
pub open spec fn finish(c: &FileContentMetadata, range: Location, comments: Seq<Comment>, st: GenState, ci: int) -> Option<GenState>
    decreases comments.len() - ci,
{
    if ci < 0 || ci >= comments.len() {
        Some(st)
    } else {
        match gen_push(c, range, st, comments[ci].location, TokenType::Comment, 0) {
            None => None,
            Some((ok, s)) => if ok {
                finish(c, range, comments, s, ci + 1)
            } else {
                Some(s)
            },
        }
    }
}

/// The semantic tokens of a sheet within `range`, comments included; `None` where the encoding
/// would take a column back past the previous token's.
pub open spec fn semantic_tokens(c: &FileContentMetadata, sheet: &StyleSheet, range: Location) -> Option<Seq<SemanticToken>> {
    let emits = rules_emits(sheet.items@, sheet.items@.len() as int);
    match walk(c, range, sheet.comments@, emits, emits.len() as int) {
        None => None,
        Some(ws) => match finish(c, range, sheet.comments@, ws.0, ws.1) {
            None => None,
            Some(st) => Some(st.2),
        },
    }
}

proof fn lemma_lines_upto_none(c: &FileContentMetadata, from: int, k: int, to: int, start: Position, end: Position, ty: TokenType, modifier: u32, st: GenState)
    requires
        from <= k <= to,
        lines_upto(c, from, k, start, end, ty, modifier, st) is None,
    ensures
        lines_upto(c, from, to, start, end, ty, modifier, st) is None,
    decreases to - k,
{
    if k < to {
        lemma_lines_upto_none(c, from, k, to - 1, start, end, ty, modifier, st);
    }
}

proof fn lemma_walk_stopped(c: &FileContentMetadata, range: Location, comments: Seq<Comment>, emits: Seq<Emit>, k: int, n: int)
    requires
        0 <= k <= n <= emits.len(),
        walk(c, range, comments, emits, k) matches Some(ws) && ws.3,
    ensures
        walk(c, range, comments, emits, n) == walk(c, range, comments, emits, k),
    decreases n - k,
{
    if k < n {
        lemma_walk_stopped(c, range, comments, emits, k, n - 1);
    }
}

/// The state of the encoder: the line and column of the last token, the requested range, and
/// the tokens so far.
pub struct Generator {
    pub rel_line: u32,
    pub rel_col: u32,
    pub range: Location,
    pub generated: Vec<SemanticToken>,
}

impl Generator {
    pub open spec fn state(&self) -> GenState {
        (self.rel_line, self.rel_col, self.generated@)
    }

    pub fn new(range: Location) -> (r: Generator)
        ensures
            r.state() == (0u32, 0u32, Seq::<SemanticToken>::empty()),
            r.range == range,
    {
        Generator { rel_line: 0, rel_col: 0, range, generated: Vec::new() }
    }

    /// Hands one token to the encoder; `None` where a line of the token would start before the
    /// last encoded token, which the relative encoding cannot express.
    pub fn push(&mut self, c: &FileContentMetadata, loc: Location, ty: TokenType, modifier: u32) -> (r: Option<bool>)
        requires
            c.wf(),
            lines_fit(c),
        ensures
            final(self).range == old(self).range,
            match gen_push(c, old(self).range, old(self).state(), loc, ty, modifier) {
                None => r is None,
                Some((ok, st)) => r == Some(ok) && final(self).state() == st,
            },
    {
        if self.range.end.le(&loc.start) {
            return Some(false);
        }
        if loc.start.lt(&self.range.start) {
            return Some(true);
        }
        let ghost st0 = self.state();
        let (start, end) = if loc.start.line < self.rel_line || (loc.start.line == self.rel_line
            && loc.start.utf16_col < self.rel_col) {
            (Position { line: self.rel_line, utf16_col: loc.start.utf16_col }, Position { line: self.rel_col, utf16_col: loc.end.utf16_col })
        } else {
            (loc.start, loc.end)
        };
        assert((start, end) == adjusted(loc, st0));
        let last: u64 = end.line as u64;
        let mut l: u64 = start.line as u64;
        while l <= last
            invariant
                c.wf(),
                lines_fit(c),
                self.range == old(self).range,
                st0 == old(self).state(),
                !pos_le(old(self).range.end, loc.start),
                !pos_lt(loc.start, old(self).range.start),
                (start, end) == adjusted(loc, st0),
                last == end.line,
                start.line <= l,
                l <= last + 1 || l == start.line,
                self.rel_line <= l,
                lines_upto(c, start.line as int, l as int, start, end, ty, modifier, st0) == Some(self.state()),
            decreases last + 1 - l,
        {
            let line = l as u32;
            let s: u32 = if line == start.line { start.utf16_col } else { 0 };
            let e: u32 = if line == end.line { end.utf16_col } else { c.get_line_utf16_len(line) };
            let length: u32 = if e > s { e - s } else { 0 };
            let ghost before = self.state();
            if length != 0 {
                let dl: u32 = line - self.rel_line;
                let sub: u32 = if dl > 0 { 0 } else { self.rel_col };
                if s < sub {
                    proof {
                        assert(line_step(c, l as int, start, end, ty, modifier, before) is None);
                        lemma_lines_upto_none(c, start.line as int, l + 1, end.line + 1, start, end, ty, modifier, st0);
                    }
                    return None;
                }
                let ds: u32 = s - sub;
                self.generated.push(SemanticToken {
                    delta_line: dl,
                    delta_start: ds,
                    length,
                    token_type: token_type_index_of(ty),
                    token_modifiers_bitset: modifier,
                });
                self.rel_line = line;
                self.rel_col = s;
            }
            proof {
                assert(line_step(c, l as int, start, end, ty, modifier, before) == Some(self.state()));
            }
            l = l + 1;
        }
        proof {
            if l != last + 1 {
                assert(self.state() == st0);
            }
        }
        Some(true)
    }
}


/// Hands a token to the generator after the comments, from the `*ci`-th on, that start at or
/// before it.
fn push_after_comments(gen: &mut Generator, c: &FileContentMetadata, comments: &Vec<Comment>, ci: &mut usize, loc: Location, ty: TokenType) -> (r: Option<bool>)
    requires
        c.wf(),
        lines_fit(c),
        *old(ci) <= comments@.len(),
    ensures
        final(gen).range == old(gen).range,
        *final(ci) <= comments@.len(),
        match flush_push(c, old(gen).range, comments@, old(gen).state(), *old(ci) as int, loc, ty) {
            None => r is None,
            Some((ok, st, next)) => r == Some(ok) && final(gen).state() == st && *final(ci) == next,
        },
{
    let ghost target = flush_push(c, gen.range, comments@, gen.state(), *ci as int, loc, ty);
    loop
        invariant
            c.wf(),
            lines_fit(c),
            gen.range == old(gen).range,
            *ci <= comments@.len(),
            target == flush_push(c, old(gen).range, comments@, old(gen).state(), *old(ci) as int, loc, ty),
            target == flush_push(c, gen.range, comments@, gen.state(), *ci as int, loc, ty),
        decreases comments@.len() - *ci,
    {
        if *ci < comments.len() && comments[*ci].location.start.le(&loc.start) {
            let cl = comments[*ci].location;
            *ci = *ci + 1;
            match gen.push(c, cl, TokenType::Comment, 0) {
                None => {
                    return None;
                },
                Some(ok) => {
                    if !ok {
                        return Some(false);
                    }
                },
            }
        } else {
            return gen.push(c, loc, ty, 0);
        }
    }
}

/// The semantic tokens of a sheet, comments included, for the part of the text within `range`,
/// each encoded relative to the one before it, a token that spans lines once per line.
///
/// A token that starts at or after the end of the range ends the walk, but within a media query
/// list it only ends that list: the walk goes on with the rule's block. Tokens that start before
/// the range are left out. A comment is placed before the first token that does not start
/// before it; the comments left after the walk follow until one starts at or after the end of
/// the range. `None` where the encoding would take a column back past the previous token's on
/// the same line (which happens only for a token that starts before the one before it).
pub fn find_wxss_semantic_tokens(content: &FileContentMetadata, sheet: &StyleSheet, range: Location) -> (r: Option<Vec<SemanticToken>>)
    requires
        content.wf(),
        lines_fit(content),
    ensures
        match semantic_tokens(content, sheet, range) {
            None => r is None,
            Some(t) => r matches Some(v) && v@ == t,
        },
{
    let emits = sheet_emits(sheet);
    let ghost comments = sheet.comments@;
    let mut gen = Generator::new(range);
    let mut ci: usize = 0;
    let mut skipping = false;
    let mut stopped = false;
    let mut i: usize = 0;
    while i < emits.len() && !stopped
        invariant
            content.wf(),
            lines_fit(content),
            comments == sheet.comments@,
            emits@ == rules_emits(sheet.items@, sheet.items@.len() as int),
            gen.range == range,
            i <= emits@.len(),
            ci <= comments.len(),
            walk(content, range, comments, emits@, i as int) == Some((gen.state(), ci as int, skipping, stopped)),
        decreases emits@.len() - i,
    {
        let e = emits[i];
        if !(e.isolated && skipping) {
            match push_after_comments(&mut gen, content, &sheet.comments, &mut ci, e.location, e.ty) {
                None => {
                    proof {
                        assert(walk(content, range, comments, emits@, i + 1) is None);
                        lemma_walk_none(content, range, comments, emits@, i + 1, emits@.len() as int);
                    }
                    return None;
                },
                Some(ok) => {
                    skipping = e.isolated && !ok;
                    stopped = !e.isolated && !ok;
                },
            }
        }
        i = i + 1;
    }
    proof {
        if stopped {
            lemma_walk_stopped(content, range, comments, emits@, i as int, emits@.len() as int);
        }
    }
    let ghost fin = finish(content, range, comments, gen.state(), ci as int);
    let mut done = false;
    while ci < sheet.comments.len() && !done
        invariant
            content.wf(),
            lines_fit(content),
            comments == sheet.comments@,
            gen.range == range,
            ci <= comments.len(),
            fin == (if done { Some(gen.state()) } else { finish(content, range, comments, gen.state(), ci as int) }),
            semantic_tokens(content, sheet, range) == (match fin {
                None => None,
                Some(st) => Some(st.2),
            }),
        decreases comments.len() - ci,
    {
        let cl = sheet.comments[ci].location;
        ci = ci + 1;
        match gen.push(content, cl, TokenType::Comment, 0) {
            None => {
                return None;
            },
            Some(ok) => {
                if !ok {
                    done = true;
                }
            },
        }
    }
    Some(gen.generated)
}

proof fn lemma_walk_none(c: &FileContentMetadata, range: Location, comments: Seq<Comment>, emits: Seq<Emit>, k: int, n: int)
    requires
        0 <= k <= n <= emits.len(),
        walk(c, range, comments, emits, k) is None,
    ensures
        walk(c, range, comments, emits, n) is None,
    decreases n - k,
{
    if k < n {
        lemma_walk_none(c, range, comments, emits, k, n - 1);
    }
}

} // verus!
