//! The outline of a style sheet: a symbol for each rule, with the rules nested in its block as
//! children.

use vstd::prelude::*;
use crate::position::Location;
use crate::text::push_str;
use crate::wxss::list::{List, MaybeUnknown};
use crate::wxss::token::BraceOrSemicolon;
use crate::wxss::sheet::{Keyframe, Rule, RuleOrProperty, StyleSheet};

verus! {

#[derive(Debug, Clone, Copy, PartialEq, Eq, Structural)]
pub enum SymbolKind {
    Class,
    Interface,
    Module,
    Namespace,
}

/// The name of a symbol: a text, or the percentage token at a range, whose value the caller
/// writes out as a percentage.
#[derive(Debug)]
pub enum SymbolName {
    Text(String),
    Percentage(Location),
}

/// A symbol of the outline: its name and kind, the range of what names it, the range of the
/// whole item, and the symbols nested in it when it has a block.
#[derive(Debug)]
pub struct DocumentSymbol {
    pub name: SymbolName,
    pub kind: SymbolKind,
    pub selection_range: Location,
    pub range: Location,
    pub children: Option<Vec<DocumentSymbol>>,
}

pub open spec fn name_is_text(n: SymbolName, t: Seq<char>) -> bool {
    n matches SymbolName::Text(s) && s@ == t
}

/// Whether a rule has a symbol: every rule but an unrecognized one.
pub open spec fn rule_has_symbol(r: Rule) -> bool {
    !(r is Unknown)
}

/// Whether an item of a block has a symbol: a rule that has one.
pub open spec fn item_has_symbol(x: RuleOrProperty) -> bool {
    x matches RuleOrProperty::Rule(r) && rule_has_symbol(r)
}

/// Whether a keyframe has a symbol: one with a recognized progress.
pub open spec fn keyframe_has_symbol(k: Keyframe) -> bool {
    match k {
        Keyframe::Named { progress, .. } => progress is Normal,
        Keyframe::Percentage { progress, .. } => progress is Normal,
        Keyframe::Unknown(_) => false,
    }
}

pub open spec fn rop_pred() -> spec_fn(RuleOrProperty) -> bool {
    |x: RuleOrProperty| item_has_symbol(x)
}

pub open spec fn rule_pred() -> spec_fn(Rule) -> bool {
    |x: Rule| rule_has_symbol(x)
}

pub open spec fn keyframe_pred() -> spec_fn(Keyframe) -> bool {
    |x: Keyframe| keyframe_has_symbol(x)
}

/// The number of items among the first `i` of `s` that satisfy `p`.
pub open spec fn count_before<T>(s: Seq<T>, p: spec_fn(T) -> bool, i: int) -> int
    decreases i,
{
    if i <= 0 || i > s.len() {
        0
    } else {
        count_before(s, p, i - 1) + if p(s[i - 1]) { 1int } else { 0int }
    }
}

/// Whether the ranges of a rule's symbol can be taken: every media rule met on the way to the
/// rules that get symbols has a range.
pub open spec fn rule_locatable(r: &Rule) -> bool
    decreases r, 0int,
{
    match r {
        Rule::Style(x) => rop_body_locatable(&x.brace),
        Rule::Media(x) => x.located() && match &x.body {
            Some(BraceOrSemicolon::Brace(b)) => rule_list_locatable(&b.children, 0),
            _ => true,
        },
        Rule::Keyframes(x) => match &x.body {
            Some(BraceOrSemicolon::Brace(b)) => keyframe_list_locatable(&b.children, 0),
            _ => true,
        },
        _ => true,
    }
}

pub open spec fn rop_body_locatable(b: &Option<BraceOrSemicolon<List<RuleOrProperty>>>) -> bool
    decreases b, 0int,
{
    match b {
        Some(BraceOrSemicolon::Brace(x)) => rop_list_locatable(&x.children, 0),
        _ => true,
    }
}

pub open spec fn rop_list_locatable(l: &List<RuleOrProperty>, i: int) -> bool
    decreases l, l@.len() - i,
{
    if 0 <= i < l@.len() {
        proof {
            List::lemma_item_decreases(*l, i);
        }
        (match &l@[i] {
            RuleOrProperty::Rule(r) => rule_locatable(r),
            RuleOrProperty::Property(_) => true,
        }) && rop_list_locatable(l, i + 1)
    } else {
        true
    }
}

pub open spec fn rule_list_locatable(l: &List<Rule>, i: int) -> bool
    decreases l, l@.len() - i,
{
    if 0 <= i < l@.len() {
        proof {
            List::lemma_item_decreases(*l, i);
        }
        rule_locatable(&l@[i]) && rule_list_locatable(l, i + 1)
    } else {
        true
    }
}

pub open spec fn keyframe_list_locatable(l: &List<Keyframe>, i: int) -> bool
    decreases l, l@.len() - i,
{
    if 0 <= i < l@.len() {
        proof {
            List::lemma_item_decreases(*l, i);
        }
        (match &l@[i] {
            Keyframe::Named { body, .. } => rop_body_locatable(body),
            Keyframe::Percentage { body, .. } => rop_body_locatable(body),
            Keyframe::Unknown(_) => true,
        }) && keyframe_list_locatable(l, i + 1)
    } else {
        true
    }
}

/// Whether `s` is the symbol of the rule `r`.
pub open spec fn symbol_of_rule(s: DocumentSymbol, r: &Rule) -> bool
    decreases r, 0int,
{
    match r {
        Rule::Unknown(_) => false,
        Rule::Style(x) => {
            &&& name_is_text(s.name, x.selector_str@)
            &&& s.kind == SymbolKind::Class
            &&& s.selection_range == x.selector.spec_location()
            &&& s.range == x.spec_location()
            &&& rop_body_symbols(s.children, &x.brace)
        },
        Rule::Import(x) => {
            &&& name_is_text(s.name, "@import"@)
            &&& s.kind == SymbolKind::Interface
            &&& s.selection_range == x.at_import.location
            &&& s.range == x.spec_location()
            &&& s.children is None
        },
        Rule::Media(x) => {
            &&& name_is_text(s.name, "@media "@ + x.list_str@)
            &&& s.kind == SymbolKind::Module
            &&& s.selection_range == x.at_media.location
            &&& s.range == x.spec_location()
            &&& match &x.body {
                Some(BraceOrSemicolon::Brace(b)) => s.children matches Some(v) && rule_list_symbols(v@, &b.children, 0),
                _ => s.children is None,
            }
        },
        Rule::FontFace(x) => {
            &&& name_is_text(s.name, "@font-face"@)
            &&& s.kind == SymbolKind::Module
            &&& s.selection_range == x.at_font_face.location
            &&& s.range == x.spec_location()
            &&& s.children is None
        },
        Rule::Keyframes(x) => {
            &&& name_is_text(s.name, "@keyframes "@ + match &x.name {
                MaybeUnknown::Normal(n, _) => n.content@,
                MaybeUnknown::Unknown(_) => Seq::empty(),
            })
            &&& s.kind == SymbolKind::Module
            &&& s.selection_range == x.at_keyframes.location
            &&& s.range == x.spec_location()
            &&& match &x.body {
                Some(BraceOrSemicolon::Brace(b)) => s.children matches Some(v) && keyframe_list_symbols(
                    v@,
                    &b.children,
                    b.spec_location(),
                    0,
                ),
                _ => s.children is None,
            }
        },
        Rule::UnknownAtRule(kw, _) => {
            &&& name_is_text(s.name, "@"@ + kw.content@)
            &&& s.kind == SymbolKind::Module
            &&& s.selection_range == kw.location
            &&& s.range == r.spec_location()
            &&& s.children is None
        },
    }
}

/// The children of a symbol whose item has a block of rules and properties: the symbols of the
/// block's rules, or none without a block.
pub open spec fn rop_body_symbols(ch: Option<Vec<DocumentSymbol>>, b: &Option<BraceOrSemicolon<List<RuleOrProperty>>>) -> bool
    decreases b, 0int,
{
    match b {
        Some(BraceOrSemicolon::Brace(x)) => ch matches Some(v) && rop_list_symbols(v@, &x.children, 0),
        _ => ch is None,
    }
}

/// `out` holds, in order, the symbols of the rules among the items of `l` from `i` on, after
/// the symbols of the items before `i`.
pub open spec fn rop_list_symbols(out: Seq<DocumentSymbol>, l: &List<RuleOrProperty>, i: int) -> bool
    decreases l, l@.len() - i,
{
    let p = rop_pred();
    if 0 <= i < l@.len() {
        proof {
            List::lemma_item_decreases(*l, i);
        }
        (match &l@[i] {
            RuleOrProperty::Rule(r) => rule_has_symbol(*r) ==> symbol_of_rule(out[count_before(l@, p, i)], r),
            RuleOrProperty::Property(_) => true,
        }) && rop_list_symbols(out, l, i + 1)
    } else {
        out.len() == count_before(l@, p, l@.len() as int)
    }
}

/// `out` holds, in order, the symbols of the rules of `l` from `i` on, after those of the rules
/// before `i`.
pub open spec fn rule_list_symbols(out: Seq<DocumentSymbol>, l: &List<Rule>, i: int) -> bool
    decreases l, l@.len() - i,
{
    let p = rule_pred();
    if 0 <= i < l@.len() {
        proof {
            List::lemma_item_decreases(*l, i);
        }
        (rule_has_symbol(l@[i]) ==> symbol_of_rule(out[count_before(l@, p, i)], &l@[i]))
            && rule_list_symbols(out, l, i + 1)
    } else {
        out.len() == count_before(l@, p, l@.len() as int)
    }
}

/// `out` holds, in order, the symbols of the keyframes of `l` from `i` on that have one; each
/// covers the range `block` of the whole block of keyframes.
pub open spec fn keyframe_list_symbols(out: Seq<DocumentSymbol>, l: &List<Keyframe>, block: Location, i: int) -> bool
    decreases l, l@.len() - i,
{
    let p = keyframe_pred();
    if 0 <= i < l@.len() {
        proof {
            List::lemma_item_decreases(*l, i);
        }
        (keyframe_has_symbol(l@[i]) ==> symbol_of_keyframe(out[count_before(l@, p, i)], &l@[i], block))
            && keyframe_list_symbols(out, l, block, i + 1)
    } else {
        out.len() == count_before(l@, p, l@.len() as int)
    }
}

/// Whether `s` is the symbol of a keyframe that has one: named by its progress, covering the
/// block of keyframes, with the symbols of its block's rules as children.
pub open spec fn symbol_of_keyframe(s: DocumentSymbol, k: &Keyframe, block: Location) -> bool
    decreases k, 0int,
{
    &&& s.kind == SymbolKind::Module
    &&& s.range == block
    &&& match k {
        Keyframe::Named { progress: MaybeUnknown::Normal(n, _), body } => {
            &&& name_is_text(s.name, n.content@)
            &&& s.selection_range == n.location
            &&& rop_body_symbols(s.children, body)
        },
        Keyframe::Percentage { progress: MaybeUnknown::Normal(n, _), body } => {
            &&& s.name == SymbolName::Percentage(n.location)
            &&& s.selection_range == n.location
            &&& rop_body_symbols(s.children, body)
        },
        _ => false,
    }
}

proof fn lemma_count_step<T>(s: Seq<T>, p: spec_fn(T) -> bool, i: int)
    requires
        0 <= i < s.len(),
    ensures
        count_before(s, p, i + 1) == count_before(s, p, i) + if p(s[i]) { 1int } else { 0int },
{
}

proof fn lemma_count_mono<T>(s: Seq<T>, p: spec_fn(T) -> bool, j: int, i: int)
    requires
        0 <= j <= i <= s.len(),
    ensures
        count_before(s, p, j) <= count_before(s, p, i),
        j < i && p(s[j]) ==> count_before(s, p, j) < count_before(s, p, i),
    decreases i - j,
{
    if j < i {
        lemma_count_mono(s, p, j, i - 1);
        if j == i - 1 {
        }
    }
}

pub open spec fn rop_item_ok(out: Seq<DocumentSymbol>, l: &List<RuleOrProperty>, j: int) -> bool {
    match &l@[j] {
        RuleOrProperty::Rule(r) => rule_has_symbol(*r) ==> symbol_of_rule(
            out[count_before(l@, rop_pred(), j)],
            r,
        ),
        RuleOrProperty::Property(_) => true,
    }
}

proof fn lemma_rop_list_symbols(out: Seq<DocumentSymbol>, l: &List<RuleOrProperty>, i: int)
    requires
        0 <= i <= l@.len(),
        forall|j: int| i <= j < l@.len() ==> rop_item_ok(out, l, j),
        out.len() == count_before(l@, rop_pred(), l@.len() as int),
    ensures
        rop_list_symbols(out, l, i),
    decreases l@.len() - i,
{
    if i < l@.len() {
        assert(rop_item_ok(out, l, i));
        lemma_rop_list_symbols(out, l, i + 1);
    }
}

proof fn lemma_rop_locatable_at(l: &List<RuleOrProperty>, i: int, j: int)
    requires
        0 <= i <= j < l@.len(),
        rop_list_locatable(l, i),
    ensures
        l@[j] matches RuleOrProperty::Rule(r) ==> rule_locatable(&r),
    decreases j - i,
{
    if i < j {
        lemma_rop_locatable_at(l, i + 1, j);
    }
}

pub open spec fn rule_item_ok(out: Seq<DocumentSymbol>, l: &List<Rule>, j: int) -> bool {
    rule_has_symbol(l@[j]) ==> symbol_of_rule(out[count_before(l@, rule_pred(), j)], &l@[j])
}

proof fn lemma_rule_list_symbols(out: Seq<DocumentSymbol>, l: &List<Rule>, i: int)
    requires
        0 <= i <= l@.len(),
        forall|j: int| i <= j < l@.len() ==> rule_item_ok(out, l, j),
        out.len() == count_before(l@, rule_pred(), l@.len() as int),
    ensures
        rule_list_symbols(out, l, i),
    decreases l@.len() - i,
{
    if i < l@.len() {
        assert(rule_item_ok(out, l, i));
        lemma_rule_list_symbols(out, l, i + 1);
    }
}

proof fn lemma_rule_locatable_at(l: &List<Rule>, i: int, j: int)
    requires
        0 <= i <= j < l@.len(),
        rule_list_locatable(l, i),
    ensures
        rule_locatable(&l@[j]),
    decreases j - i,
{
    if i < j {
        lemma_rule_locatable_at(l, i + 1, j);
    }
}

pub open spec fn keyframe_item_ok(out: Seq<DocumentSymbol>, l: &List<Keyframe>, block: Location, j: int) -> bool {
    keyframe_has_symbol(l@[j]) ==> symbol_of_keyframe(
        out[count_before(l@, keyframe_pred(), j)],
        &l@[j],
        block,
    )
}

proof fn lemma_keyframe_list_symbols(out: Seq<DocumentSymbol>, l: &List<Keyframe>, block: Location, i: int)
    requires
        0 <= i <= l@.len(),
        forall|j: int| i <= j < l@.len() ==> keyframe_item_ok(out, l, block, j),
        out.len() == count_before(l@, keyframe_pred(), l@.len() as int),
    ensures
        keyframe_list_symbols(out, l, block, i),
    decreases l@.len() - i,
{
    if i < l@.len() {
        assert(keyframe_item_ok(out, l, block, i));
        lemma_keyframe_list_symbols(out, l, block, i + 1);
    }
}

proof fn lemma_keyframe_locatable_at(l: &List<Keyframe>, i: int, j: int)
    requires
        0 <= i <= j < l@.len(),
        keyframe_list_locatable(l, i),
    ensures
        match &l@[j] {
            Keyframe::Named { body, .. } => rop_body_locatable(body),
            Keyframe::Percentage { body, .. } => rop_body_locatable(body),
            Keyframe::Unknown(_) => true,
        },
    decreases j - i,
{
    if i < j {
        lemma_keyframe_locatable_at(l, i + 1, j);
    }
}

fn text_name(s: &str) -> (r: SymbolName)
    ensures
        name_is_text(r, s@),
{
    let mut t = String::new();
    push_str(&mut t, s);
    proof {
        assert(t@ =~= s@);
    }
    SymbolName::Text(t)
}

/// The symbols of the rules among the items of a block.
fn rop_list_children(l: &List<RuleOrProperty>) -> (v: Vec<DocumentSymbol>)
    requires
        rop_list_locatable(l, 0),
    ensures
        rop_list_symbols(v@, l, 0),
    decreases l, 1int,
{
    let ghost p = rop_pred();
    let items = l.refs();
    let mut out: Vec<DocumentSymbol> = Vec::new();
    let mut i: usize = 0;
    while i < items.len()
        invariant
            items@.len() == l@.len(),
            forall|t: int| 0 <= t < items@.len() ==> *items@[t] == l@[t],
            i <= items@.len(),
            p == rop_pred(),
            rop_list_locatable(l, 0),
            out@.len() == count_before(l@, p, i as int),
            forall|j: int| 0 <= j < i ==> rop_item_ok(out@, l, j),
        decreases items@.len() - i,
    {
        proof {
            List::lemma_item_decreases(*l, i as int);
            lemma_rop_locatable_at(l, 0, i as int);
            lemma_count_step(l@, p, i as int);
        }
        let ghost before = out@;
        match items[i] {
            RuleOrProperty::Rule(r) => {
                match rule_symbol(r) {
                    Some(sym) => out.push(sym),
                    None => {},
                }
            },
            RuleOrProperty::Property(_) => {},
        }
        proof {
            assert(out@.len() >= before.len());
            assert(forall|k: int| 0 <= k < before.len() ==> out@[k] == before[k]);
        }
        proof {
            assert forall|j: int| 0 <= j < i + 1 implies rop_item_ok(out@, l, j) by {
                if j < i {
                    lemma_count_mono(l@, p, j, i as int);
                    lemma_count_mono(l@, p, 0, j);
                    assert(rop_item_ok(before, l, j));
                    if item_has_symbol(l@[j]) {
                        assert(p(l@[j]));
                        assert(count_before(l@, p, j) < before.len());
                        assert(out@[count_before(l@, p, j)] == before[count_before(l@, p, j)]);
                    }
                }
            }
        }
        i = i + 1;
    }
    proof {
        lemma_rop_list_symbols(out@, l, 0);
    }
    out
}

/// The symbols of the rules of a block.
fn rule_list_children(l: &List<Rule>) -> (v: Vec<DocumentSymbol>)
    requires
        rule_list_locatable(l, 0),
    ensures
        rule_list_symbols(v@, l, 0),
    decreases l, 1int,
{
    let ghost p = rule_pred();
    let items = l.refs();
    let mut out: Vec<DocumentSymbol> = Vec::new();
    let mut i: usize = 0;
    while i < items.len()
        invariant
            items@.len() == l@.len(),
            forall|t: int| 0 <= t < items@.len() ==> *items@[t] == l@[t],
            i <= items@.len(),
            p == rule_pred(),
            rule_list_locatable(l, 0),
            out@.len() == count_before(l@, p, i as int),
            forall|j: int| 0 <= j < i ==> rule_item_ok(out@, l, j),
        decreases items@.len() - i,
    {
        proof {
            List::lemma_item_decreases(*l, i as int);
            lemma_rule_locatable_at(l, 0, i as int);
            lemma_count_step(l@, p, i as int);
        }
        let ghost before = out@;
        match rule_symbol(items[i]) {
            Some(sym) => out.push(sym),
            None => {},
        }
        proof {
            assert(out@.len() >= before.len());
            assert(forall|k: int| 0 <= k < before.len() ==> out@[k] == before[k]);
        }
        proof {
            assert forall|j: int| 0 <= j < i + 1 implies rule_item_ok(out@, l, j) by {
                if j < i {
                    lemma_count_mono(l@, p, j, i as int);
                    lemma_count_mono(l@, p, 0, j);
                    assert(rule_item_ok(before, l, j));
                    if rule_has_symbol(l@[j]) {
                        assert(p(l@[j]));
                        assert(count_before(l@, p, j) < before.len());
                        assert(out@[count_before(l@, p, j)] == before[count_before(l@, p, j)]);
                    }
                }
            }
        }
        i = i + 1;
    }
    proof {
        lemma_rule_list_symbols(out@, l, 0);
    }
    out
}

/// The children of a symbol whose item has a block of rules and properties.
fn rop_body_children(b: &Option<BraceOrSemicolon<List<RuleOrProperty>>>) -> (ch: Option<Vec<DocumentSymbol>>)
    requires
        rop_body_locatable(b),
    ensures
        rop_body_symbols(ch, b),
    decreases b, 1int,
{
    match b {
        Some(BraceOrSemicolon::Brace(x)) => Some(rop_list_children(&x.children)),
        _ => None,
    }
}

/// The symbols of the keyframes of a block that have one.
fn keyframe_list_children(l: &List<Keyframe>, block: Location) -> (v: Vec<DocumentSymbol>)
    requires
        keyframe_list_locatable(l, 0),
    ensures
        keyframe_list_symbols(v@, l, block, 0),
    decreases l, 1int,
{
    let ghost p = keyframe_pred();
    let items = l.refs();
    let mut out: Vec<DocumentSymbol> = Vec::new();
    let mut i: usize = 0;
    while i < items.len()
        invariant
            items@.len() == l@.len(),
            forall|t: int| 0 <= t < items@.len() ==> *items@[t] == l@[t],
            i <= items@.len(),
            p == keyframe_pred(),
            keyframe_list_locatable(l, 0),
            out@.len() == count_before(l@, p, i as int),
            forall|j: int| 0 <= j < i ==> keyframe_item_ok(out@, l, block, j),
        decreases items@.len() - i,
    {
        proof {
            List::lemma_item_decreases(*l, i as int);
            lemma_keyframe_locatable_at(l, 0, i as int);
            lemma_count_step(l@, p, i as int);
        }
        let ghost before = out@;
        match items[i] {
            Keyframe::Named { progress: MaybeUnknown::Normal(n, _), body } => {
                let children = rop_body_children(body);
                out.push(DocumentSymbol {
                    name: text_name(n.content.as_str()),
                    kind: SymbolKind::Module,
                    selection_range: n.location,
                    range: block,
                    children,
                });
            },
            Keyframe::Percentage { progress: MaybeUnknown::Normal(n, _), body } => {
                let children = rop_body_children(body);
                out.push(DocumentSymbol {
                    name: SymbolName::Percentage(n.location),
                    kind: SymbolKind::Module,
                    selection_range: n.location,
                    range: block,
                    children,
                });
            },
            _ => {},
        }
        proof {
            assert(out@.len() >= before.len());
            assert(forall|k: int| 0 <= k < before.len() ==> out@[k] == before[k]);
        }
        proof {
            assert forall|j: int| 0 <= j < i + 1 implies keyframe_item_ok(out@, l, block, j) by {
                if j < i {
                    lemma_count_mono(l@, p, j, i as int);
                    lemma_count_mono(l@, p, 0, j);
                    assert(keyframe_item_ok(before, l, block, j));
                    if keyframe_has_symbol(l@[j]) {
                        assert(p(l@[j]));
                        assert(count_before(l@, p, j) < before.len());
                        assert(out@[count_before(l@, p, j)] == before[count_before(l@, p, j)]);
                    }
                }
            }
        }
        i = i + 1;
    }
    proof {
        lemma_keyframe_list_symbols(out@, l, block, 0);
    }
    out
}

/// The symbol of a rule; `None` for an unrecognized rule.
pub fn rule_symbol(r: &Rule) -> (res: Option<DocumentSymbol>)
    requires
        rule_locatable(r),
    ensures
        rule_has_symbol(*r) ==> (res matches Some(s) && symbol_of_rule(s, r)),
        !rule_has_symbol(*r) ==> res is None,
    decreases r, 0int,
{
    match r {
        Rule::Unknown(_) => None,
        Rule::Style(x) => {
            let children = rop_body_children(&x.brace);
            let mut name = String::new();
            push_str(&mut name, x.selector_str.as_str());
            proof {
                assert(name@ =~= x.selector_str@);
            }
            Some(DocumentSymbol {
                name: SymbolName::Text(name),
                kind: SymbolKind::Class,
                selection_range: x.selector.location(),
                range: x.location(),
                children,
            })
        },
        Rule::Import(x) => Some(DocumentSymbol {
            name: text_name("@import"),
            kind: SymbolKind::Interface,
            selection_range: x.at_import.location,
            range: x.location(),
            children: None,
        }),
        Rule::Media(x) => {
            let children = match &x.body {
                Some(BraceOrSemicolon::Brace(b)) => Some(rule_list_children(&b.children)),
                _ => None,
            };
            let mut name = text_name_string("@media ");
            push_str(&mut name, x.list_str.as_str());
            Some(DocumentSymbol {
                name: SymbolName::Text(name),
                kind: SymbolKind::Module,
                selection_range: x.at_media.location,
                range: x.location(),
                children,
            })
        },
        Rule::FontFace(x) => Some(DocumentSymbol {
            name: text_name("@font-face"),
            kind: SymbolKind::Module,
            selection_range: x.at_font_face.location,
            range: x.location(),
            children: None,
        }),
        Rule::Keyframes(x) => {
            let children = match &x.body {
                Some(BraceOrSemicolon::Brace(b)) => Some(keyframe_list_children(&b.children, b.location())),
                _ => None,
            };
            let mut name = text_name_string("@keyframes ");
            match &x.name {
                MaybeUnknown::Normal(n, _) => push_str(&mut name, n.content.as_str()),
                MaybeUnknown::Unknown(_) => {
                    proof {
                        assert(name@ =~= "@keyframes "@ + Seq::<char>::empty());
                    }
                },
            }
            Some(DocumentSymbol {
                name: SymbolName::Text(name),
                kind: SymbolKind::Module,
                selection_range: x.at_keyframes.location,
                range: x.location(),
                children,
            })
        },
        Rule::UnknownAtRule(kw, _) => {
            let mut name = text_name_string("@");
            push_str(&mut name, kw.content.as_str());
            Some(DocumentSymbol {
                name: SymbolName::Text(name),
                kind: SymbolKind::Module,
                selection_range: kw.location,
                range: r.location(),
                children: None,
            })
        },
    }
}

fn text_name_string(s: &str) -> (r: String)
    ensures
        r@ == s@,
{
    let mut t = String::new();
    push_str(&mut t, s);
    proof {
        assert(t@ =~= s@);
    }
    t
}

/// Whether the ranges of the symbols of a rule can be taken.
pub fn rule_is_locatable(r: &Rule) -> (b: bool)
    ensures
        b == rule_locatable(r),
    decreases r, 0int,
{
    match r {
        Rule::Style(x) => rop_body_is_locatable(&x.brace),
        Rule::Media(x) => {
            let list_ok = match &x.body {
                None => match &x.list {
                    Some(l) => l.has_location(),
                    None => true,
                },
                Some(_) => true,
            };
            list_ok && match &x.body {
                Some(BraceOrSemicolon::Brace(b)) => rule_list_is_locatable(&b.children),
                _ => true,
            }
        },
        Rule::Keyframes(x) => match &x.body {
            Some(BraceOrSemicolon::Brace(b)) => keyframe_list_is_locatable(&b.children),
            _ => true,
        },
        _ => true,
    }
}

fn rule_list_is_locatable(l: &List<Rule>) -> (b: bool)
    ensures
        b == rule_list_locatable(l, 0),
    decreases l, 1int,
{
    let items = l.refs();
    let mut i: usize = 0;
    while i < items.len()
        invariant
            items@.len() == l@.len(),
            forall|t: int| 0 <= t < items@.len() ==> *items@[t] == l@[t],
            i <= items@.len(),
            rule_list_locatable(l, 0) == rule_list_locatable(l, i as int),
        decreases items@.len() - i,
    {
        proof {
            List::lemma_item_decreases(*l, i as int);
        }
        if !rule_is_locatable(items[i]) {
            return false;
        }
        i = i + 1;
    }
    true
}

fn keyframe_list_is_locatable(l: &List<Keyframe>) -> (b: bool)
    ensures
        b == keyframe_list_locatable(l, 0),
    decreases l, 1int,
{
    let items = l.refs();
    let mut i: usize = 0;
    while i < items.len()
        invariant
            items@.len() == l@.len(),
            forall|t: int| 0 <= t < items@.len() ==> *items@[t] == l@[t],
            i <= items@.len(),
            keyframe_list_locatable(l, 0) == keyframe_list_locatable(l, i as int),
        decreases items@.len() - i,
    {
        proof {
            List::lemma_item_decreases(*l, i as int);
        }
        let ok = match items[i] {
            Keyframe::Named { body, .. } => rop_body_is_locatable(body),
            Keyframe::Percentage { body, .. } => rop_body_is_locatable(body),
            Keyframe::Unknown(_) => true,
        };
        if !ok {
            return false;
        }
        i = i + 1;
    }
    true
}

fn rop_body_is_locatable(b: &Option<BraceOrSemicolon<List<RuleOrProperty>>>) -> (r: bool)
    ensures
        r == rop_body_locatable(b),
    decreases b, 0int,
{
    match b {
        Some(BraceOrSemicolon::Brace(x)) => rop_list_is_locatable(&x.children),
        _ => true,
    }
}

fn rop_list_is_locatable(l: &List<RuleOrProperty>) -> (b: bool)
    ensures
        b == rop_list_locatable(l, 0),
    decreases l, 1int,
{
    let items = l.refs();
    let mut i: usize = 0;
    while i < items.len()
        invariant
            items@.len() == l@.len(),
            forall|t: int| 0 <= t < items@.len() ==> *items@[t] == l@[t],
            i <= items@.len(),
            rop_list_locatable(l, 0) == rop_list_locatable(l, i as int),
        decreases items@.len() - i,
    {
        proof {
            List::lemma_item_decreases(*l, i as int);
        }
        let ok = match items[i] {
            RuleOrProperty::Rule(r) => rule_is_locatable(r),
            RuleOrProperty::Property(_) => true,
        };
        if !ok {
            return false;
        }
        i = i + 1;
    }
    true
}

/// Whether the rules of the sheet from `i` on are all locatable.
pub open spec fn rules_locatable(rules: Seq<Rule>, i: int) -> bool
    decreases rules.len() - i,
{
    if 0 <= i < rules.len() {
        rule_locatable(&rules[i]) && rules_locatable(rules, i + 1)
    } else {
        true
    }
}

/// Whether `collect_wxss_symbol_list` can take the ranges of the sheet's symbols: every media
/// rule on the way has a range.
pub fn sheet_is_locatable(sheet: &StyleSheet) -> (b: bool)
    ensures
        b == rules_locatable(sheet.items@, 0),
{
    let mut i: usize = 0;
    while i < sheet.items.len()
        invariant
            i <= sheet.items@.len(),
            rules_locatable(sheet.items@, 0) == rules_locatable(sheet.items@, i as int),
        decreases sheet.items@.len() - i,
    {
        if !rule_is_locatable(&sheet.items[i]) {
            return false;
        }
        i = i + 1;
    }
    true
}

/// `out` holds, in order, the symbols of the rules from `i` on that have one.
pub open spec fn rules_symbols(out: Seq<DocumentSymbol>, rules: Seq<Rule>, i: int) -> bool
    decreases rules.len() - i,
{
    let p = rule_pred();
    if 0 <= i < rules.len() {
        (rule_has_symbol(rules[i]) ==> symbol_of_rule(out[count_before(rules, p, i)], &rules[i]))
            && rules_symbols(out, rules, i + 1)
    } else {
        out.len() == count_before(rules, p, rules.len() as int)
    }
}

proof fn lemma_rules_symbols(out: Seq<DocumentSymbol>, rules: Seq<Rule>, i: int)
    requires
        0 <= i <= rules.len(),
        forall|j: int| i <= j < rules.len() ==> (rule_has_symbol(rules[j]) ==> symbol_of_rule(
            out[count_before(rules, rule_pred(), j)],
            &rules[j],
        )),
        out.len() == count_before(rules, rule_pred(), rules.len() as int),
    ensures
        rules_symbols(out, rules, i),
    decreases rules.len() - i,
{
    if i < rules.len() {
        lemma_rules_symbols(out, rules, i + 1);
    }
}

proof fn lemma_rules_locatable_at(rules: Seq<Rule>, i: int, j: int)
    requires
        0 <= i <= j < rules.len(),
        rules_locatable(rules, i),
    ensures
        rule_locatable(&rules[j]),
    decreases j - i,
{
    if i < j {
        lemma_rules_locatable_at(rules, i + 1, j);
    }
}

proof fn lemma_rule_list_symbols_at(out: Seq<DocumentSymbol>, l: &List<Rule>, i: int, j: int)
    requires
        rule_list_symbols(out, l, i),
        0 <= i,
    ensures
        out.len() == count_before(l@, rule_pred(), l@.len() as int),
        i <= j < l@.len() ==> rule_item_ok(out, l, j),
    decreases l@.len() - i,
{
    if i < l@.len() {
        lemma_rule_list_symbols_at(out, l, i + 1, j);
    }
}

proof fn lemma_rop_list_symbols_at(out: Seq<DocumentSymbol>, l: &List<RuleOrProperty>, i: int, j: int)
    requires
        rop_list_symbols(out, l, i),
        0 <= i,
    ensures
        out.len() == count_before(l@, rop_pred(), l@.len() as int),
        i <= j < l@.len() && l@[j] is Rule && rule_has_symbol(l@[j]->Rule_0)
            ==> symbol_of_rule(out[count_before(l@, rop_pred(), j)], &l@[j]->Rule_0),
    decreases l@.len() - i,
{
    if i < l@.len() {
        lemma_rop_list_symbols_at(out, l, i + 1, j);
    }
}

/// The symbol of a rule covers the rule.
pub proof fn lemma_symbol_covers_rule(s: DocumentSymbol, r: &Rule)
    requires
        symbol_of_rule(s, r),
    ensures
        s.range == r.spec_location(),
        rule_has_symbol(*r),
{
}

/// In the outline, a media or style rule with a `{...}` body has as children one symbol for
/// each rule of the body that has one (every rule but an unrecognized one), in the order of
/// the body, each covering its rule; so every rule nested in a block appears under its parent.
pub proof fn lemma_block_rules_under_parent(s: DocumentSymbol, r: &Rule, j: int)
    requires
        symbol_of_rule(s, r),
    ensures
        r is Media ==> (r->Media_0.body matches Some(BraceOrSemicolon::Brace(b)) ==> ({
            let rules = b.children@;
            &&& s.children is Some
            &&& (s.children->0)@.len() == count_before(rules, rule_pred(), rules.len() as int)
            &&& 0 <= j < rules.len() && rule_has_symbol(rules[j])
                ==> (s.children->0)@[count_before(rules, rule_pred(), j)].range == rules[j].spec_location()
        })),
        r is Style ==> (r->Style_0.brace matches Some(BraceOrSemicolon::Brace(b)) ==> ({
            let items = b.children@;
            &&& s.children is Some
            &&& (s.children->0)@.len() == count_before(items, rop_pred(), items.len() as int)
            &&& 0 <= j < items.len() && items[j] is Rule && rule_has_symbol(items[j]->Rule_0)
                ==> (s.children->0)@[count_before(items, rop_pred(), j)].range == (items[j]->Rule_0).spec_location()
        })),
{
    match r {
        Rule::Media(x) => match &x.body {
            Some(BraceOrSemicolon::Brace(b)) => {
                let v = s.children->0;
                lemma_rule_list_symbols_at(v@, &b.children, 0, j);
                if 0 <= j < b.children@.len() && rule_has_symbol(b.children@[j]) {
                    assert(rule_item_ok(v@, &b.children, j));
                    lemma_symbol_covers_rule(v@[count_before(b.children@, rule_pred(), j)], &b.children@[j]);
                }
            },
            _ => {},
        },
        Rule::Style(x) => match &x.brace {
            Some(BraceOrSemicolon::Brace(b)) => {
                let v = s.children->0;
                lemma_rop_list_symbols_at(v@, &b.children, 0, j);
                if 0 <= j < b.children@.len() {
                    match b.children@[j] {
                        RuleOrProperty::Rule(rr) => if rule_has_symbol(rr) {
                            lemma_symbol_covers_rule(v@[count_before(b.children@, rop_pred(), j)], &rr);
                        },
                        _ => {},
                    }
                }
            },
            _ => {},
        },
        _ => {},
    }
}

/// The outline of a style sheet: the symbols of its rules, in order; the rules nested in the
/// blocks of style and media rules and of keyframes are the children of their symbols.
pub fn collect_wxss_symbol_list(sheet: &StyleSheet) -> (v: Vec<DocumentSymbol>)
    requires
        rules_locatable(sheet.items@, 0),
    ensures
        rules_symbols(v@, sheet.items@, 0),
{
    let ghost p = rule_pred();
    let ghost rules = sheet.items@;
    let mut out: Vec<DocumentSymbol> = Vec::new();
    let mut i: usize = 0;
    while i < sheet.items.len()
        invariant
            rules == sheet.items@,
            i <= rules.len(),
            p == rule_pred(),
            rules_locatable(rules, 0),
            out@.len() == count_before(rules, p, i as int),
            forall|j: int| 0 <= j < i ==> (rule_has_symbol(rules[j]) ==> symbol_of_rule(
                out@[count_before(rules, p, j)],
                &rules[j],
            )),
        decreases rules.len() - i,
    {
        proof {
            lemma_rules_locatable_at(rules, 0, i as int);
            lemma_count_step(rules, p, i as int);
        }
        let ghost before = out@;
        match rule_symbol(&sheet.items[i]) {
            Some(sym) => out.push(sym),
            None => {},
        }
        proof {
            assert(forall|k: int| 0 <= k < before.len() ==> out@[k] == before[k]);
            assert forall|j: int| 0 <= j < i + 1 && rule_has_symbol(rules[j]) implies symbol_of_rule(
                out@[count_before(rules, p, j)],
                &rules[j],
            ) by {
                if j < i {
                    lemma_count_mono(rules, p, j, i as int);
                    lemma_count_mono(rules, p, 0, j);
                    assert(p(rules[j]));
                    assert(out@[count_before(rules, p, j)] == before[count_before(rules, p, j)]);
                }
            }
        }
        i = i + 1;
    }
    proof {
        lemma_rules_symbols(out@, rules, 0);
    }
    out
}

} // verus!
