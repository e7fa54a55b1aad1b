//! Semantic tokens of WXML templates: every token of the tree is listed with its type, the list
//! is sorted by range, and the tokens are encoded in that order within the requested range.

use vstd::prelude::*;
use crate::position::{Location, Position};
use crate::wxml::{
    ArrayField, Attribute, ClassAttribute, CommonAttributes, Element, ElementKind, EventBinding,
    Expr, Node, ObjectField, Script, SrcElement, StaticAttribute, StyleAttribute, Template,
    TemplateDefinition, Value, WxmlName, holds_element, is_child_element,
};
use crate::semantic::{gen_push, lines_fit, GenState, Generator, SemanticToken, TokenType};
use crate::file_content::FileContentMetadata;
use crate::wxml_match::lemma_contains_concat;

verus! {

/// The modifier bit of a declaration (the `src` of an import or include).
pub const MODIFIER_DECLARATION: u32 = 1;

/// The modifier bit of a definition (a script module or a sub-template name).
pub const MODIFIER_DEFINITION: u32 = 2;

/// A token of a template, before encoding.
#[derive(Debug, Clone, Copy, PartialEq, Eq, Structural)]
pub struct WxmlToken {
    pub location: Location,
    pub ty: TokenType,
    pub modifier: u32,
}

pub open spec fn wt(location: Location, ty: TokenType) -> Seq<WxmlToken> {
    seq![WxmlToken { location, ty, modifier: 0 }]
}

pub open spec fn wtm(location: Location, ty: TokenType, modifier: u32) -> Seq<WxmlToken> {
    seq![WxmlToken { location, ty, modifier }]
}

pub open spec fn opt_keyword(p: Option<Location>) -> Seq<WxmlToken> {
    match p {
        Some(l) => wt(l, TokenType::Keyword),
        None => Seq::empty(),
    }
}

/// The tokens of a binding expression, in source order.
pub open spec fn expr_tokens(e: Expr) -> Seq<WxmlToken>
    decreases e, 1int,
{
    match e {
        Expr::Cond { cond, true_br, false_br, question_location, colon_location } => expr_tokens(*cond)
            + wt(question_location, TokenType::Operator) + expr_tokens(*true_br) + wt(colon_location, TokenType::Operator)
            + expr_tokens(*false_br),
        Expr::Binary { left, right, location, .. } => expr_tokens(*left) + wt(location, TokenType::Operator)
            + expr_tokens(*right),
        Expr::Unary { value, location } => wt(location, TokenType::Operator) + expr_tokens(*value),
        Expr::ScopeRef { location, .. } => wt(location, TokenType::Variable),
        Expr::DataField { location, .. } => wt(location, TokenType::Property),
        Expr::ToStringWithoutUndefined { location, .. } => wt(location, TokenType::Operator),
        Expr::KeywordLit { location } => wt(location, TokenType::Keyword),
        Expr::LitStr { location, .. } => wt(location, TokenType::String),
        Expr::NumberLit { location } => wt(location, TokenType::Number),
        Expr::LitObj { fields, brace_location } => wt(brace_location.0, TokenType::Operator) + obj_fields_tokens(fields@)
            + wt(brace_location.1, TokenType::Operator),
        Expr::LitArr { fields, bracket_location } => wt(bracket_location.0, TokenType::Operator)
            + arr_fields_tokens(fields@) + wt(bracket_location.1, TokenType::Operator),
        Expr::StaticMember { obj, dot_location, field_location, .. } => expr_tokens(*obj) + wt(dot_location, TokenType::Operator)
            + wt(field_location, TokenType::Property),
        Expr::DynamicMember { obj, field_name, bracket_location } => expr_tokens(*obj) + wt(bracket_location.0, TokenType::Operator)
            + expr_tokens(*field_name) + wt(bracket_location.1, TokenType::Operator),
        Expr::FuncCall { func, args, paren_location } => expr_tokens(*func) + wt(paren_location.0, TokenType::Operator)
            + exprs_tokens(args@) + wt(paren_location.1, TokenType::Operator),
    }
}

pub open spec fn exprs_tokens(es: Seq<Expr>) -> Seq<WxmlToken>
    decreases es, 0int,
{
    if es.len() == 0 {
        Seq::empty()
    } else {
        exprs_tokens(es.drop_last()) + expr_tokens(es.last())
    }
}

pub open spec fn obj_fields_tokens(fs: Seq<ObjectField>) -> Seq<WxmlToken>
    decreases fs, 0int,
{
    if fs.len() == 0 {
        Seq::empty()
    } else {
        obj_fields_tokens(fs.drop_last()) + match fs.last() {
            ObjectField::Named { location, colon_location, value, .. } => wt(location, TokenType::Property)
                + match colon_location {
                Some(c) => wt(c, TokenType::Operator) + expr_tokens(value),
                None => Seq::empty(),
            },
            ObjectField::Spread { location, value } => wt(location, TokenType::Operator) + expr_tokens(value),
        }
    }
}

pub open spec fn arr_fields_tokens(fs: Seq<ArrayField>) -> Seq<WxmlToken>
    decreases fs, 0int,
{
    if fs.len() == 0 {
        Seq::empty()
    } else {
        arr_fields_tokens(fs.drop_last()) + match fs.last() {
            ArrayField::Normal { value } => expr_tokens(value),
            ArrayField::Spread { location, value } => wt(location, TokenType::Operator) + expr_tokens(value),
            ArrayField::EmptySlot => Seq::empty(),
        }
    }
}

/// The tokens of a value: a static value as one token of type `static_ty`, a binding as its
/// braces around the tokens of its expression.
pub open spec fn value_tokens(v: Value, static_ty: TokenType) -> Seq<WxmlToken> {
    match v {
        Value::Static { location, .. } => wt(location, static_ty),
        Value::Dynamic { expression, double_brace_location } => wt(double_brace_location.0, TokenType::Operator)
            + expr_tokens(*expression) + wt(double_brace_location.1, TokenType::Operator),
    }
}

pub open spec fn opt_value_tokens(v: Option<Value>, static_ty: TokenType) -> Seq<WxmlToken> {
    match v {
        Some(v) => value_tokens(v, static_ty),
        None => Seq::empty(),
    }
}

/// The tokens of an attribute: its prefix, its name, and its value when it has one.
pub open spec fn attr_tokens(a: Attribute) -> Seq<WxmlToken> {
    opt_keyword(a.prefix_location) + wt(a.name.location, TokenType::Variable) + opt_value_tokens(a.value, TokenType::String)
}

pub open spec fn attrs_tokens(s: Seq<Attribute>) -> Seq<WxmlToken>
    decreases s.len(),
{
    if s.len() == 0 {
        Seq::empty()
    } else {
        attrs_tokens(s.drop_last()) + attr_tokens(s.last())
    }
}

/// The tokens of an attribute whose value is a name, the value with type `value_ty`.
pub open spec fn static_attrs_tokens(s: Seq<StaticAttribute>, value_ty: TokenType) -> Seq<WxmlToken>
    decreases s.len(),
{
    if s.len() == 0 {
        Seq::empty()
    } else {
        static_attrs_tokens(s.drop_last(), value_ty) + opt_keyword(s.last().prefix_location)
            + wt(s.last().name.location, TokenType::Variable) + wt(s.last().value.location, value_ty)
    }
}

pub open spec fn events_tokens(s: Seq<EventBinding>) -> Seq<WxmlToken>
    decreases s.len(),
{
    if s.len() == 0 {
        Seq::empty()
    } else {
        events_tokens(s.drop_last()) + wt(s.last().prefix_location, TokenType::Keyword)
            + wt(s.last().name.location, TokenType::Event) + opt_value_tokens(s.last().value, TokenType::Method)
    }
}

/// The tokens of a keyword attribute such as `wx:if` or `slot`: the keyword and its value.
pub open spec fn keyword_value_tokens(x: Option<(Location, Value)>) -> Seq<WxmlToken> {
    match x {
        Some((l, v)) => wt(l, TokenType::Keyword) + value_tokens(v, TokenType::String),
        None => Seq::empty(),
    }
}

pub open spec fn common_tokens(c: CommonAttributes) -> Seq<WxmlToken> {
    keyword_value_tokens(c.id) + keyword_value_tokens(c.slot) + static_attrs_tokens(c.slot_value_refs@, TokenType::Function)
        + attrs_tokens(c.data@) + attrs_tokens(c.marks@) + events_tokens(c.event_bindings@)
}

pub open spec fn class_items_tokens(s: Seq<(Location, WxmlName, Option<Value>)>) -> Seq<WxmlToken>
    decreases s.len(),
{
    if s.len() == 0 {
        Seq::empty()
    } else {
        class_items_tokens(s.drop_last()) + wt(s.last().1.location, TokenType::Variable)
            + opt_value_tokens(s.last().2, TokenType::String)
    }
}

pub open spec fn style_items_tokens(s: Seq<(Location, WxmlName, Value)>) -> Seq<WxmlToken>
    decreases s.len(),
{
    if s.len() == 0 {
        Seq::empty()
    } else {
        style_items_tokens(s.drop_last()) + wt(s.last().1.location, TokenType::Variable)
            + value_tokens(s.last().2, TokenType::String)
    }
}

pub open spec fn class_tokens(c: ClassAttribute) -> Seq<WxmlToken> {
    match c {
        ClassAttribute::Absent => Seq::empty(),
        ClassAttribute::String(l, v) => wt(l, TokenType::Keyword) + value_tokens(v, TokenType::String),
        ClassAttribute::Multiple(list) => class_items_tokens(list@),
    }
}

pub open spec fn style_tokens(c: StyleAttribute) -> Seq<WxmlToken> {
    match c {
        StyleAttribute::Absent => Seq::empty(),
        StyleAttribute::String(l, v) => wt(l, TokenType::Keyword) + value_tokens(v, TokenType::String),
        StyleAttribute::Multiple(list) => style_items_tokens(list@),
    }
}

/// The tokens of a `wx:for` name attribute: the keyword and the name, as a string.
pub open spec fn for_name_tokens(x: (Location, WxmlName)) -> Seq<WxmlToken> {
    wt(x.0, TokenType::Keyword) + wt(x.1.location, TokenType::String)
}

/// The tokens of the tags of a normal element: the opening tag's name part, its closing `>`,
/// and the closing tag (or the `/>` of a self-closing tag).
pub open spec fn tag_tokens(e: Element, tag_name: WxmlName) -> Seq<WxmlToken> {
    let tl = e.tag_location;
    wt(Location { start: tl.start.0.start, end: tag_name.location.end }, TokenType::Type) + wt(tl.start.1, TokenType::Type)
        + match tl.end {
        Some(x) => wt(Location { start: x.0.start, end: x.1.end }, TokenType::Type),
        None => wt(tl.close, TokenType::Type),
    }
}

/// The tokens of the nodes, in order.
pub open spec fn nodes_tokens(ns: Seq<Node>) -> Seq<WxmlToken>
    decreases ns, 0int,
{
    if ns.len() == 0 {
        Seq::empty()
    } else {
        nodes_tokens(ns.drop_last()) + node_tokens(ns.last())
    }
}

pub open spec fn node_tokens(n: Node) -> Seq<WxmlToken>
    decreases n, 2int,
{
    match n {
        Node::Text(v) => value_tokens(v, TokenType::String),
        Node::Element(e) => element_tokens(e),
        Node::Comment(c) => wt(c.location, TokenType::Comment),
        Node::UnknownMetaTag(l) => wt(l, TokenType::Macro),
    }
}

/// The tokens of the `wx:if` / `wx:elif` branches: each keyword, its condition and its nodes.
pub open spec fn branches_tokens(bs: Seq<(Location, Value, Vec<Node>)>) -> Seq<WxmlToken>
    decreases bs, 0int,
{
    if bs.len() == 0 {
        Seq::empty()
    } else {
        branches_tokens(bs.drop_last()) + wt(bs.last().0, TokenType::Keyword) + value_tokens(bs.last().1, TokenType::String)
            + nodes_tokens(bs.last().2@)
    }
}

pub open spec fn element_tokens(e: Element) -> Seq<WxmlToken>
    decreases e, 1int,
{
    match e.kind {
        ElementKind::Normal {
            tag_name,
            attributes,
            class,
            style,
            change_attributes,
            worklet_attributes,
            children,
            generics,
            extra_attr,
            common,
            ..
        } => tag_tokens(e, tag_name) + attrs_tokens(attributes@) + attrs_tokens(change_attributes@)
            + static_attrs_tokens(worklet_attributes@, TokenType::Function) + static_attrs_tokens(generics@, TokenType::Function)
            + static_attrs_tokens(extra_attr@, TokenType::Function) + class_tokens(class) + style_tokens(style)
            + common_tokens(common) + nodes_tokens(children@),
        ElementKind::Pure { children, slot, slot_value_refs, .. } => keyword_value_tokens(slot)
            + static_attrs_tokens(slot_value_refs@, TokenType::String) + nodes_tokens(children@),
        ElementKind::Slot { name, values, common } => wt(name.0, TokenType::Keyword) + value_tokens(name.1, TokenType::String)
            + attrs_tokens(values@) + common_tokens(common),
        ElementKind::If { branches, else_branch } => branches_tokens(branches@) + match else_branch {
            Some((l, ns)) => wt(l, TokenType::Keyword) + nodes_tokens(ns@),
            None => Seq::empty(),
        },
        ElementKind::For { list, item_name, index_name, key, children } => wt(list.0, TokenType::Keyword)
            + value_tokens(list.1, TokenType::String) + for_name_tokens(item_name) + for_name_tokens(index_name)
            + for_name_tokens(key) + nodes_tokens(children@),
        ElementKind::TemplateRef { target, data } => wt(target.0, TokenType::Keyword) + value_tokens(target.1, TokenType::String)
            + wt(data.0, TokenType::Keyword) + value_tokens(data.1, TokenType::String),
        ElementKind::Include { path } => wt(path.0, TokenType::Keyword) + wt(path.1.location, TokenType::String),
    }
}

/// The tokens of imports or includes: the `src` keyword and the path, declared.
pub open spec fn src_elements_tokens(s: Seq<SrcElement>) -> Seq<WxmlToken>
    decreases s.len(),
{
    if s.len() == 0 {
        Seq::empty()
    } else {
        src_elements_tokens(s.drop_last()) + wt(s.last().src_location, TokenType::Keyword)
            + wtm(s.last().src.location, TokenType::String, MODIFIER_DECLARATION)
    }
}

pub open spec fn script_tokens(s: Script) -> Seq<WxmlToken> {
    match s {
        Script::Inline { module_location, module_name, .. } => wt(module_location, TokenType::Keyword)
            + wtm(module_name.location, TokenType::String, MODIFIER_DEFINITION),
        Script::GlobalRef { module_location, module_name, src_location, src, .. } => wt(module_location, TokenType::Keyword)
            + wtm(module_name.location, TokenType::String, MODIFIER_DEFINITION) + wt(src_location, TokenType::Keyword)
            + wt(src.location, TokenType::String),
    }
}

pub open spec fn scripts_tokens(s: Seq<Script>) -> Seq<WxmlToken>
    decreases s.len(),
{
    if s.len() == 0 {
        Seq::empty()
    } else {
        scripts_tokens(s.drop_last()) + script_tokens(s.last())
    }
}

pub open spec fn sub_templates_tokens(s: Seq<TemplateDefinition>) -> Seq<WxmlToken>
    decreases s.len(),
{
    if s.len() == 0 {
        Seq::empty()
    } else {
        sub_templates_tokens(s.drop_last()) + wt(s.last().name_location, TokenType::Keyword)
            + wtm(s.last().name.location, TokenType::String, MODIFIER_DEFINITION) + nodes_tokens(s.last().content@)
    }
}

/// All tokens of a template, in the order in which they are collected: imports, includes,
/// scripts, sub-templates, then the content.
pub open spec fn template_tokens(t: Template) -> Seq<WxmlToken> {
    src_elements_tokens(t.imports@) + src_elements_tokens(t.includes@) + scripts_tokens(t.scripts@)
        + sub_templates_tokens(t.sub_templates@) + nodes_tokens(t.content@)
}

proof fn lemma_nodes_tokens_has(ns: Seq<Node>, j: int, x: WxmlToken)
    requires
        0 <= j < ns.len(),
        node_tokens(ns[j]).contains(x),
    ensures
        nodes_tokens(ns).contains(x),
    decreases ns.len(),
{
    let init = ns.drop_last();
    if j < ns.len() - 1 {
        assert(init[j] == ns[j]);
        lemma_nodes_tokens_has(init, j, x);
    }
    lemma_contains_concat(nodes_tokens(init), node_tokens(ns.last()), x);
}

proof fn lemma_held_tokens(ns: Seq<Node>, d: Element, x: WxmlToken)
    requires
        holds_element(ns, d),
        element_tokens(d).contains(x),
    ensures
        nodes_tokens(ns).contains(x),
{
    let j = choose|j: int| 0 <= j < ns.len() && ns[j] == Node::Element(d);
    lemma_nodes_tokens_has(ns, j, x);
}

proof fn lemma_branches_tokens_has(bs: Seq<(Location, Value, Vec<Node>)>, k: int, x: WxmlToken)
    requires
        0 <= k < bs.len(),
        nodes_tokens(bs[k].2@).contains(x),
    ensures
        branches_tokens(bs).contains(x),
    decreases bs.len(),
{
    let init = bs.drop_last();
    let head = branches_tokens(init) + wt(bs.last().0, TokenType::Keyword) + value_tokens(bs.last().1, TokenType::String);
    if k < bs.len() - 1 {
        assert(init[k] == bs[k]);
        lemma_branches_tokens_has(init, k, x);
        lemma_contains_concat(branches_tokens(init), wt(bs.last().0, TokenType::Keyword), x);
        lemma_contains_concat(branches_tokens(init) + wt(bs.last().0, TokenType::Keyword), value_tokens(bs.last().1, TokenType::String), x);
    }
    lemma_contains_concat(head, nodes_tokens(bs.last().2@), x);
}

proof fn lemma_suffix_has(full: Seq<WxmlToken>, p: Seq<WxmlToken>, b: Seq<WxmlToken>, x: WxmlToken)
    requires
        full == p + b,
        b.contains(x),
    ensures
        full.contains(x),
{
    lemma_contains_concat(p, b, x);
}

/// The tokens of an element standing among the child nodes of an element (of any kind: an
/// ordinary element, a `block`, a `wx:for`, a branch of a `wx:if` or its `wx:else`) are among
/// the tokens of that element, and those of an element at the top of the content or of a
/// sub-template are among the tokens of the template; so the tokens of every element at any
/// depth are collected, and `lemma_sort_tokens` keeps them all.
pub proof fn lemma_child_tokens_collected(t: Template, e: Element, d: Element, x: WxmlToken)
    ensures
        is_child_element(e, d) && element_tokens(d).contains(x) ==> element_tokens(e).contains(x),
        holds_element(t.content@, d) && element_tokens(d).contains(x) ==> template_tokens(t).contains(x),
{
    if is_child_element(e, d) && element_tokens(d).contains(x) {
        match e.kind {
            ElementKind::Normal { tag_name, attributes, class, style, change_attributes, worklet_attributes, children, generics, extra_attr, common, .. } => {
                lemma_held_tokens(children@, d, x);
                lemma_suffix_has(element_tokens(e), tag_tokens(e, tag_name) + attrs_tokens(attributes@) + attrs_tokens(change_attributes@)
                    + static_attrs_tokens(worklet_attributes@, TokenType::Function) + static_attrs_tokens(generics@, TokenType::Function)
                    + static_attrs_tokens(extra_attr@, TokenType::Function) + class_tokens(class) + style_tokens(style)
                    + common_tokens(common), nodes_tokens(children@), x);
            },
            ElementKind::Pure { children, slot, slot_value_refs, .. } => {
                lemma_held_tokens(children@, d, x);
                lemma_suffix_has(element_tokens(e), keyword_value_tokens(slot) + static_attrs_tokens(slot_value_refs@, TokenType::String),
                    nodes_tokens(children@), x);
            },
            ElementKind::For { list, item_name, index_name, key, children } => {
                lemma_held_tokens(children@, d, x);
                lemma_suffix_has(element_tokens(e), wt(list.0, TokenType::Keyword) + value_tokens(list.1, TokenType::String)
                    + for_name_tokens(item_name) + for_name_tokens(index_name) + for_name_tokens(key), nodes_tokens(children@), x);
            },
            ElementKind::If { branches, else_branch } => {
                let tail = match else_branch {
                    Some((l, ns)) => wt(l, TokenType::Keyword) + nodes_tokens(ns@),
                    None => Seq::empty(),
                };
                if exists|k: int| 0 <= k < branches@.len() && holds_element(#[trigger] branches@[k].2@, d) {
                    let k = choose|k: int| 0 <= k < branches@.len() && holds_element(#[trigger] branches@[k].2@, d);
                    lemma_held_tokens(branches@[k].2@, d, x);
                    lemma_branches_tokens_has(branches@, k, x);
                    lemma_contains_concat(branches_tokens(branches@), tail, x);
                } else {
                    let (l, ns) = else_branch->0;
                    lemma_held_tokens(ns@, d, x);
                    lemma_suffix_has(tail, wt(l, TokenType::Keyword), nodes_tokens(ns@), x);
                    lemma_suffix_has(element_tokens(e), branches_tokens(branches@), tail, x);
                }
            },
            _ => {},
        }
    }
    if holds_element(t.content@, d) && element_tokens(d).contains(x) {
        lemma_held_tokens(t.content@, d, x);
        lemma_suffix_has(template_tokens(t), src_elements_tokens(t.imports@) + src_elements_tokens(t.includes@)
            + scripts_tokens(t.scripts@) + sub_templates_tokens(t.sub_templates@), nodes_tokens(t.content@), x);
    }
}

/// An ordinary element's tag is highlighted: its tokens hold one of type `Type` from the start
/// of its opening tag to the end of its tag name.
pub proof fn lemma_tag_name_highlighted(e: Element)
    ensures
        e.kind matches ElementKind::Normal { tag_name, .. } ==> element_tokens(e).contains(WxmlToken {
            location: Location { start: e.tag_location.start.0.start, end: tag_name.location.end },
            ty: TokenType::Type,
            modifier: 0,
        }),
{
    match e.kind {
        ElementKind::Normal { tag_name, attributes, class, style, change_attributes, worklet_attributes, children, generics, extra_attr, common, .. } => {
            let x = WxmlToken { location: Location { start: e.tag_location.start.0.start, end: tag_name.location.end }, ty: TokenType::Type, modifier: 0 };
            let tt = tag_tokens(e, tag_name);
            assert(tt[0] == x);
            assert(element_tokens(e)[0] == tt[0]);
        },
        _ => {},
    }
}


fn push_wt(out: &mut Vec<WxmlToken>, location: Location, ty: TokenType)
    ensures
        final(out)@ == old(out)@ + wt(location, ty),
{
    out.push(WxmlToken { location, ty, modifier: 0 });
    proof {
        assert(final(out)@ =~= old(out)@ + wt(location, ty));
    }
}

fn push_wtm(out: &mut Vec<WxmlToken>, location: Location, ty: TokenType, modifier: u32)
    ensures
        final(out)@ == old(out)@ + wtm(location, ty, modifier),
{
    out.push(WxmlToken { location, ty, modifier });
    proof {
        assert(final(out)@ =~= old(out)@ + wtm(location, ty, modifier));
    }
}

fn push_opt_keyword(out: &mut Vec<WxmlToken>, p: &Option<Location>)
    ensures
        final(out)@ == old(out)@ + opt_keyword(*p),
{
    match p {
        Some(l) => push_wt(out, *l, TokenType::Keyword),
        None => {
            proof {
                assert(out@ =~= old(out)@ + opt_keyword(*p));
            }
        },
    }
}

fn push_expr_tokens(e: &Expr, out: &mut Vec<WxmlToken>)
    ensures
        final(out)@ == old(out)@ + expr_tokens(*e),
    decreases e, 1int,
{
    let ghost o = out@;
    match e {
        Expr::Cond { cond, true_br, false_br, question_location, colon_location } => {
            push_expr_tokens(cond, out);
            push_wt(out, *question_location, TokenType::Operator);
            push_expr_tokens(true_br, out);
            push_wt(out, *colon_location, TokenType::Operator);
            push_expr_tokens(false_br, out);
        },
        Expr::Binary { left, right, location, .. } => {
            push_expr_tokens(left, out);
            push_wt(out, *location, TokenType::Operator);
            push_expr_tokens(right, out);
        },
        Expr::Unary { value, location } => {
            push_wt(out, *location, TokenType::Operator);
            push_expr_tokens(value, out);
        },
        Expr::ScopeRef { location, .. } => push_wt(out, *location, TokenType::Variable),
        Expr::DataField { location, .. } => push_wt(out, *location, TokenType::Property),
        Expr::ToStringWithoutUndefined { location, .. } => push_wt(out, *location, TokenType::Operator),
        Expr::KeywordLit { location } => push_wt(out, *location, TokenType::Keyword),
        Expr::LitStr { location, .. } => push_wt(out, *location, TokenType::String),
        Expr::NumberLit { location } => push_wt(out, *location, TokenType::Number),
        Expr::LitObj { fields, brace_location } => {
            push_wt(out, brace_location.0, TokenType::Operator);
            push_obj_fields_tokens(fields, out);
            push_wt(out, brace_location.1, TokenType::Operator);
        },
        Expr::LitArr { fields, bracket_location } => {
            push_wt(out, bracket_location.0, TokenType::Operator);
            push_arr_fields_tokens(fields, out);
            push_wt(out, bracket_location.1, TokenType::Operator);
        },
        Expr::StaticMember { obj, dot_location, field_location, .. } => {
            push_expr_tokens(obj, out);
            push_wt(out, *dot_location, TokenType::Operator);
            push_wt(out, *field_location, TokenType::Property);
        },
        Expr::DynamicMember { obj, field_name, bracket_location } => {
            push_expr_tokens(obj, out);
            push_wt(out, bracket_location.0, TokenType::Operator);
            push_expr_tokens(field_name, out);
            push_wt(out, bracket_location.1, TokenType::Operator);
        },
        Expr::FuncCall { func, args, paren_location } => {
            push_expr_tokens(func, out);
            push_wt(out, paren_location.0, TokenType::Operator);
            push_exprs_tokens(args, out);
            push_wt(out, paren_location.1, TokenType::Operator);
        },
    }
    proof {
        assert(out@ =~= o + expr_tokens(*e));
    }
}

fn push_exprs_tokens(es: &Vec<Expr>, out: &mut Vec<WxmlToken>)
    ensures
        final(out)@ == old(out)@ + exprs_tokens(es@),
    decreases es@, 0int,
{
    let ghost o = out@;
    let mut i: usize = 0;
    proof {
        assert(es@.take(0) =~= Seq::<Expr>::empty());
        assert(out@ =~= o + exprs_tokens(es@.take(0)));
    }
    while i < es.len()
        invariant
            i <= es@.len(),
            out@ == o + exprs_tokens(es@.take(i as int)),
        decreases es@.len() - i,
    {
        proof {
            assert(es@.take(i + 1).drop_last() =~= es@.take(i as int));
            assert(es@.take(i + 1).last() == es@[i as int]);
        }
        push_expr_tokens(&es[i], out);
        proof {
            assert(out@ =~= o + exprs_tokens(es@.take(i + 1)));
        }
        i = i + 1;
    }
    proof {
        assert(es@.take(i as int) =~= es@);
    }
}

fn push_obj_fields_tokens(fs: &Vec<ObjectField>, out: &mut Vec<WxmlToken>)
    ensures
        final(out)@ == old(out)@ + obj_fields_tokens(fs@),
    decreases fs@, 0int,
{
    let ghost o = out@;
    let mut i: usize = 0;
    proof {
        assert(fs@.take(0) =~= Seq::<ObjectField>::empty());
        assert(out@ =~= o + obj_fields_tokens(fs@.take(0)));
    }
    while i < fs.len()
        invariant
            i <= fs@.len(),
            out@ == o + obj_fields_tokens(fs@.take(i as int)),
        decreases fs@.len() - i,
    {
        proof {
            assert(fs@.take(i + 1).drop_last() =~= fs@.take(i as int));
            assert(fs@.take(i + 1).last() == fs@[i as int]);
        }
        let ghost before = out@;
        match &fs[i] {
            ObjectField::Named { location, colon_location, value, .. } => {
                push_wt(out, *location, TokenType::Property);
                match colon_location {
                    Some(c) => {
                        push_wt(out, *c, TokenType::Operator);
                        push_expr_tokens(value, out);
                    },
                    None => {},
                }
            },
            ObjectField::Spread { location, value } => {
                push_wt(out, *location, TokenType::Operator);
                push_expr_tokens(value, out);
            },
        }
        proof {
            assert(out@ =~= o + obj_fields_tokens(fs@.take(i + 1)));
        }
        i = i + 1;
    }
    proof {
        assert(fs@.take(i as int) =~= fs@);
    }
}

fn push_arr_fields_tokens(fs: &Vec<ArrayField>, out: &mut Vec<WxmlToken>)
    ensures
        final(out)@ == old(out)@ + arr_fields_tokens(fs@),
    decreases fs@, 0int,
{
    let ghost o = out@;
    let mut i: usize = 0;
    proof {
        assert(fs@.take(0) =~= Seq::<ArrayField>::empty());
        assert(out@ =~= o + arr_fields_tokens(fs@.take(0)));
    }
    while i < fs.len()
        invariant
            i <= fs@.len(),
            out@ == o + arr_fields_tokens(fs@.take(i as int)),
        decreases fs@.len() - i,
    {
        proof {
            assert(fs@.take(i + 1).drop_last() =~= fs@.take(i as int));
            assert(fs@.take(i + 1).last() == fs@[i as int]);
        }
        match &fs[i] {
            ArrayField::Normal { value } => push_expr_tokens(value, out),
            ArrayField::Spread { location, value } => {
                push_wt(out, *location, TokenType::Operator);
                push_expr_tokens(value, out);
            },
            ArrayField::EmptySlot => {},
        }
        proof {
            assert(out@ =~= o + arr_fields_tokens(fs@.take(i + 1)));
        }
        i = i + 1;
    }
    proof {
        assert(fs@.take(i as int) =~= fs@);
    }
}

fn push_value_tokens(v: &Value, static_ty: TokenType, out: &mut Vec<WxmlToken>)
    ensures
        final(out)@ == old(out)@ + value_tokens(*v, static_ty),
{
    let ghost o = out@;
    match v {
        Value::Static { location, .. } => push_wt(out, *location, static_ty),
        Value::Dynamic { expression, double_brace_location } => {
            push_wt(out, double_brace_location.0, TokenType::Operator);
            push_expr_tokens(expression, out);
            push_wt(out, double_brace_location.1, TokenType::Operator);
        },
    }
    proof {
        assert(out@ =~= o + value_tokens(*v, static_ty));
    }
}

fn push_opt_value_tokens(v: &Option<Value>, static_ty: TokenType, out: &mut Vec<WxmlToken>)
    ensures
        final(out)@ == old(out)@ + opt_value_tokens(*v, static_ty),
{
    match v {
        Some(x) => push_value_tokens(x, static_ty, out),
        None => {
            proof {
                assert(out@ =~= old(out)@ + opt_value_tokens(*v, static_ty));
            }
        },
    }
}

fn push_attrs_tokens(s: &Vec<Attribute>, out: &mut Vec<WxmlToken>)
    ensures
        final(out)@ == old(out)@ + attrs_tokens(s@),
{
    let ghost o = out@;
    let mut i: usize = 0;
    proof {
        assert(s@.take(0) =~= Seq::<Attribute>::empty());
        assert(out@ =~= o + attrs_tokens(s@.take(0)));
    }
    while i < s.len()
        invariant
            i <= s@.len(),
            out@ == o + attrs_tokens(s@.take(i as int)),
        decreases s@.len() - i,
    {
        proof {
            assert(s@.take(i + 1).drop_last() =~= s@.take(i as int));
            assert(s@.take(i + 1).last() == s@[i as int]);
        }
        let a = &s[i];
        push_opt_keyword(out, &a.prefix_location);
        push_wt(out, a.name.location, TokenType::Variable);
        push_opt_value_tokens(&a.value, TokenType::String, out);
        proof {
            assert(out@ =~= o + attrs_tokens(s@.take(i + 1)));
        }
        i = i + 1;
    }
    proof {
        assert(s@.take(i as int) =~= s@);
    }
}

fn push_static_attrs_tokens(s: &Vec<StaticAttribute>, value_ty: TokenType, out: &mut Vec<WxmlToken>)
    ensures
        final(out)@ == old(out)@ + static_attrs_tokens(s@, value_ty),
{
    let ghost o = out@;
    let mut i: usize = 0;
    proof {
        assert(s@.take(0) =~= Seq::<StaticAttribute>::empty());
        assert(out@ =~= o + static_attrs_tokens(s@.take(0), value_ty));
    }
    while i < s.len()
        invariant
            i <= s@.len(),
            out@ == o + static_attrs_tokens(s@.take(i as int), value_ty),
        decreases s@.len() - i,
    {
        proof {
            assert(s@.take(i + 1).drop_last() =~= s@.take(i as int));
            assert(s@.take(i + 1).last() == s@[i as int]);
        }
        let a = &s[i];
        push_opt_keyword(out, &a.prefix_location);
        push_wt(out, a.name.location, TokenType::Variable);
        push_wt(out, a.value.location, value_ty);
        proof {
            assert(out@ =~= o + static_attrs_tokens(s@.take(i + 1), value_ty));
        }
        i = i + 1;
    }
    proof {
        assert(s@.take(i as int) =~= s@);
    }
}

fn push_events_tokens(s: &Vec<EventBinding>, out: &mut Vec<WxmlToken>)
    ensures
        final(out)@ == old(out)@ + events_tokens(s@),
{
    let ghost o = out@;
    let mut i: usize = 0;
    proof {
        assert(s@.take(0) =~= Seq::<EventBinding>::empty());
        assert(out@ =~= o + events_tokens(s@.take(0)));
    }
    while i < s.len()
        invariant
            i <= s@.len(),
            out@ == o + events_tokens(s@.take(i as int)),
        decreases s@.len() - i,
    {
        proof {
            assert(s@.take(i + 1).drop_last() =~= s@.take(i as int));
            assert(s@.take(i + 1).last() == s@[i as int]);
        }
        let a = &s[i];
        push_wt(out, a.prefix_location, TokenType::Keyword);
        push_wt(out, a.name.location, TokenType::Event);
        push_opt_value_tokens(&a.value, TokenType::Method, out);
        proof {
            assert(out@ =~= o + events_tokens(s@.take(i + 1)));
        }
        i = i + 1;
    }
    proof {
        assert(s@.take(i as int) =~= s@);
    }
}

fn push_keyword_value_tokens(x: &Option<(Location, Value)>, out: &mut Vec<WxmlToken>)
    ensures
        final(out)@ == old(out)@ + keyword_value_tokens(*x),
{
    let ghost o = out@;
    match x {
        Some((l, v)) => {
            push_wt(out, *l, TokenType::Keyword);
            push_value_tokens(v, TokenType::String, out);
        },
        None => {},
    }
    proof {
        assert(out@ =~= o + keyword_value_tokens(*x));
    }
}

fn push_common_tokens(c: &CommonAttributes, out: &mut Vec<WxmlToken>)
    ensures
        final(out)@ == old(out)@ + common_tokens(*c),
{
    let ghost o = out@;
    push_keyword_value_tokens(&c.id, out);
    push_keyword_value_tokens(&c.slot, out);
    push_static_attrs_tokens(&c.slot_value_refs, TokenType::Function, out);
    push_attrs_tokens(&c.data, out);
    push_attrs_tokens(&c.marks, out);
    push_events_tokens(&c.event_bindings, out);
    proof {
        assert(out@ =~= o + common_tokens(*c));
    }
}

fn push_class_tokens(c: &ClassAttribute, out: &mut Vec<WxmlToken>)
    ensures
        final(out)@ == old(out)@ + class_tokens(*c),
{
    let ghost o = out@;
    match c {
        ClassAttribute::Absent => {},
        ClassAttribute::String(l, v) => {
            push_wt(out, *l, TokenType::Keyword);
            push_value_tokens(v, TokenType::String, out);
        },
        ClassAttribute::Multiple(list) => {
            let mut i: usize = 0;
            proof {
                assert(list@.take(0) =~= Seq::<(Location, WxmlName, Option<Value>)>::empty());
                assert(out@ =~= o + class_items_tokens(list@.take(0)));
            }
            while i < list.len()
                invariant
                    i <= list@.len(),
                    out@ == o + class_items_tokens(list@.take(i as int)),
                decreases list@.len() - i,
            {
                proof {
                    assert(list@.take(i + 1).drop_last() =~= list@.take(i as int));
                    assert(list@.take(i + 1).last() == list@[i as int]);
                }
                let item = &list[i];
                push_wt(out, item.1.location, TokenType::Variable);
                push_opt_value_tokens(&item.2, TokenType::String, out);
                proof {
                    assert(out@ =~= o + class_items_tokens(list@.take(i + 1)));
                }
                i = i + 1;
            }
            proof {
                assert(list@.take(i as int) =~= list@);
            }
        },
    }
    proof {
        assert(out@ =~= o + class_tokens(*c));
    }
}

fn push_style_tokens(c: &StyleAttribute, out: &mut Vec<WxmlToken>)
    ensures
        final(out)@ == old(out)@ + style_tokens(*c),
{
    let ghost o = out@;
    match c {
        StyleAttribute::Absent => {},
        StyleAttribute::String(l, v) => {
            push_wt(out, *l, TokenType::Keyword);
            push_value_tokens(v, TokenType::String, out);
        },
        StyleAttribute::Multiple(list) => {
            let mut i: usize = 0;
            proof {
                assert(list@.take(0) =~= Seq::<(Location, WxmlName, Value)>::empty());
                assert(out@ =~= o + style_items_tokens(list@.take(0)));
            }
            while i < list.len()
                invariant
                    i <= list@.len(),
                    out@ == o + style_items_tokens(list@.take(i as int)),
                decreases list@.len() - i,
            {
                proof {
                    assert(list@.take(i + 1).drop_last() =~= list@.take(i as int));
                    assert(list@.take(i + 1).last() == list@[i as int]);
                }
                let item = &list[i];
                push_wt(out, item.1.location, TokenType::Variable);
                push_value_tokens(&item.2, TokenType::String, out);
                proof {
                    assert(out@ =~= o + style_items_tokens(list@.take(i + 1)));
                }
                i = i + 1;
            }
            proof {
                assert(list@.take(i as int) =~= list@);
            }
        },
    }
    proof {
        assert(out@ =~= o + style_tokens(*c));
    }
}

fn push_for_name_tokens(x: &(Location, WxmlName), out: &mut Vec<WxmlToken>)
    ensures
        final(out)@ == old(out)@ + for_name_tokens(*x),
{
    let ghost o = out@;
    push_wt(out, x.0, TokenType::Keyword);
    push_wt(out, x.1.location, TokenType::String);
    proof {
        assert(out@ =~= o + for_name_tokens(*x));
    }
}

fn push_nodes_tokens(ns: &Vec<Node>, out: &mut Vec<WxmlToken>)
    ensures
        final(out)@ == old(out)@ + nodes_tokens(ns@),
    decreases ns@, 0int,
{
    let ghost o = out@;
    let mut i: usize = 0;
    proof {
        assert(ns@.take(0) =~= Seq::<Node>::empty());
        assert(out@ =~= o + nodes_tokens(ns@.take(0)));
    }
    while i < ns.len()
        invariant
            i <= ns@.len(),
            out@ == o + nodes_tokens(ns@.take(i as int)),
        decreases ns@.len() - i,
    {
        proof {
            assert(ns@.take(i + 1).drop_last() =~= ns@.take(i as int));
            assert(ns@.take(i + 1).last() == ns@[i as int]);
        }
        push_node_tokens(&ns[i], out);
        proof {
            assert(out@ =~= o + nodes_tokens(ns@.take(i + 1)));
        }
        i = i + 1;
    }
    proof {
        assert(ns@.take(i as int) =~= ns@);
    }
}

fn push_node_tokens(n: &Node, out: &mut Vec<WxmlToken>)
    ensures
        final(out)@ == old(out)@ + node_tokens(*n),
    decreases n, 2int,
{
    match n {
        Node::Text(v) => push_value_tokens(v, TokenType::String, out),
        Node::Element(e) => push_element_tokens(e, out),
        Node::Comment(c) => push_wt(out, c.location, TokenType::Comment),
        Node::UnknownMetaTag(l) => push_wt(out, *l, TokenType::Macro),
    }
}

fn push_branches_tokens(bs: &Vec<(Location, Value, Vec<Node>)>, out: &mut Vec<WxmlToken>)
    ensures
        final(out)@ == old(out)@ + branches_tokens(bs@),
    decreases bs@, 0int,
{
    let ghost o = out@;
    let mut i: usize = 0;
    proof {
        assert(bs@.take(0) =~= Seq::<(Location, Value, Vec<Node>)>::empty());
        assert(out@ =~= o + branches_tokens(bs@.take(0)));
    }
    while i < bs.len()
        invariant
            i <= bs@.len(),
            out@ == o + branches_tokens(bs@.take(i as int)),
        decreases bs@.len() - i,
    {
        proof {
            assert(bs@.take(i + 1).drop_last() =~= bs@.take(i as int));
            assert(bs@.take(i + 1).last() == bs@[i as int]);
        }
        let b = &bs[i];
        push_wt(out, b.0, TokenType::Keyword);
        push_value_tokens(&b.1, TokenType::String, out);
        proof {
            assert(decreases_to!(bs@ => bs@[i as int]));
        }
        push_nodes_tokens(&b.2, out);
        proof {
            assert(out@ =~= o + branches_tokens(bs@.take(i + 1)));
        }
        i = i + 1;
    }
    proof {
        assert(bs@.take(i as int) =~= bs@);
    }
}

#[verifier::spinoff_prover]
#[verifier::rlimit(40)]
fn push_element_tokens(e: &Element, out: &mut Vec<WxmlToken>)
    ensures
        final(out)@ == old(out)@ + element_tokens(*e),
    decreases e, 1int,
{
    let ghost o = out@;
    match &e.kind {
        ElementKind::Normal {
            tag_name,
            attributes,
            class,
            style,
            change_attributes,
            worklet_attributes,
            children,
            generics,
            extra_attr,
            common,
            ..
        } => {
            let tl = &e.tag_location;
            push_wt(out, Location { start: tl.start.0.start, end: tag_name.location.end }, TokenType::Type);
            push_wt(out, tl.start.1, TokenType::Type);
            match &tl.end {
                Some(x) => push_wt(out, Location { start: x.0.start, end: x.1.end }, TokenType::Type),
                None => push_wt(out, tl.close, TokenType::Type),
            }
            push_attrs_tokens(attributes, out);
            push_attrs_tokens(change_attributes, out);
            push_static_attrs_tokens(worklet_attributes, TokenType::Function, out);
            push_static_attrs_tokens(generics, TokenType::Function, out);
            push_static_attrs_tokens(extra_attr, TokenType::Function, out);
            push_class_tokens(class, out);
            push_style_tokens(style, out);
            push_common_tokens(common, out);
            push_nodes_tokens(children, out);
            proof { assert(out@ =~= o + element_tokens(*e)); }
        },
        ElementKind::Pure { children, slot, slot_value_refs, .. } => {
            push_keyword_value_tokens(slot, out);
            push_static_attrs_tokens(slot_value_refs, TokenType::String, out);
            push_nodes_tokens(children, out);
            proof { assert(out@ =~= o + element_tokens(*e)); }
        },
        ElementKind::Slot { name, values, common } => {
            push_wt(out, name.0, TokenType::Keyword);
            push_value_tokens(&name.1, TokenType::String, out);
            push_attrs_tokens(values, out);
            push_common_tokens(common, out);
            proof { assert(out@ =~= o + element_tokens(*e)); }
        },
        ElementKind::If { branches, else_branch } => {
            push_branches_tokens(branches, out);
            match else_branch {
                Some((l, ns)) => {
                    push_wt(out, *l, TokenType::Keyword);
                    push_nodes_tokens(ns, out);
                },
                None => {},
            }
            proof { assert(out@ =~= o + element_tokens(*e)); }
        },
        ElementKind::For { list, item_name, index_name, key, children } => {
            push_wt(out, list.0, TokenType::Keyword);
            push_value_tokens(&list.1, TokenType::String, out);
            push_for_name_tokens(item_name, out);
            push_for_name_tokens(index_name, out);
            push_for_name_tokens(key, out);
            push_nodes_tokens(children, out);
            proof { assert(out@ =~= o + element_tokens(*e)); }
        },
        ElementKind::TemplateRef { target, data } => {
            push_wt(out, target.0, TokenType::Keyword);
            push_value_tokens(&target.1, TokenType::String, out);
            push_wt(out, data.0, TokenType::Keyword);
            push_value_tokens(&data.1, TokenType::String, out);
            proof { assert(out@ =~= o + element_tokens(*e)); }
        },
        ElementKind::Include { path } => {
            push_wt(out, path.0, TokenType::Keyword);
            push_wt(out, path.1.location, TokenType::String);
            proof { assert(out@ =~= o + element_tokens(*e)); }
        },
    }
}

fn push_src_elements_tokens(s: &Vec<SrcElement>, out: &mut Vec<WxmlToken>)
    ensures
        final(out)@ == old(out)@ + src_elements_tokens(s@),
{
    let ghost o = out@;
    let mut i: usize = 0;
    proof {
        assert(s@.take(0) =~= Seq::<SrcElement>::empty());
        assert(out@ =~= o + src_elements_tokens(s@.take(0)));
    }
    while i < s.len()
        invariant
            i <= s@.len(),
            out@ == o + src_elements_tokens(s@.take(i as int)),
        decreases s@.len() - i,
    {
        proof {
            assert(s@.take(i + 1).drop_last() =~= s@.take(i as int));
            assert(s@.take(i + 1).last() == s@[i as int]);
        }
        push_wt(out, s[i].src_location, TokenType::Keyword);
        push_wtm(out, s[i].src.location, TokenType::String, MODIFIER_DECLARATION);
        proof {
            assert(out@ =~= o + src_elements_tokens(s@.take(i + 1)));
        }
        i = i + 1;
    }
    proof {
        assert(s@.take(i as int) =~= s@);
    }
}

fn push_scripts_tokens(s: &Vec<Script>, out: &mut Vec<WxmlToken>)
    ensures
        final(out)@ == old(out)@ + scripts_tokens(s@),
{
    let ghost o = out@;
    let mut i: usize = 0;
    proof {
        assert(s@.take(0) =~= Seq::<Script>::empty());
        assert(out@ =~= o + scripts_tokens(s@.take(0)));
    }
    while i < s.len()
        invariant
            i <= s@.len(),
            out@ == o + scripts_tokens(s@.take(i as int)),
        decreases s@.len() - i,
    {
        proof {
            assert(s@.take(i + 1).drop_last() =~= s@.take(i as int));
            assert(s@.take(i + 1).last() == s@[i as int]);
        }
        match &s[i] {
            Script::Inline { module_location, module_name, .. } => {
                push_wt(out, *module_location, TokenType::Keyword);
                push_wtm(out, module_name.location, TokenType::String, MODIFIER_DEFINITION);
            },
            Script::GlobalRef { module_location, module_name, src_location, src, .. } => {
                push_wt(out, *module_location, TokenType::Keyword);
                push_wtm(out, module_name.location, TokenType::String, MODIFIER_DEFINITION);
                push_wt(out, *src_location, TokenType::Keyword);
                push_wt(out, src.location, TokenType::String);
            },
        }
        proof {
            assert(out@ =~= o + scripts_tokens(s@.take(i + 1)));
        }
        i = i + 1;
    }
    proof {
        assert(s@.take(i as int) =~= s@);
    }
}

fn push_sub_templates_tokens(s: &Vec<TemplateDefinition>, out: &mut Vec<WxmlToken>)
    ensures
        final(out)@ == old(out)@ + sub_templates_tokens(s@),
{
    let ghost o = out@;
    let mut i: usize = 0;
    proof {
        assert(s@.take(0) =~= Seq::<TemplateDefinition>::empty());
        assert(out@ =~= o + sub_templates_tokens(s@.take(0)));
    }
    while i < s.len()
        invariant
            i <= s@.len(),
            out@ == o + sub_templates_tokens(s@.take(i as int)),
        decreases s@.len() - i,
    {
        proof {
            assert(s@.take(i + 1).drop_last() =~= s@.take(i as int));
            assert(s@.take(i + 1).last() == s@[i as int]);
        }
        push_wt(out, s[i].name_location, TokenType::Keyword);
        push_wtm(out, s[i].name.location, TokenType::String, MODIFIER_DEFINITION);
        push_nodes_tokens(&s[i].content, out);
        proof {
            assert(out@ =~= o + sub_templates_tokens(s@.take(i + 1)));
        }
        i = i + 1;
    }
    proof {
        assert(s@.take(i as int) =~= s@);
    }
}

/// The tokens of a template, in the order in which they are collected.
pub fn collect_template_tokens(t: &Template) -> (r: Vec<WxmlToken>)
    ensures
        r@ == template_tokens(*t),
{
    let mut out: Vec<WxmlToken> = Vec::new();
    push_src_elements_tokens(&t.imports, &mut out);
    push_src_elements_tokens(&t.includes, &mut out);
    push_scripts_tokens(&t.scripts, &mut out);
    push_sub_templates_tokens(&t.sub_templates, &mut out);
    push_nodes_tokens(&t.content, &mut out);
    proof {
        assert(out@ =~= template_tokens(*t));
    }
    out
}


/// The order of tokens: by start line, start column, end line, then end column.
pub open spec fn loc_key_le(a: Location, b: Location) -> bool {
    a.start.line < b.start.line || (a.start.line == b.start.line && (a.start.utf16_col < b.start.utf16_col || (
    a.start.utf16_col == b.start.utf16_col && (a.end.line < b.end.line || (a.end.line == b.end.line
        && a.end.utf16_col <= b.end.utf16_col)))))
}

pub open spec fn tokens_sorted(s: Seq<WxmlToken>) -> bool {
    forall|i: int, j: int| 0 <= i < j < s.len() ==> loc_key_le(#[trigger] s[i].location, #[trigger] s[j].location)
}

/// Where `t` goes in `s`: after the last token that is not after it.
pub open spec fn insert_index(s: Seq<WxmlToken>, t: WxmlToken) -> int
    decreases s.len(),
{
    if s.len() == 0 {
        0
    } else if loc_key_le(s.last().location, t.location) {
        s.len() as int
    } else {
        insert_index(s.drop_last(), t)
    }
}

pub open spec fn insert_sorted(s: Seq<WxmlToken>, t: WxmlToken) -> Seq<WxmlToken> {
    let i = insert_index(s, t);
    s.take(i).push(t) + s.skip(i)
}

/// The tokens ordered by range, tokens with the same range kept in the order they came in.
pub open spec fn sort_tokens(s: Seq<WxmlToken>) -> Seq<WxmlToken>
    decreases s.len(),
{
    if s.len() == 0 {
        Seq::empty()
    } else {
        insert_sorted(sort_tokens(s.drop_last()), s.last())
    }
}

/// Every token handed to the encoder in turn, whatever each one gives.
pub open spec fn push_all(c: &FileContentMetadata, range: Location, st: GenState, toks: Seq<WxmlToken>) -> Option<GenState>
    decreases toks.len(),
{
    if toks.len() == 0 {
        Some(st)
    } else {
        match push_all(c, range, st, toks.drop_last()) {
            None => None,
            Some(s) => match gen_push(c, range, s, toks.last().location, toks.last().ty, toks.last().modifier) {
                None => None,
                Some((_, s2)) => Some(s2),
            },
        }
    }
}

/// The semantic tokens of a template within `range`; `None` where the encoding would take a
/// column back past the previous token's.
pub open spec fn wxml_semantic_tokens(c: &FileContentMetadata, t: Template, range: Location) -> Option<Seq<SemanticToken>> {
    match push_all(c, range, (0u32, 0u32, Seq::empty()), sort_tokens(template_tokens(t))) {
        None => None,
        Some(st) => Some(st.2),
    }
}

proof fn lemma_insert_index_bounds(s: Seq<WxmlToken>, t: WxmlToken)
    ensures
        0 <= insert_index(s, t) <= s.len(),
    decreases s.len(),
{
    if s.len() > 0 && !loc_key_le(s.last().location, t.location) {
        lemma_insert_index_bounds(s.drop_last(), t);
    }
}

/// The tokens before the insertion point are not after `t`; those after it are after `t`.
proof fn lemma_insert_index_split(s: Seq<WxmlToken>, t: WxmlToken)
    requires
        tokens_sorted(s),
    ensures
        forall|k: int| 0 <= k < insert_index(s, t) ==> loc_key_le(#[trigger] s[k].location, t.location),
        forall|k: int| insert_index(s, t) <= k < s.len() ==> !loc_key_le(#[trigger] s[k].location, t.location),
    decreases s.len(),
{
    lemma_insert_index_bounds(s, t);
    if s.len() > 0 {
        if loc_key_le(s.last().location, t.location) {
            assert forall|k: int| 0 <= k < s.len() implies loc_key_le(#[trigger] s[k].location, t.location) by {
                if k < s.len() - 1 {
                    assert(loc_key_le(s[k].location, s[s.len() - 1].location));
                }
            }
        } else {
            let d = s.drop_last();
            assert(tokens_sorted(d));
            lemma_insert_index_split(d, t);
            lemma_insert_index_bounds(d, t);
            assert forall|k: int| insert_index(s, t) <= k < s.len() implies !loc_key_le(#[trigger] s[k].location, t.location) by {
                if k < s.len() - 1 {
                    assert(s[k] == d[k]);
                }
            }
            assert forall|k: int| 0 <= k < insert_index(s, t) implies loc_key_le(#[trigger] s[k].location, t.location) by {
                assert(s[k] == d[k]);
            }
        }
    }
}

proof fn lemma_insert_sorted(s: Seq<WxmlToken>, t: WxmlToken)
    requires
        tokens_sorted(s),
    ensures
        tokens_sorted(insert_sorted(s, t)),
        insert_sorted(s, t).len() == s.len() + 1,
{
    lemma_insert_index_bounds(s, t);
    lemma_insert_index_split(s, t);
    let i = insert_index(s, t);
    let r = insert_sorted(s, t);
    assert(r.len() == s.len() + 1);
    assert forall|a: int, b: int| 0 <= a < b < r.len() implies loc_key_le(#[trigger] r[a].location, #[trigger] r[b].location) by {
        if a < i && b < i {
            assert(r[a] == s[a] && r[b] == s[b]);
        } else if a < i && b == i {
            assert(r[a] == s[a] && r[b] == t);
        } else if a < i && b > i {
            assert(r[a] == s[a] && r[b] == s[b - 1]);
        } else if a == i {
            assert(r[a] == t && r[b] == s[b - 1]);
        } else {
            assert(r[a] == s[a - 1] && r[b] == s[b - 1]);
        }
    }
}

/// The order in which the tokens of a template are encoded is that of their ranges, and no
/// token is lost or added.
pub proof fn lemma_sort_tokens(s: Seq<WxmlToken>)
    ensures
        tokens_sorted(sort_tokens(s)),
        sort_tokens(s).to_multiset() =~= s.to_multiset(),
    decreases s.len(),
{
    if s.len() > 0 {
        let d = s.drop_last();
        let t = s.last();
        lemma_sort_tokens(d);
        let sd = sort_tokens(d);
        lemma_insert_sorted(sd, t);
        lemma_insert_index_bounds(sd, t);
        let i = insert_index(sd, t);
        let r = insert_sorted(sd, t);
        let a = sd.take(i);
        let b = sd.skip(i);
        assert(sd =~= a + b);
        vstd::seq_lib::lemma_multiset_commutative(a, b);
        vstd::seq_lib::lemma_multiset_commutative(a.push(t), b);
        assert(s =~= d.push(t));
        d.to_multiset_ensures();
        a.to_multiset_ensures();
        assert(r.to_multiset() =~= a.to_multiset().insert(t).add(b.to_multiset()));
        assert(r.to_multiset() =~= sd.to_multiset().insert(t));
        assert(s.to_multiset() =~= d.to_multiset().insert(t));
        assert(sort_tokens(s) == r);
    } else {
        assert(s =~= Seq::<WxmlToken>::empty());
    }
}

fn loc_key_le_exec(a: Location, b: Location) -> (r: bool)
    ensures
        r == loc_key_le(a, b),
{
    a.start.line < b.start.line || (a.start.line == b.start.line && (a.start.utf16_col < b.start.utf16_col || (
    a.start.utf16_col == b.start.utf16_col && (a.end.line < b.end.line || (a.end.line == b.end.line
        && a.end.utf16_col <= b.end.utf16_col)))))
}

fn insert_token(out: &mut Vec<WxmlToken>, t: WxmlToken)
    ensures
        final(out)@ == insert_sorted(old(out)@, t),
{
    let ghost s = out@;
    out.push(t);
    let mut j: usize = out.len() - 1;
    proof {
        assert(s.take(j as int) =~= s);
        assert(out@ =~= s.take(j as int).push(t) + s.skip(j as int));
    }
    while j > 0 && !loc_key_le_exec(out[j - 1].location, t.location)
        invariant
            j <= s.len(),
            out@ == s.take(j as int).push(t) + s.skip(j as int),
            insert_index(s, t) == insert_index(s.take(j as int), t),
        decreases j,
    {
        let a = out[j - 1];
        proof {
            assert(a == s[j - 1]);
            assert(s.take(j as int).drop_last() =~= s.take(j - 1));
        }
        out.set(j, a);
        out.set(j - 1, t);
        proof {
            assert(out@ =~= s.take(j - 1).push(t) + s.skip(j - 1));
        }
        j = j - 1;
    }
    proof {
        if j > 0 {
            assert(out@[j - 1] == s[j - 1]);
            assert(s.take(j as int).last() == s[j - 1]);
        }
        assert(insert_index(s.take(j as int), t) == j);
    }
}

/// The tokens ordered by range, tokens with the same range in the order they came in.
pub fn sort_wxml_tokens(v: &Vec<WxmlToken>) -> (r: Vec<WxmlToken>)
    ensures
        r@ == sort_tokens(v@),
{
    let mut out: Vec<WxmlToken> = Vec::new();
    let mut i: usize = 0;
    proof {
        assert(v@.take(0) =~= Seq::<WxmlToken>::empty());
    }
    while i < v.len()
        invariant
            i <= v@.len(),
            out@ == sort_tokens(v@.take(i as int)),
        decreases v@.len() - i,
    {
        proof {
            assert(v@.take(i + 1).drop_last() =~= v@.take(i as int));
            assert(v@.take(i + 1).last() == v@[i as int]);
        }
        insert_token(&mut out, v[i]);
        i = i + 1;
    }
    proof {
        assert(v@.take(i as int) =~= v@);
    }
    out
}

/// The semantic tokens of a template, for the part of the text within `range`: every token of
/// the tree, in order of range, each encoded relative to the one before it (a token that spans
/// lines once per line). Tokens that start before the range or at or after its end are left
/// out. `None` where the encoding would take a column back past the previous token's on the
/// same line (which happens only for a token that starts before the one before it).
pub fn find_wxml_semantic_tokens(content: &FileContentMetadata, template: &Template, range: Location) -> (r: Option<Vec<SemanticToken>>)
    requires
        content.wf(),
        lines_fit(content),
    ensures
        match wxml_semantic_tokens(content, *template, range) {
            None => r is None,
            Some(t) => r matches Some(v) && v@ == t,
        },
{
    let collected = collect_template_tokens(template);
    let toks = sort_wxml_tokens(&collected);
    let mut gen = Generator::new(range);
    let mut i: usize = 0;
    while i < toks.len()
        invariant
            content.wf(),
            lines_fit(content),
            gen.range == range,
            i <= toks@.len(),
            toks@ == sort_tokens(template_tokens(*template)),
            push_all(content, range, (0u32, 0u32, Seq::empty()), toks@.take(i as int)) == Some(gen.state()),
        decreases toks@.len() - i,
    {
        proof {
            assert(toks@.take(i + 1).drop_last() =~= toks@.take(i as int));
            assert(toks@.take(i + 1).last() == toks@[i as int]);
        }
        let t = toks[i];
        match gen.push(content, t.location, t.ty, t.modifier) {
            None => {
                proof {
                    assert(push_all(content, range, (0u32, 0u32, Seq::empty()), toks@.take(i + 1)) is None);
                    lemma_push_all_none(content, range, toks@, i + 1, toks@.len() as int);
                    assert(toks@.take(toks@.len() as int) =~= toks@);
                }
                return None;
            },
            Some(_) => {},
        }
        i = i + 1;
    }
    proof {
        assert(toks@.take(i as int) =~= toks@);
    }
    Some(gen.generated)
}

proof fn lemma_push_all_none(c: &FileContentMetadata, range: Location, toks: Seq<WxmlToken>, k: int, n: int)
    requires
        0 <= k <= n <= toks.len(),
        push_all(c, range, (0u32, 0u32, Seq::empty()), toks.take(k)) is None,
    ensures
        push_all(c, range, (0u32, 0u32, Seq::empty()), toks.take(n)) is None,
    decreases n - k,
{
    if k < n {
        lemma_push_all_none(c, range, toks, k, n - 1);
        assert(toks.take(n).drop_last() =~= toks.take(n - 1));
    }
}

} // verus!
