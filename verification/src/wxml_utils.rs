//! Finding the token of a WXML template at a position: the name, value, keyword or binding
//! under the cursor, with the element and the scope it belongs to.

use vstd::prelude::*;
use crate::position::{
    exclusive_contains, inclusive_contains, pos_le, spec_exclusive_contains, spec_inclusive_contains, Location,
    Position,
};
use crate::wxml::{
    ArrayField, Attribute, ClassAttribute, CommonAttributes, Element, ElementKind, EventBinding,
    Expr, Node, ObjectField, Script, SrcElement, StaticAttribute, StyleAttribute, TagLocation,
    Template, TemplateDefinition, Value, WxmlComment, WxmlName,
};

verus! {

/// What a name in a binding refers to: a script module, a `wx:for` item or index, or a slot
/// value.
#[derive(Debug, Clone, Copy)]
pub enum ScopeKind<'a> {
    Script(&'a Script),
    ForScope(&'a WxmlName, &'a Element),
    SlotValue(&'a StaticAttribute, &'a Element),
}

/// The token of a template at a position.
#[derive(Debug, Clone, Copy)]
pub enum WxmlTokenRef<'a> {
    Blank,
    StaticTextContent(Location, &'a String, Option<&'a Element>),
    StaticValuePart(Location, &'a String),
    StartTagBody(&'a Element),
    EndTagBody(&'a Element),
    ScopeRef(Location, ScopeKind<'a>),
    DataField(&'a String, Location),
    AttributeKeyword(Location, &'a Element),
    OtherKeyword(Location),
    Src(&'a WxmlName),
    ScriptModule(&'a WxmlName),
    ScriptSrc(&'a WxmlName),
    ScriptContent(Location),
    TemplateName(&'a WxmlName),
    TemplateRef(&'a String, Location),
    Comment(&'a WxmlComment),
    UnknownMetaTag(Location),
    TagName(&'a WxmlName),
    StaticId(Location, &'a String),
    AttributeStaticValue(Location, &'a String, &'a WxmlName, &'a Element),
    AttributeName(&'a WxmlName, &'a Element),
    ModelAttributeName(&'a WxmlName, &'a Element),
    StaticClassName(Location, &'a String, &'a Element),
    StyleName(&'a WxmlName),
    EventHandler(&'a WxmlName, &'a WxmlName),
    GenericRef(&'a WxmlName, &'a WxmlName),
    SlotValueDefinition(&'a WxmlName),
    SlotValueRef(&'a WxmlName, &'a WxmlName, &'a Element),
    SlotValueScope(&'a WxmlName, &'a WxmlName, &'a Element),
    SlotValueRefAndScope(&'a WxmlName, &'a WxmlName, &'a Element),
    DataKey(&'a WxmlName),
    MarkKey(&'a WxmlName),
    EventName(&'a WxmlName, &'a Element),
    ForItem(&'a WxmlName, &'a Element),
    ForIndex(&'a WxmlName, &'a Element),
    ForKey(&'a WxmlName, &'a Element),
}

/// The whole element, from its opening tag to the end of its closing tag (or of its opening tag
/// when it has no closing tag), both ends included.
pub open spec fn tag_contains(tl: TagLocation, pos: Position) -> bool {
    let end = match tl.end {
        Some(e) => e.1.end,
        None => tl.start.1.end,
    };
    pos_le(tl.start.0.start, pos) && pos_le(pos, end)
}

/// The opening tag, its end excluded.
pub open spec fn start_tag_body_contains(tl: TagLocation, pos: Position) -> bool {
    spec_exclusive_contains(Location { start: tl.start.0.start, end: tl.start.1.end }, pos)
}

/// The closing tag, its end excluded; false when there is none.
pub open spec fn end_tag_body_contains(tl: TagLocation, pos: Position) -> bool {
    match tl.end {
        Some(e) => spec_exclusive_contains(Location { start: e.0.start, end: e.1.end }, pos),
        None => false,
    }
}

pub open spec fn name_contains(n: WxmlName, pos: Position) -> bool {
    spec_inclusive_contains(n.location, pos)
}

/// The first of two results that is not blank; a failure in the first is kept.
pub open spec fn or_next<'a>(a: Option<WxmlTokenRef<'a>>, b: Option<WxmlTokenRef<'a>>) -> Option<WxmlTokenRef<'a>> {
    match a {
        Some(WxmlTokenRef::Blank) => b,
        _ => a,
    }
}

/// A blank result replaced by `t`.
pub open spec fn or_token<'a>(a: Option<WxmlTokenRef<'a>>, t: WxmlTokenRef<'a>) -> Option<WxmlTokenRef<'a>> {
    match a {
        Some(WxmlTokenRef::Blank) => Some(t),
        _ => a,
    }
}

pub open spec fn is_plus(e: &Expr) -> bool {
    match e {
        Expr::Binary { is_plus, .. } => *is_plus,
        _ => false,
    }
}

/// The token at `pos` in a binding expression: a string literal when the value joins static
/// parts, a name of a scope, a data field or the field of a member access; else the first such
/// token among its operands. `None` where a scope reference points past the scopes in force.
pub open spec fn tok_in_expr<'a>(e: &'a Expr, pos: Position, scopes: Seq<ScopeKind<'a>>, has_static_parts: bool) -> Option<WxmlTokenRef<'a>>
    decreases e, 1int,
{
    match e {
        Expr::LitStr { value, location } => if has_static_parts && spec_inclusive_contains(*location, pos) {
            Some(WxmlTokenRef::StaticValuePart(*location, value))
        } else {
            Some(WxmlTokenRef::Blank)
        },
        Expr::ScopeRef { location, index } => if spec_inclusive_contains(*location, pos) {
            if *index < scopes.len() {
                Some(WxmlTokenRef::ScopeRef(*location, scopes[*index as int]))
            } else {
                None
            }
        } else {
            Some(WxmlTokenRef::Blank)
        },
        Expr::DataField { name, location } => if spec_inclusive_contains(*location, pos) {
            Some(WxmlTokenRef::DataField(name, *location))
        } else {
            Some(WxmlTokenRef::Blank)
        },
        Expr::StaticMember { obj, field_name, field_location, .. } => if spec_inclusive_contains(*field_location, pos) {
            Some(WxmlTokenRef::DataField(field_name, *field_location))
        } else {
            tok_in_expr(&**obj, pos, scopes, false)
        },
        _ => tok_in_subs(e, pos, scopes, is_plus(e)),
    }
}

/// The first token at `pos` among the operands of an expression, in order; the elements of an
/// array literal up to its first hole.
pub open spec fn tok_in_subs<'a>(e: &'a Expr, pos: Position, scopes: Seq<ScopeKind<'a>>, hs: bool) -> Option<WxmlTokenRef<'a>>
    decreases e, 0int,
{
    match e {
        Expr::ToStringWithoutUndefined { value, .. } => tok_in_expr(&**value, pos, scopes, hs),
        Expr::LitObj { fields, .. } => tok_in_obj_fields(fields@, 0, pos, scopes, hs),
        Expr::LitArr { fields, .. } => tok_in_arr_fields(fields@, 0, pos, scopes, hs),
        Expr::StaticMember { obj, .. } => tok_in_expr(&**obj, pos, scopes, hs),
        Expr::DynamicMember { obj, field_name, .. } => or_next(
            tok_in_expr(&**obj, pos, scopes, hs),
            tok_in_expr(&**field_name, pos, scopes, hs),
        ),
        Expr::FuncCall { func, args, .. } => or_next(tok_in_expr(&**func, pos, scopes, hs), tok_in_exprs(args@, 0, pos, scopes, hs)),
        Expr::Unary { value, .. } => tok_in_expr(&**value, pos, scopes, hs),
        Expr::Binary { left, right, .. } => or_next(tok_in_expr(&**left, pos, scopes, hs), tok_in_expr(&**right, pos, scopes, hs)),
        Expr::Cond { cond, true_br, false_br, .. } => or_next(
            tok_in_expr(&**cond, pos, scopes, hs),
            or_next(tok_in_expr(&**true_br, pos, scopes, hs), tok_in_expr(&**false_br, pos, scopes, hs)),
        ),
        _ => Some(WxmlTokenRef::Blank),
    }
}

pub open spec fn tok_in_exprs<'a>(es: Seq<Expr>, i: int, pos: Position, scopes: Seq<ScopeKind<'a>>, hs: bool) -> Option<WxmlTokenRef<'a>>
    decreases es, es.len() - i,
{
    if i < 0 || i >= es.len() {
        Some(WxmlTokenRef::Blank)
    } else {
        or_next(tok_in_expr(&es[i], pos, scopes, hs), tok_in_exprs(es, i + 1, pos, scopes, hs))
    }
}

pub open spec fn tok_in_obj_fields<'a>(fs: Seq<ObjectField>, i: int, pos: Position, scopes: Seq<ScopeKind<'a>>, hs: bool) -> Option<WxmlTokenRef<'a>>
    decreases fs, fs.len() - i,
{
    if i < 0 || i >= fs.len() {
        Some(WxmlTokenRef::Blank)
    } else {
        let first = match &fs[i] {
            ObjectField::Named { value, .. } => tok_in_expr(value, pos, scopes, hs),
            ObjectField::Spread { value, .. } => tok_in_expr(value, pos, scopes, hs),
        };
        or_next(first, tok_in_obj_fields(fs, i + 1, pos, scopes, hs))
    }
}

pub open spec fn tok_in_arr_fields<'a>(fs: Seq<ArrayField>, i: int, pos: Position, scopes: Seq<ScopeKind<'a>>, hs: bool) -> Option<WxmlTokenRef<'a>>
    decreases fs, fs.len() - i,
{
    if i < 0 || i >= fs.len() {
        Some(WxmlTokenRef::Blank)
    } else {
        match &fs[i] {
            ArrayField::Normal { value } => or_next(tok_in_expr(value, pos, scopes, hs), tok_in_arr_fields(fs, i + 1, pos, scopes, hs)),
            ArrayField::Spread { value, .. } => or_next(tok_in_expr(value, pos, scopes, hs), tok_in_arr_fields(fs, i + 1, pos, scopes, hs)),
            ArrayField::EmptySlot => Some(WxmlTokenRef::Blank),
        }
    }
}

pub open spec fn pos_min(a: Position, b: Position) -> Position {
    if pos_le(a, b) { a } else { b }
}

pub open spec fn pos_max(a: Position, b: Position) -> Position {
    if pos_le(a, b) { b } else { a }
}

/// The range of a binding widened to the string literals it joins, and whether it holds an
/// interpolation (which makes its string literals static parts).
pub open spec fn static_parts_range(loc: Location, e: &Expr) -> (Location, bool)
    decreases e,
{
    match e {
        Expr::LitStr { location, .. } => (Location { start: pos_min(loc.start, location.start), end: pos_max(loc.end, location.end) }, false),
        Expr::ToStringWithoutUndefined { .. } => (loc, true),
        Expr::Binary { left, right, is_plus, .. } => if *is_plus {
            let (l1, b1) = static_parts_range(loc, &**left);
            if b1 {
                (l1, true)
            } else {
                static_parts_range(l1, &**right)
            }
        } else {
            (loc, false)
        },
        _ => (loc, false),
    }
}

/// The token at `pos` in a value: `None` when the value does not cover `pos`; else the static
/// value, or the token in the binding.
pub open spec fn tok_in_value<'a>(v: &'a Value, pos: Position, scopes: Seq<ScopeKind<'a>>) -> Option<Option<WxmlTokenRef<'a>>> {
    match v {
        Value::Static { value, location } => if spec_inclusive_contains(*location, pos) {
            Some(Some(WxmlTokenRef::StaticValuePart(*location, value)))
        } else {
            None
        },
        Value::Dynamic { expression, double_brace_location } => {
            let (loc, hs) = static_parts_range(
                Location { start: double_brace_location.0.start, end: double_brace_location.1.end },
                &**expression,
            );
            if spec_inclusive_contains(loc, pos) {
                Some(tok_in_expr(&**expression, pos, scopes, hs))
            } else {
                None
            }
        },
    }
}

pub open spec fn tok_in_opt_value<'a>(v: &'a Option<Value>, pos: Position, scopes: Seq<ScopeKind<'a>>) -> Option<Option<WxmlTokenRef<'a>>> {
    match v {
        Some(x) => tok_in_value(x, pos, scopes),
        None => None,
    }
}

/// A static value part turned into the token of the attribute value.
pub open spec fn as_attribute_value<'a>(r: Option<WxmlTokenRef<'a>>, name: &'a WxmlName, e: &'a Element) -> Option<WxmlTokenRef<'a>> {
    match r {
        Some(WxmlTokenRef::StaticValuePart(l, s)) => Some(WxmlTokenRef::AttributeStaticValue(l, s, name, e)),
        o => o,
    }
}

/// The normal attributes (`model` tells whether `model:` ones are told apart): the first whose
/// name or value covers `pos`. `None` when none does.
pub open spec fn tok_in_attrs<'a>(s: Seq<Attribute>, i: int, e: &'a Element, model: bool, pos: Position, scopes: Seq<ScopeKind<'a>>) -> Option<Option<WxmlTokenRef<'a>>>
    decreases s.len() - i,
{
    if i < 0 || i >= s.len() {
        None
    } else {
        let a = &s[i];
        if name_contains(a.name, pos) {
            Some(Some(if model && a.is_model {
                WxmlTokenRef::ModelAttributeName(&a.name, e)
            } else {
                WxmlTokenRef::AttributeName(&a.name, e)
            }))
        } else {
            match tok_in_opt_value(&a.value, pos, scopes) {
                Some(r) => Some(as_attribute_value(r, &a.name, e)),
                None => tok_in_attrs(s, i + 1, e, model, pos, scopes),
            }
        }
    }
}

/// Worklet attributes (`generic` false) or generics (`generic` true): the name, or the value as
/// an event handler or a generic reference.
pub open spec fn tok_in_named_attrs<'a>(s: Seq<StaticAttribute>, i: int, e: &'a Element, tag_name: &'a WxmlName, generic: bool, pos: Position) -> Option<WxmlTokenRef<'a>>
    decreases s.len() - i,
{
    if i < 0 || i >= s.len() {
        None
    } else {
        let a = &s[i];
        if name_contains(a.name, pos) {
            Some(WxmlTokenRef::AttributeName(&a.name, e))
        } else if name_contains(a.value, pos) {
            Some(if generic {
                WxmlTokenRef::GenericRef(&a.value, tag_name)
            } else {
                WxmlTokenRef::EventHandler(&a.value, tag_name)
            })
        } else {
            tok_in_named_attrs(s, i + 1, e, tag_name, generic, pos)
        }
    }
}

pub open spec fn tok_in_class_items<'a>(s: Seq<(Location, WxmlName, Option<Value>)>, i: int, e: &'a Element, pos: Position, scopes: Seq<ScopeKind<'a>>) -> Option<Option<WxmlTokenRef<'a>>>
    decreases s.len() - i,
{
    if i < 0 || i >= s.len() {
        None
    } else {
        let item = &s[i];
        if name_contains(item.1, pos) {
            Some(Some(WxmlTokenRef::StaticClassName(item.1.location, &item.1.name, e)))
        } else {
            match tok_in_opt_value(&item.2, pos, scopes) {
                Some(r) => Some(r),
                None => tok_in_class_items(s, i + 1, e, pos, scopes),
            }
        }
    }
}

pub open spec fn tok_in_style_items<'a>(s: Seq<(Location, WxmlName, Value)>, i: int, pos: Position, scopes: Seq<ScopeKind<'a>>) -> Option<Option<WxmlTokenRef<'a>>>
    decreases s.len() - i,
{
    if i < 0 || i >= s.len() {
        None
    } else {
        let item = &s[i];
        if name_contains(item.1, pos) {
            Some(Some(WxmlTokenRef::StyleName(&item.1)))
        } else {
            match tok_in_value(&item.2, pos, scopes) {
                Some(r) => Some(r),
                None => tok_in_style_items(s, i + 1, pos, scopes),
            }
        }
    }
}

pub open spec fn tok_in_class<'a>(c: &'a ClassAttribute, e: &'a Element, pos: Position, scopes: Seq<ScopeKind<'a>>) -> Option<Option<WxmlTokenRef<'a>>> {
    match c {
        ClassAttribute::Absent => None,
        ClassAttribute::String(loc, v) => if spec_inclusive_contains(*loc, pos) {
            Some(Some(WxmlTokenRef::AttributeKeyword(*loc, e)))
        } else {
            match tok_in_value(v, pos, scopes) {
                Some(Some(WxmlTokenRef::StaticValuePart(l, n))) => Some(Some(WxmlTokenRef::StaticClassName(l, n, e))),
                o => o,
            }
        },
        ClassAttribute::Multiple(list) => tok_in_class_items(list@, 0, e, pos, scopes),
    }
}

pub open spec fn tok_in_style<'a>(c: &'a StyleAttribute, e: &'a Element, pos: Position, scopes: Seq<ScopeKind<'a>>) -> Option<Option<WxmlTokenRef<'a>>> {
    match c {
        StyleAttribute::Absent => None,
        StyleAttribute::String(loc, v) => if spec_inclusive_contains(*loc, pos) {
            Some(Some(WxmlTokenRef::AttributeKeyword(*loc, e)))
        } else {
            tok_in_value(v, pos, scopes)
        },
        StyleAttribute::Multiple(list) => tok_in_style_items(list@, 0, pos, scopes),
    }
}

/// Slot value references of an element whose parent is `parent`: the name (also the scope name
/// when both share a range) or the scope name.
pub open spec fn tok_in_slot_value_refs<'a>(parent: Option<&'a Element>, s: Seq<StaticAttribute>, i: int, pos: Position) -> WxmlTokenRef<'a>
    decreases s.len() - i,
{
    match parent {
        None => WxmlTokenRef::Blank,
        Some(p) => if i < 0 || i >= s.len() {
            WxmlTokenRef::Blank
        } else {
            let a = &s[i];
            if name_contains(a.name, pos) {
                if a.name.location == a.value.location {
                    WxmlTokenRef::SlotValueRefAndScope(&a.name, &a.value, p)
                } else {
                    WxmlTokenRef::SlotValueRef(&a.name, &a.value, p)
                }
            } else if name_contains(a.value, pos) {
                WxmlTokenRef::SlotValueScope(&a.value, &a.name, p)
            } else {
                tok_in_slot_value_refs(parent, s, i + 1, pos)
            }
        },
    }
}

/// Data attributes: the key (given as a data key, or as a mark key when `mark`), or the value.
pub open spec fn tok_in_data<'a>(s: Seq<Attribute>, i: int, mark: bool, pos: Position, scopes: Seq<ScopeKind<'a>>) -> Option<Option<WxmlTokenRef<'a>>>
    decreases s.len() - i,
{
    if i < 0 || i >= s.len() {
        None
    } else {
        let a = &s[i];
        if name_contains(a.name, pos) {
            Some(Some(if mark { WxmlTokenRef::MarkKey(&a.name) } else { WxmlTokenRef::DataKey(&a.name) }))
        } else {
            match tok_in_opt_value(&a.value, pos, scopes) {
                Some(r) => Some(r),
                None => tok_in_data(s, i + 1, mark, pos, scopes),
            }
        }
    }
}

pub open spec fn tok_in_events<'a>(s: Seq<EventBinding>, i: int, e: &'a Element, pos: Position, scopes: Seq<ScopeKind<'a>>) -> Option<Option<WxmlTokenRef<'a>>>
    decreases s.len() - i,
{
    if i < 0 || i >= s.len() {
        None
    } else {
        let a = &s[i];
        if name_contains(a.name, pos) {
            Some(Some(WxmlTokenRef::EventName(&a.name, e)))
        } else {
            match tok_in_opt_value(&a.value, pos, scopes) {
                Some(r) => Some(r),
                None => tok_in_events(s, i + 1, e, pos, scopes),
            }
        }
    }
}

/// A keyword attribute and its value (`slot`, `wx:if`...): the keyword as an attribute keyword,
/// or the token in the value. `None` when neither covers `pos`.
pub open spec fn tok_in_keyword_value<'a>(x: &'a (Location, Value), e: &'a Element, pos: Position, scopes: Seq<ScopeKind<'a>>) -> Option<Option<WxmlTokenRef<'a>>> {
    if spec_inclusive_contains(x.0, pos) {
        Some(Some(WxmlTokenRef::AttributeKeyword(x.0, e)))
    } else {
        tok_in_value(&x.1, pos, scopes)
    }
}

/// The attributes common to components. A static `id` gives its token whether or not it covers
/// `pos`; the data attributes are searched twice, the second time as marks.
pub open spec fn tok_in_common<'a>(parent: Option<&'a Element>, e: &'a Element, c: &'a CommonAttributes, pos: Position, scopes: Seq<ScopeKind<'a>>) -> Option<WxmlTokenRef<'a>> {
    let id: Option<Option<WxmlTokenRef<'a>>> = match &c.id {
        Some(x) => if spec_inclusive_contains(x.0, pos) {
            Some(Some(WxmlTokenRef::AttributeKeyword(x.0, e)))
        } else {
            match &x.1 {
                Value::Static { value, location } => Some(Some(WxmlTokenRef::StaticId(*location, value))),
                _ => tok_in_value(&x.1, pos, scopes),
            }
        },
        None => None,
    };
    match id {
        Some(r) => r,
        None => match (match &c.slot {
            Some(x) => tok_in_keyword_value(x, e, pos, scopes),
            None => None,
        }) {
            Some(r) => r,
            None => match tok_in_data(c.data@, 0, false, pos, scopes) {
                Some(r) => r,
                None => match tok_in_data(c.data@, 0, true, pos, scopes) {
                    Some(r) => r,
                    None => match tok_in_events(c.event_bindings@, 0, e, pos, scopes) {
                        Some(r) => r,
                        None => Some(tok_in_slot_value_refs(parent, c.slot_value_refs@, 0, pos)),
                    },
                },
            },
        },
    }
}

/// The slot value references an element declares, in its parent's scope.
pub open spec fn slot_value_refs_of(e: &Element) -> Option<Seq<StaticAttribute>> {
    match &e.kind {
        ElementKind::Normal { common, .. } => Some(common.slot_value_refs@),
        ElementKind::Slot { common, .. } => Some(common.slot_value_refs@),
        ElementKind::Pure { slot_value_refs, .. } => Some(slot_value_refs@),
        _ => None,
    }
}

pub open spec fn slot_scopes<'a>(refs: Seq<StaticAttribute>, p: &'a Element) -> Seq<ScopeKind<'a>> {
    Seq::new(refs.len(), |k: int| ScopeKind::SlotValue(&refs[k], p))
}

/// The scopes in force inside an element found at the position: the slot values it declares
/// are added when it has a parent.
pub open spec fn scopes_entering<'a>(parent: Option<&'a Element>, e: &'a Element, scopes: Seq<ScopeKind<'a>>) -> Seq<ScopeKind<'a>> {
    match (slot_value_refs_of(e), parent) {
        (Some(refs), Some(p)) => scopes + slot_scopes(refs, p),
        _ => scopes,
    }
}

/// The token at `pos` among the nodes from the `i`-th on, with the scopes in force afterwards:
/// the first text, comment or unknown tag that covers it, or what the first element whose tags
/// cover it gives.
pub open spec fn tok_in_nodes<'a>(parent: Option<&'a Element>, ns: Seq<Node>, i: int, pos: Position, scopes: Seq<ScopeKind<'a>>) -> (Option<WxmlTokenRef<'a>>, Seq<ScopeKind<'a>>)
    decreases ns, ns.len() - i,
{
    if i < 0 || i >= ns.len() {
        (Some(WxmlTokenRef::Blank), scopes)
    } else {
        match &ns[i] {
            Node::Text(v) => match tok_in_value(v, pos, scopes) {
                Some(r) => (match r {
                    Some(WxmlTokenRef::StaticValuePart(l, s)) => Some(WxmlTokenRef::StaticTextContent(l, s, parent)),
                    o => o,
                }, scopes),
                None => tok_in_nodes(parent, ns, i + 1, pos, scopes),
            },
            Node::Element(e) => if tag_contains(e.tag_location, pos) {
                tok_in_element(parent, e, pos, scopes_entering(parent, e, scopes))
            } else {
                tok_in_nodes(parent, ns, i + 1, pos, scopes)
            },
            Node::Comment(c) => if spec_exclusive_contains(c.location, pos) {
                (Some(WxmlTokenRef::Comment(c)), scopes)
            } else {
                tok_in_nodes(parent, ns, i + 1, pos, scopes)
            },
            Node::UnknownMetaTag(l) => if spec_exclusive_contains(*l, pos) {
                (Some(WxmlTokenRef::UnknownMetaTag(*l)), scopes)
            } else {
                tok_in_nodes(parent, ns, i + 1, pos, scopes)
            },
        }
    }
}

/// The `wx:if` / `wx:elif` branches from the `i`-th on: the keyword, the condition, or the first
/// non-blank token of the branch's nodes.
pub open spec fn tok_in_branches<'a>(e: &'a Element, bs: Seq<(Location, Value, Vec<Node>)>, i: int, pos: Position, scopes: Seq<ScopeKind<'a>>) -> (Option<WxmlTokenRef<'a>>, Seq<ScopeKind<'a>>)
    decreases bs, bs.len() - i,
{
    if i < 0 || i >= bs.len() {
        (Some(WxmlTokenRef::Blank), scopes)
    } else {
        let b = &bs[i];
        if spec_inclusive_contains(b.0, pos) {
            (Some(WxmlTokenRef::AttributeKeyword(b.0, e)), scopes)
        } else {
            match tok_in_value(&b.1, pos, scopes) {
                Some(r) => (r, scopes),
                None => {
                    let (r, sc) = tok_in_nodes(Some(e), b.2@, 0, pos, scopes);
                    if r == Some(WxmlTokenRef::Blank) {
                        tok_in_branches(e, bs, i + 1, pos, sc)
                    } else {
                        (r, sc)
                    }
                },
            }
        }
    }
}

/// A `wx:for` name attribute: the keyword, or the name as the item, index or key (`which` 0, 1
/// or 2).
pub open spec fn tok_in_for_name<'a>(x: &'a (Location, WxmlName), which: int, e: &'a Element, pos: Position) -> Option<WxmlTokenRef<'a>> {
    if spec_inclusive_contains(x.0, pos) {
        Some(WxmlTokenRef::AttributeKeyword(x.0, e))
    } else if name_contains(x.1, pos) {
        Some(if which == 0 {
            WxmlTokenRef::ForItem(&x.1, e)
        } else if which == 1 {
            WxmlTokenRef::ForIndex(&x.1, e)
        } else {
            WxmlTokenRef::ForKey(&x.1, e)
        })
    } else {
        None
    }
}

/// The start tag of a normal element: its name, then its attributes in turn, then the common
/// attributes; the start tag itself when none covers `pos`.
pub open spec fn tok_in_normal_start_tag<'a>(parent: Option<&'a Element>, e: &'a Element, pos: Position, scopes: Seq<ScopeKind<'a>>) -> Option<WxmlTokenRef<'a>> {
    match &e.kind {
        ElementKind::Normal { tag_name, attributes, class, style, change_attributes, worklet_attributes, generics, common, .. } => {
            if name_contains(*tag_name, pos) {
                Some(WxmlTokenRef::TagName(tag_name))
            } else {
                match tok_in_attrs(attributes@, 0, e, true, pos, scopes) {
                    Some(r) => r,
                    None => match tok_in_attrs(change_attributes@, 0, e, false, pos, scopes) {
                        Some(r) => r,
                        None => match tok_in_named_attrs(worklet_attributes@, 0, e, tag_name, false, pos) {
                            Some(t) => Some(t),
                            None => match tok_in_named_attrs(generics@, 0, e, tag_name, true, pos) {
                                Some(t) => Some(t),
                                None => match tok_in_class(class, e, pos, scopes) {
                                    Some(r) => r,
                                    None => match tok_in_style(style, e, pos, scopes) {
                                        Some(r) => r,
                                        None => or_token(tok_in_common(parent, e, common, pos, scopes), WxmlTokenRef::StartTagBody(e)),
                                    },
                                },
                            },
                        },
                    },
                }
            }
        },
        _ => Some(WxmlTokenRef::Blank),
    }
}

pub open spec fn tok_in_slot_values<'a>(s: Seq<Attribute>, i: int, pos: Position, scopes: Seq<ScopeKind<'a>>) -> Option<Option<WxmlTokenRef<'a>>>
    decreases s.len() - i,
{
    if i < 0 || i >= s.len() {
        None
    } else {
        let a = &s[i];
        if name_contains(a.name, pos) {
            Some(Some(WxmlTokenRef::SlotValueDefinition(&a.name)))
        } else {
            match tok_in_opt_value(&a.value, pos, scopes) {
                Some(r) => Some(r),
                None => tok_in_slot_values(s, i + 1, pos, scopes),
            }
        }
    }
}

/// The token at `pos` in an element whose tags cover it, and the scopes in force afterwards.
pub open spec fn tok_in_element<'a>(parent: Option<&'a Element>, e: &'a Element, pos: Position, scopes: Seq<ScopeKind<'a>>) -> (Option<WxmlTokenRef<'a>>, Seq<ScopeKind<'a>>)
    decreases e, 0int,
{
    let tl = e.tag_location;
    match &e.kind {
        ElementKind::Normal { children, .. } => if start_tag_body_contains(tl, pos) {
            (tok_in_normal_start_tag(parent, e, pos, scopes), scopes)
        } else if end_tag_body_contains(tl, pos) {
            (Some(WxmlTokenRef::EndTagBody(e)), scopes)
        } else {
            tok_in_nodes(Some(e), children@, 0, pos, scopes)
        },
        ElementKind::Pure { children, slot, slot_value_refs, .. } => if start_tag_body_contains(tl, pos) {
            let s: Option<Option<WxmlTokenRef<'a>>> = match slot {
                Some(x) => if spec_inclusive_contains(x.0, pos) {
                    Some(Some(WxmlTokenRef::OtherKeyword(x.0)))
                } else {
                    tok_in_value(&x.1, pos, scopes)
                },
                None => None,
            };
            (match s {
                Some(r) => r,
                None => Some(match tok_in_slot_value_refs(parent, slot_value_refs@, 0, pos) {
                    WxmlTokenRef::Blank => WxmlTokenRef::StartTagBody(e),
                    t => t,
                }),
            }, scopes)
        } else if end_tag_body_contains(tl, pos) {
            (Some(WxmlTokenRef::EndTagBody(e)), scopes)
        } else {
            tok_in_nodes(Some(e), children@, 0, pos, scopes)
        },
        ElementKind::If { branches, else_branch } => {
            let (r, sc) = tok_in_branches(e, branches@, 0, pos, scopes);
            if r != Some(WxmlTokenRef::Blank) {
                (r, sc)
            } else {
                let (r2, sc2): (Option<WxmlTokenRef<'a>>, Seq<ScopeKind<'a>>) = match else_branch {
                    Some(x) => if spec_inclusive_contains(x.0, pos) {
                        (Some(WxmlTokenRef::AttributeKeyword(x.0, e)), sc)
                    } else {
                        tok_in_nodes(Some(e), x.1@, 0, pos, sc)
                    },
                    None => (Some(WxmlTokenRef::Blank), sc),
                };
                if r2 != Some(WxmlTokenRef::Blank) {
                    (r2, sc2)
                } else if start_tag_body_contains(tl, pos) || end_tag_body_contains(tl, pos) {
                    (Some(WxmlTokenRef::StartTagBody(e)), sc2)
                } else {
                    (Some(WxmlTokenRef::Blank), sc2)
                }
            }
        },
        ElementKind::For { list, item_name, index_name, key, children } => {
            let head: Option<Option<WxmlTokenRef<'a>>> = match tok_in_keyword_value(list, e, pos, scopes) {
                Some(r) => Some(r),
                None => match tok_in_for_name(item_name, 0, e, pos) {
                    Some(t) => Some(Some(t)),
                    None => match tok_in_for_name(index_name, 1, e, pos) {
                        Some(t) => Some(Some(t)),
                        None => match tok_in_for_name(key, 2, e, pos) {
                            Some(t) => Some(Some(t)),
                            None => None,
                        },
                    },
                },
            };
            match head {
                Some(r) => (r, scopes),
                None => {
                    let inner = scopes.push(ScopeKind::ForScope(&item_name.1, e)).push(ScopeKind::ForScope(&index_name.1, e));
                    let (r, sc) = tok_in_nodes(Some(e), children@, 0, pos, inner);
                    if r == Some(WxmlTokenRef::Blank) && (start_tag_body_contains(tl, pos) || end_tag_body_contains(tl, pos)) {
                        (Some(WxmlTokenRef::StartTagBody(e)), sc)
                    } else {
                        (r, sc)
                    }
                },
            }
        },
        ElementKind::TemplateRef { target, data } => if start_tag_body_contains(tl, pos) {
            let t: Option<Option<WxmlTokenRef<'a>>> = if spec_inclusive_contains(target.0, pos) {
                Some(Some(WxmlTokenRef::AttributeKeyword(target.0, e)))
            } else {
                match &target.1 {
                    Value::Static { value, location } => if spec_inclusive_contains(*location, pos) {
                        Some(Some(WxmlTokenRef::TemplateRef(value, *location)))
                    } else {
                        None
                    },
                    _ => tok_in_value(&target.1, pos, scopes),
                }
            };
            (match t {
                Some(r) => r,
                None => match tok_in_keyword_value(data, e, pos, scopes) {
                    Some(r) => r,
                    None => Some(WxmlTokenRef::StartTagBody(e)),
                },
            }, scopes)
        } else if end_tag_body_contains(tl, pos) {
            (Some(WxmlTokenRef::EndTagBody(e)), scopes)
        } else {
            (Some(WxmlTokenRef::Blank), scopes)
        },
        ElementKind::Include { .. } => (Some(WxmlTokenRef::Blank), scopes),
        ElementKind::Slot { name, values, common } => if start_tag_body_contains(tl, pos) {
            (match tok_in_keyword_value(name, e, pos, scopes) {
                Some(r) => r,
                None => match tok_in_slot_values(values@, 0, pos, scopes) {
                    Some(r) => r,
                    None => or_token(tok_in_common(parent, e, common, pos, scopes), WxmlTokenRef::StartTagBody(e)),
                },
            }, scopes)
        } else if end_tag_body_contains(tl, pos) {
            (Some(WxmlTokenRef::EndTagBody(e)), scopes)
        } else {
            (Some(WxmlTokenRef::Blank), scopes)
        },
    }
}

/// The imports or includes: within the tags of the first one that covers `pos`, its `src`
/// keyword or its path, else blank. `None` when no tags cover `pos`.
pub open spec fn tok_in_src_elements<'a>(s: Seq<SrcElement>, i: int, pos: Position) -> Option<WxmlTokenRef<'a>>
    decreases s.len() - i,
{
    if i < 0 || i >= s.len() {
        None
    } else {
        let x = &s[i];
        if tag_contains(x.tag_location, pos) {
            Some(if spec_inclusive_contains(x.src_location, pos) {
                WxmlTokenRef::OtherKeyword(x.src_location)
            } else if name_contains(x.src, pos) {
                WxmlTokenRef::Src(&x.src)
            } else {
                WxmlTokenRef::Blank
            })
        } else {
            tok_in_src_elements(s, i + 1, pos)
        }
    }
}

pub open spec fn script_tag_location(s: Script) -> TagLocation {
    match s {
        Script::Inline { tag_location, .. } => tag_location,
        Script::GlobalRef { tag_location, .. } => tag_location,
    }
}

pub open spec fn tok_in_script<'a>(s: &'a Script, pos: Position) -> WxmlTokenRef<'a> {
    match s {
        Script::Inline { module_location, module_name, content_location, .. } => if spec_inclusive_contains(*module_location, pos) {
            WxmlTokenRef::OtherKeyword(*module_location)
        } else if name_contains(*module_name, pos) {
            WxmlTokenRef::ScriptModule(module_name)
        } else if spec_inclusive_contains(*content_location, pos) {
            WxmlTokenRef::ScriptContent(*content_location)
        } else {
            WxmlTokenRef::Blank
        },
        Script::GlobalRef { module_location, module_name, src_location, src, .. } => if spec_inclusive_contains(*module_location, pos) {
            WxmlTokenRef::OtherKeyword(*module_location)
        } else if name_contains(*module_name, pos) {
            WxmlTokenRef::ScriptModule(module_name)
        } else if spec_inclusive_contains(*src_location, pos) {
            WxmlTokenRef::OtherKeyword(*src_location)
        } else if name_contains(*src, pos) {
            WxmlTokenRef::ScriptSrc(src)
        } else {
            WxmlTokenRef::Blank
        },
    }
}

pub open spec fn tok_in_scripts<'a>(s: Seq<Script>, i: int, pos: Position) -> Option<WxmlTokenRef<'a>>
    decreases s.len() - i,
{
    if i < 0 || i >= s.len() {
        None
    } else if tag_contains(script_tag_location(s[i]), pos) {
        Some(tok_in_script(&s[i], pos))
    } else {
        tok_in_scripts(s, i + 1, pos)
    }
}

/// The scopes at the top of a template: its script modules, in order.
pub open spec fn script_scopes<'a>(s: Seq<Script>) -> Seq<ScopeKind<'a>> {
    Seq::new(s.len(), |k: int| ScopeKind::Script(&s[k]))
}

/// The sub-templates: within the tags of the first one that covers `pos`, its `name` keyword,
/// its name, or the token in its content. `None` when no tags cover `pos`.
pub open spec fn tok_in_sub_templates<'a>(s: Seq<TemplateDefinition>, i: int, pos: Position, scopes: Seq<ScopeKind<'a>>) -> Option<Option<WxmlTokenRef<'a>>>
    decreases s.len() - i,
{
    if i < 0 || i >= s.len() {
        None
    } else {
        let x = &s[i];
        if tag_contains(x.tag_location, pos) {
            Some(if spec_inclusive_contains(x.name_location, pos) {
                Some(WxmlTokenRef::OtherKeyword(x.name_location))
            } else if name_contains(x.name, pos) {
                Some(WxmlTokenRef::TemplateName(&x.name))
            } else {
                tok_in_nodes(None, x.content@, 0, pos, scopes).0
            })
        } else {
            tok_in_sub_templates(s, i + 1, pos, scopes)
        }
    }
}

/// The token of a template at `pos`: in the first import, include, script or sub-template whose
/// tags cover it, else in the content. `None` where a binding refers to a scope that is not in
/// force.
pub open spec fn wxml_token_at<'a>(t: &'a Template, pos: Position) -> Option<WxmlTokenRef<'a>> {
    match tok_in_src_elements(t.imports@, 0, pos) {
        Some(x) => Some(x),
        None => match tok_in_src_elements(t.includes@, 0, pos) {
            Some(x) => Some(x),
            None => match tok_in_scripts(t.scripts@, 0, pos) {
                Some(x) => Some(x),
                None => match tok_in_sub_templates(t.sub_templates@, 0, pos, script_scopes(t.scripts@)) {
                    Some(r) => r,
                    None => tok_in_nodes(None, t.content@, 0, pos, script_scopes(t.scripts@)).0,
                },
            },
        },
    }
}


fn tag_contains_exec(tl: &TagLocation, pos: Position) -> (r: bool)
    ensures
        r == tag_contains(*tl, pos),
{
    let end = match &tl.end {
        Some(e) => e.1.end,
        None => tl.start.1.end,
    };
    tl.start.0.start.le(&pos) && pos.le(&end)
}

fn start_tag_body_contains_exec(tl: &TagLocation, pos: Position) -> (r: bool)
    ensures
        r == start_tag_body_contains(*tl, pos),
{
    exclusive_contains(&Location { start: tl.start.0.start, end: tl.start.1.end }, pos)
}

fn end_tag_body_contains_exec(tl: &TagLocation, pos: Position) -> (r: bool)
    ensures
        r == end_tag_body_contains(*tl, pos),
{
    match &tl.end {
        Some(e) => exclusive_contains(&Location { start: e.0.start, end: e.1.end }, pos),
        None => false,
    }
}

fn name_contains_exec(n: &WxmlName, pos: Position) -> (r: bool)
    ensures
        r == name_contains(*n, pos),
{
    inclusive_contains(&n.location, pos)
}

fn is_blank(r: &Option<WxmlTokenRef>) -> (b: bool)
    ensures
        b == (*r == Some(WxmlTokenRef::Blank)),
{
    match r {
        Some(WxmlTokenRef::Blank) => true,
        _ => false,
    }
}

fn find_in_expr<'a>(e: &'a Expr, pos: Position, scopes: &Vec<ScopeKind<'a>>, hs: bool) -> (r: Option<WxmlTokenRef<'a>>)
    ensures
        r == tok_in_expr(e, pos, scopes@, hs),
    decreases e, 1int,
{
    match e {
        Expr::LitStr { value, location } => if hs && inclusive_contains(location, pos) {
            Some(WxmlTokenRef::StaticValuePart(*location, value))
        } else {
            Some(WxmlTokenRef::Blank)
        },
        Expr::ScopeRef { location, index } => if inclusive_contains(location, pos) {
            if *index < scopes.len() {
                Some(WxmlTokenRef::ScopeRef(*location, scopes[*index]))
            } else {
                None
            }
        } else {
            Some(WxmlTokenRef::Blank)
        },
        Expr::DataField { name, location } => if inclusive_contains(location, pos) {
            Some(WxmlTokenRef::DataField(name, *location))
        } else {
            Some(WxmlTokenRef::Blank)
        },
        Expr::StaticMember { obj, field_name, field_location, .. } => if inclusive_contains(field_location, pos) {
            Some(WxmlTokenRef::DataField(field_name, *field_location))
        } else {
            find_in_expr(&**obj, pos, scopes, false)
        },
        _ => {
            let plus = match e {
                Expr::Binary { is_plus, .. } => *is_plus,
                _ => false,
            };
            find_in_subs(e, pos, scopes, plus)
        },
    }
}

fn find_in_subs<'a>(e: &'a Expr, pos: Position, scopes: &Vec<ScopeKind<'a>>, hs: bool) -> (r: Option<WxmlTokenRef<'a>>)
    ensures
        r == tok_in_subs(e, pos, scopes@, hs),
    decreases e, 0int,
{
    match e {
        Expr::ToStringWithoutUndefined { value, .. } => find_in_expr(&**value, pos, scopes, hs),
        Expr::LitObj { fields, .. } => find_in_obj_fields(fields, pos, scopes, hs),
        Expr::LitArr { fields, .. } => find_in_arr_fields(fields, pos, scopes, hs),
        Expr::StaticMember { obj, .. } => find_in_expr(&**obj, pos, scopes, hs),
        Expr::DynamicMember { obj, field_name, .. } => {
            let a = find_in_expr(&**obj, pos, scopes, hs);
            if is_blank(&a) {
                find_in_expr(&**field_name, pos, scopes, hs)
            } else {
                a
            }
        },
        Expr::FuncCall { func, args, .. } => {
            let a = find_in_expr(&**func, pos, scopes, hs);
            if is_blank(&a) {
                find_in_exprs(args, pos, scopes, hs)
            } else {
                a
            }
        },
        Expr::Unary { value, .. } => find_in_expr(&**value, pos, scopes, hs),
        Expr::Binary { left, right, .. } => {
            let a = find_in_expr(&**left, pos, scopes, hs);
            if is_blank(&a) {
                find_in_expr(&**right, pos, scopes, hs)
            } else {
                a
            }
        },
        Expr::Cond { cond, true_br, false_br, .. } => {
            let a = find_in_expr(&**cond, pos, scopes, hs);
            if !is_blank(&a) {
                return a;
            }
            let b = find_in_expr(&**true_br, pos, scopes, hs);
            if is_blank(&b) {
                find_in_expr(&**false_br, pos, scopes, hs)
            } else {
                b
            }
        },
        _ => Some(WxmlTokenRef::Blank),
    }
}

fn find_in_exprs<'a>(es: &'a Vec<Expr>, pos: Position, scopes: &Vec<ScopeKind<'a>>, hs: bool) -> (r: Option<WxmlTokenRef<'a>>)
    ensures
        r == tok_in_exprs(es@, 0, pos, scopes@, hs),
    decreases es@, 0int,
{
    let mut i: usize = 0;
    while i < es.len()
        invariant
            i <= es@.len(),
            tok_in_exprs(es@, 0, pos, scopes@, hs) == tok_in_exprs(es@, i as int, pos, scopes@, hs),
        decreases es@.len() - i,
    {
        let a = find_in_expr(&es[i], pos, scopes, hs);
        if !is_blank(&a) {
            return a;
        }
        i = i + 1;
    }
    Some(WxmlTokenRef::Blank)
}

fn find_in_obj_fields<'a>(fs: &'a Vec<ObjectField>, pos: Position, scopes: &Vec<ScopeKind<'a>>, hs: bool) -> (r: Option<WxmlTokenRef<'a>>)
    ensures
        r == tok_in_obj_fields(fs@, 0, pos, scopes@, hs),
    decreases fs@, 0int,
{
    let mut i: usize = 0;
    while i < fs.len()
        invariant
            i <= fs@.len(),
            tok_in_obj_fields(fs@, 0, pos, scopes@, hs) == tok_in_obj_fields(fs@, i as int, pos, scopes@, hs),
        decreases fs@.len() - i,
    {
        let a = match &fs[i] {
            ObjectField::Named { value, .. } => find_in_expr(value, pos, scopes, hs),
            ObjectField::Spread { value, .. } => find_in_expr(value, pos, scopes, hs),
        };
        if !is_blank(&a) {
            return a;
        }
        i = i + 1;
    }
    Some(WxmlTokenRef::Blank)
}

fn find_in_arr_fields<'a>(fs: &'a Vec<ArrayField>, pos: Position, scopes: &Vec<ScopeKind<'a>>, hs: bool) -> (r: Option<WxmlTokenRef<'a>>)
    ensures
        r == tok_in_arr_fields(fs@, 0, pos, scopes@, hs),
    decreases fs@, 0int,
{
    let mut i: usize = 0;
    while i < fs.len()
        invariant
            i <= fs@.len(),
            tok_in_arr_fields(fs@, 0, pos, scopes@, hs) == tok_in_arr_fields(fs@, i as int, pos, scopes@, hs),
        decreases fs@.len() - i,
    {
        let a = match &fs[i] {
            ArrayField::Normal { value } => find_in_expr(value, pos, scopes, hs),
            ArrayField::Spread { value, .. } => find_in_expr(value, pos, scopes, hs),
            ArrayField::EmptySlot => {
                return Some(WxmlTokenRef::Blank);
            },
        };
        if !is_blank(&a) {
            return a;
        }
        i = i + 1;
    }
    Some(WxmlTokenRef::Blank)
}

fn static_parts_range_exec(loc: Location, e: &Expr) -> (r: (Location, bool))
    ensures
        r == static_parts_range(loc, e),
    decreases e,
{
    match e {
        Expr::LitStr { location, .. } => {
            let start = if loc.start.le(&location.start) { loc.start } else { location.start };
            let end = if loc.end.le(&location.end) { location.end } else { loc.end };
            (Location { start, end }, false)
        },
        Expr::ToStringWithoutUndefined { .. } => (loc, true),
        Expr::Binary { left, right, is_plus, .. } => if *is_plus {
            let (l1, b1) = static_parts_range_exec(loc, &**left);
            if b1 {
                (l1, true)
            } else {
                static_parts_range_exec(l1, &**right)
            }
        } else {
            (loc, false)
        },
        _ => (loc, false),
    }
}

fn find_in_value<'a>(v: &'a Value, pos: Position, scopes: &Vec<ScopeKind<'a>>) -> (r: Option<Option<WxmlTokenRef<'a>>>)
    ensures
        r == tok_in_value(v, pos, scopes@),
{
    match v {
        Value::Static { value, location } => if inclusive_contains(location, pos) {
            Some(Some(WxmlTokenRef::StaticValuePart(*location, value)))
        } else {
            None
        },
        Value::Dynamic { expression, double_brace_location } => {
            let (loc, hs) = static_parts_range_exec(
                Location { start: double_brace_location.0.start, end: double_brace_location.1.end },
                &**expression,
            );
            if inclusive_contains(&loc, pos) {
                Some(find_in_expr(&**expression, pos, scopes, hs))
            } else {
                None
            }
        },
    }
}

fn find_in_opt_value<'a>(v: &'a Option<Value>, pos: Position, scopes: &Vec<ScopeKind<'a>>) -> (r: Option<Option<WxmlTokenRef<'a>>>)
    ensures
        r == tok_in_opt_value(v, pos, scopes@),
{
    match v {
        Some(x) => find_in_value(x, pos, scopes),
        None => None,
    }
}

fn find_in_attrs<'a>(s: &'a Vec<Attribute>, e: &'a Element, model: bool, pos: Position, scopes: &Vec<ScopeKind<'a>>) -> (r: Option<Option<WxmlTokenRef<'a>>>)
    ensures
        r == tok_in_attrs(s@, 0, e, model, pos, scopes@),
{
    let mut i: usize = 0;
    while i < s.len()
        invariant
            i <= s@.len(),
            tok_in_attrs(s@, 0, e, model, pos, scopes@) == tok_in_attrs(s@, i as int, e, model, pos, scopes@),
        decreases s@.len() - i,
    {
        let a = &s[i];
        if name_contains_exec(&a.name, pos) {
            return Some(Some(if model && a.is_model {
                WxmlTokenRef::ModelAttributeName(&a.name, e)
            } else {
                WxmlTokenRef::AttributeName(&a.name, e)
            }));
        }
        match find_in_opt_value(&a.value, pos, scopes) {
            Some(r) => {
                return Some(match r {
                    Some(WxmlTokenRef::StaticValuePart(l, v)) => Some(WxmlTokenRef::AttributeStaticValue(l, v, &a.name, e)),
                    o => o,
                });
            },
            None => {},
        }
        i = i + 1;
    }
    None
}

fn find_in_named_attrs<'a>(s: &'a Vec<StaticAttribute>, e: &'a Element, tag_name: &'a WxmlName, generic: bool, pos: Position) -> (r: Option<WxmlTokenRef<'a>>)
    ensures
        r == tok_in_named_attrs(s@, 0, e, tag_name, generic, pos),
{
    let mut i: usize = 0;
    while i < s.len()
        invariant
            i <= s@.len(),
            tok_in_named_attrs(s@, 0, e, tag_name, generic, pos) == tok_in_named_attrs(s@, i as int, e, tag_name, generic, pos),
        decreases s@.len() - i,
    {
        let a = &s[i];
        if name_contains_exec(&a.name, pos) {
            return Some(WxmlTokenRef::AttributeName(&a.name, e));
        }
        if name_contains_exec(&a.value, pos) {
            return Some(if generic {
                WxmlTokenRef::GenericRef(&a.value, tag_name)
            } else {
                WxmlTokenRef::EventHandler(&a.value, tag_name)
            });
        }
        i = i + 1;
    }
    None
}

fn find_in_class<'a>(c: &'a ClassAttribute, e: &'a Element, pos: Position, scopes: &Vec<ScopeKind<'a>>) -> (r: Option<Option<WxmlTokenRef<'a>>>)
    ensures
        r == tok_in_class(c, e, pos, scopes@),
{
    match c {
        ClassAttribute::Absent => None,
        ClassAttribute::String(loc, v) => if inclusive_contains(loc, pos) {
            Some(Some(WxmlTokenRef::AttributeKeyword(*loc, e)))
        } else {
            match find_in_value(v, pos, scopes) {
                Some(Some(WxmlTokenRef::StaticValuePart(l, n))) => Some(Some(WxmlTokenRef::StaticClassName(l, n, e))),
                o => o,
            }
        },
        ClassAttribute::Multiple(list) => {
            let mut i: usize = 0;
            while i < list.len()
                invariant
                    i <= list@.len(),
                    *c == ClassAttribute::Multiple(*list),
                    tok_in_class_items(list@, 0, e, pos, scopes@) == tok_in_class_items(list@, i as int, e, pos, scopes@),
                decreases list@.len() - i,
            {
                let item = &list[i];
                if name_contains_exec(&item.1, pos) {
                    return Some(Some(WxmlTokenRef::StaticClassName(item.1.location, &item.1.name, e)));
                }
                match find_in_opt_value(&item.2, pos, scopes) {
                    Some(r) => {
                        return Some(r);
                    },
                    None => {},
                }
                i = i + 1;
            }
            None
        },
    }
}

fn find_in_style<'a>(c: &'a StyleAttribute, e: &'a Element, pos: Position, scopes: &Vec<ScopeKind<'a>>) -> (r: Option<Option<WxmlTokenRef<'a>>>)
    ensures
        r == tok_in_style(c, e, pos, scopes@),
{
    match c {
        StyleAttribute::Absent => None,
        StyleAttribute::String(loc, v) => if inclusive_contains(loc, pos) {
            Some(Some(WxmlTokenRef::AttributeKeyword(*loc, e)))
        } else {
            find_in_value(v, pos, scopes)
        },
        StyleAttribute::Multiple(list) => {
            let mut i: usize = 0;
            while i < list.len()
                invariant
                    i <= list@.len(),
                    *c == StyleAttribute::Multiple(*list),
                    tok_in_style_items(list@, 0, pos, scopes@) == tok_in_style_items(list@, i as int, pos, scopes@),
                decreases list@.len() - i,
            {
                let item = &list[i];
                if name_contains_exec(&item.1, pos) {
                    return Some(Some(WxmlTokenRef::StyleName(&item.1)));
                }
                match find_in_value(&item.2, pos, scopes) {
                    Some(r) => {
                        return Some(r);
                    },
                    None => {},
                }
                i = i + 1;
            }
            None
        },
    }
}

fn find_in_slot_value_refs<'a>(parent: Option<&'a Element>, s: &'a Vec<StaticAttribute>, pos: Position) -> (r: WxmlTokenRef<'a>)
    ensures
        r == tok_in_slot_value_refs(parent, s@, 0, pos),
{
    let p = match parent {
        Some(p) => p,
        None => {
            return WxmlTokenRef::Blank;
        },
    };
    let mut i: usize = 0;
    while i < s.len()
        invariant
            i <= s@.len(),
            parent == Some(p),
            tok_in_slot_value_refs(parent, s@, 0, pos) == tok_in_slot_value_refs(parent, s@, i as int, pos),
        decreases s@.len() - i,
    {
        let a = &s[i];
        if name_contains_exec(&a.name, pos) {
            if a.name.location.start.line == a.value.location.start.line
                && a.name.location.start.utf16_col == a.value.location.start.utf16_col
                && a.name.location.end.line == a.value.location.end.line
                && a.name.location.end.utf16_col == a.value.location.end.utf16_col {
                return WxmlTokenRef::SlotValueRefAndScope(&a.name, &a.value, p);
            }
            return WxmlTokenRef::SlotValueRef(&a.name, &a.value, p);
        }
        if name_contains_exec(&a.value, pos) {
            return WxmlTokenRef::SlotValueScope(&a.value, &a.name, p);
        }
        i = i + 1;
    }
    WxmlTokenRef::Blank
}

fn find_in_data<'a>(s: &'a Vec<Attribute>, mark: bool, pos: Position, scopes: &Vec<ScopeKind<'a>>) -> (r: Option<Option<WxmlTokenRef<'a>>>)
    ensures
        r == tok_in_data(s@, 0, mark, pos, scopes@),
{
    let mut i: usize = 0;
    while i < s.len()
        invariant
            i <= s@.len(),
            tok_in_data(s@, 0, mark, pos, scopes@) == tok_in_data(s@, i as int, mark, pos, scopes@),
        decreases s@.len() - i,
    {
        let a = &s[i];
        if name_contains_exec(&a.name, pos) {
            return Some(Some(if mark { WxmlTokenRef::MarkKey(&a.name) } else { WxmlTokenRef::DataKey(&a.name) }));
        }
        match find_in_opt_value(&a.value, pos, scopes) {
            Some(r) => {
                return Some(r);
            },
            None => {},
        }
        i = i + 1;
    }
    None
}

fn find_in_events<'a>(s: &'a Vec<EventBinding>, e: &'a Element, pos: Position, scopes: &Vec<ScopeKind<'a>>) -> (r: Option<Option<WxmlTokenRef<'a>>>)
    ensures
        r == tok_in_events(s@, 0, e, pos, scopes@),
{
    let mut i: usize = 0;
    while i < s.len()
        invariant
            i <= s@.len(),
            tok_in_events(s@, 0, e, pos, scopes@) == tok_in_events(s@, i as int, e, pos, scopes@),
        decreases s@.len() - i,
    {
        let a = &s[i];
        if name_contains_exec(&a.name, pos) {
            return Some(Some(WxmlTokenRef::EventName(&a.name, e)));
        }
        match find_in_opt_value(&a.value, pos, scopes) {
            Some(r) => {
                return Some(r);
            },
            None => {},
        }
        i = i + 1;
    }
    None
}

fn find_in_keyword_value<'a>(x: &'a (Location, Value), e: &'a Element, pos: Position, scopes: &Vec<ScopeKind<'a>>) -> (r: Option<Option<WxmlTokenRef<'a>>>)
    ensures
        r == tok_in_keyword_value(x, e, pos, scopes@),
{
    if inclusive_contains(&x.0, pos) {
        Some(Some(WxmlTokenRef::AttributeKeyword(x.0, e)))
    } else {
        find_in_value(&x.1, pos, scopes)
    }
}

fn find_in_common<'a>(parent: Option<&'a Element>, e: &'a Element, c: &'a CommonAttributes, pos: Position, scopes: &Vec<ScopeKind<'a>>) -> (r: Option<WxmlTokenRef<'a>>)
    ensures
        r == tok_in_common(parent, e, c, pos, scopes@),
{
    match &c.id {
        Some(x) => {
            if inclusive_contains(&x.0, pos) {
                return Some(WxmlTokenRef::AttributeKeyword(x.0, e));
            }
            match &x.1 {
                Value::Static { value, location } => {
                    return Some(WxmlTokenRef::StaticId(*location, value));
                },
                _ => match find_in_value(&x.1, pos, scopes) {
                    Some(r) => {
                        return r;
                    },
                    None => {},
                },
            }
        },
        None => {},
    }
    match &c.slot {
        Some(x) => match find_in_keyword_value(x, e, pos, scopes) {
            Some(r) => {
                return r;
            },
            None => {},
        },
        None => {},
    }
    match find_in_data(&c.data, false, pos, scopes) {
        Some(r) => {
            return r;
        },
        None => {},
    }
    match find_in_data(&c.data, true, pos, scopes) {
        Some(r) => {
            return r;
        },
        None => {},
    }
    match find_in_events(&c.event_bindings, e, pos, scopes) {
        Some(r) => {
            return r;
        },
        None => {},
    }
    Some(find_in_slot_value_refs(parent, &c.slot_value_refs, pos))
}

fn find_in_for_name<'a>(x: &'a (Location, WxmlName), which: u8, e: &'a Element, pos: Position) -> (r: Option<WxmlTokenRef<'a>>)
    ensures
        r == tok_in_for_name(x, which as int, e, pos),
{
    if inclusive_contains(&x.0, pos) {
        Some(WxmlTokenRef::AttributeKeyword(x.0, e))
    } else if name_contains_exec(&x.1, pos) {
        Some(if which == 0 {
            WxmlTokenRef::ForItem(&x.1, e)
        } else if which == 1 {
            WxmlTokenRef::ForIndex(&x.1, e)
        } else {
            WxmlTokenRef::ForKey(&x.1, e)
        })
    } else {
        None
    }
}

fn or_start_tag<'a>(r: Option<WxmlTokenRef<'a>>, e: &'a Element) -> (o: Option<WxmlTokenRef<'a>>)
    ensures
        o == or_token(r, WxmlTokenRef::StartTagBody(e)),
{
    match r {
        Some(WxmlTokenRef::Blank) => Some(WxmlTokenRef::StartTagBody(e)),
        _ => r,
    }
}

fn find_in_normal_start_tag<'a>(parent: Option<&'a Element>, e: &'a Element, pos: Position, scopes: &Vec<ScopeKind<'a>>) -> (r: Option<WxmlTokenRef<'a>>)
    ensures
        r == tok_in_normal_start_tag(parent, e, pos, scopes@),
{
    match &e.kind {
        ElementKind::Normal { tag_name, attributes, class, style, change_attributes, worklet_attributes, generics, common, .. } => {
            if name_contains_exec(tag_name, pos) {
                return Some(WxmlTokenRef::TagName(tag_name));
            }
            match find_in_attrs(attributes, e, true, pos, scopes) {
                Some(r) => {
                    return r;
                },
                None => {},
            }
            match find_in_attrs(change_attributes, e, false, pos, scopes) {
                Some(r) => {
                    return r;
                },
                None => {},
            }
            match find_in_named_attrs(worklet_attributes, e, tag_name, false, pos) {
                Some(t) => {
                    return Some(t);
                },
                None => {},
            }
            match find_in_named_attrs(generics, e, tag_name, true, pos) {
                Some(t) => {
                    return Some(t);
                },
                None => {},
            }
            match find_in_class(class, e, pos, scopes) {
                Some(r) => {
                    return r;
                },
                None => {},
            }
            match find_in_style(style, e, pos, scopes) {
                Some(r) => {
                    return r;
                },
                None => {},
            }
            or_start_tag(find_in_common(parent, e, common, pos, scopes), e)
        },
        _ => Some(WxmlTokenRef::Blank),
    }
}

fn find_in_slot_values<'a>(s: &'a Vec<Attribute>, pos: Position, scopes: &Vec<ScopeKind<'a>>) -> (r: Option<Option<WxmlTokenRef<'a>>>)
    ensures
        r == tok_in_slot_values(s@, 0, pos, scopes@),
{
    let mut i: usize = 0;
    while i < s.len()
        invariant
            i <= s@.len(),
            tok_in_slot_values(s@, 0, pos, scopes@) == tok_in_slot_values(s@, i as int, pos, scopes@),
        decreases s@.len() - i,
    {
        let a = &s[i];
        if name_contains_exec(&a.name, pos) {
            return Some(Some(WxmlTokenRef::SlotValueDefinition(&a.name)));
        }
        match find_in_opt_value(&a.value, pos, scopes) {
            Some(r) => {
                return Some(r);
            },
            None => {},
        }
        i = i + 1;
    }
    None
}

/// Adds the slot values that an element found at the position declares, in its parent's scope.
fn enter_scopes<'a>(parent: Option<&'a Element>, e: &'a Element, scopes: &mut Vec<ScopeKind<'a>>)
    ensures
        final(scopes)@ == scopes_entering(parent, e, old(scopes)@),
{
    let p = match parent {
        Some(p) => p,
        None => {
            return;
        },
    };
    let refs: &'a Vec<StaticAttribute> = match &e.kind {
        ElementKind::Normal { common, .. } => &common.slot_value_refs,
        ElementKind::Slot { common, .. } => &common.slot_value_refs,
        ElementKind::Pure { slot_value_refs, .. } => slot_value_refs,
        _ => {
            return;
        },
    };
    assert(slot_value_refs_of(e) == Some(refs@));
    let ghost s0 = scopes@;
    let mut k: usize = 0;
    while k < refs.len()
        invariant
            k <= refs@.len(),
            scopes@ == s0 + Seq::new(k as nat, |j: int| ScopeKind::SlotValue(&refs@[j], p)),
        decreases refs@.len() - k,
    {
        scopes.push(ScopeKind::SlotValue(&refs[k], p));
        proof {
            assert(scopes@ =~= s0 + Seq::new((k + 1) as nat, |j: int| ScopeKind::SlotValue(&refs@[j], p)));
        }
        k = k + 1;
    }
    proof {
        assert(scopes@ =~= s0 + slot_scopes(refs@, p));
    }
}

fn find_in_nodes<'a>(parent: Option<&'a Element>, ns: &'a Vec<Node>, pos: Position, scopes: &mut Vec<ScopeKind<'a>>) -> (r: Option<WxmlTokenRef<'a>>)
    ensures
        (r, final(scopes)@) == tok_in_nodes(parent, ns@, 0, pos, old(scopes)@),
    decreases ns@, 0int,
{
    let mut i: usize = 0;
    while i < ns.len()
        invariant
            i <= ns@.len(),
            scopes@ == old(scopes)@,
            tok_in_nodes(parent, ns@, 0, pos, old(scopes)@) == tok_in_nodes(parent, ns@, i as int, pos, scopes@),
        decreases ns@.len() - i,
    {
        match &ns[i] {
            Node::Text(v) => match find_in_value(v, pos, scopes) {
                Some(r) => {
                    return match r {
                        Some(WxmlTokenRef::StaticValuePart(l, s)) => Some(WxmlTokenRef::StaticTextContent(l, s, parent)),
                        o => o,
                    };
                },
                None => {},
            },
            Node::Element(e) => if tag_contains_exec(&e.tag_location, pos) {
                enter_scopes(parent, e, scopes);
                return find_in_element(parent, e, pos, scopes);
            },
            Node::Comment(c) => if exclusive_contains(&c.location, pos) {
                return Some(WxmlTokenRef::Comment(c));
            },
            Node::UnknownMetaTag(l) => if exclusive_contains(l, pos) {
                return Some(WxmlTokenRef::UnknownMetaTag(*l));
            },
        }
        i = i + 1;
    }
    Some(WxmlTokenRef::Blank)
}

fn find_in_branches<'a>(e: &'a Element, bs: &'a Vec<(Location, Value, Vec<Node>)>, pos: Position, scopes: &mut Vec<ScopeKind<'a>>) -> (r: Option<WxmlTokenRef<'a>>)
    ensures
        (r, final(scopes)@) == tok_in_branches(e, bs@, 0, pos, old(scopes)@),
    decreases bs@, 0int,
{
    let mut i: usize = 0;
    while i < bs.len()
        invariant
            i <= bs@.len(),
            tok_in_branches(e, bs@, 0, pos, old(scopes)@) == tok_in_branches(e, bs@, i as int, pos, scopes@),
        decreases bs@.len() - i,
    {
        let b = &bs[i];
        if inclusive_contains(&b.0, pos) {
            return Some(WxmlTokenRef::AttributeKeyword(b.0, e));
        }
        match find_in_value(&b.1, pos, scopes) {
            Some(r) => {
                return r;
            },
            None => {},
        }
        proof {
            assert(decreases_to!(bs@ => bs@[i as int]));
        }
        let r = find_in_nodes(Some(e), &b.2, pos, scopes);
        if !is_blank(&r) {
            return r;
        }
        i = i + 1;
    }
    Some(WxmlTokenRef::Blank)
}

fn find_in_element<'a>(parent: Option<&'a Element>, e: &'a Element, pos: Position, scopes: &mut Vec<ScopeKind<'a>>) -> (r: Option<WxmlTokenRef<'a>>)
    ensures
        (r, final(scopes)@) == tok_in_element(parent, e, pos, old(scopes)@),
    decreases e, 1int,
{
    let tl = &e.tag_location;
    match &e.kind {
        ElementKind::Normal { children, .. } => if start_tag_body_contains_exec(tl, pos) {
            find_in_normal_start_tag(parent, e, pos, scopes)
        } else if end_tag_body_contains_exec(tl, pos) {
            Some(WxmlTokenRef::EndTagBody(e))
        } else {
            find_in_nodes(Some(e), children, pos, scopes)
        },
        ElementKind::Pure { children, slot, slot_value_refs, .. } => if start_tag_body_contains_exec(tl, pos) {
            match slot {
                Some(x) => {
                    if inclusive_contains(&x.0, pos) {
                        return Some(WxmlTokenRef::OtherKeyword(x.0));
                    }
                    match find_in_value(&x.1, pos, scopes) {
                        Some(r) => {
                            return r;
                        },
                        None => {},
                    }
                },
                None => {},
            }
            Some(match find_in_slot_value_refs(parent, slot_value_refs, pos) {
                WxmlTokenRef::Blank => WxmlTokenRef::StartTagBody(e),
                t => t,
            })
        } else if end_tag_body_contains_exec(tl, pos) {
            Some(WxmlTokenRef::EndTagBody(e))
        } else {
            find_in_nodes(Some(e), children, pos, scopes)
        },
        ElementKind::If { branches, else_branch } => {
            let r = find_in_branches(e, branches, pos, scopes);
            if !is_blank(&r) {
                return r;
            }
            let r2 = match else_branch {
                Some(x) => if inclusive_contains(&x.0, pos) {
                    Some(WxmlTokenRef::AttributeKeyword(x.0, e))
                } else {
                    find_in_nodes(Some(e), &x.1, pos, scopes)
                },
                None => Some(WxmlTokenRef::Blank),
            };
            if !is_blank(&r2) {
                r2
            } else if start_tag_body_contains_exec(tl, pos) || end_tag_body_contains_exec(tl, pos) {
                Some(WxmlTokenRef::StartTagBody(e))
            } else {
                Some(WxmlTokenRef::Blank)
            }
        },
        ElementKind::For { list, item_name, index_name, key, children } => {
            match find_in_keyword_value(list, e, pos, scopes) {
                Some(r) => {
                    return r;
                },
                None => {},
            }
            match find_in_for_name(item_name, 0, e, pos) {
                Some(t) => {
                    return Some(t);
                },
                None => {},
            }
            match find_in_for_name(index_name, 1, e, pos) {
                Some(t) => {
                    return Some(t);
                },
                None => {},
            }
            match find_in_for_name(key, 2, e, pos) {
                Some(t) => {
                    return Some(t);
                },
                None => {},
            }
            scopes.push(ScopeKind::ForScope(&item_name.1, e));
            scopes.push(ScopeKind::ForScope(&index_name.1, e));
            let r = find_in_nodes(Some(e), children, pos, scopes);
            if is_blank(&r) && (start_tag_body_contains_exec(tl, pos) || end_tag_body_contains_exec(tl, pos)) {
                Some(WxmlTokenRef::StartTagBody(e))
            } else {
                r
            }
        },
        ElementKind::TemplateRef { target, data } => if start_tag_body_contains_exec(tl, pos) {
            if inclusive_contains(&target.0, pos) {
                return Some(WxmlTokenRef::AttributeKeyword(target.0, e));
            }
            match &target.1 {
                Value::Static { value, location } => if inclusive_contains(location, pos) {
                    return Some(WxmlTokenRef::TemplateRef(value, *location));
                },
                _ => match find_in_value(&target.1, pos, scopes) {
                    Some(r) => {
                        return r;
                    },
                    None => {},
                },
            }
            match find_in_keyword_value(data, e, pos, scopes) {
                Some(r) => r,
                None => Some(WxmlTokenRef::StartTagBody(e)),
            }
        } else if end_tag_body_contains_exec(tl, pos) {
            Some(WxmlTokenRef::EndTagBody(e))
        } else {
            Some(WxmlTokenRef::Blank)
        },
        ElementKind::Include { .. } => Some(WxmlTokenRef::Blank),
        ElementKind::Slot { name, values, common } => if start_tag_body_contains_exec(tl, pos) {
            match find_in_keyword_value(name, e, pos, scopes) {
                Some(r) => {
                    return r;
                },
                None => {},
            }
            match find_in_slot_values(values, pos, scopes) {
                Some(r) => {
                    return r;
                },
                None => {},
            }
            or_start_tag(find_in_common(parent, e, common, pos, scopes), e)
        } else if end_tag_body_contains_exec(tl, pos) {
            Some(WxmlTokenRef::EndTagBody(e))
        } else {
            Some(WxmlTokenRef::Blank)
        },
    }
}

fn find_in_src_elements<'a>(s: &'a Vec<SrcElement>, pos: Position) -> (r: Option<WxmlTokenRef<'a>>)
    ensures
        r == tok_in_src_elements(s@, 0, pos),
{
    let mut i: usize = 0;
    while i < s.len()
        invariant
            i <= s@.len(),
            tok_in_src_elements(s@, 0, pos) == tok_in_src_elements(s@, i as int, pos),
        decreases s@.len() - i,
    {
        let x = &s[i];
        if tag_contains_exec(&x.tag_location, pos) {
            return Some(if inclusive_contains(&x.src_location, pos) {
                WxmlTokenRef::OtherKeyword(x.src_location)
            } else if name_contains_exec(&x.src, pos) {
                WxmlTokenRef::Src(&x.src)
            } else {
                WxmlTokenRef::Blank
            });
        }
        i = i + 1;
    }
    None
}

fn find_in_script<'a>(s: &'a Script, pos: Position) -> (r: WxmlTokenRef<'a>)
    ensures
        r == tok_in_script(s, pos),
{
    match s {
        Script::Inline { module_location, module_name, content_location, .. } => if inclusive_contains(module_location, pos) {
            WxmlTokenRef::OtherKeyword(*module_location)
        } else if name_contains_exec(module_name, pos) {
            WxmlTokenRef::ScriptModule(module_name)
        } else if inclusive_contains(content_location, pos) {
            WxmlTokenRef::ScriptContent(*content_location)
        } else {
            WxmlTokenRef::Blank
        },
        Script::GlobalRef { module_location, module_name, src_location, src, .. } => if inclusive_contains(module_location, pos) {
            WxmlTokenRef::OtherKeyword(*module_location)
        } else if name_contains_exec(module_name, pos) {
            WxmlTokenRef::ScriptModule(module_name)
        } else if inclusive_contains(src_location, pos) {
            WxmlTokenRef::OtherKeyword(*src_location)
        } else if name_contains_exec(src, pos) {
            WxmlTokenRef::ScriptSrc(src)
        } else {
            WxmlTokenRef::Blank
        },
    }
}

fn script_tag_contains(s: &Script, pos: Position) -> (r: bool)
    ensures
        r == tag_contains(script_tag_location(*s), pos),
{
    match s {
        Script::Inline { tag_location, .. } => tag_contains_exec(tag_location, pos),
        Script::GlobalRef { tag_location, .. } => tag_contains_exec(tag_location, pos),
    }
}

fn find_in_scripts<'a>(s: &'a Vec<Script>, pos: Position) -> (r: Option<WxmlTokenRef<'a>>)
    ensures
        r == tok_in_scripts(s@, 0, pos),
{
    let mut i: usize = 0;
    while i < s.len()
        invariant
            i <= s@.len(),
            tok_in_scripts(s@, 0, pos) == tok_in_scripts(s@, i as int, pos),
        decreases s@.len() - i,
    {
        if script_tag_contains(&s[i], pos) {
            return Some(find_in_script(&s[i], pos));
        }
        i = i + 1;
    }
    None
}

fn script_scopes_exec<'a>(s: &'a Vec<Script>) -> (r: Vec<ScopeKind<'a>>)
    ensures
        r@ == script_scopes(s@),
{
    let mut out: Vec<ScopeKind<'a>> = Vec::new();
    let mut k: usize = 0;
    while k < s.len()
        invariant
            k <= s@.len(),
            out@ == Seq::new(k as nat, |j: int| ScopeKind::Script(&s@[j])),
        decreases s@.len() - k,
    {
        out.push(ScopeKind::Script(&s[k]));
        proof {
            assert(out@ =~= Seq::new((k + 1) as nat, |j: int| ScopeKind::Script(&s@[j])));
        }
        k = k + 1;
    }
    proof {
        assert(out@ =~= script_scopes(s@));
    }
    out
}

/// The token of a template at `pos`, and the element and scope it belongs to where it has one.
/// `None` where a binding refers to a scope that is not in force at that place.
pub fn find_token_in_position<'a>(t: &'a Template, pos: Position) -> (r: Option<WxmlTokenRef<'a>>)
    ensures
        r == wxml_token_at(t, pos),
{
    match find_in_src_elements(&t.imports, pos) {
        Some(x) => {
            return Some(x);
        },
        None => {},
    }
    match find_in_src_elements(&t.includes, pos) {
        Some(x) => {
            return Some(x);
        },
        None => {},
    }
    match find_in_scripts(&t.scripts, pos) {
        Some(x) => {
            return Some(x);
        },
        None => {},
    }
    let mut scopes = script_scopes_exec(&t.scripts);
    let subs = &t.sub_templates;
    let mut i: usize = 0;
    while i < subs.len()
        invariant
            i <= subs@.len(),
            subs@ == t.sub_templates@,
            tok_in_src_elements(t.imports@, 0, pos) is None,
            tok_in_src_elements(t.includes@, 0, pos) is None,
            tok_in_scripts(t.scripts@, 0, pos) is None,
            scopes@ == script_scopes(t.scripts@),
            tok_in_sub_templates(subs@, 0, pos, scopes@) == tok_in_sub_templates(subs@, i as int, pos, scopes@),
        decreases subs@.len() - i,
    {
        let x = &subs[i];
        if tag_contains_exec(&x.tag_location, pos) {
            if inclusive_contains(&x.name_location, pos) {
                return Some(WxmlTokenRef::OtherKeyword(x.name_location));
            }
            if name_contains_exec(&x.name, pos) {
                return Some(WxmlTokenRef::TemplateName(&x.name));
            }
            return find_in_nodes(None, &x.content, pos, &mut scopes);
        }
        i = i + 1;
    }
    find_in_nodes(None, &t.content, pos, &mut scopes)
}


/// Where "go to declaration" (or "go to definition", `to_definition`) on a token of a template
/// leads.
#[derive(Debug)]
pub enum WxmlDeclaration<'a> {
    /// A range of the same template.
    Local { origin: Location, target: Location },
    /// The start of the template of the custom component that the tag name resolves to.
    ComponentTemplate { origin: Location, tag_name: &'a WxmlName },
    /// The slot values named `slot_value` of the slots of the custom component `component`.
    ComponentSlotValue { origin: Location, component: &'a WxmlName, slot_value: &'a WxmlName },
    /// The sub-template named `name` of the imported templates, the last import first.
    ImportedTemplate { origin: Location, name: &'a String },
    /// The file that `src` names, with the extension of a script (`script`) or a template.
    File { origin: Location, src: &'a WxmlName, script: bool },
}

/// The last sub-template among the first `n` with the name.
pub open spec fn last_sub_template_named(s: Seq<TemplateDefinition>, name: Seq<char>, n: int) -> Option<int>
    decreases n,
{
    if n <= 0 || n > s.len() {
        None
    } else if s[n - 1].name.name@ == name {
        Some(n - 1)
    } else {
        last_sub_template_named(s, name, n - 1)
    }
}

pub open spec fn module_name_of(s: Script) -> WxmlName {
    match s {
        Script::Inline { module_name, .. } => module_name,
        Script::GlobalRef { module_name, .. } => module_name,
    }
}

/// The tag name of the element when it is a normal one.
pub open spec fn normal_tag<'a>(e: &'a Element) -> Option<&'a WxmlName> {
    match &e.kind {
        ElementKind::Normal { tag_name, .. } => Some(tag_name),
        _ => None,
    }
}

/// A slot value of an element in the parent `parent`: for a definition, the slot values of the
/// parent's component when the parent is a normal element; else the range `local`.
pub open spec fn slot_value_target<'a>(origin: Location, parent: &'a Element, key: &'a WxmlName, local: Location, to_definition: bool) -> WxmlDeclaration<'a> {
    match normal_tag(parent) {
        Some(tag) => if to_definition {
            WxmlDeclaration::ComponentSlotValue { origin, component: tag, slot_value: key }
        } else {
            WxmlDeclaration::Local { origin, target: local }
        },
        None => WxmlDeclaration::Local { origin, target: local },
    }
}

/// The declaration that a token of `t` leads to; `None` for tokens that lead nowhere.
pub open spec fn spec_wxml_declaration<'a>(t: &'a Template, token: WxmlTokenRef<'a>, to_definition: bool) -> Option<WxmlDeclaration<'a>> {
    match token {
        WxmlTokenRef::TagName(n) => Some(WxmlDeclaration::ComponentTemplate { origin: n.location, tag_name: n }),
        WxmlTokenRef::StaticId(loc, _) => Some(WxmlDeclaration::Local { origin: loc, target: loc }),
        WxmlTokenRef::StaticClassName(loc, _, _) => Some(WxmlDeclaration::Local { origin: loc, target: loc }),
        WxmlTokenRef::ScopeRef(loc, kind) => Some(match kind {
            ScopeKind::Script(s) => WxmlDeclaration::Local { origin: loc, target: module_name_of(*s).location },
            ScopeKind::ForScope(target, _) => WxmlDeclaration::Local { origin: loc, target: target.location },
            ScopeKind::SlotValue(attr, parent) => slot_value_target(loc, parent, &attr.name, attr.value.location, to_definition),
        }),
        WxmlTokenRef::TemplateName(n) => Some(WxmlDeclaration::Local { origin: n.location, target: n.location }),
        WxmlTokenRef::ScriptModule(n) => Some(WxmlDeclaration::Local { origin: n.location, target: n.location }),
        WxmlTokenRef::ForItem(n, _) => Some(WxmlDeclaration::Local { origin: n.location, target: n.location }),
        WxmlTokenRef::ForIndex(n, _) => Some(WxmlDeclaration::Local { origin: n.location, target: n.location }),
        WxmlTokenRef::SlotValueScope(name, key, parent) => Some(slot_value_target(name.location, parent, key, name.location, to_definition)),
        WxmlTokenRef::SlotValueRef(key, _, parent) => Some(slot_value_target(key.location, parent, key, key.location, to_definition)),
        WxmlTokenRef::SlotValueRefAndScope(key, _, parent) => Some(slot_value_target(key.location, parent, key, key.location, to_definition)),
        WxmlTokenRef::TemplateRef(is, loc) => Some(
            match last_sub_template_named(t.sub_templates@, is@, t.sub_templates@.len() as int) {
                Some(i) => WxmlDeclaration::Local { origin: loc, target: t.sub_templates@[i].name.location },
                None => WxmlDeclaration::ImportedTemplate { origin: loc, name: is },
            },
        ),
        WxmlTokenRef::Src(src) => Some(WxmlDeclaration::File { origin: src.location, src, script: false }),
        WxmlTokenRef::ScriptSrc(src) => Some(WxmlDeclaration::File { origin: src.location, src, script: true }),
        _ => None,
    }
}

fn slot_value_target_exec<'a>(origin: Location, parent: &'a Element, key: &'a WxmlName, local: Location, to_definition: bool) -> (r: WxmlDeclaration<'a>)
    ensures
        r == slot_value_target(origin, parent, key, local, to_definition),
{
    match &parent.kind {
        ElementKind::Normal { tag_name, .. } => if to_definition {
            WxmlDeclaration::ComponentSlotValue { origin, component: tag_name, slot_value: key }
        } else {
            WxmlDeclaration::Local { origin, target: local }
        },
        _ => WxmlDeclaration::Local { origin, target: local },
    }
}

/// Where "go to declaration" on a token of `t` leads (to the definition, for `to_definition`):
/// a component's template for a tag name; the token itself for a static ID or class name; the
/// declaration of a scope name (a script module, a `wx:for` name, or the slot value, which for a
/// definition is looked up in the parent component); the name itself for a sub-template, module
/// or `wx:for` name; the last sub-template of that name for a template reference, or the
/// imported ones when the template has none; the file of an import or script `src`.
pub fn wxml_declaration<'a>(t: &'a Template, token: &WxmlTokenRef<'a>, to_definition: bool) -> (r: Option<WxmlDeclaration<'a>>)
    ensures
        r == spec_wxml_declaration(t, *token, to_definition),
{
    match token {
        WxmlTokenRef::TagName(n) => Some(WxmlDeclaration::ComponentTemplate { origin: n.location, tag_name: n }),
        WxmlTokenRef::StaticId(loc, _) => Some(WxmlDeclaration::Local { origin: *loc, target: *loc }),
        WxmlTokenRef::StaticClassName(loc, _, _) => Some(WxmlDeclaration::Local { origin: *loc, target: *loc }),
        WxmlTokenRef::ScopeRef(loc, kind) => Some(match kind {
            ScopeKind::Script(s) => {
                let target = match s {
                    Script::Inline { module_name, .. } => module_name.location,
                    Script::GlobalRef { module_name, .. } => module_name.location,
                };
                WxmlDeclaration::Local { origin: *loc, target }
            },
            ScopeKind::ForScope(target, _) => WxmlDeclaration::Local { origin: *loc, target: target.location },
            ScopeKind::SlotValue(attr, parent) => slot_value_target_exec(*loc, parent, &attr.name, attr.value.location, to_definition),
        }),
        WxmlTokenRef::TemplateName(n) => Some(WxmlDeclaration::Local { origin: n.location, target: n.location }),
        WxmlTokenRef::ScriptModule(n) => Some(WxmlDeclaration::Local { origin: n.location, target: n.location }),
        WxmlTokenRef::ForItem(n, _) => Some(WxmlDeclaration::Local { origin: n.location, target: n.location }),
        WxmlTokenRef::ForIndex(n, _) => Some(WxmlDeclaration::Local { origin: n.location, target: n.location }),
        WxmlTokenRef::SlotValueScope(name, key, parent) => Some(slot_value_target_exec(name.location, parent, key, name.location, to_definition)),
        WxmlTokenRef::SlotValueRef(key, _, parent) => Some(slot_value_target_exec(key.location, parent, key, key.location, to_definition)),
        WxmlTokenRef::SlotValueRefAndScope(key, _, parent) => Some(slot_value_target_exec(key.location, parent, key, key.location, to_definition)),
        WxmlTokenRef::TemplateRef(is, loc) => {
            let subs = &t.sub_templates;
            let mut n: usize = subs.len();
            while n > 0
                invariant
                    n <= subs@.len(),
                    subs@ == t.sub_templates@,
                    *token == WxmlTokenRef::TemplateRef(*is, *loc),
                    last_sub_template_named(subs@, is@, subs@.len() as int) == last_sub_template_named(subs@, is@, n as int),
                decreases n,
            {
                if crate::text::str_eq(subs[n - 1].name.name.as_str(), is.as_str()) {
                    return Some(WxmlDeclaration::Local { origin: *loc, target: subs[n - 1].name.location });
                }
                n = n - 1;
            }
            Some(WxmlDeclaration::ImportedTemplate { origin: *loc, name: is })
        },
        WxmlTokenRef::Src(src) => Some(WxmlDeclaration::File { origin: src.location, src, script: false }),
        WxmlTokenRef::ScriptSrc(src) => Some(WxmlDeclaration::File { origin: src.location, src, script: true }),
        _ => None,
    }
}


/// A use of a scope name: its range and the scope it refers to.
pub type ScopeUse<'a> = (Location, ScopeKind<'a>);

/// The scopes in force inside an element: its `wx:for` item and index, or the slot values it
/// declares.
pub open spec fn element_scopes<'a>(e: &'a Element, scopes: Seq<ScopeKind<'a>>) -> Seq<ScopeKind<'a>> {
    match &e.kind {
        ElementKind::For { item_name, index_name, .. } => scopes.push(ScopeKind::ForScope(&item_name.1, e)).push(
            ScopeKind::ForScope(&index_name.1, e),
        ),
        _ => match slot_value_refs_of(e) {
            Some(refs) => scopes + slot_scopes(refs, e),
            None => scopes,
        },
    }
}

/// The scope names used in an expression and its operands, in pre-order; a name whose index
/// lies past the scopes in force is left out.
pub open spec fn expr_scope_uses<'a>(e: &'a Expr, scopes: Seq<ScopeKind<'a>>) -> Seq<ScopeUse<'a>>
    decreases e, 1int,
{
    let own: Seq<ScopeUse<'a>> = match e {
        Expr::ScopeRef { location, index } => if *index < scopes.len() {
            seq![(*location, scopes[*index as int])]
        } else {
            Seq::empty()
        },
        _ => Seq::empty(),
    };
    own + subs_scope_uses(e, scopes)
}

pub open spec fn subs_scope_uses<'a>(e: &'a Expr, scopes: Seq<ScopeKind<'a>>) -> Seq<ScopeUse<'a>>
    decreases e, 0int,
{
    match e {
        Expr::ToStringWithoutUndefined { value, .. } => expr_scope_uses(&**value, scopes),
        Expr::LitObj { fields, .. } => obj_scope_uses(fields@, 0, scopes),
        Expr::LitArr { fields, .. } => arr_scope_uses(fields@, 0, scopes),
        Expr::StaticMember { obj, .. } => expr_scope_uses(&**obj, scopes),
        Expr::DynamicMember { obj, field_name, .. } => expr_scope_uses(&**obj, scopes) + expr_scope_uses(&**field_name, scopes),
        Expr::FuncCall { func, args, .. } => expr_scope_uses(&**func, scopes) + exprs_scope_uses(args@, 0, scopes),
        Expr::Unary { value, .. } => expr_scope_uses(&**value, scopes),
        Expr::Binary { left, right, .. } => expr_scope_uses(&**left, scopes) + expr_scope_uses(&**right, scopes),
        Expr::Cond { cond, true_br, false_br, .. } => expr_scope_uses(&**cond, scopes) + expr_scope_uses(&**true_br, scopes)
            + expr_scope_uses(&**false_br, scopes),
        _ => Seq::empty(),
    }
}

pub open spec fn exprs_scope_uses<'a>(es: Seq<Expr>, i: int, scopes: Seq<ScopeKind<'a>>) -> Seq<ScopeUse<'a>>
    decreases es, es.len() - i,
{
    if i < 0 || i >= es.len() {
        Seq::empty()
    } else {
        expr_scope_uses(&es[i], scopes) + exprs_scope_uses(es, i + 1, scopes)
    }
}

pub open spec fn obj_scope_uses<'a>(fs: Seq<ObjectField>, i: int, scopes: Seq<ScopeKind<'a>>) -> Seq<ScopeUse<'a>>
    decreases fs, fs.len() - i,
{
    if i < 0 || i >= fs.len() {
        Seq::empty()
    } else {
        (match &fs[i] {
            ObjectField::Named { value, .. } => expr_scope_uses(value, scopes),
            ObjectField::Spread { value, .. } => expr_scope_uses(value, scopes),
        }) + obj_scope_uses(fs, i + 1, scopes)
    }
}

/// The elements of an array literal up to its first hole.
pub open spec fn arr_scope_uses<'a>(fs: Seq<ArrayField>, i: int, scopes: Seq<ScopeKind<'a>>) -> Seq<ScopeUse<'a>>
    decreases fs, fs.len() - i,
{
    if i < 0 || i >= fs.len() {
        Seq::empty()
    } else {
        match &fs[i] {
            ArrayField::Normal { value } => expr_scope_uses(value, scopes) + arr_scope_uses(fs, i + 1, scopes),
            ArrayField::Spread { value, .. } => expr_scope_uses(value, scopes) + arr_scope_uses(fs, i + 1, scopes),
            ArrayField::EmptySlot => Seq::empty(),
        }
    }
}

pub open spec fn value_scope_uses<'a>(v: &'a Value, scopes: Seq<ScopeKind<'a>>) -> Seq<ScopeUse<'a>> {
    match v {
        Value::Static { .. } => Seq::empty(),
        Value::Dynamic { expression, .. } => expr_scope_uses(&**expression, scopes),
    }
}

pub open spec fn opt_value_scope_uses<'a>(v: &'a Option<Value>, scopes: Seq<ScopeKind<'a>>) -> Seq<ScopeUse<'a>> {
    match v {
        Some(x) => value_scope_uses(x, scopes),
        None => Seq::empty(),
    }
}

pub open spec fn attrs_scope_uses<'a>(s: Seq<Attribute>, i: int, scopes: Seq<ScopeKind<'a>>) -> Seq<ScopeUse<'a>>
    decreases s.len() - i,
{
    if i < 0 || i >= s.len() {
        Seq::empty()
    } else {
        opt_value_scope_uses(&s[i].value, scopes) + attrs_scope_uses(s, i + 1, scopes)
    }
}

pub open spec fn events_scope_uses<'a>(s: Seq<EventBinding>, i: int, scopes: Seq<ScopeKind<'a>>) -> Seq<ScopeUse<'a>>
    decreases s.len() - i,
{
    if i < 0 || i >= s.len() {
        Seq::empty()
    } else {
        opt_value_scope_uses(&s[i].value, scopes) + events_scope_uses(s, i + 1, scopes)
    }
}

pub open spec fn class_items_scope_uses<'a>(s: Seq<(Location, WxmlName, Option<Value>)>, i: int, scopes: Seq<ScopeKind<'a>>) -> Seq<ScopeUse<'a>>
    decreases s.len() - i,
{
    if i < 0 || i >= s.len() {
        Seq::empty()
    } else {
        opt_value_scope_uses(&s[i].2, scopes) + class_items_scope_uses(s, i + 1, scopes)
    }
}

pub open spec fn style_items_scope_uses<'a>(s: Seq<(Location, WxmlName, Value)>, i: int, scopes: Seq<ScopeKind<'a>>) -> Seq<ScopeUse<'a>>
    decreases s.len() - i,
{
    if i < 0 || i >= s.len() {
        Seq::empty()
    } else {
        value_scope_uses(&s[i].2, scopes) + style_items_scope_uses(s, i + 1, scopes)
    }
}

pub open spec fn branch_values_scope_uses<'a>(s: Seq<(Location, Value, Vec<Node>)>, i: int, scopes: Seq<ScopeKind<'a>>) -> Seq<ScopeUse<'a>>
    decreases s.len() - i,
{
    if i < 0 || i >= s.len() {
        Seq::empty()
    } else {
        value_scope_uses(&s[i].1, scopes) + branch_values_scope_uses(s, i + 1, scopes)
    }
}

pub open spec fn opt_keyword_value_scope_uses<'a>(x: &'a Option<(Location, Value)>, scopes: Seq<ScopeKind<'a>>) -> Seq<ScopeUse<'a>> {
    match x {
        Some(v) => value_scope_uses(&v.1, scopes),
        None => Seq::empty(),
    }
}

/// The values of the common attributes: the ID, the slot, the data and marks, the events.
pub open spec fn common_scope_uses<'a>(c: &'a CommonAttributes, scopes: Seq<ScopeKind<'a>>) -> Seq<ScopeUse<'a>> {
    opt_keyword_value_scope_uses(&c.id, scopes) + opt_keyword_value_scope_uses(&c.slot, scopes) + attrs_scope_uses(
        c.data@,
        0,
        scopes,
    ) + attrs_scope_uses(c.marks@, 0, scopes) + events_scope_uses(c.event_bindings@, 0, scopes)
}

/// The uses in the values an element holds itself (not those of its children).
pub open spec fn element_values_scope_uses<'a>(e: &'a Element, scopes: Seq<ScopeKind<'a>>) -> Seq<ScopeUse<'a>> {
    match &e.kind {
        ElementKind::Normal { attributes, class, style, change_attributes, common, .. } => attrs_scope_uses(attributes@, 0, scopes)
            + attrs_scope_uses(change_attributes@, 0, scopes) + match class {
            ClassAttribute::Absent => Seq::empty(),
            ClassAttribute::String(_, v) => value_scope_uses(v, scopes),
            ClassAttribute::Multiple(list) => class_items_scope_uses(list@, 0, scopes),
        } + match style {
            StyleAttribute::Absent => Seq::empty(),
            StyleAttribute::String(_, v) => value_scope_uses(v, scopes),
            StyleAttribute::Multiple(list) => style_items_scope_uses(list@, 0, scopes),
        } + common_scope_uses(common, scopes),
        ElementKind::Pure { slot, .. } => opt_keyword_value_scope_uses(slot, scopes),
        ElementKind::If { branches, .. } => branch_values_scope_uses(branches@, 0, scopes),
        ElementKind::For { list, .. } => value_scope_uses(&list.1, scopes),
        ElementKind::TemplateRef { target, data } => value_scope_uses(&target.1, scopes) + value_scope_uses(&data.1, scopes),
        ElementKind::Include { .. } => Seq::empty(),
        ElementKind::Slot { name, values, common } => value_scope_uses(&name.1, scopes) + attrs_scope_uses(values@, 0, scopes)
            + common_scope_uses(common, scopes),
    }
}

/// The uses in the nodes from the `i`-th on and their subtrees.
pub open spec fn nodes_scope_uses<'a>(ns: Seq<Node>, i: int, scopes: Seq<ScopeKind<'a>>) -> Seq<ScopeUse<'a>>
    decreases ns, ns.len() - i,
{
    if i < 0 || i >= ns.len() {
        Seq::empty()
    } else {
        node_scope_uses(&ns[i], scopes) + nodes_scope_uses(ns, i + 1, scopes)
    }
}

pub open spec fn node_scope_uses<'a>(n: &'a Node, scopes: Seq<ScopeKind<'a>>) -> Seq<ScopeUse<'a>>
    decreases n, 0int,
{
    match n {
        Node::Text(v) => value_scope_uses(v, scopes),
        Node::Element(e) => {
            let sc = element_scopes(e, scopes);
            element_values_scope_uses(e, sc) + children_scope_uses(e, sc)
        },
        _ => Seq::empty(),
    }
}

/// The uses in the children of an element: the nodes of every branch of a `wx:if`, then of its
/// `wx:else`.
pub open spec fn children_scope_uses<'a>(e: &'a Element, scopes: Seq<ScopeKind<'a>>) -> Seq<ScopeUse<'a>>
    decreases e, 0int,
{
    match &e.kind {
        ElementKind::Normal { children, .. } => nodes_scope_uses(children@, 0, scopes),
        ElementKind::Pure { children, .. } => nodes_scope_uses(children@, 0, scopes),
        ElementKind::For { children, .. } => nodes_scope_uses(children@, 0, scopes),
        ElementKind::If { branches, else_branch } => branch_nodes_scope_uses(branches@, 0, scopes) + match else_branch {
            Some(x) => nodes_scope_uses(x.1@, 0, scopes),
            None => Seq::empty(),
        },
        _ => Seq::empty(),
    }
}

pub open spec fn branch_nodes_scope_uses<'a>(bs: Seq<(Location, Value, Vec<Node>)>, i: int, scopes: Seq<ScopeKind<'a>>) -> Seq<ScopeUse<'a>>
    decreases bs, bs.len() - i,
{
    if i < 0 || i >= bs.len() {
        Seq::empty()
    } else {
        nodes_scope_uses(bs[i].2@, 0, scopes) + branch_nodes_scope_uses(bs, i + 1, scopes)
    }
}

pub open spec fn sub_templates_scope_uses<'a>(s: Seq<TemplateDefinition>, i: int, scopes: Seq<ScopeKind<'a>>) -> Seq<ScopeUse<'a>>
    decreases s.len() - i,
{
    if i < 0 || i >= s.len() {
        Seq::empty()
    } else {
        nodes_scope_uses(s[i].content@, 0, scopes) + sub_templates_scope_uses(s, i + 1, scopes)
    }
}

/// Every use of a scope name in a template: in its sub-templates, then in its content, the
/// script modules being in scope everywhere.
pub open spec fn template_scope_uses<'a>(t: &'a Template) -> Seq<ScopeUse<'a>> {
    sub_templates_scope_uses(t.sub_templates@, 0, script_scopes(t.scripts@)) + nodes_scope_uses(
        t.content@,
        0,
        script_scopes(t.scripts@),
    )
}

/// The `j`-th child node of an element: among the children of an ordinary element, a `block` or
/// a `wx:for`; of a `wx:if`, in its `k`-th branch, or in its `wx:else` when `k` is the number of
/// branches.
pub open spec fn child_node<'a>(e: &'a Element, k: int, j: int) -> Option<&'a Node> {
    match &e.kind {
        ElementKind::Normal { children, .. } => if 0 <= j < children@.len() { Some(&children@[j]) } else { None },
        ElementKind::Pure { children, .. } => if 0 <= j < children@.len() { Some(&children@[j]) } else { None },
        ElementKind::For { children, .. } => if 0 <= j < children@.len() { Some(&children@[j]) } else { None },
        ElementKind::If { branches, else_branch } => if 0 <= k < branches@.len() && 0 <= j < branches@[k].2@.len() {
            Some(&branches@[k].2@[j])
        } else if k == branches@.len() && else_branch is Some && 0 <= j < (else_branch->0).1@.len() {
            Some(&(else_branch->0).1@[j])
        } else {
            None
        },
        _ => None,
    }
}

proof fn lemma_contains_concat_uses<'a>(a: Seq<ScopeUse<'a>>, b: Seq<ScopeUse<'a>>, x: ScopeUse<'a>)
    ensures
        (a.contains(x) || b.contains(x)) ==> (a + b).contains(x),
{
    if a.contains(x) {
        let k = choose|k: int| 0 <= k < a.len() && a[k] == x;
        assert((a + b)[k] == x);
    } else if b.contains(x) {
        let k = choose|k: int| 0 <= k < b.len() && b[k] == x;
        assert((a + b)[a.len() + k] == x);
    }
}

proof fn lemma_nodes_uses_has<'a>(ns: Seq<Node>, i: int, j: int, scopes: Seq<ScopeKind<'a>>, u: ScopeUse<'a>)
    requires
        0 <= i <= j < ns.len(),
        node_scope_uses(&ns[j], scopes).contains(u),
    ensures
        nodes_scope_uses(ns, i, scopes).contains(u),
    decreases j - i,
{
    if i < j {
        lemma_nodes_uses_has(ns, i + 1, j, scopes, u);
    }
    lemma_contains_concat_uses(node_scope_uses(&ns[i], scopes), nodes_scope_uses(ns, i + 1, scopes), u);
}

proof fn lemma_branch_uses_has<'a>(bs: Seq<(Location, Value, Vec<Node>)>, i: int, k: int, scopes: Seq<ScopeKind<'a>>, u: ScopeUse<'a>)
    requires
        0 <= i <= k < bs.len(),
        nodes_scope_uses(bs[k].2@, 0, scopes).contains(u),
    ensures
        branch_nodes_scope_uses(bs, i, scopes).contains(u),
    decreases k - i,
{
    if i < k {
        lemma_branch_uses_has(bs, i + 1, k, scopes, u);
    }
    lemma_contains_concat_uses(nodes_scope_uses(bs[i].2@, 0, scopes), branch_nodes_scope_uses(bs, i + 1, scopes), u);
}

/// The uses of a scope name are collected at every depth: those in each child node of an
/// element (of any kind: an ordinary element, a `block`, a `wx:for`, a branch of a `wx:if` or
/// its `wx:else`), with the scopes the element brings into force, are among the element's uses;
/// and those of each node at the top of the content, with the script modules in scope, are
/// among the template's.
pub proof fn lemma_nested_uses_collected<'a>(t: &'a Template, n: &'a Node, scopes: Seq<ScopeKind<'a>>, k: int, j: int, u: ScopeUse<'a>)
    ensures
        n is Element ==> (child_node(&n->Element_0, k, j) matches Some(c) ==> (
            node_scope_uses(c, element_scopes(&n->Element_0, scopes)).contains(u)
            ==> node_scope_uses(n, scopes).contains(u))),
        0 <= j < t.content@.len() && node_scope_uses(&t.content@[j], script_scopes(t.scripts@)).contains(u)
            ==> template_scope_uses(t).contains(u),
{
    match n {
        Node::Element(e) => {
            let sc = element_scopes(e, scopes);
            match child_node(e, k, j) {
                Some(c) => if node_scope_uses(c, sc).contains(u) {
                    match &e.kind {
                        ElementKind::Normal { children, .. } => lemma_nodes_uses_has(children@, 0, j, sc, u),
                        ElementKind::Pure { children, .. } => lemma_nodes_uses_has(children@, 0, j, sc, u),
                        ElementKind::For { children, .. } => lemma_nodes_uses_has(children@, 0, j, sc, u),
                        ElementKind::If { branches, else_branch } => {
                            let tail = match else_branch {
                                Some(x) => nodes_scope_uses(x.1@, 0, sc),
                                None => Seq::empty(),
                            };
                            if 0 <= k < branches@.len() {
                                lemma_nodes_uses_has(branches@[k].2@, 0, j, sc, u);
                                lemma_branch_uses_has(branches@, 0, k, sc, u);
                            } else {
                                lemma_nodes_uses_has((else_branch->0).1@, 0, j, sc, u);
                            }
                            lemma_contains_concat_uses(branch_nodes_scope_uses(branches@, 0, sc), tail, u);
                        },
                        _ => {},
                    }
                    lemma_contains_concat_uses(element_values_scope_uses(e, sc), children_scope_uses(e, sc), u);
                },
                None => {},
            }
        },
        _ => {},
    }
    let ss = script_scopes(t.scripts@);
    if 0 <= j < t.content@.len() && node_scope_uses(&t.content@[j], ss).contains(u) {
        lemma_nodes_uses_has(t.content@, 0, j, ss, u);
        lemma_contains_concat_uses(sub_templates_scope_uses(t.sub_templates@, 0, ss), nodes_scope_uses(t.content@, 0, ss), u);
    }
}


fn push_expr_scope_uses<'a>(e: &'a Expr, scopes: &Vec<ScopeKind<'a>>, out: &mut Vec<ScopeUse<'a>>)
    ensures
        final(out)@ == old(out)@ + expr_scope_uses(e, scopes@),
    decreases e, 1int,
{
    let ghost o = out@;
    match e {
        Expr::ScopeRef { location, index } => if *index < scopes.len() {
            out.push((*location, scopes[*index]));
        },
        _ => {},
    }
    let ghost mid = out@;
    push_subs_scope_uses(e, scopes, out);
    proof {
        assert(mid =~= o + match e {
            Expr::ScopeRef { location, index } => if *index < scopes@.len() {
                seq![(*location, scopes@[*index as int])]
            } else {
                Seq::<ScopeUse<'a>>::empty()
            },
            _ => Seq::<ScopeUse<'a>>::empty(),
        });
        assert(out@ =~= o + expr_scope_uses(e, scopes@));
    }
}

fn push_subs_scope_uses<'a>(e: &'a Expr, scopes: &Vec<ScopeKind<'a>>, out: &mut Vec<ScopeUse<'a>>)
    ensures
        final(out)@ == old(out)@ + subs_scope_uses(e, scopes@),
    decreases e, 0int,
{
    let ghost o = out@;
    match e {
        Expr::ToStringWithoutUndefined { value, .. } => push_expr_scope_uses(&**value, scopes, out),
        Expr::LitObj { fields, .. } => {
            let mut i: usize = 0;
            while i < fields.len()
                invariant
                    i <= fields@.len(),
                    *e == (Expr::LitObj { fields: *fields, brace_location: e->LitObj_brace_location }),
                    o + subs_scope_uses(e, scopes@) == out@ + obj_scope_uses(fields@, i as int, scopes@),
                decreases fields@.len() - i,
            {
                match &fields[i] {
                    ObjectField::Named { value, .. } => push_expr_scope_uses(value, scopes, out),
                    ObjectField::Spread { value, .. } => push_expr_scope_uses(value, scopes, out),
                }
                i = i + 1;
            }
        },
        Expr::LitArr { fields, .. } => {
            let mut i: usize = 0;
            while i < fields.len()
                invariant
                    i <= fields@.len(),
                    *e == (Expr::LitArr { fields: *fields, bracket_location: e->LitArr_bracket_location }),
                    o == old(out)@,
                    o + subs_scope_uses(e, scopes@) == out@ + arr_scope_uses(fields@, i as int, scopes@),
                decreases fields@.len() - i,
            {
                match &fields[i] {
                    ArrayField::Normal { value } => push_expr_scope_uses(value, scopes, out),
                    ArrayField::Spread { value, .. } => push_expr_scope_uses(value, scopes, out),
                    ArrayField::EmptySlot => {
                        proof {
                            assert(out@ =~= o + subs_scope_uses(e, scopes@));
                        }
                        return;
                    },
                }
                i = i + 1;
            }
        },
        Expr::StaticMember { obj, .. } => push_expr_scope_uses(&**obj, scopes, out),
        Expr::DynamicMember { obj, field_name, .. } => {
            push_expr_scope_uses(&**obj, scopes, out);
            push_expr_scope_uses(&**field_name, scopes, out);
        },
        Expr::FuncCall { func, args, .. } => {
            push_expr_scope_uses(&**func, scopes, out);
            let mut i: usize = 0;
            while i < args.len()
                invariant
                    i <= args@.len(),
                    *e == (Expr::FuncCall { func: *func, args: *args, paren_location: e->FuncCall_paren_location }),
                    o + subs_scope_uses(e, scopes@) == out@ + exprs_scope_uses(args@, i as int, scopes@),
                decreases args@.len() - i,
            {
                push_expr_scope_uses(&args[i], scopes, out);
                i = i + 1;
            }
        },
        Expr::Unary { value, .. } => push_expr_scope_uses(&**value, scopes, out),
        Expr::Binary { left, right, .. } => {
            push_expr_scope_uses(&**left, scopes, out);
            push_expr_scope_uses(&**right, scopes, out);
        },
        Expr::Cond { cond, true_br, false_br, .. } => {
            push_expr_scope_uses(&**cond, scopes, out);
            push_expr_scope_uses(&**true_br, scopes, out);
            push_expr_scope_uses(&**false_br, scopes, out);
        },
        _ => {},
    }
    proof {
        assert(out@ =~= o + subs_scope_uses(e, scopes@));
    }
}

fn push_value_scope_uses<'a>(v: &'a Value, scopes: &Vec<ScopeKind<'a>>, out: &mut Vec<ScopeUse<'a>>)
    ensures
        final(out)@ == old(out)@ + value_scope_uses(v, scopes@),
{
    match v {
        Value::Static { .. } => {
            proof {
                assert(out@ =~= old(out)@ + value_scope_uses(v, scopes@));
            }
        },
        Value::Dynamic { expression, .. } => push_expr_scope_uses(&**expression, scopes, out),
    }
}

fn push_opt_value_scope_uses<'a>(v: &'a Option<Value>, scopes: &Vec<ScopeKind<'a>>, out: &mut Vec<ScopeUse<'a>>)
    ensures
        final(out)@ == old(out)@ + opt_value_scope_uses(v, scopes@),
{
    match v {
        Some(x) => push_value_scope_uses(x, scopes, out),
        None => {
            proof {
                assert(out@ =~= old(out)@ + opt_value_scope_uses(v, scopes@));
            }
        },
    }
}

fn push_attrs_scope_uses<'a>(s: &'a Vec<Attribute>, scopes: &Vec<ScopeKind<'a>>, out: &mut Vec<ScopeUse<'a>>)
    ensures
        final(out)@ == old(out)@ + attrs_scope_uses(s@, 0, scopes@),
{
    let ghost o = out@;
    let mut i: usize = 0;
    while i < s.len()
        invariant
            i <= s@.len(),
            o + attrs_scope_uses(s@, 0, scopes@) == out@ + attrs_scope_uses(s@, i as int, scopes@),
        decreases s@.len() - i,
    {
        push_opt_value_scope_uses(&s[i].value, scopes, out);
        i = i + 1;
    }
    proof {
        assert(out@ =~= o + attrs_scope_uses(s@, 0, scopes@));
    }
}

fn push_events_scope_uses<'a>(s: &'a Vec<EventBinding>, scopes: &Vec<ScopeKind<'a>>, out: &mut Vec<ScopeUse<'a>>)
    ensures
        final(out)@ == old(out)@ + events_scope_uses(s@, 0, scopes@),
{
    let ghost o = out@;
    let mut i: usize = 0;
    while i < s.len()
        invariant
            i <= s@.len(),
            o + events_scope_uses(s@, 0, scopes@) == out@ + events_scope_uses(s@, i as int, scopes@),
        decreases s@.len() - i,
    {
        push_opt_value_scope_uses(&s[i].value, scopes, out);
        i = i + 1;
    }
    proof {
        assert(out@ =~= o + events_scope_uses(s@, 0, scopes@));
    }
}

fn push_opt_keyword_value_scope_uses<'a>(x: &'a Option<(Location, Value)>, scopes: &Vec<ScopeKind<'a>>, out: &mut Vec<ScopeUse<'a>>)
    ensures
        final(out)@ == old(out)@ + opt_keyword_value_scope_uses(x, scopes@),
{
    match x {
        Some(v) => push_value_scope_uses(&v.1, scopes, out),
        None => {
            proof {
                assert(out@ =~= old(out)@ + opt_keyword_value_scope_uses(x, scopes@));
            }
        },
    }
}

fn push_common_scope_uses<'a>(c: &'a CommonAttributes, scopes: &Vec<ScopeKind<'a>>, out: &mut Vec<ScopeUse<'a>>)
    ensures
        final(out)@ == old(out)@ + common_scope_uses(c, scopes@),
{
    let ghost o = out@;
    push_opt_keyword_value_scope_uses(&c.id, scopes, out);
    push_opt_keyword_value_scope_uses(&c.slot, scopes, out);
    push_attrs_scope_uses(&c.data, scopes, out);
    push_attrs_scope_uses(&c.marks, scopes, out);
    push_events_scope_uses(&c.event_bindings, scopes, out);
    proof {
        assert(out@ =~= o + common_scope_uses(c, scopes@));
    }
}

fn push_element_values_scope_uses<'a>(e: &'a Element, scopes: &Vec<ScopeKind<'a>>, out: &mut Vec<ScopeUse<'a>>)
    ensures
        final(out)@ == old(out)@ + element_values_scope_uses(e, scopes@),
{
    let ghost o = out@;
    match &e.kind {
        ElementKind::Normal { attributes, class, style, change_attributes, common, .. } => {
            push_attrs_scope_uses(attributes, scopes, out);
            push_attrs_scope_uses(change_attributes, scopes, out);
            let ghost m1 = out@;
            match class {
                ClassAttribute::Absent => {},
                ClassAttribute::String(_, v) => push_value_scope_uses(v, scopes, out),
                ClassAttribute::Multiple(list) => {
                    let mut i: usize = 0;
                    while i < list.len()
                        invariant
                            i <= list@.len(),
                            m1 + class_items_scope_uses(list@, 0, scopes@) == out@ + class_items_scope_uses(list@, i as int, scopes@),
                        decreases list@.len() - i,
                    {
                        push_opt_value_scope_uses(&list[i].2, scopes, out);
                        i = i + 1;
                    }
                },
            }
            let ghost m2 = out@;
            match style {
                StyleAttribute::Absent => {},
                StyleAttribute::String(_, v) => push_value_scope_uses(v, scopes, out),
                StyleAttribute::Multiple(list) => {
                    let mut i: usize = 0;
                    while i < list.len()
                        invariant
                            i <= list@.len(),
                            m2 + style_items_scope_uses(list@, 0, scopes@) == out@ + style_items_scope_uses(list@, i as int, scopes@),
                        decreases list@.len() - i,
                    {
                        push_value_scope_uses(&list[i].2, scopes, out);
                        i = i + 1;
                    }
                },
            }
            push_common_scope_uses(common, scopes, out);
        },
        ElementKind::Pure { slot, .. } => push_opt_keyword_value_scope_uses(slot, scopes, out),
        ElementKind::If { branches, .. } => {
            let mut i: usize = 0;
            while i < branches.len()
                invariant
                    i <= branches@.len(),
                    o + branch_values_scope_uses(branches@, 0, scopes@) == out@ + branch_values_scope_uses(branches@, i as int, scopes@),
                decreases branches@.len() - i,
            {
                push_value_scope_uses(&branches[i].1, scopes, out);
                i = i + 1;
            }
        },
        ElementKind::For { list, .. } => push_value_scope_uses(&list.1, scopes, out),
        ElementKind::TemplateRef { target, data } => {
            push_value_scope_uses(&target.1, scopes, out);
            push_value_scope_uses(&data.1, scopes, out);
        },
        ElementKind::Include { .. } => {},
        ElementKind::Slot { name, values, common } => {
            push_value_scope_uses(&name.1, scopes, out);
            push_attrs_scope_uses(values, scopes, out);
            push_common_scope_uses(common, scopes, out);
        },
    }
    proof {
        assert(out@ =~= o + element_values_scope_uses(e, scopes@));
    }
}

/// Adds the scopes in force inside an element.
fn push_element_scopes<'a>(e: &'a Element, scopes: &mut Vec<ScopeKind<'a>>)
    ensures
        final(scopes)@ == element_scopes(e, old(scopes)@),
{
    match &e.kind {
        ElementKind::For { item_name, index_name, .. } => {
            scopes.push(ScopeKind::ForScope(&item_name.1, e));
            scopes.push(ScopeKind::ForScope(&index_name.1, e));
            return;
        },
        _ => {},
    }
    let refs: &'a Vec<StaticAttribute> = match &e.kind {
        ElementKind::Normal { common, .. } => &common.slot_value_refs,
        ElementKind::Slot { common, .. } => &common.slot_value_refs,
        ElementKind::Pure { slot_value_refs, .. } => slot_value_refs,
        _ => {
            return;
        },
    };
    assert(slot_value_refs_of(e) == Some(refs@));
    let ghost s0 = scopes@;
    let mut k: usize = 0;
    while k < refs.len()
        invariant
            k <= refs@.len(),
            scopes@ == s0 + Seq::new(k as nat, |j: int| ScopeKind::SlotValue(&refs@[j], e)),
        decreases refs@.len() - k,
    {
        scopes.push(ScopeKind::SlotValue(&refs[k], e));
        proof {
            assert(scopes@ =~= s0 + Seq::new((k + 1) as nat, |j: int| ScopeKind::SlotValue(&refs@[j], e)));
        }
        k = k + 1;
    }
    proof {
        assert(scopes@ =~= s0 + slot_scopes(refs@, e));
    }
}

fn push_nodes_scope_uses<'a>(ns: &'a Vec<Node>, scopes: &mut Vec<ScopeKind<'a>>, out: &mut Vec<ScopeUse<'a>>)
    ensures
        final(out)@ == old(out)@ + nodes_scope_uses(ns@, 0, old(scopes)@),
        final(scopes)@ == old(scopes)@,
    decreases ns@, 1int,
{
    let ghost o = out@;
    let mut i: usize = 0;
    while i < ns.len()
        invariant
            i <= ns@.len(),
            scopes@ == old(scopes)@,
            o + nodes_scope_uses(ns@, 0, scopes@) == out@ + nodes_scope_uses(ns@, i as int, scopes@),
        decreases ns@.len() - i,
    {
        push_node_scope_uses(&ns[i], scopes, out);
        i = i + 1;
    }
    proof {
        assert(out@ =~= o + nodes_scope_uses(ns@, 0, old(scopes)@));
    }
}

fn push_node_scope_uses<'a>(n: &'a Node, scopes: &mut Vec<ScopeKind<'a>>, out: &mut Vec<ScopeUse<'a>>)
    ensures
        final(out)@ == old(out)@ + node_scope_uses(n, old(scopes)@),
        final(scopes)@ == old(scopes)@,
    decreases n, 0int,
{
    match n {
        Node::Text(v) => push_value_scope_uses(v, scopes, out),
        Node::Element(e) => {
            let ghost o = out@;
            let len = scopes.len();
            push_element_scopes(e, scopes);
            let ghost sc = scopes@;
            push_element_values_scope_uses(e, scopes, out);
            push_children_scope_uses(e, scopes, out);
            proof {
                assert(len <= sc.len());
                assert(sc.subrange(0, len as int) =~= old(scopes)@);
            }
            scopes.truncate(len);
            proof {
                assert(out@ =~= o + node_scope_uses(n, old(scopes)@));
            }
        },
        _ => {
            proof {
                assert(out@ =~= old(out)@ + node_scope_uses(n, old(scopes)@));
            }
        },
    }
}

fn push_children_scope_uses<'a>(e: &'a Element, scopes: &mut Vec<ScopeKind<'a>>, out: &mut Vec<ScopeUse<'a>>)
    ensures
        final(out)@ == old(out)@ + children_scope_uses(e, old(scopes)@),
        final(scopes)@ == old(scopes)@,
    decreases e, 0int,
{
    let ghost o = out@;
    match &e.kind {
        ElementKind::Normal { children, .. } => push_nodes_scope_uses(children, scopes, out),
        ElementKind::Pure { children, .. } => push_nodes_scope_uses(children, scopes, out),
        ElementKind::For { children, .. } => push_nodes_scope_uses(children, scopes, out),
        ElementKind::If { branches, else_branch } => {
            push_branch_nodes_scope_uses(branches, scopes, out);
            match else_branch {
                Some(x) => push_nodes_scope_uses(&x.1, scopes, out),
                None => {},
            }
        },
        _ => {},
    }
    proof {
        assert(out@ =~= o + children_scope_uses(e, old(scopes)@));
    }
}

fn push_branch_nodes_scope_uses<'a>(bs: &'a Vec<(Location, Value, Vec<Node>)>, scopes: &mut Vec<ScopeKind<'a>>, out: &mut Vec<ScopeUse<'a>>)
    ensures
        final(out)@ == old(out)@ + branch_nodes_scope_uses(bs@, 0, old(scopes)@),
        final(scopes)@ == old(scopes)@,
    decreases bs@, 0int,
{
    let ghost o = out@;
    let mut i: usize = 0;
    while i < bs.len()
        invariant
            i <= bs@.len(),
            scopes@ == old(scopes)@,
            o + branch_nodes_scope_uses(bs@, 0, scopes@) == out@ + branch_nodes_scope_uses(bs@, i as int, scopes@),
        decreases bs@.len() - i,
    {
        proof {
            assert(decreases_to!(bs@ => bs@[i as int]));
        }
        push_nodes_scope_uses(&bs[i].2, scopes, out);
        i = i + 1;
    }
    proof {
        assert(out@ =~= o + branch_nodes_scope_uses(bs@, 0, old(scopes)@));
    }
}

/// Every use of a scope name in a template, with the scope it refers to: in its sub-templates,
/// then in its content, in document order.
pub fn collect_scope_uses<'a>(t: &'a Template) -> (r: Vec<ScopeUse<'a>>)
    ensures
        r@ == template_scope_uses(t),
{
    let mut scopes = script_scopes_exec(&t.scripts);
    let mut out: Vec<ScopeUse<'a>> = Vec::new();
    let subs = &t.sub_templates;
    let mut i: usize = 0;
    while i < subs.len()
        invariant
            i <= subs@.len(),
            subs@ == t.sub_templates@,
            scopes@ == script_scopes(t.scripts@),
            sub_templates_scope_uses(subs@, 0, scopes@) == out@ + sub_templates_scope_uses(subs@, i as int, scopes@),
        decreases subs@.len() - i,
    {
        push_nodes_scope_uses(&subs[i].content, &mut scopes, &mut out);
        i = i + 1;
    }
    push_nodes_scope_uses(&t.content, &mut scopes, &mut out);
    proof {
        assert(out@ =~= template_scope_uses(t));
    }
    out
}


pub open spec fn tag_start(e: &Element) -> Position {
    e.tag_location.start.0.start
}

/// Whether two scopes are the same declaration: the same script (by where its tag starts), or
/// the same name at the same range declared by the same element (by where its tag starts).
pub open spec fn same_scope(a: ScopeKind, b: ScopeKind) -> bool {
    match (a, b) {
        (ScopeKind::Script(x), ScopeKind::Script(y)) => script_tag_location(*x).start.0.start == script_tag_location(*y).start.0.start,
        (ScopeKind::ForScope(x, xe), ScopeKind::ForScope(y, ye)) => x.location == y.location && x.name@ == y.name@
            && tag_start(xe) == tag_start(ye),
        (ScopeKind::SlotValue(x, xe), ScopeKind::SlotValue(y, ye)) => x.name.location == y.name.location && x.name.name@
            == y.name.name@ && tag_start(xe) == tag_start(ye),
        _ => false,
    }
}

/// Whether a use of a scope name refers to what the token names: the script module of that
/// name, the `wx:for` item or index of that element, or the same scope as a scope name (other
/// than a slot value, whose uses lie in other templates).
pub open spec fn refers_to_token(token: WxmlTokenRef, u: ScopeKind) -> bool {
    match token {
        WxmlTokenRef::ScriptModule(name) => match u {
            ScopeKind::Script(x) => module_name_of(*x).name@ == name.name@,
            _ => false,
        },
        WxmlTokenRef::ForItem(name, elem) => match u {
            ScopeKind::ForScope(x, te) => x.name@ == name.name@ && tag_start(te) == tag_start(elem),
            _ => false,
        },
        WxmlTokenRef::ForIndex(name, elem) => match u {
            ScopeKind::ForScope(x, te) => x.name@ == name.name@ && tag_start(te) == tag_start(elem),
            _ => false,
        },
        WxmlTokenRef::ScopeRef(_, kind) => !(kind is SlotValue) && same_scope(kind, u),
        _ => false,
    }
}

/// The ranges of the uses from the `i`-th on that refer to what the token names, in order.
pub open spec fn local_references<'a>(uses: Seq<ScopeUse<'a>>, token: WxmlTokenRef<'a>, i: int) -> Seq<Location>
    decreases uses.len() - i,
{
    if i < 0 || i >= uses.len() {
        Seq::empty()
    } else if refers_to_token(token, uses[i].1) {
        seq![uses[i].0] + local_references(uses, token, i + 1)
    } else {
        local_references(uses, token, i + 1)
    }
}

fn pos_eq(a: Position, b: Position) -> (r: bool)
    ensures
        r == (a == b),
{
    a.line == b.line && a.utf16_col == b.utf16_col
}

fn loc_eq(a: Location, b: Location) -> (r: bool)
    ensures
        r == (a == b),
{
    pos_eq(a.start, b.start) && pos_eq(a.end, b.end)
}

fn script_start(s: &Script) -> (r: Position)
    ensures
        r == script_tag_location(*s).start.0.start,
{
    match s {
        Script::Inline { tag_location, .. } => tag_location.start.0.start,
        Script::GlobalRef { tag_location, .. } => tag_location.start.0.start,
    }
}

fn refers_to_token_exec(token: &WxmlTokenRef, u: &ScopeKind) -> (r: bool)
    ensures
        r == refers_to_token(*token, *u),
{
    match token {
        WxmlTokenRef::ScriptModule(name) => match u {
            ScopeKind::Script(x) => {
                let m = match x {
                    Script::Inline { module_name, .. } => module_name,
                    Script::GlobalRef { module_name, .. } => module_name,
                };
                crate::text::str_eq(m.name.as_str(), name.name.as_str())
            },
            _ => false,
        },
        WxmlTokenRef::ForItem(name, elem) => match u {
            ScopeKind::ForScope(x, te) => crate::text::str_eq(x.name.as_str(), name.name.as_str())
                && pos_eq(te.tag_location.start.0.start, elem.tag_location.start.0.start),
            _ => false,
        },
        WxmlTokenRef::ForIndex(name, elem) => match u {
            ScopeKind::ForScope(x, te) => crate::text::str_eq(x.name.as_str(), name.name.as_str())
                && pos_eq(te.tag_location.start.0.start, elem.tag_location.start.0.start),
            _ => false,
        },
        WxmlTokenRef::ScopeRef(_, kind) => match (kind, u) {
            (ScopeKind::Script(x), ScopeKind::Script(y)) => pos_eq(script_start(x), script_start(y)),
            (ScopeKind::ForScope(x, xe), ScopeKind::ForScope(y, ye)) => loc_eq(x.location, y.location)
                && crate::text::str_eq(x.name.as_str(), y.name.as_str())
                && pos_eq(xe.tag_location.start.0.start, ye.tag_location.start.0.start),
            _ => false,
        },
        _ => false,
    }
}

/// The uses, in the template itself, of what a token names: of a script module, of a `wx:for`
/// item or index name, or of the scope that a scope name refers to (not a slot value's).
pub fn wxml_local_references<'a>(t: &'a Template, token: &WxmlTokenRef<'a>) -> (r: Vec<Location>)
    ensures
        r@ == local_references(template_scope_uses(t), *token, 0),
{
    let uses = collect_scope_uses(t);
    let mut out: Vec<Location> = Vec::new();
    let mut i: usize = 0;
    while i < uses.len()
        invariant
            i <= uses@.len(),
            uses@ == template_scope_uses(t),
            local_references(uses@, *token, 0) == out@ + local_references(uses@, *token, i as int),
        decreases uses@.len() - i,
    {
        if refers_to_token_exec(token, &uses[i].1) {
            proof {
                assert(out@.push(uses@[i as int].0) + local_references(uses@, *token, i + 1) =~= out@ + (seq![uses@[i as int].0]
                    + local_references(uses@, *token, i + 1)));
            }
            out.push(uses[i].0);
        }
        i = i + 1;
    }
    proof {
        assert(out@ =~= local_references(uses@, *token, 0));
    }
    out
}

} // verus!
