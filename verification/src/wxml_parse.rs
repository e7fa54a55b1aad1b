//! Parsing of templates: the template compiler's parser, and the conversion of its tree into
//! the library's template model.
//!
//! The compiler's tree types are declared here as opaque types. The functions that take them
//! apart are trusted conversions: each moves the fields that the model keeps into the model's
//! types, one for one, and nothing else. The compiler's floating-point literals are kept as
//! number literals with their range only.

use vstd::prelude::*;
use std::ops::Range;
use glass_easel_template_compiler::parse::expr::{ArrayFieldKind, Expression, ObjectFieldKind};
use glass_easel_template_compiler::parse::tag as gt;
use glass_easel_template_compiler::parse::Position as CPos;
use glass_easel_template_compiler::parse::ParseError as TParseError;
use glass_easel_template_compiler::parse::tag::{
    Attribute as TAttribute, ClassAttribute as TClassAttribute, CommonElementAttributes as TCommonElementAttributes,
    Element as TElement, EventBinding as TEventBinding, Ident as TIdent, Node as TNode,
    NormalAttribute as TNormalAttribute, Script as TScript, StaticAttribute as TStaticAttribute, StrName as TStrName,
    StyleAttribute as TStyleAttribute, TagLocation as TTagLocation, Template as TTemplate, Value as TValue,
};
use crate::position::{Location, Position};
use crate::wxml as m;

verus! {

#[verifier::external_type_specification]
#[verifier::external_body]
pub struct ExCPos(CPos);

#[verifier::external_type_specification]
#[verifier::external_body]
pub struct ExExpression(Expression);

#[verifier::external_type_specification]
#[verifier::external_body]
pub struct ExObjectFieldKind(ObjectFieldKind);

#[verifier::external_type_specification]
#[verifier::external_body]
pub struct ExArrayFieldKind(ArrayFieldKind);

#[verifier::external_type_specification]
#[verifier::external_body]
pub struct ExIdent(TIdent);

#[verifier::external_type_specification]
#[verifier::external_body]
pub struct ExStrName(TStrName);

#[verifier::external_type_specification]
#[verifier::external_body]
pub struct ExTagLocation(TTagLocation);

#[verifier::external_type_specification]
#[verifier::external_body]
pub struct ExValue(TValue);

#[verifier::external_type_specification]
#[verifier::external_body]
pub struct ExAttribute(TAttribute);

#[verifier::external_type_specification]
#[verifier::external_body]
pub struct ExNormalAttribute(TNormalAttribute);

#[verifier::external_type_specification]
#[verifier::external_body]
pub struct ExStaticAttribute(TStaticAttribute);

#[verifier::external_type_specification]
#[verifier::external_body]
pub struct ExEventBinding(TEventBinding);

#[verifier::external_type_specification]
#[verifier::external_body]
pub struct ExCommonElementAttributes(TCommonElementAttributes);

#[verifier::external_type_specification]
#[verifier::external_body]
pub struct ExClassAttribute(TClassAttribute);

#[verifier::external_type_specification]
#[verifier::external_body]
pub struct ExStyleAttribute(TStyleAttribute);

#[verifier::external_type_specification]
#[verifier::external_body]
pub struct ExNode(TNode);

#[verifier::external_type_specification]
#[verifier::external_body]
pub struct ExElement(TElement);

#[verifier::external_type_specification]
#[verifier::external_body]
pub struct ExScript(TScript);

#[verifier::external_type_specification]
#[verifier::external_body]
pub struct ExTemplate(TTemplate);

#[verifier::external_type_specification]
#[verifier::external_body]
pub struct ExParseError(TParseError);

/// A problem found while parsing a template: its range, its message, its code and how serious
/// it is (1 for a note up to 4 for a fatal error).
#[derive(Debug)]
pub struct TemplateDiagnostic {
    pub location: Location,
    pub message: String,
    pub code: u32,
    pub level: u8,
}

/// The template model that the template compiler's parser makes of `source`, read as the file
/// at `path`, and the problems it reports.
pub uninterp spec fn parsed_template(path: Seq<char>, source: Seq<char>) -> (m::Template, Vec<TemplateDiagnostic>);

/// `glass_easel_template_compiler::parse::parse`: parses a template source, and converts the
/// tree and the warnings it gathered. The result is named: it depends on the path and the
/// source alone, and the template keeps the path that it was given.
#[verifier::external_body]
pub fn parse_template(path: &str, source: &str) -> (r: (m::Template, Vec<TemplateDiagnostic>))
    ensures
        r == parsed_template(path@, source@),
        r.0.path@ == path@,
{
    let (t, mut state) = glass_easel_template_compiler::parse::parse(path, source);
    let diagnostics = state.take_warnings().iter().map(diagnostic).collect();
    (template(&t), diagnostics)
}

/// Converts a warning of the parser.
#[verifier::external_body]
fn diagnostic(w: &TParseError) -> TemplateDiagnostic {
    let level = match w.level() {
        glass_easel_template_compiler::parse::ParseErrorLevel::Note => 1,
        glass_easel_template_compiler::parse::ParseErrorLevel::Warn => 2,
        glass_easel_template_compiler::parse::ParseErrorLevel::Error => 3,
        glass_easel_template_compiler::parse::ParseErrorLevel::Fatal => 4,
    };
    TemplateDiagnostic { location: loc(&w.location), message: w.kind.to_string(), code: w.code(), level }
}

/// Converts a whole template: its content and its globals.
#[verifier::external_body]
fn template(t: &TTemplate) -> m::Template {
    let g = &t.globals;
    m::Template {
        path: t.path.clone(),
        content: nodes(&t.content),
        imports: g.imports.iter().map(|i| src_element(&i.tag_location, &i.src_location, &i.src)).collect(),
        includes: g.includes.iter().map(|i| src_element(&i.tag_location, &i.src_location, &i.src)).collect(),
        sub_templates: g.sub_templates.iter().map(|s| m::TemplateDefinition {
            tag_location: tag_location(&s.tag_location),
            name_location: loc(&s.name_location),
            name: str_name(&s.name),
            content: nodes(&s.content),
        }).collect(),
        scripts: g.scripts.iter().filter_map(script).collect(),
    }
}

#[verifier::external_body]
fn src_element(t: &TTagLocation, r: &Range<CPos>, src: &TStrName) -> m::SrcElement {
    m::SrcElement { tag_location: tag_location(t), src_location: loc(r), src: str_name(src) }
}

#[verifier::external_body]
fn pos(p: &CPos) -> Position {
    Position { line: p.line, utf16_col: p.utf16_col }
}

#[verifier::external_body]
fn loc(r: &Range<CPos>) -> Location {
    Location { start: pos(&r.start), end: pos(&r.end) }
}

#[verifier::external_body]
fn loc_pair(r: &(Range<CPos>, Range<CPos>)) -> (Location, Location) {
    (loc(&r.0), loc(&r.1))
}

#[verifier::external_body]
fn ident(x: &TIdent) -> m::WxmlName {
    m::WxmlName { name: x.name.to_string(), location: loc(&x.location) }
}

#[verifier::external_body]
fn str_name(x: &TStrName) -> m::WxmlName {
    m::WxmlName { name: x.name.to_string(), location: loc(&x.location) }
}

#[verifier::external_body]
fn tag_location(t: &TTagLocation) -> m::TagLocation {
    m::TagLocation { start: loc_pair(&t.start), close: loc(&t.close), end: t.end.as_ref().map(loc_pair) }
}

#[verifier::external_body]
fn boxed(e: &Expression) -> Box<m::Expr> {
    Box::new(expr(e))
}

/// Converts an expression, by the first of the conversions below that knows its kind.
#[verifier::external_body]
fn expr(e: &Expression) -> m::Expr {
    if let Some(x) = expr_leaf(e) {
        x
    } else if let Some(x) = expr_literal(e) {
        x
    } else if let Some(x) = expr_access(e) {
        x
    } else if let Some((l, r, at, plus)) = binary_parts(e) {
        m::Expr::Binary { left: boxed(l), right: boxed(r), location: loc(at), is_plus: plus }
    } else if let Some(x) = expr_rest(e) {
        x
    } else {
        m::Expr::KeywordLit { location: loc(&glass_easel_template_compiler::parse::TemplateStructure::location(e)) }
    }
}

/// Scope references, data fields and literals.
#[verifier::external_body]
fn expr_leaf(e: &Expression) -> Option<m::Expr> {
    match e {
        Expression::ScopeRef { location, index, .. } => Some(m::Expr::ScopeRef { location: loc(location), index: *index }),
        Expression::DataField { name, location, .. } => Some(m::Expr::DataField { name: name.to_string(), location: loc(location) }),
        Expression::LitUndefined { location, .. }
        | Expression::LitNull { location, .. }
        | Expression::LitBool { location, .. } => Some(m::Expr::KeywordLit { location: loc(location) }),
        Expression::LitStr { value, location, .. } => Some(m::Expr::LitStr { value: value.to_string(), location: loc(location) }),
        Expression::LitInt { location, .. } | Expression::LitFloat { location, .. } => Some(m::Expr::NumberLit { location: loc(location) }),
        _ => None,
    }
}

/// Object and array literals.
#[verifier::external_body]
fn expr_literal(e: &Expression) -> Option<m::Expr> {
    match e {
        Expression::LitObj { fields, brace_location, .. } => Some(m::Expr::LitObj { fields: fields.iter().map(object_field).collect(), brace_location: loc_pair(brace_location) }),
        Expression::LitArr { fields, bracket_location, .. } => Some(m::Expr::LitArr { fields: fields.iter().map(array_field).collect(), bracket_location: loc_pair(bracket_location) }),
        _ => None,
    }
}

/// Member accesses and calls.
#[verifier::external_body]
fn expr_access(e: &Expression) -> Option<m::Expr> {
    match e {
        Expression::StaticMember { obj, field_name, dot_location, field_location, .. } => Some(m::Expr::StaticMember { obj: boxed(obj), field_name: field_name.to_string(), dot_location: loc(dot_location), field_location: loc(field_location) }),
        Expression::DynamicMember { obj, field_name, bracket_location, .. } => Some(m::Expr::DynamicMember { obj: boxed(obj), field_name: boxed(field_name), bracket_location: loc_pair(bracket_location) }),
        Expression::FuncCall { func, args, paren_location, .. } => Some(m::Expr::FuncCall { func: boxed(func), args: args.iter().map(expr).collect(), paren_location: loc_pair(paren_location) }),
        _ => None,
    }
}

/// Unary operators, the conditional operator, and the conversion to a string.
#[verifier::external_body]
fn expr_rest(e: &Expression) -> Option<m::Expr> {
    match e {
        Expression::Reverse { value, location, .. } | Expression::BitReverse { value, location, .. }
        | Expression::Positive { value, location, .. } | Expression::Negative { value, location, .. }
        | Expression::TypeOf { value, location, .. } | Expression::Void { value, location, .. } => Some(m::Expr::Unary { value: boxed(value), location: loc(location) }),
        Expression::ToStringWithoutUndefined { value, location, .. } => Some(m::Expr::ToStringWithoutUndefined { value: boxed(value), location: loc(location) }),
        Expression::Cond { cond, true_br, false_br, question_location, colon_location, .. } => Some(m::Expr::Cond { cond: boxed(cond), true_br: boxed(true_br), false_br: boxed(false_br), question_location: loc(question_location), colon_location: loc(colon_location) }),
        _ => None,
    }
}

/// The operands and range of a binary operator, and whether it is `+`.
#[verifier::external_body]
fn binary_parts(e: &Expression) -> Option<(&Expression, &Expression, &Range<CPos>, bool)> {
    match e {
        Expression::Plus { left, right, location, .. } => Some((left, right, location, true)),
        Expression::Multiply { left, right, location, .. } | Expression::Divide { left, right, location, .. }
        | Expression::Remainer { left, right, location, .. } | Expression::Minus { left, right, location, .. }
        | Expression::LeftShift { left, right, location, .. } | Expression::RightShift { left, right, location, .. }
        | Expression::UnsignedRightShift { left, right, location, .. } => Some((left, right, location, false)),
        _ => comparison_parts(e),
    }
}

/// The operands and range of a comparison.
#[verifier::external_body]
fn comparison_parts(e: &Expression) -> Option<(&Expression, &Expression, &Range<CPos>, bool)> {
    match e {
        Expression::Lt { left, right, location, .. } | Expression::Gt { left, right, location, .. }
        | Expression::Lte { left, right, location, .. } | Expression::Gte { left, right, location, .. }
        | Expression::InstanceOf { left, right, location, .. } | Expression::Eq { left, right, location, .. }
        | Expression::Ne { left, right, location, .. } | Expression::EqFull { left, right, location, .. }
        | Expression::NeFull { left, right, location, .. } => Some((left, right, location, false)),
        _ => logic_parts(e),
    }
}

/// The operands and range of a bitwise or logical operator.
#[verifier::external_body]
fn logic_parts(e: &Expression) -> Option<(&Expression, &Expression, &Range<CPos>, bool)> {
    match e {
        Expression::BitAnd { left, right, location, .. } | Expression::BitXor { left, right, location, .. }
        | Expression::BitOr { left, right, location, .. } | Expression::LogicAnd { left, right, location, .. }
        | Expression::LogicOr { left, right, location, .. }
        | Expression::NullishCoalescing { left, right, location, .. } => Some((left, right, location, false)),
        _ => None,
    }
}

#[verifier::external_body]
fn object_field(f: &ObjectFieldKind) -> m::ObjectField {
    match f {
        ObjectFieldKind::Named { name, location, colon_location, value, .. } => m::ObjectField::Named { name: name.to_string(), location: loc(location), colon_location: colon_location.as_ref().map(loc), value: expr(value) },
        ObjectFieldKind::Spread { location, value, .. } => m::ObjectField::Spread { location: loc(location), value: expr(value) },
    }
}

#[verifier::external_body]
fn array_field(f: &ArrayFieldKind) -> m::ArrayField {
    match f {
        ArrayFieldKind::Normal { value, .. } => m::ArrayField::Normal { value: expr(value) },
        ArrayFieldKind::Spread { location, value, .. } => m::ArrayField::Spread { location: loc(location), value: expr(value) },
        ArrayFieldKind::EmptySlot => m::ArrayField::EmptySlot,
    }
}

/// A static or dynamic value; a kind of value that the model does not know becomes an empty
/// static one at the value's range.
#[verifier::external_body]
fn value(v: &TValue) -> m::Value {
    match v {
        gt::Value::Static { value, location, .. } => m::Value::Static { value: value.to_string(), location: loc(location) },
        gt::Value::Dynamic { expression, double_brace_location, .. } => m::Value::Dynamic { expression: boxed(expression), double_brace_location: loc_pair(double_brace_location) },
        #[allow(unreachable_patterns)]
        _ => m::Value::Static { value: String::new(), location: loc(&glass_easel_template_compiler::parse::TemplateStructure::location(v)) },
    }
}

#[verifier::external_body]
fn keyword_value(x: &(Range<CPos>, TValue)) -> (Location, m::Value) {
    (loc(&x.0), value(&x.1))
}

#[verifier::external_body]
fn attribute(a: &TAttribute) -> m::Attribute {
    m::Attribute { prefix_location: a.prefix_location.as_ref().map(loc), is_model: false, name: ident(&a.name), value: a.value.as_ref().map(value) }
}

/// An attribute of a normal element; only the `model:` prefix is kept.
#[verifier::external_body]
fn normal_attribute(a: &TNormalAttribute) -> m::Attribute {
    let (prefix_location, is_model) = match &a.prefix {
        gt::NormalAttributePrefix::Model(r) => (Some(loc(r)), true),
        _ => (None, false),
    };
    m::Attribute { prefix_location, is_model, name: ident(&a.name), value: a.value.as_ref().map(value) }
}

#[verifier::external_body]
fn static_attribute(a: &TStaticAttribute) -> m::StaticAttribute {
    m::StaticAttribute { prefix_location: a.prefix_location.as_ref().map(loc), name: ident(&a.name), value: str_name(&a.value) }
}

#[verifier::external_body]
fn event_binding(ev: &TEventBinding) -> m::EventBinding {
    m::EventBinding {
        prefix_location: loc(&ev.prefix_location),
        name: ident(&ev.name),
        value: ev.value.as_ref().map(value),
        is_catch: ev.is_catch,
        is_mut: ev.is_mut,
        is_capture: ev.is_capture,
    }
}

#[verifier::external_body]
fn common(c: &TCommonElementAttributes) -> m::CommonAttributes {
    m::CommonAttributes {
        id: c.id.as_ref().map(keyword_value),
        slot: c.slot.as_ref().map(keyword_value),
        slot_value_refs: c.slot_value_refs.iter().map(static_attribute).collect(),
        event_bindings: c.event_bindings.iter().map(event_binding).collect(),
        data: c.data.iter().map(attribute).collect(),
        marks: c.marks.iter().map(attribute).collect(),
    }
}

#[verifier::external_body]
fn class_attribute(c: &TClassAttribute) -> m::ClassAttribute {
    match c {
        gt::ClassAttribute::String(r, v) => m::ClassAttribute::String(loc(r), value(v)),
        gt::ClassAttribute::Multiple(list) => m::ClassAttribute::Multiple(list.iter().map(|(r, n, v)| (loc(r), ident(n), v.as_ref().map(value))).collect()),
        _ => m::ClassAttribute::Absent,
    }
}

#[verifier::external_body]
fn style_attribute(c: &TStyleAttribute) -> m::StyleAttribute {
    match c {
        gt::StyleAttribute::String(r, v) => m::StyleAttribute::String(loc(r), value(v)),
        gt::StyleAttribute::Multiple(list) => m::StyleAttribute::Multiple(list.iter().map(|(r, n, v)| (loc(r), ident(n), value(v))).collect()),
        _ => m::StyleAttribute::Absent,
    }
}

/// The nodes that the model knows, in order; a kind of node that it does not know is left out.
#[verifier::external_body]
fn nodes(ns: &[TNode]) -> Vec<m::Node> {
    ns.iter().filter_map(node).collect()
}

#[verifier::external_body]
fn node(n: &TNode) -> Option<m::Node> {
    match n {
        gt::Node::Text(v) => Some(m::Node::Text(value(v))),
        gt::Node::Element(e) => element(e).map(m::Node::Element),
        gt::Node::Comment(c) => Some(m::Node::Comment(m::WxmlComment { content: c.content.clone(), location: loc(&c.location) })),
        gt::Node::UnknownMetaTag(x) => Some(m::Node::UnknownMetaTag(loc(&x.location))),
        #[allow(unreachable_patterns)]
        _ => None,
    }
}

/// An element, when the model knows its kind.
#[verifier::external_body]
fn element(e: &TElement) -> Option<m::Element> {
    let kind = if let Some(k) = normal_element(e) {
        k
    } else if let Some(k) = control_element(e) {
        k
    } else {
        other_element(e)?
    };
    Some(m::Element { kind, tag_location: tag_location(&e.tag_location) })
}

/// A normal element: a tag with its attributes and children.
#[verifier::external_body]
fn normal_element(e: &TElement) -> Option<m::ElementKind> {
    match &e.kind {
        gt::ElementKind::Normal { tag_name, attributes, class, style, change_attributes, worklet_attributes, children, generics, extra_attr, let_vars, common: c, .. } => Some(m::ElementKind::Normal {
            tag_name: ident(tag_name), attributes: attributes.iter().map(normal_attribute).collect(),
            class: class_attribute(class), style: style_attribute(style),
            change_attributes: change_attributes.iter().map(attribute).collect(),
            worklet_attributes: worklet_attributes.iter().map(static_attribute).collect(),
            children: nodes(children), generics: generics.iter().map(static_attribute).collect(),
            extra_attr: extra_attr.iter().map(static_attribute).collect(),
            let_vars: let_vars.iter().map(attribute).collect(), common: common(c),
        }),
        _ => None,
    }
}

/// `block` and `wx:for` elements.
#[verifier::external_body]
fn control_element(e: &TElement) -> Option<m::ElementKind> {
    match &e.kind {
        gt::ElementKind::Pure { children, let_vars, slot, slot_value_refs, .. } => Some(m::ElementKind::Pure { children: nodes(children), let_vars: let_vars.iter().map(attribute).collect(), slot: slot.as_ref().map(keyword_value), slot_value_refs: slot_value_refs.iter().map(static_attribute).collect() }),
        gt::ElementKind::For { list, item_name, index_name, key, children, .. } => Some(m::ElementKind::For { list: keyword_value(list), item_name: (loc(&item_name.0), str_name(&item_name.1)), index_name: (loc(&index_name.0), str_name(&index_name.1)), key: (loc(&key.0), str_name(&key.1)), children: nodes(children) }),
        _ => if_element(e),
    }
}

/// `wx:if` elements with their branches.
#[verifier::external_body]
fn if_element(e: &TElement) -> Option<m::ElementKind> {
    match &e.kind {
        gt::ElementKind::If { branches, else_branch, .. } => Some(m::ElementKind::If { branches: branches.iter().map(|(r, v, ns)| (loc(r), value(v), nodes(ns))).collect(), else_branch: else_branch.as_ref().map(|(r, ns)| (loc(r), nodes(ns))) }),
        _ => None,
    }
}

/// Template uses, includes and slots.
#[verifier::external_body]
fn other_element(e: &TElement) -> Option<m::ElementKind> {
    match &e.kind {
        gt::ElementKind::TemplateRef { target, data, .. } => Some(m::ElementKind::TemplateRef { target: keyword_value(target), data: keyword_value(data) }),
        gt::ElementKind::Include { path, .. } => Some(m::ElementKind::Include { path: (loc(&path.0), str_name(&path.1)) }),
        gt::ElementKind::Slot { name, values, common: c, .. } => Some(m::ElementKind::Slot { name: keyword_value(name), values: values.iter().map(attribute).collect(), common: common(c) }),
        _ => None,
    }
}

#[verifier::external_body]
fn script(s: &TScript) -> Option<m::Script> {
    match s {
        gt::Script::Inline { tag_location: tl, module_location, module_name, content_location, .. } => Some(m::Script::Inline { tag_location: tag_location(tl), module_location: loc(module_location), module_name: str_name(module_name), content_location: loc(content_location) }),
        gt::Script::GlobalRef { tag_location: tl, module_location, module_name, src_location, src, .. } => Some(m::Script::GlobalRef { tag_location: tag_location(tl), module_location: loc(module_location), module_name: str_name(module_name), src_location: loc(src_location), src: str_name(src) }),
        #[allow(unreachable_patterns)]
        _ => None,
    }
}

} // verus!
