//! The parsed form of a WXML template, as the language features read it: its nodes, elements,
//! attributes, values and binding expressions, each with its source range.

use vstd::prelude::*;
use crate::position::Location;

verus! {

/// A name in the template (a tag or attribute name, or a string value such as a `src`), with its
/// source range.
#[derive(Debug)]
pub struct WxmlName {
    pub name: String,
    pub location: Location,
}

/// The ranges of an element's tags: the opening tag's `<name` part and its closing `>` (or
/// `/>`), the range of the whole opening tag, and the closing tag's two parts when there is one.
#[derive(Debug)]
pub struct TagLocation {
    pub start: (Location, Location),
    pub close: Location,
    pub end: Option<(Location, Location)>,
}

/// A binding expression. Literals of no interest apart from their range (`undefined`, `null`,
/// booleans, numbers) carry their range only; unary and binary operators are told apart only
/// where the language features need it (`+`, which joins the static parts of a value).
#[derive(Debug)]
pub enum Expr {
    ScopeRef { location: Location, index: usize },
    DataField { name: String, location: Location },
    ToStringWithoutUndefined { value: Box<Expr>, location: Location },
    /// `undefined`, `null`, `true` or `false`.
    KeywordLit { location: Location },
    LitStr { value: String, location: Location },
    /// An integer or a floating-point literal.
    NumberLit { location: Location },
    LitObj { fields: Vec<ObjectField>, brace_location: (Location, Location) },
    LitArr { fields: Vec<ArrayField>, bracket_location: (Location, Location) },
    StaticMember { obj: Box<Expr>, field_name: String, dot_location: Location, field_location: Location },
    DynamicMember { obj: Box<Expr>, field_name: Box<Expr>, bracket_location: (Location, Location) },
    FuncCall { func: Box<Expr>, args: Vec<Expr>, paren_location: (Location, Location) },
    /// A prefix operator (`!`, `~`, `+`, `-`, `typeof`, `void`) and its operand.
    Unary { value: Box<Expr>, location: Location },
    /// An infix operator, `location` being the operator's range.
    Binary { left: Box<Expr>, right: Box<Expr>, location: Location, is_plus: bool },
    Cond {
        cond: Box<Expr>,
        true_br: Box<Expr>,
        false_br: Box<Expr>,
        question_location: Location,
        colon_location: Location,
    },
}

#[derive(Debug)]
pub enum ObjectField {
    Named { name: String, location: Location, colon_location: Option<Location>, value: Expr },
    Spread { location: Location, value: Expr },
}

#[derive(Debug)]
pub enum ArrayField {
    Normal { value: Expr },
    Spread { location: Location, value: Expr },
    EmptySlot,
}

/// An attribute value or a text: a static string, or a `{{...}}` binding.
#[derive(Debug)]
pub enum Value {
    Static { value: String, location: Location },
    Dynamic { expression: Box<Expr>, double_brace_location: (Location, Location) },
}

/// An attribute with an optional value; `prefix_location` is the range of its prefix
/// (`model:`, `change:`, `data:`, `mark:`, `let:`...), and `is_model` tells a `model:` binding.
#[derive(Debug)]
pub struct Attribute {
    pub prefix_location: Option<Location>,
    pub is_model: bool,
    pub name: WxmlName,
    pub value: Option<Value>,
}

/// An attribute whose value is a plain name.
#[derive(Debug)]
pub struct StaticAttribute {
    pub prefix_location: Option<Location>,
    pub name: WxmlName,
    pub value: WxmlName,
}

#[derive(Debug)]
pub struct EventBinding {
    pub prefix_location: Location,
    pub name: WxmlName,
    pub value: Option<Value>,
    pub is_catch: bool,
    pub is_mut: bool,
    pub is_capture: bool,
}

#[derive(Debug)]
pub enum ClassAttribute {
    Absent,
    String(Location, Value),
    Multiple(Vec<(Location, WxmlName, Option<Value>)>),
}

#[derive(Debug)]
pub enum StyleAttribute {
    Absent,
    String(Location, Value),
    Multiple(Vec<(Location, WxmlName, Value)>),
}

/// The attributes that any component element can have.
#[derive(Debug)]
pub struct CommonAttributes {
    pub id: Option<(Location, Value)>,
    pub slot: Option<(Location, Value)>,
    pub slot_value_refs: Vec<StaticAttribute>,
    pub event_bindings: Vec<EventBinding>,
    pub data: Vec<Attribute>,
    pub marks: Vec<Attribute>,
}

#[derive(Debug)]
pub enum ElementKind {
    Normal {
        tag_name: WxmlName,
        attributes: Vec<Attribute>,
        class: ClassAttribute,
        style: StyleAttribute,
        change_attributes: Vec<Attribute>,
        worklet_attributes: Vec<StaticAttribute>,
        children: Vec<Node>,
        generics: Vec<StaticAttribute>,
        extra_attr: Vec<StaticAttribute>,
        let_vars: Vec<Attribute>,
        common: CommonAttributes,
    },
    Pure {
        children: Vec<Node>,
        let_vars: Vec<Attribute>,
        slot: Option<(Location, Value)>,
        slot_value_refs: Vec<StaticAttribute>,
    },
    For {
        list: (Location, Value),
        item_name: (Location, WxmlName),
        index_name: (Location, WxmlName),
        key: (Location, WxmlName),
        children: Vec<Node>,
    },
    If {
        branches: Vec<(Location, Value, Vec<Node>)>,
        else_branch: Option<(Location, Vec<Node>)>,
    },
    TemplateRef { target: (Location, Value), data: (Location, Value) },
    Include { path: (Location, WxmlName) },
    Slot { name: (Location, Value), values: Vec<Attribute>, common: CommonAttributes },
}

#[derive(Debug)]
pub struct Element {
    pub kind: ElementKind,
    pub tag_location: TagLocation,
}

/// The nodes `ns` hold the element `d` itself (not nested deeper).
pub open spec fn holds_element(ns: Seq<Node>, d: Element) -> bool {
    exists|j: int| 0 <= j < ns.len() && ns[j] == Node::Element(d)
}

/// The element `d` stands directly among the child nodes of `e`: among the children of an
/// ordinary element, a `block` or a `wx:for`, in a branch of a `wx:if`, or in its `wx:else`.
pub open spec fn is_child_element(e: Element, d: Element) -> bool {
    match e.kind {
        ElementKind::Normal { children, .. } => holds_element(children@, d),
        ElementKind::Pure { children, .. } => holds_element(children@, d),
        ElementKind::For { children, .. } => holds_element(children@, d),
        ElementKind::If { branches, else_branch } => (exists|k: int| 0 <= k < branches@.len()
            && holds_element(#[trigger] branches@[k].2@, d)) || (else_branch matches Some(x) && holds_element(x.1@, d)),
        _ => false,
    }
}

#[derive(Debug)]
pub struct WxmlComment {
    pub content: String,
    pub location: Location,
}

#[derive(Debug)]
pub enum Node {
    Text(Value),
    Element(Element),
    Comment(WxmlComment),
    UnknownMetaTag(Location),
}

/// An `<import>` or `<include>` at the top of a template.
#[derive(Debug)]
pub struct SrcElement {
    pub tag_location: TagLocation,
    pub src_location: Location,
    pub src: WxmlName,
}

#[derive(Debug)]
pub enum Script {
    Inline { tag_location: TagLocation, module_location: Location, module_name: WxmlName, content_location: Location },
    GlobalRef {
        tag_location: TagLocation,
        module_location: Location,
        module_name: WxmlName,
        src_location: Location,
        src: WxmlName,
    },
}

#[derive(Debug)]
pub struct TemplateDefinition {
    pub tag_location: TagLocation,
    pub name_location: Location,
    pub name: WxmlName,
    pub content: Vec<Node>,
}

/// A parsed template: its top-level nodes and its global items.
#[derive(Debug)]
pub struct Template {
    pub path: String,
    pub content: Vec<Node>,
    pub imports: Vec<SrcElement>,
    pub includes: Vec<SrcElement>,
    pub sub_templates: Vec<TemplateDefinition>,
    pub scripts: Vec<Script>,
}

} // verus!
