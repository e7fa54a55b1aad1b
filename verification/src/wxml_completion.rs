//! Completion lists for the tokens of templates.

use vstd::prelude::*;
use crate::backend_config::{AttributeConfig, BackendConfig, ComponentConfig, ElementConfig, EventConfig, StylePropertyConfig, ValueOption, first_index, tag_is_component, tag_is_element};
use crate::completion::{CompletionItem, CompletionItemKind, string_of};
use crate::file_content::FileContentMetadata;
use crate::hover::{attribute_of, property_of};
use crate::name_set::views;
use crate::position::Position;
use crate::text::{push_str, str_eq};
use crate::wxml_utils::WxmlTokenRef;
use crate::wxml::{Attribute, ClassAttribute, CommonAttributes, Element, ElementKind, EventBinding, StyleAttribute};

verus! {

/// An item as `(label, kind, snippet, deprecated)`.
pub type ItemView = (Seq<char>, CompletionItemKind, Option<Seq<char>>, bool);

pub open spec fn opt_view(s: Option<String>) -> Option<Seq<char>> {
    match s {
        Some(s) => Some(s@),
        None => None,
    }
}

pub open spec fn full_view(i: CompletionItem) -> ItemView {
    (i.label@, i.kind, opt_view(i.snippet), i.deprecated)
}

pub open spec fn items_view(v: Seq<CompletionItem>) -> Seq<ItemView> {
    v.map_values(|i: CompletionItem| full_view(i))
}

/// The names joined with commas between them.
pub open spec fn comma_joined(parts: Seq<Seq<char>>) -> Seq<char>
    decreases parts.len(),
{
    if parts.len() == 0 {
        Seq::empty()
    } else if parts.len() == 1 {
        parts[0]
    } else {
        comma_joined(parts.drop_last()) + ","@ + parts.last()
    }
}

/// The names that `taken` does not hold, in their order.
pub open spec fn names_without(names: Seq<Seq<char>>, taken: spec_fn(Seq<char>) -> bool) -> Seq<Seq<char>>
    decreases names.len(),
{
    if names.len() == 0 {
        Seq::empty()
    } else {
        let rest = names_without(names.drop_last(), taken);
        if taken(names.last()) {
            rest
        } else {
            rest.push(names.last())
        }
    }
}

/// A snippet choice among comma-separated options.
pub open spec fn choice(choices: Seq<char>) -> Seq<char> {
    "${1|"@ + choices + "|}"@
}

pub open spec fn keyword(label: Seq<char>, snippet: Seq<char>) -> ItemView {
    (label, CompletionItemKind::Keyword, Some(snippet), false)
}

/// A keyword that completes into `name="..."`.
pub open spec fn assign_keyword(name: Seq<char>) -> ItemView {
    keyword(name, name + "=\"$0\""@)
}

pub open spec fn plain(label: Seq<char>, kind: CompletionItemKind, deprecated: bool) -> ItemView {
    (label, kind, None, deprecated)
}

/// What a name of an attribute, event, class or style property can already be used by.
pub enum Taken<'a> {
    Attributes(&'a Vec<Attribute>, &'a Vec<Attribute>),
    Events(&'a Vec<EventBinding>),
    Class(&'a ClassAttribute),
    Style(&'a StyleAttribute),
}

/// Whether one of the attributes or `change:` attributes has the name.
pub open spec fn attrs_have(a: Seq<Attribute>, c: Seq<Attribute>) -> spec_fn(Seq<char>) -> bool {
    |n: Seq<char>| (exists|i: int| 0 <= i < a.len() && #[trigger] a[i].name.name@ == n)
        || (exists|i: int| 0 <= i < c.len() && #[trigger] c[i].name.name@ == n)
}

/// Whether one of the event bindings has the name.
pub open spec fn bindings_have(b: Seq<EventBinding>) -> spec_fn(Seq<char>) -> bool {
    |n: Seq<char>| exists|i: int| 0 <= i < b.len() && #[trigger] b[i].name.name@ == n
}

/// Whether a `class:` list names the class.
pub open spec fn class_has(c: ClassAttribute) -> spec_fn(Seq<char>) -> bool {
    match c {
        ClassAttribute::Multiple(v) => |n: Seq<char>| exists|i: int| 0 <= i < v@.len() && #[trigger] v@[i].1.name@ == n,
        _ => |n: Seq<char>| false,
    }
}

/// Whether a `style:` list names the property.
pub open spec fn style_has(c: StyleAttribute) -> spec_fn(Seq<char>) -> bool {
    match c {
        StyleAttribute::Multiple(v) => |n: Seq<char>| exists|i: int| 0 <= i < v@.len() && #[trigger] v@[i].1.name@ == n,
        _ => |n: Seq<char>| false,
    }
}

pub open spec fn taken_fn(t: Taken) -> spec_fn(Seq<char>) -> bool {
    match t {
        Taken::Attributes(a, c) => attrs_have(a@, c@),
        Taken::Events(b) => bindings_have(b@),
        Taken::Class(c) => class_has(*c),
        Taken::Style(c) => style_has(*c),
    }
}

fn attribute_named_in(a: &Vec<Attribute>, name: &str) -> (r: bool)
    ensures
        r == exists|i: int| 0 <= i < a@.len() && #[trigger] a@[i].name.name@ == name@,
{
    let mut i: usize = 0;
    while i < a.len()
        invariant
            i <= a@.len(),
            forall|j: int| 0 <= j < i ==> #[trigger] a@[j].name.name@ != name@,
        decreases a@.len() - i,
    {
        if str_eq(a[i].name.name.as_str(), name) {
            return true;
        }
        i = i + 1;
    }
    false
}

#[verifier::loop_isolation(false)]
fn is_taken(t: &Taken, name: &str) -> (r: bool)
    ensures
        r == taken_fn(*t)(name@),
{
    match t {
        Taken::Attributes(a, c) => attribute_named_in(a, name) || attribute_named_in(c, name),
        Taken::Events(b) => {
            let mut i: usize = 0;
            while i < b.len()
                invariant
                    i <= b@.len(),
                    forall|j: int| 0 <= j < i ==> #[trigger] b@[j].name.name@ != name@,
                decreases b@.len() - i,
            {
                if str_eq(b[i].name.name.as_str(), name) {
                    assert(b@[i as int].name.name@ == name@);
                    return true;
                }
                i = i + 1;
            }
            false
        },
        Taken::Class(c) => match c {
            ClassAttribute::Multiple(v) => {
                let mut i: usize = 0;
                while i < v.len()
                    invariant
                        i <= v@.len(),
                        forall|j: int| 0 <= j < i ==> #[trigger] v@[j].1.name@ != name@,
                    decreases v@.len() - i,
                {
                    if str_eq(v[i].1.name.as_str(), name) {
                        assert(v@[i as int].1.name@ == name@);
                        return true;
                    }
                    i = i + 1;
                }
                false
            },
            _ => false,
        },
        Taken::Style(c) => match c {
            StyleAttribute::Multiple(v) => {
                let mut i: usize = 0;
                while i < v.len()
                    invariant
                        i <= v@.len(),
                        forall|j: int| 0 <= j < i ==> #[trigger] v@[j].1.name@ != name@,
                    decreases v@.len() - i,
                {
                    if str_eq(v[i].1.name.as_str(), name) {
                        assert(v@[i as int].1.name@ == name@);
                        return true;
                    }
                    i = i + 1;
                }
                false
            },
            _ => false,
        },
    }
}

/// The names that the element does not use yet.
fn untaken(names: &Vec<String>, t: &Taken) -> (r: Vec<String>)
    ensures
        views(r@) == names_without(views(names@), taken_fn(*t)),
{
    let mut r: Vec<String> = Vec::new();
    let mut i: usize = 0;
    while i < names.len()
        invariant
            i <= names@.len(),
            views(r@) == names_without(views(names@.take(i as int)), taken_fn(*t)),
        decreases names@.len() - i,
    {
        proof {
            assert(views(names@.take(i + 1)).drop_last() =~= views(names@.take(i as int)));
            assert(views(names@.take(i + 1)).last() == names@[i as int]@);
        }
        if !is_taken(t, names[i].as_str()) {
            let ghost before = views(r@);
            r.push(names[i].clone());
            proof {
                assert(views(r@) =~= before.push(names@[i as int]@));
            }
        }
        i = i + 1;
    }
    proof {
        assert(names@.take(i as int) =~= names@);
    }
    r
}

/// The names joined with commas.
fn join_names(parts: &Vec<String>) -> (r: String)
    ensures
        r@ == comma_joined(views(parts@)),
{
    let mut r = String::new();
    let mut i: usize = 0;
    proof {
        assert(views(parts@.take(0)) =~= Seq::<Seq<char>>::empty());
    }
    while i < parts.len()
        invariant
            i <= parts@.len(),
            r@ == comma_joined(views(parts@.take(i as int))),
        decreases parts@.len() - i,
    {
        proof {
            assert(views(parts@.take(i + 1)).drop_last() =~= views(parts@.take(i as int)));
            assert(views(parts@.take(i + 1)).last() == parts@[i as int]@);
        }
        if i > 0 {
            push_str(&mut r, ",");
        }
        push_str(&mut r, parts[i].as_str());
        proof {
            if i == 0 {
                assert(r@ =~= comma_joined(views(parts@.take(1))));
            } else {
                assert(r@ =~= comma_joined(views(parts@.take(i + 1))));
            }
        }
        i = i + 1;
    }
    proof {
        assert(parts@.take(i as int) =~= parts@);
    }
    r
}

fn push_item(items: &mut Vec<CompletionItem>, label: String, kind: CompletionItemKind, snippet: Option<String>, deprecated: bool)
    ensures
        items_view(final(items)@) == items_view(old(items)@).push((label@, kind, opt_view(snippet), deprecated)),
{
    let ghost before = items_view(items@);
    let ghost v = (label@, kind, opt_view(snippet), deprecated);
    items.push(CompletionItem { label, kind, snippet, deprecated });
    proof {
        assert(items_view(items@) =~= before.push(v));
    }
}

fn push_keyword(items: &mut Vec<CompletionItem>, label: &str, snippet: String)
    ensures
        items_view(final(items)@) == items_view(old(items)@).push(keyword(label@, snippet@)),
{
    push_item(items, string_of(label), CompletionItemKind::Keyword, Some(snippet), false);
}

fn push_assign_keyword(items: &mut Vec<CompletionItem>, name: &str)
    ensures
        items_view(final(items)@) == items_view(old(items)@).push(assign_keyword(name@)),
{
    let mut snippet = string_of(name);
    push_str(&mut snippet, "=\"$0\"");
    push_keyword(items, name, snippet);
}


/// `head`, a choice among `choices`, then `tail`.
fn choice_snippet(head: &str, choices: &String, tail: &str) -> (r: String)
    ensures
        r@ == head@ + choice(choices@) + tail@,
{
    let mut r = string_of(head);
    push_str(&mut r, "${1|");
    push_str(&mut r, choices.as_str());
    push_str(&mut r, "|}");
    push_str(&mut r, tail);
    proof {
        assert(r@ =~= head@ + choice(choices@) + tail@);
    }
    r
}

/// The item for an attribute or property of the configuration: a plain name for a boolean
/// property, else the name with its value to fill in.
pub open spec fn attr_config_item(a: AttributeConfig, boolean_plain: bool) -> ItemView {
    if boolean_plain && a.ty@ == "boolean"@ {
        plain(a.name@, CompletionItemKind::Variable, a.deprecated)
    } else {
        (a.name@, CompletionItemKind::Variable, Some(a.name@ + "=\"$0\""@), a.deprecated)
    }
}

/// The items for the attributes that the element does not have yet.
pub open spec fn attr_config_items(s: Seq<AttributeConfig>, taken: spec_fn(Seq<char>) -> bool, boolean_plain: bool) -> Seq<ItemView>
    decreases s.len(),
{
    if s.len() == 0 {
        Seq::empty()
    } else {
        let rest = attr_config_items(s.drop_last(), taken, boolean_plain);
        if taken(s.last().name@) {
            rest
        } else {
            rest.push(attr_config_item(s.last(), boolean_plain))
        }
    }
}

/// The `model:` and `change:` items, which choose among the attributes not yet used.
pub open spec fn binding_prefix_items(choices: Seq<char>) -> Seq<ItemView> {
    if choices.len() > 0 {
        seq![
            keyword("model:"@, "model:"@ + choice(choices) + "=\"{{ $0 }}\""@),
            keyword("change:"@, "change:"@ + choice(choices) + "=\"{{ $0 }}\""@),
        ]
    } else {
        Seq::empty()
    }
}

pub open spec fn attr_names(s: Seq<AttributeConfig>) -> Seq<Seq<char>> {
    s.map_values(|a: AttributeConfig| a.name@)
}

pub open spec fn config_attr_items(list: Seq<AttributeConfig>, taken: spec_fn(Seq<char>) -> bool, boolean_plain: bool, has_prefix: bool) -> Seq<ItemView> {
    attr_config_items(list, taken, boolean_plain) + if has_prefix {
        Seq::empty()
    } else {
        binding_prefix_items(comma_joined(names_without(attr_names(list), taken)))
    }
}

/// The attribute items of an element with the tag name: none for a custom component; the
/// properties of a built-in component and the global attributes; the attributes of a native
/// element and the global attributes; none for an unknown tag.
pub open spec fn attribute_items(config: BackendConfig, tag: Seq<char>, custom: bool, taken: spec_fn(Seq<char>) -> bool, has_prefix: bool) -> Seq<ItemView> {
    if custom {
        Seq::empty()
    } else {
        match first_index(config.component@, tag_is_component(tag), 0) {
            Some(c) => config_attr_items(config.component@[c].property@ + config.global_attribute@, taken, true, has_prefix),
            None => match first_index(config.element@, tag_is_element(tag), 0) {
                Some(e) => config_attr_items(config.element@[e].attribute@ + config.global_attribute@, taken, false, has_prefix),
                None => Seq::empty(),
            },
        }
    }
}

fn push_config_attr_items(
    items: &mut Vec<CompletionItem>,
    list: &Vec<&AttributeConfig>,
    Ghost(cfgs): Ghost<Seq<AttributeConfig>>,
    t: &Taken,
    boolean_plain: bool,
    has_prefix: bool,
)
    requires
        list@.len() == cfgs.len(),
        forall|i: int| 0 <= i < cfgs.len() ==> *list@[i] == cfgs[i],
    ensures
        items_view(final(items)@) == items_view(old(items)@) + config_attr_items(cfgs, taken_fn(*t), boolean_plain, has_prefix),
{
    let ghost before = items_view(items@);
    let ghost taken = taken_fn(*t);
    let mut names: Vec<String> = Vec::new();
    let mut i: usize = 0;
    proof {
        assert(cfgs.take(0) =~= Seq::<AttributeConfig>::empty());
        assert(items_view(items@) =~= before + attr_config_items(cfgs.take(0), taken, boolean_plain));
        assert(views(names@) =~= attr_names(cfgs.take(0)));
    }
    while i < list.len()
        invariant
            i <= cfgs.len(),
            list@.len() == cfgs.len(),
            forall|j: int| 0 <= j < cfgs.len() ==> *list@[j] == cfgs[j],
            taken == taken_fn(*t),
            items_view(items@) == before + attr_config_items(cfgs.take(i as int), taken, boolean_plain),
            views(names@) == attr_names(cfgs.take(i as int)),
        decreases cfgs.len() - i,
    {
        let a: &AttributeConfig = list[i];
        let ghost prev = items_view(items@);
        proof {
            assert(cfgs.take(i + 1).drop_last() =~= cfgs.take(i as int));
            assert(cfgs.take(i + 1).last() == *a);
        }
        if !is_taken(t, a.name.as_str()) {
            if boolean_plain && str_eq(a.ty.as_str(), "boolean") {
                push_item(items, a.name.clone(), CompletionItemKind::Variable, None, a.deprecated);
            } else {
                let mut snippet = a.name.clone();
                push_str(&mut snippet, "=\"$0\"");
                push_item(items, a.name.clone(), CompletionItemKind::Variable, Some(snippet), a.deprecated);
            }
            proof {
                assert(items_view(items@) =~= prev.push(attr_config_item(*a, boolean_plain)));
            }
        }
        let ghost nprev = views(names@);
        names.push(a.name.clone());
        proof {
            assert(items_view(items@) =~= before + attr_config_items(cfgs.take(i + 1), taken, boolean_plain));
            assert(views(names@) =~= nprev.push(a.name@));
            assert(attr_names(cfgs.take(i + 1)) =~= attr_names(cfgs.take(i as int)).push(a.name@));
        }
        i = i + 1;
    }
    proof {
        assert(cfgs.take(i as int) =~= cfgs);
    }
    let ghost mid = items_view(items@);
    if !has_prefix {
        let rest = untaken(&names, t);
        let choices = join_names(&rest);
        if !choices.as_str().is_empty() {
            push_keyword(items, "model:", choice_snippet("model:", &choices, "=\"{{ $0 }}\""));
            push_keyword(items, "change:", choice_snippet("change:", &choices, "=\"{{ $0 }}\""));
        }
        proof {
            assert(items_view(items@) =~= mid + binding_prefix_items(choices@));
        }
    }
    proof {
        assert(items_view(items@) =~= before + config_attr_items(cfgs, taken, boolean_plain, has_prefix));
    }
}


fn push_attribute_items(
    items: &mut Vec<CompletionItem>,
    config: &BackendConfig,
    tag: &str,
    custom: bool,
    t: &Taken,
    has_prefix: bool,
)
    ensures
        items_view(final(items)@) == items_view(old(items)@) + attribute_items(*config, tag@, custom, taken_fn(*t), has_prefix),
{
    let ghost before = items_view(items@);
    if custom {
        proof {
            assert(items_view(items@) =~= before + Seq::<ItemView>::empty());
        }
        return;
    }
    if let Some(props) = config.list_properties(tag) {
        let ghost c = first_index(config.component@, tag_is_component(tag@), 0).unwrap();
        push_config_attr_items(items, &props, Ghost(config.component@[c].property@ + config.global_attribute@), t, true, has_prefix);
    } else if let Some(attrs) = config.list_attributes(tag) {
        let ghost e = first_index(config.element@, tag_is_element(tag@), 0).unwrap();
        push_config_attr_items(items, &attrs, Ghost(config.element@[e].attribute@ + config.global_attribute@), t, false, has_prefix);
    } else {
        proof {
            assert(items_view(items@) =~= before + Seq::<ItemView>::empty());
        }
    }
}

/// The `class` and `class:` items: with a choice among the classes of the style sheets that
/// the element's `class:` list does not name yet, when the style sheets have any; `class` only
/// when the element has no class attribute.
pub open spec fn class_items(classes: Seq<Seq<char>>, class: ClassAttribute) -> Seq<ItemView> {
    let absent = class is Absent;
    if classes.len() == 0 {
        (if absent { seq![assign_keyword("class"@)] } else { Seq::empty() }) + seq![keyword("class:"@, "class:$0"@)]
    } else {
        let c = comma_joined(names_without(classes, class_has(class)));
        (if absent { seq![keyword("class"@, "class=\""@ + choice(c) + "\"$0"@)] } else { Seq::empty() })
            + seq![keyword("class:"@, "class:"@ + choice(c) + "$0"@)]
    }
}

fn push_class_items(items: &mut Vec<CompletionItem>, classes: &Vec<String>, class: &ClassAttribute)
    ensures
        items_view(final(items)@) == items_view(old(items)@) + class_items(views(classes@), *class),
{
    let ghost before = items_view(items@);
    let absent = match class {
        ClassAttribute::Absent => true,
        _ => false,
    };
    if classes.len() == 0 {
        if absent {
            push_assign_keyword(items, "class");
        }
        push_keyword(items, "class:", string_of("class:$0"));
    } else {
        let rest = untaken(classes, &Taken::Class(class));
        let choices = join_names(&rest);
        if absent {
            push_keyword(items, "class", choice_snippet("class=\"", &choices, "\"$0"));
        }
        push_keyword(items, "class:", choice_snippet("class:", &choices, "$0"));
    }
    proof {
        assert(items_view(items@) =~= before + class_items(views(classes@), *class));
    }
}

pub open spec fn property_names(s: Seq<StylePropertyConfig>) -> Seq<Seq<char>> {
    s.map_values(|c: StylePropertyConfig| c.name@)
}

/// The `style` item when the element has no style attribute, and the `style:` item with a
/// choice among the configured properties that its `style:` list does not name yet.
pub open spec fn style_items(config: BackendConfig, style: StyleAttribute) -> Seq<ItemView> {
    let names = property_names(config.style_property@);
    (if style is Absent { seq![assign_keyword("style"@)] } else { Seq::empty() })
        + seq![keyword("style:"@, "style:"@ + choice(comma_joined(names_without(names, style_has(style)))) + "=\"$0\""@)]
}

fn push_style_items(items: &mut Vec<CompletionItem>, config: &BackendConfig, style: &StyleAttribute)
    ensures
        items_view(final(items)@) == items_view(old(items)@) + style_items(*config, *style),
{
    let ghost before = items_view(items@);
    if let StyleAttribute::Absent = style {
        push_assign_keyword(items, "style");
    }
    let mut names: Vec<String> = Vec::new();
    let mut i: usize = 0;
    while i < config.style_property.len()
        invariant
            i <= config.style_property@.len(),
            views(names@) == property_names(config.style_property@.take(i as int)),
        decreases config.style_property@.len() - i,
    {
        let ghost prev = views(names@);
        names.push(config.style_property[i].name.clone());
        proof {
            assert(config.style_property@.take(i + 1) =~= config.style_property@.take(i as int).push(config.style_property@[i as int]));
            assert(views(names@) =~= prev.push(config.style_property@[i as int].name@));
            assert(views(names@) =~= property_names(config.style_property@.take(i + 1)));
        }
        i = i + 1;
    }
    proof {
        assert(config.style_property@.take(i as int) =~= config.style_property@);
    }
    let rest = untaken(&names, &Taken::Style(style));
    let choices = join_names(&rest);
    push_keyword(items, "style:", choice_snippet("style:", &choices, "=\"$0\""));
    proof {
        assert(items_view(items@) =~= before + style_items(*config, *style));
    }
}

/// The `generic:` item and the `wx:` keywords of an ordinary element.
pub open spec fn normal_keyword_items() -> Seq<ItemView> {
    seq![
        keyword("generic:"@, "generic:$1=\"$0\""@),
        assign_keyword("wx:if"@),
        assign_keyword("wx:elif"@),
        assign_keyword("wx:else"@),
        assign_keyword("wx:for"@),
        assign_keyword("wx:for-item"@),
        assign_keyword("wx:for-index"@),
        assign_keyword("wx:key"@),
    ]
}

fn push_normal_keyword_items(items: &mut Vec<CompletionItem>)
    ensures
        items_view(final(items)@) == items_view(old(items)@) + normal_keyword_items(),
{
    let ghost before = items_view(items@);
    push_keyword(items, "generic:", string_of("generic:$1=\"$0\""));
    push_assign_keyword(items, "wx:if");
    push_assign_keyword(items, "wx:elif");
    push_assign_keyword(items, "wx:else");
    push_assign_keyword(items, "wx:for");
    push_assign_keyword(items, "wx:for-item");
    push_assign_keyword(items, "wx:for-index");
    push_assign_keyword(items, "wx:key");
    proof {
        assert(items_view(items@) =~= before + normal_keyword_items());
    }
}

pub open spec fn event_names(s: Seq<EventConfig>) -> Seq<Seq<char>> {
    s.map_values(|e: EventConfig| e.name@)
}

pub open spec fn event_prefix_item(prefix: Seq<char>, choices: Seq<char>) -> ItemView {
    keyword(prefix, prefix + choice(choices) + "=\"$0\""@)
}

/// The event binding prefixes, each with a choice among the events that the element does not
/// bind yet, when there is any.
pub open spec fn event_prefix_items(events: Seq<EventConfig>, taken: spec_fn(Seq<char>) -> bool) -> Seq<ItemView> {
    let c = comma_joined(names_without(event_names(events), taken));
    if c.len() > 0 {
        seq![
            event_prefix_item("bind:"@, c),
            event_prefix_item("mut-bind:"@, c),
            event_prefix_item("catch:"@, c),
            event_prefix_item("capture-bind:"@, c),
            event_prefix_item("capture-mut-bind:"@, c),
            event_prefix_item("capture-catch:"@, c),
        ]
    } else {
        Seq::empty()
    }
}

fn event_name_list(list: &Vec<&EventConfig>, Ghost(evs): Ghost<Seq<EventConfig>>) -> (r: Vec<String>)
    requires
        list@.len() == evs.len(),
        forall|i: int| 0 <= i < evs.len() ==> *list@[i] == evs[i],
    ensures
        views(r@) == event_names(evs),
{
    let mut r: Vec<String> = Vec::new();
    let mut i: usize = 0;
    while i < list.len()
        invariant
            i <= evs.len(),
            list@.len() == evs.len(),
            forall|j: int| 0 <= j < evs.len() ==> *list@[j] == evs[j],
            views(r@) == event_names(evs.take(i as int)),
        decreases evs.len() - i,
    {
        let ghost prev = views(r@);
        r.push(list[i].name.clone());
        proof {
            assert(evs.take(i + 1) =~= evs.take(i as int).push(evs[i as int]));
            assert(views(r@) =~= prev.push(evs[i as int].name@));
            assert(views(r@) =~= event_names(evs.take(i + 1)));
        }
        i = i + 1;
    }
    proof {
        assert(evs.take(i as int) =~= evs);
    }
    r
}

fn push_event_prefix_item(items: &mut Vec<CompletionItem>, prefix: &str, choices: &String)
    ensures
        items_view(final(items)@) == items_view(old(items)@).push(event_prefix_item(prefix@, choices@)),
{
    push_keyword(items, prefix, choice_snippet(prefix, choices, "=\"$0\""));
}

fn push_event_prefix_items(items: &mut Vec<CompletionItem>, list: &Vec<&EventConfig>, Ghost(evs): Ghost<Seq<EventConfig>>, bindings: &Vec<EventBinding>)
    requires
        list@.len() == evs.len(),
        forall|i: int| 0 <= i < evs.len() ==> *list@[i] == evs[i],
    ensures
        items_view(final(items)@) == items_view(old(items)@) + event_prefix_items(evs, bindings_have(bindings@)),
{
    let ghost before = items_view(items@);
    let names = event_name_list(list, Ghost(evs));
    let rest = untaken(&names, &Taken::Events(bindings));
    let choices = join_names(&rest);
    if !choices.as_str().is_empty() {
        push_event_prefix_item(items, "bind:", &choices);
        push_event_prefix_item(items, "mut-bind:", &choices);
        push_event_prefix_item(items, "catch:", &choices);
        push_event_prefix_item(items, "capture-bind:", &choices);
        push_event_prefix_item(items, "capture-mut-bind:", &choices);
        push_event_prefix_item(items, "capture-catch:", &choices);
    }
    proof {
        assert(items_view(items@) =~= before + event_prefix_items(evs, bindings_have(bindings@)));
    }
}

/// The events of an element with the tag name: those of a built-in component or of a native
/// element, then the global events; only the global events for another tag.
pub open spec fn tag_events(config: BackendConfig, tag: Seq<char>) -> Seq<EventConfig> {
    match first_index(config.component@, tag_is_component(tag), 0) {
        Some(c) => config.component@[c].event@ + config.global_event@,
        None => match first_index(config.element@, tag_is_element(tag), 0) {
            Some(e) => config.element@[e].event@ + config.global_event@,
            None => config.global_event@,
        },
    }
}

fn events_of_tag<'a>(config: &'a BackendConfig, tag: &str) -> (r: Vec<&'a EventConfig>)
    ensures
        r@.len() == tag_events(*config, tag@).len(),
        forall|i: int| 0 <= i < r@.len() ==> *r@[i] == tag_events(*config, tag@)[i],
{
    match config.list_events(tag) {
        Some(v) => v,
        None => config.list_global_events(),
    }
}

pub open spec fn let_item() -> ItemView {
    keyword("let:"@, "let:$1=\"{{ $0 }}\""@)
}

/// The `id` item when the element has no ID (with a choice among the IDs of the style sheets
/// when they have any), the `slot` item when it has no slot, and the `slot:`, `data:` and
/// `mark:` items.
pub open spec fn common_items(c: CommonAttributes, ids: Seq<Seq<char>>) -> Seq<ItemView> {
    (if c.id is None {
        if ids.len() == 0 {
            seq![assign_keyword("id"@)]
        } else {
            seq![keyword("id"@, "id=\""@ + choice(comma_joined(ids)) + "\"$0"@)]
        }
    } else {
        Seq::empty()
    }) + (if c.slot is None { seq![assign_keyword("slot"@)] } else { Seq::empty() }) + seq![
        keyword("slot:"@, "slot:"@ + "$1=\"$0\""@),
        keyword("data:"@, "data:"@ + "$1=\"$0\""@),
        keyword("mark:"@, "mark:"@ + "$1=\"$0\""@),
    ]
}

fn push_named_value_keyword(items: &mut Vec<CompletionItem>, prefix: &str)
    ensures
        items_view(final(items)@) == items_view(old(items)@).push(keyword(prefix@, prefix@ + "$1=\"$0\""@)),
{
    let mut snippet = string_of(prefix);
    push_str(&mut snippet, "$1=\"$0\"");
    push_keyword(items, prefix, snippet);
}

fn push_common_items(items: &mut Vec<CompletionItem>, c: &CommonAttributes, ids: &Vec<String>)
    ensures
        items_view(final(items)@) == items_view(old(items)@) + common_items(*c, views(ids@)),
{
    let ghost before = items_view(items@);
    if c.id.is_none() {
        if ids.len() == 0 {
            push_assign_keyword(items, "id");
        } else {
            let choices = join_names(ids);
            push_keyword(items, "id", choice_snippet("id=\"", &choices, "\"$0"));
        }
    }
    if c.slot.is_none() {
        push_assign_keyword(items, "slot");
    }
    push_named_value_keyword(items, "slot:");
    push_named_value_keyword(items, "data:");
    push_named_value_keyword(items, "mark:");
    proof {
        assert(items_view(items@) =~= before + common_items(*c, views(ids@)));
    }
}


/// What completion needs to know of the project around a template: the keys of the
/// `usingComponents` of its JSON configuration, whether the tag of the element at hand names
/// a custom component, the classes and IDs that its style sheets select, and the names of the
/// templates it defines and imports (`None` when it cannot be read).
pub struct WxmlCompletionContext {
    pub using_components: Vec<String>,
    pub custom_component: bool,
    pub wxss_classes: Vec<String>,
    pub wxss_ids: Vec<String>,
    pub template_names: Option<Vec<String>>,
}

/// The attribute completion of an element: for an ordinary element its attributes or
/// properties, `class`, `style`, `generic:`, the `wx:` keywords, the event prefixes, `let:`
/// and the common attributes; for a `block` the `wx:` keywords and `let:`; for a `wx:for`
/// the `wx:for-item`, `wx:for-index` and `wx:key` that it does not have yet; for a `slot` the
/// event prefixes and the common attributes; nothing for other elements.
pub open spec fn attr_completion(config: BackendConfig, ctx: WxmlCompletionContext, e: Element, has_prefix: bool) -> Seq<ItemView> {
    match e.kind {
        ElementKind::Normal { tag_name, attributes, class, style, change_attributes, common, .. } =>
            attribute_items(config, tag_name.name@, ctx.custom_component, attrs_have(attributes@, change_attributes@), has_prefix)
                + class_items(views(ctx.wxss_classes@), class)
                + style_items(config, style)
                + normal_keyword_items()
                + event_prefix_items(tag_events(config, tag_name.name@), bindings_have(common.event_bindings@))
                + seq![let_item()]
                + common_items(common, views(ctx.wxss_ids@)),
        ElementKind::Pure { .. } => seq![
            assign_keyword("wx:if"@),
            assign_keyword("wx:elif"@),
            assign_keyword("wx:else"@),
            assign_keyword("wx:for"@),
            let_item(),
        ],
        ElementKind::For { list, item_name, index_name, key, .. } =>
            (if item_name.0.start == list.0.start { seq![assign_keyword("wx:for-item"@)] } else { Seq::empty() })
                + (if index_name.0.start == list.0.start { seq![assign_keyword("wx:for-index"@)] } else { Seq::empty() })
                + (if key.0.start == list.0.start { seq![assign_keyword("wx:key"@)] } else { Seq::empty() }),
        ElementKind::Slot { common, .. } =>
            event_prefix_items(config.global_event@, bindings_have(common.event_bindings@))
                + common_items(common, views(ctx.wxss_ids@)),
        _ => Seq::empty(),
    }
}

fn push_let_item(items: &mut Vec<CompletionItem>)
    ensures
        items_view(final(items)@) == items_view(old(items)@).push(let_item()),
{
    push_keyword(items, "let:", string_of("let:$1=\"{{ $0 }}\""));
}

fn attr_completion_items(config: &BackendConfig, ctx: &WxmlCompletionContext, e: &Element, has_prefix: bool) -> (r: Vec<CompletionItem>)
    ensures
        items_view(r@) == attr_completion(*config, *ctx, *e, has_prefix),
{
    let mut items: Vec<CompletionItem> = Vec::new();
    match &e.kind {
        ElementKind::Normal { tag_name, attributes, class, style, change_attributes, common, .. } => {
            push_attribute_items(&mut items, config, tag_name.name.as_str(), ctx.custom_component, &Taken::Attributes(attributes, change_attributes), has_prefix);
            push_class_items(&mut items, &ctx.wxss_classes, class);
            push_style_items(&mut items, config, style);
            push_normal_keyword_items(&mut items);
            let evs = events_of_tag(config, tag_name.name.as_str());
            push_event_prefix_items(&mut items, &evs, Ghost(tag_events(*config, tag_name.name@)), &common.event_bindings);
            push_let_item(&mut items);
            push_common_items(&mut items, common, &ctx.wxss_ids);
        },
        ElementKind::Pure { .. } => {
            push_assign_keyword(&mut items, "wx:if");
            push_assign_keyword(&mut items, "wx:elif");
            push_assign_keyword(&mut items, "wx:else");
            push_assign_keyword(&mut items, "wx:for");
            push_let_item(&mut items);
        },
        ElementKind::For { list, item_name, index_name, key, .. } => {
            if item_name.0.start == list.0.start {
                push_assign_keyword(&mut items, "wx:for-item");
            }
            if index_name.0.start == list.0.start {
                push_assign_keyword(&mut items, "wx:for-index");
            }
            if key.0.start == list.0.start {
                push_assign_keyword(&mut items, "wx:key");
            }
        },
        ElementKind::Slot { common, .. } => {
            let evs = config.list_global_events();
            push_event_prefix_items(&mut items, &evs, Ghost(config.global_event@), &common.event_bindings);
            push_common_items(&mut items, common, &ctx.wxss_ids);
        },
        _ => {},
    }
    proof {
        assert(items_view(items@) =~= attr_completion(*config, *ctx, *e, has_prefix));
    }
    items
}


pub open spec fn is_ident_start(c: char) -> bool {
    ('a' <= c && c <= 'z') || ('A' <= c && c <= 'Z') || c == '_'
}

pub open spec fn is_ident_following(c: char) -> bool {
    is_ident_start(c) || ('0' <= c && c <= '9') || c == '-' || c == '.'
}

/// A valid tag name: a letter or `_`, then letters, digits, `_`, `-` and `.`.
pub open spec fn is_valid_ident(s: Seq<char>) -> bool {
    &&& s.len() > 0
    &&& is_ident_start(s[0])
    &&& forall|i: int| 1 <= i < s.len() ==> is_ident_following(#[trigger] s[i])
}

/// `Ident::is_valid` of the template compiler: whether the string is a valid tag name, as
/// `is_valid_ident` states.
#[verifier::external_body]
fn ident_is_valid(s: &str) -> (r: bool)
    ensures
        r == is_valid_ident(s@),
{
    glass_easel_template_compiler::parse::tag::Ident::is_valid(s)
}

/// What completes `<name` into an element: `name>$0</name>`.
pub open spec fn tag_snippet(name: Seq<char>) -> Seq<char> {
    name + ">$0</"@ + name + ">"@
}

pub open spec fn tag_item(name: Seq<char>, deprecated: bool, with_snippet: bool) -> ItemView {
    (name, CompletionItemKind::Class, if with_snippet { Some(tag_snippet(name)) } else { None }, deprecated)
}

/// The items for the custom components that the JSON configuration names, where the name is a
/// valid tag name.
pub open spec fn using_items(keys: Seq<Seq<char>>, with_snippet: bool) -> Seq<ItemView>
    decreases keys.len(),
{
    if keys.len() == 0 {
        Seq::empty()
    } else {
        let rest = using_items(keys.drop_last(), with_snippet);
        if is_valid_ident(keys.last()) {
            rest.push(tag_item(keys.last(), false, with_snippet))
        } else {
            rest
        }
    }
}

pub open spec fn component_items(cs: Seq<ComponentConfig>, with_snippet: bool) -> Seq<ItemView> {
    cs.map_values(|c: ComponentConfig| tag_item(c.tag_name@, c.deprecated, with_snippet))
}

pub open spec fn element_items(es: Seq<ElementConfig>, with_snippet: bool) -> Seq<ItemView> {
    es.map_values(|e: ElementConfig| tag_item(e.tag_name@, e.deprecated, with_snippet))
}

/// The tags: the custom components, the built-in components and the native elements.
pub open spec fn tag_name_items(config: BackendConfig, ctx: WxmlCompletionContext, with_snippet: bool) -> Seq<ItemView> {
    using_items(views(ctx.using_components@), with_snippet) + component_items(config.component@, with_snippet)
        + element_items(config.element@, with_snippet)
}

/// The `template is` item, with a choice among the template names, when there are any.
pub open spec fn template_is_items(names: Option<Vec<String>>) -> Seq<ItemView> {
    match names {
        Some(v) => if v@.len() > 0 {
            seq![keyword("template is"@, "template is=\""@ + choice(comma_joined(views(v@))) + "\" data=\"{{ $0 }}\" />"@)]
        } else {
            Seq::empty()
        },
        None => Seq::empty(),
    }
}

/// What completes a `<`: the tags, `slot` and `block`, `include` and `import`, the template
/// definition and the template use.
pub open spec fn tag_open_items(config: BackendConfig, ctx: WxmlCompletionContext) -> Seq<ItemView> {
    tag_name_items(config, ctx, true) + seq![
        keyword("slot"@, tag_snippet("slot"@)),
        keyword("block"@, tag_snippet("block"@)),
        keyword("include"@, "include"@ + " src=\"$0\" />"@),
        keyword("import"@, "import"@ + " src=\"$0\" />"@),
        keyword("template name"@, "template name=\"$1\">$0</template>"@),
    ] + template_is_items(ctx.template_names)
}

fn push_tag_item(items: &mut Vec<CompletionItem>, name: &String, deprecated: bool, with_snippet: bool)
    ensures
        items_view(final(items)@) == items_view(old(items)@).push(tag_item(name@, deprecated, with_snippet)),
{
    if with_snippet {
        let mut snippet = name.clone();
        push_str(&mut snippet, ">$0</");
        push_str(&mut snippet, name.as_str());
        push_str(&mut snippet, ">");
        push_item(items, name.clone(), CompletionItemKind::Class, Some(snippet), deprecated);
    } else {
        push_item(items, name.clone(), CompletionItemKind::Class, None, deprecated);
    }
}

fn push_tag_name_items(items: &mut Vec<CompletionItem>, config: &BackendConfig, ctx: &WxmlCompletionContext, with_snippet: bool)
    ensures
        items_view(final(items)@) == items_view(old(items)@) + tag_name_items(*config, *ctx, with_snippet),
{
    let ghost before = items_view(items@);
    let keys = &ctx.using_components;
    let mut i: usize = 0;
    proof {
        assert(views(keys@.take(0)) =~= Seq::<Seq<char>>::empty());
        assert(items_view(items@) =~= before + using_items(views(keys@.take(0)), with_snippet));
    }
    while i < keys.len()
        invariant
            i <= keys@.len(),
            items_view(items@) == before + using_items(views(keys@.take(i as int)), with_snippet),
        decreases keys@.len() - i,
    {
        proof {
            assert(views(keys@.take(i + 1)).drop_last() =~= views(keys@.take(i as int)));
            assert(views(keys@.take(i + 1)).last() == keys@[i as int]@);
        }
        if ident_is_valid(keys[i].as_str()) {
            push_tag_item(items, &keys[i], false, with_snippet);
        }
        proof {
            assert(items_view(items@) =~= before + using_items(views(keys@.take(i + 1)), with_snippet));
        }
        i = i + 1;
    }
    proof {
        assert(keys@.take(i as int) =~= keys@);
    }
    let ghost mid = items_view(items@);
    let mut j: usize = 0;
    while j < config.component.len()
        invariant
            j <= config.component@.len(),
            items_view(items@) == mid + component_items(config.component@.take(j as int), with_snippet),
        decreases config.component@.len() - j,
    {
        let c = &config.component[j];
        push_tag_item(items, &c.tag_name, c.deprecated, with_snippet);
        proof {
            assert(config.component@.take(j + 1) =~= config.component@.take(j as int).push(*c));
            assert(items_view(items@) =~= mid + component_items(config.component@.take(j + 1), with_snippet));
        }
        j = j + 1;
    }
    proof {
        assert(config.component@.take(j as int) =~= config.component@);
    }
    let ghost mid2 = items_view(items@);
    let mut k: usize = 0;
    while k < config.element.len()
        invariant
            k <= config.element@.len(),
            items_view(items@) == mid2 + element_items(config.element@.take(k as int), with_snippet),
        decreases config.element@.len() - k,
    {
        let e = &config.element[k];
        push_tag_item(items, &e.tag_name, e.deprecated, with_snippet);
        proof {
            assert(config.element@.take(k + 1) =~= config.element@.take(k as int).push(*e));
            assert(items_view(items@) =~= mid2 + element_items(config.element@.take(k + 1), with_snippet));
        }
        k = k + 1;
    }
    proof {
        assert(config.element@.take(k as int) =~= config.element@);
        assert(items_view(items@) =~= before + tag_name_items(*config, *ctx, with_snippet));
    }
}

fn push_template_is_items(items: &mut Vec<CompletionItem>, names: &Option<Vec<String>>)
    ensures
        items_view(final(items)@) == items_view(old(items)@) + template_is_items(*names),
{
    let ghost before = items_view(items@);
    if let Some(v) = names {
        if v.len() > 0 {
            let choices = join_names(v);
            push_keyword(items, "template is", choice_snippet("template is=\"", &choices, "\" data=\"{{ $0 }}\" />"));
        }
    }
    proof {
        assert(items_view(items@) =~= before + template_is_items(*names));
    }
}

fn push_src_keyword(items: &mut Vec<CompletionItem>, name: &str)
    ensures
        items_view(final(items)@) == items_view(old(items)@).push(keyword(name@, name@ + " src=\"$0\" />"@)),
{
    let mut snippet = string_of(name);
    push_str(&mut snippet, " src=\"$0\" />");
    push_keyword(items, name, snippet);
}

fn push_tag_keyword(items: &mut Vec<CompletionItem>, name: &str)
    ensures
        items_view(final(items)@) == items_view(old(items)@).push(keyword(name@, tag_snippet(name@))),
{
    let mut snippet = string_of(name);
    push_str(&mut snippet, ">$0</");
    push_str(&mut snippet, name);
    push_str(&mut snippet, ">");
    proof {
        assert(snippet@ =~= tag_snippet(name@));
    }
    push_keyword(items, name, snippet);
}

fn tag_open_completion(config: &BackendConfig, ctx: &WxmlCompletionContext) -> (r: Vec<CompletionItem>)
    ensures
        items_view(r@) == tag_open_items(*config, *ctx),
{
    let mut items: Vec<CompletionItem> = Vec::new();
    push_tag_name_items(&mut items, config, ctx, true);
    push_tag_keyword(&mut items, "slot");
    push_tag_keyword(&mut items, "block");
    push_src_keyword(&mut items, "include");
    push_src_keyword(&mut items, "import");
    push_keyword(&mut items, "template name", string_of("template name=\"$1\">$0</template>"));
    push_template_is_items(&mut items, &ctx.template_names);
    proof {
        assert(items_view(items@) =~= tag_open_items(*config, *ctx));
    }
    items
}


/// The items for the events that the element does not bind yet.
pub open spec fn event_items(evs: Seq<EventConfig>, taken: spec_fn(Seq<char>) -> bool) -> Seq<ItemView>
    decreases evs.len(),
{
    if evs.len() == 0 {
        Seq::empty()
    } else {
        let rest = event_items(evs.drop_last(), taken);
        if taken(evs.last().name@) {
            rest
        } else {
            rest.push(plain(evs.last().name@, CompletionItemKind::Variable, evs.last().deprecated))
        }
    }
}

/// The event name completion of an element: the events of its tag (the global events for a
/// `slot`) that it does not bind yet; nothing for other elements.
pub open spec fn event_name_completion(config: BackendConfig, e: Element) -> Seq<ItemView> {
    match e.kind {
        ElementKind::Normal { tag_name, common, .. } => event_items(tag_events(config, tag_name.name@), bindings_have(common.event_bindings@)),
        ElementKind::Slot { common, .. } => event_items(config.global_event@, bindings_have(common.event_bindings@)),
        _ => Seq::empty(),
    }
}

fn push_event_items(items: &mut Vec<CompletionItem>, list: &Vec<&EventConfig>, Ghost(evs): Ghost<Seq<EventConfig>>, bindings: &Vec<EventBinding>)
    requires
        list@.len() == evs.len(),
        forall|i: int| 0 <= i < evs.len() ==> *list@[i] == evs[i],
    ensures
        items_view(final(items)@) == items_view(old(items)@) + event_items(evs, bindings_have(bindings@)),
{
    let ghost before = items_view(items@);
    let t = Taken::Events(bindings);
    let mut i: usize = 0;
    proof {
        assert(evs.take(0) =~= Seq::<EventConfig>::empty());
        assert(items_view(items@) =~= before + event_items(evs.take(0), bindings_have(bindings@)));
    }
    while i < list.len()
        invariant
            i <= evs.len(),
            list@.len() == evs.len(),
            forall|j: int| 0 <= j < evs.len() ==> *list@[j] == evs[j],
            t == Taken::Events(bindings),
            items_view(items@) == before + event_items(evs.take(i as int), bindings_have(bindings@)),
        decreases evs.len() - i,
    {
        let ev: &EventConfig = list[i];
        proof {
            assert(evs.take(i + 1).drop_last() =~= evs.take(i as int));
            assert(evs.take(i + 1).last() == *ev);
        }
        if !is_taken(&t, ev.name.as_str()) {
            push_item(items, ev.name.clone(), CompletionItemKind::Variable, None, ev.deprecated);
        }
        proof {
            assert(items_view(items@) =~= before + event_items(evs.take(i + 1), bindings_have(bindings@)));
        }
        i = i + 1;
    }
    proof {
        assert(evs.take(i as int) =~= evs);
    }
}

fn event_name_items(config: &BackendConfig, e: &Element) -> (r: Vec<CompletionItem>)
    ensures
        items_view(r@) == event_name_completion(*config, *e),
{
    let mut items: Vec<CompletionItem> = Vec::new();
    match &e.kind {
        ElementKind::Normal { tag_name, common, .. } => {
            let evs = events_of_tag(config, tag_name.name.as_str());
            push_event_items(&mut items, &evs, Ghost(tag_events(*config, tag_name.name@)), &common.event_bindings);
        },
        ElementKind::Slot { common, .. } => {
            let evs = config.list_global_events();
            push_event_items(&mut items, &evs, Ghost(config.global_event@), &common.event_bindings);
        },
        _ => {},
    }
    proof {
        assert(items_view(items@) =~= event_name_completion(*config, *e));
    }
    items
}

/// The classes of the style sheets that the element's `class:` list does not name yet.
pub open spec fn class_name_completion(classes: Seq<Seq<char>>, class: ClassAttribute) -> Seq<ItemView> {
    names_without(classes, class_has(class)).map_values(|n: Seq<char>| plain(n, CompletionItemKind::Property, false))
}

fn class_name_items(classes: &Vec<String>, class: &ClassAttribute) -> (r: Vec<CompletionItem>)
    ensures
        items_view(r@) == class_name_completion(views(classes@), *class),
{
    let rest = untaken(classes, &Taken::Class(class));
    let mut items: Vec<CompletionItem> = Vec::new();
    let mut i: usize = 0;
    while i < rest.len()
        invariant
            i <= rest@.len(),
            items_view(items@) == views(rest@.take(i as int)).map_values(|n: Seq<char>| plain(n, CompletionItemKind::Property, false)),
        decreases rest@.len() - i,
    {
        let ghost prev = items_view(items@);
        push_item(&mut items, rest[i].clone(), CompletionItemKind::Property, None, false);
        proof {
            assert(views(rest@.take(i + 1)) =~= views(rest@.take(i as int)).push(rest@[i as int]@));
            assert(items_view(items@) =~= views(rest@.take(i + 1)).map_values(|n: Seq<char>| plain(n, CompletionItemKind::Property, false)));
        }
        i = i + 1;
    }
    proof {
        assert(rest@.take(i as int) =~= rest@);
    }
    items
}

/// The value options of the property of a built-in component, or else of the attribute of a
/// native element; `None` when neither exists.
pub open spec fn value_option_completion(config: BackendConfig, tag: Seq<char>, name: Seq<char>) -> Option<Seq<ItemView>> {
    let a = match property_of(config, tag, name) {
        Some(a) => Some(a),
        None => attribute_of(config, tag, name),
    };
    match a {
        Some(a) => Some(a.value_option@.map_values(|v: ValueOption| plain(v.value@, CompletionItemKind::EnumMember, v.deprecated))),
        None => None,
    }
}

fn value_option_items(config: &BackendConfig, tag: &str, name: &str) -> (r: Option<Vec<CompletionItem>>)
    ensures
        match value_option_completion(*config, tag@, name@) {
            Some(v) => r matches Some(items) && items_view(items@) == v,
            None => r is None,
        },
{
    let a = match config.search_property(tag, name) {
        Some(a) => a,
        None => match config.search_attribute(tag, name) {
            Some(a) => a,
            None => return None,
        },
    };
    let mut items: Vec<CompletionItem> = Vec::new();
    let mut i: usize = 0;
    while i < a.value_option.len()
        invariant
            i <= a.value_option@.len(),
            items_view(items@) == a.value_option@.take(i as int).map_values(
                |v: ValueOption| plain(v.value@, CompletionItemKind::EnumMember, v.deprecated),
            ),
        decreases a.value_option@.len() - i,
    {
        let o = &a.value_option[i];
        push_item(&mut items, o.value.clone(), CompletionItemKind::EnumMember, None, o.deprecated);
        proof {
            assert(a.value_option@.take(i + 1) =~= a.value_option@.take(i as int).push(*o));
            assert(items_view(items@) =~= a.value_option@.take(i + 1).map_values(
                |v: ValueOption| plain(v.value@, CompletionItemKind::EnumMember, v.deprecated),
            ));
        }
        i = i + 1;
    }
    proof {
        assert(a.value_option@.take(i as int) =~= a.value_option@);
    }
    Some(items)
}

/// Whether the text from `start` to `pos` ends with `<`; `None` where that slice of the text
/// does not exist (it would end before it starts, or past the end of the text).
pub open spec fn ends_with_lt(c: &FileContentMetadata, start: Position, pos: Position) -> Option<bool> {
    let a = c.index_for(start.line as int, start.utf16_col as int);
    let b = c.index_for(pos.line as int, pos.utf16_col as int);
    if a > b || b > c.bytes().len() {
        None
    } else {
        Some(a < b && c.bytes()[b - 1] == 60u8)
    }
}

/// Whether the text from `start` to `pos` ends with `<`.
pub fn text_ends_with_lt(c: &FileContentMetadata, start: Position, pos: Position) -> (r: Option<bool>)
    requires
        c.wf(),
    ensures
        r == ends_with_lt(c, start, pos),
{
    let a = c.content_index_for_line_utf16_col(start.line, start.utf16_col);
    let b = c.content_index_for_line_utf16_col(pos.line, pos.utf16_col);
    let bytes = c.content.as_str().as_bytes();
    if a > b || b > bytes.len() {
        return None;
    }
    Some(a < b && bytes[b - 1] == 60u8)
}


/// The completion of a token of a template: after a `<` in text, the tags and the template
/// keywords (and none where the text from the start of the text token to the position
/// cannot be sliced); in a closing tag, the ordinary element's tag name; for a tag
/// name, the tags; in an opening tag, for an attribute name or keyword, the element's
/// attributes (after `model:` or `change:`, without those two prefixes); for a class name,
/// the classes of the style sheets that the element does not name yet; for an event name,
/// the events it does not bind yet; for a static attribute value, the value options of the
/// property or attribute; for a template reference, the `template is` item. `None` for other
/// tokens.
pub open spec fn spec_completion_wxml(
    config: BackendConfig,
    content: &FileContentMetadata,
    token: WxmlTokenRef,
    pos: Position,
    ctx: WxmlCompletionContext,
) -> Option<Seq<ItemView>> {
    match token {
        WxmlTokenRef::StaticTextContent(loc, _, _) => if ends_with_lt(content, loc.start, pos) == Some(true) {
            Some(tag_open_items(config, ctx))
        } else {
            None
        },
        WxmlTokenRef::EndTagBody(e) => match e.kind {
            ElementKind::Normal { tag_name, .. } => Some(seq![plain(tag_name.name@ + ">"@, CompletionItemKind::Class, false)]),
            _ => None,
        },
        WxmlTokenRef::TagName(_) => Some(tag_name_items(config, ctx, false)),
        WxmlTokenRef::StartTagBody(e) => Some(attr_completion(config, ctx, *e, false)),
        WxmlTokenRef::AttributeName(_, e) => Some(attr_completion(config, ctx, *e, false)),
        WxmlTokenRef::AttributeKeyword(_, e) => Some(attr_completion(config, ctx, *e, false)),
        WxmlTokenRef::ModelAttributeName(_, e) => Some(attr_completion(config, ctx, *e, true)),
        WxmlTokenRef::StaticClassName(_, _, e) => match e.kind {
            ElementKind::Normal { class, .. } => Some(class_name_completion(views(ctx.wxss_classes@), class)),
            _ => None,
        },
        WxmlTokenRef::EventName(_, e) => Some(event_name_completion(config, *e)),
        WxmlTokenRef::AttributeStaticValue(_, _, name, e) => match e.kind {
            ElementKind::Normal { tag_name, .. } => value_option_completion(config, tag_name.name@, name.name@),
            _ => None,
        },
        WxmlTokenRef::TemplateRef(_, _) => Some(template_is_items(ctx.template_names)),
        _ => None,
    }
}

/// The completion list of a token of a template at `pos`, as `spec_completion_wxml` states.
pub fn completion_wxml(
    config: &BackendConfig,
    content: &FileContentMetadata,
    token: &WxmlTokenRef,
    pos: Position,
    ctx: &WxmlCompletionContext,
) -> (r: Option<Vec<CompletionItem>>)
    requires
        content.wf(),
    ensures
        match spec_completion_wxml(*config, content, *token, pos, *ctx) {
            Some(v) => r matches Some(items) && items_view(items@) == v,
            None => r is None,
        },
{
    match token {
        WxmlTokenRef::StaticTextContent(loc, _, _) => {
            match text_ends_with_lt(content, loc.start, pos) {
                Some(true) => Some(tag_open_completion(config, ctx)),
                _ => None,
            }
        },
        WxmlTokenRef::EndTagBody(e) => match &e.kind {
            ElementKind::Normal { tag_name, .. } => {
                let mut label = tag_name.name.clone();
                push_str(&mut label, ">");
                let mut items: Vec<CompletionItem> = Vec::new();
                push_item(&mut items, label, CompletionItemKind::Class, None, false);
                proof {
                    assert(items_view(items@) =~= seq![plain(tag_name.name@ + ">"@, CompletionItemKind::Class, false)]);
                }
                Some(items)
            },
            _ => None,
        },
        WxmlTokenRef::TagName(_) => {
            let mut items: Vec<CompletionItem> = Vec::new();
            push_tag_name_items(&mut items, config, ctx, false);
            proof {
                assert(items_view(items@) =~= tag_name_items(*config, *ctx, false));
            }
            Some(items)
        },
        WxmlTokenRef::StartTagBody(e) => Some(attr_completion_items(config, ctx, e, false)),
        WxmlTokenRef::AttributeName(_, e) => Some(attr_completion_items(config, ctx, e, false)),
        WxmlTokenRef::AttributeKeyword(_, e) => Some(attr_completion_items(config, ctx, e, false)),
        WxmlTokenRef::ModelAttributeName(_, e) => Some(attr_completion_items(config, ctx, e, true)),
        WxmlTokenRef::StaticClassName(_, _, e) => match &e.kind {
            ElementKind::Normal { class, .. } => Some(class_name_items(&ctx.wxss_classes, class)),
            _ => None,
        },
        WxmlTokenRef::EventName(_, e) => Some(event_name_items(config, e)),
        WxmlTokenRef::AttributeStaticValue(_, _, name, e) => match &e.kind {
            ElementKind::Normal { tag_name, .. } => value_option_items(config, tag_name.name.as_str(), name.name.as_str()),
            _ => None,
        },
        WxmlTokenRef::TemplateRef(_, _) => {
            let mut items: Vec<CompletionItem> = Vec::new();
            push_template_is_items(&mut items, &ctx.template_names);
            proof {
                assert(items_view(items@) =~= template_is_items(ctx.template_names));
            }
            Some(items)
        },
        _ => None,
    }
}


proof fn lemma_attr_config_items_untaken(s: Seq<AttributeConfig>, taken: spec_fn(Seq<char>) -> bool, boolean_plain: bool)
    ensures
        forall|i: int| 0 <= i < attr_config_items(s, taken, boolean_plain).len() ==> {
            let item = #[trigger] attr_config_items(s, taken, boolean_plain)[i];
            !taken(item.0) && item.1 == CompletionItemKind::Variable
        },
    decreases s.len(),
{
    if s.len() > 0 {
        lemma_attr_config_items_untaken(s.drop_last(), taken, boolean_plain);
    }
}

proof fn lemma_event_items_untaken(evs: Seq<EventConfig>, taken: spec_fn(Seq<char>) -> bool)
    ensures
        forall|i: int| 0 <= i < event_items(evs, taken).len() ==> !taken((#[trigger] event_items(evs, taken)[i]).0),
    decreases evs.len(),
{
    if evs.len() > 0 {
        lemma_event_items_untaken(evs.drop_last(), taken);
        let rest = event_items(evs.drop_last(), taken);
        assert forall|i: int| 0 <= i < event_items(evs, taken).len() implies !taken((#[trigger] event_items(evs, taken)[i]).0) by {
            if i < rest.len() {
                assert(event_items(evs, taken)[i] == rest[i]);
            }
        }
    }
}

/// Completion offers no name that an ordinary element already uses: each attribute or property
/// item (the items of kind `Variable` among its attribute items) names no attribute or
/// `change:` attribute of the element, and each event name item names no event it binds.
pub proof fn lemma_used_names_not_offered(config: BackendConfig, custom: bool, e: Element, has_prefix: bool)
    ensures
        match e.kind {
            ElementKind::Normal { tag_name, attributes, change_attributes, common, .. } => {
                let attr_items = attribute_items(config, tag_name.name@, custom, attrs_have(attributes@, change_attributes@), has_prefix);
                let event_items = event_name_completion(config, e);
                &&& forall|i: int| 0 <= i < attr_items.len() && (#[trigger] attr_items[i]).1 == CompletionItemKind::Variable
                    ==> !attrs_have(attributes@, change_attributes@)(attr_items[i].0)
                &&& forall|i: int| 0 <= i < event_items.len() ==> !bindings_have(common.event_bindings@)((#[trigger] event_items[i]).0)
            },
            _ => true,
        },
{
    match e.kind {
        ElementKind::Normal { tag_name, attributes, change_attributes, common, .. } => {
            let taken = attrs_have(attributes@, change_attributes@);
            let tag = tag_name.name@;
            lemma_event_items_untaken(tag_events(config, tag), bindings_have(common.event_bindings@));
            if !custom {
                let list_and_plain = match first_index(config.component@, tag_is_component(tag), 0) {
                    Some(c) => Some((config.component@[c].property@ + config.global_attribute@, true)),
                    None => match first_index(config.element@, tag_is_element(tag), 0) {
                        Some(el) => Some((config.element@[el].attribute@ + config.global_attribute@, false)),
                        None => None,
                    },
                };
                match list_and_plain {
                    Some((list, bp)) => {
                        lemma_attr_config_items_untaken(list, taken, bp);
                        let first = attr_config_items(list, taken, bp);
                        let rest = if has_prefix {
                            Seq::<ItemView>::empty()
                        } else {
                            binding_prefix_items(comma_joined(names_without(attr_names(list), taken)))
                        };
                        assert(forall|j: int| 0 <= j < rest.len() ==> (#[trigger] rest[j]).1 == CompletionItemKind::Keyword);
                        assert(attribute_items(config, tag, custom, taken, has_prefix) == first + rest);
                        assert forall|i: int|
                            0 <= i < (first + rest).len() && (#[trigger] (first + rest)[i]).1 == CompletionItemKind::Variable implies !taken(
                            (first + rest)[i].0,
                        ) by {
                            if i >= first.len() {
                                assert((first + rest)[i] == rest[i - first.len()]);
                            }
                        }
                    },
                    None => {},
                }
            }
        },
        _ => {},
    }
}

} // verus!
