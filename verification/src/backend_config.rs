//! The backend configuration: the elements, components, attributes, events and style-sheet
//! vocabulary that the editor features describe, and the lookups into it.

use vstd::prelude::*;
use crate::text::{debug_quoted, debug_str, decimal, push_decimal, push_str, str_chars, str_eq, string_push};

verus! {

#[derive(Debug)]
pub struct BackendConfig {
    pub glass_easel_backend_config: GlassEaselBackendConfig,
    pub element: Vec<ElementConfig>,
    pub component: Vec<ComponentConfig>,
    pub global_attribute: Vec<AttributeConfig>,
    pub global_event: Vec<EventConfig>,
    pub media_type: Vec<MediaTypeConfig>,
    pub media_feature: Vec<MediaFeatureConfig>,
    pub pseudo_class: Vec<PseudoClassConfig>,
    pub pseudo_element: Vec<PseudoElementConfig>,
    pub style_property: Vec<StylePropertyConfig>,
}

/// The name and version of the configuration.
#[derive(Debug)]
pub struct GlassEaselBackendConfig {
    pub name: String,
    pub description: String,
    pub major_version: u32,
    pub minor_version: u32,
}

/// A native element: its tag name, its documentation and reference URL, its attributes and
/// events.
#[derive(Debug)]
pub struct ElementConfig {
    pub tag_name: String,
    pub description: String,
    pub reference: Option<String>,
    pub attribute: Vec<AttributeConfig>,
    pub event: Vec<EventConfig>,
    pub deprecated: bool,
}

#[derive(Debug)]
pub struct AttributeConfig {
    pub name: String,
    pub ty: String,
    pub description: String,
    pub reference: Option<String>,
    pub value_option: Vec<ValueOption>,
    pub deprecated: bool,
}

/// A built-in component: like an element, with properties in place of attributes.
#[derive(Debug)]
pub struct ComponentConfig {
    pub tag_name: String,
    pub description: String,
    pub reference: Option<String>,
    pub property: Vec<AttributeConfig>,
    pub event: Vec<EventConfig>,
    pub deprecated: bool,
}

#[derive(Debug)]
pub struct ValueOption {
    pub value: String,
    pub description: String,
    pub deprecated: bool,
}

#[derive(Debug)]
pub struct EventConfig {
    pub name: String,
    pub description: String,
    pub reference: Option<String>,
    pub deprecated: bool,
}

#[derive(Debug)]
pub struct MediaTypeConfig {
    pub name: String,
    pub description: String,
    pub reference: Option<String>,
}

/// Whether a media feature takes any value or a range (and so also has `min-` and `max-`
/// forms).
#[derive(Debug, Clone, Copy, PartialEq, Eq, Structural)]
pub enum MediaFeatureType {
    Any,
    Range,
}

#[derive(Debug)]
pub struct MediaFeatureConfig {
    pub name: String,
    pub ty: MediaFeatureType,
    pub options: Vec<String>,
    pub description: String,
    pub reference: Option<String>,
}

#[derive(Debug)]
pub struct PseudoClassConfig {
    pub name: String,
    pub description: String,
    pub reference: Option<String>,
}

#[derive(Debug)]
pub struct PseudoElementConfig {
    pub name: String,
    pub description: String,
    pub reference: Option<String>,
}

#[derive(Debug)]
pub struct StylePropertyConfig {
    pub name: String,
    pub options: Vec<String>,
    pub description: String,
    pub reference: Option<String>,
}

/// The position of the first item of `s` from `i` on that satisfies `p`.
pub open spec fn first_index<T>(s: Seq<T>, p: spec_fn(T) -> bool, i: int) -> Option<int>
    decreases s.len() - i,
{
    if i < 0 || i >= s.len() {
        None
    } else if p(s[i]) {
        Some(i)
    } else {
        first_index(s, p, i + 1)
    }
}

/// The first item of `s` that satisfies `p`.
pub open spec fn first_match<T>(s: Seq<T>, p: spec_fn(T) -> bool) -> Option<T> {
    match first_index(s, p, 0) {
        Some(i) => Some(s[i]),
        None => None,
    }
}

/// What the configuration's major version means: an older one may be problematic, a newer one
/// is refused.
#[derive(Debug, Clone, Copy, PartialEq, Eq, Structural)]
pub enum VersionCheck {
    Outdated,
    Supported,
    TooNew,
}

/// Checks the major version of a configuration; this crate reads version 1.
pub fn check_major_version(major_version: u32) -> (r: VersionCheck)
    ensures
        major_version < 1 ==> r == VersionCheck::Outdated,
        major_version == 1 ==> r == VersionCheck::Supported,
        major_version > 1 ==> r == VersionCheck::TooNew,
{
    if major_version < 1 {
        VersionCheck::Outdated
    } else if major_version > 1 {
        VersionCheck::TooNew
    } else {
        VersionCheck::Supported
    }
}

/// The first attribute of `list` named `name`.
fn find_attribute<'a>(list: &'a Vec<AttributeConfig>, name: &str) -> (r: Option<&'a AttributeConfig>)
    ensures
        match first_index(list@, attribute_named(name@), 0) {
            Some(i) => r == Some(&list@[i]),
            None => r is None,
        },
{
    let ghost p = attribute_named(name@);
    let mut i: usize = 0;
    while i < list.len()
        invariant
            i <= list@.len(),
            p == attribute_named(name@),
            first_index(list@, p, 0) == first_index(list@, p, i as int),
        decreases list@.len() - i,
    {
        if str_eq(list[i].name.as_str(), name) {
            return Some(&list[i]);
        }
        i = i + 1;
    }
    None
}

/// The first event of `list` named `name`.
fn find_event<'a>(list: &'a Vec<EventConfig>, name: &str) -> (r: Option<&'a EventConfig>)
    ensures
        match first_index(list@, event_named(name@), 0) {
            Some(i) => r == Some(&list@[i]),
            None => r is None,
        },
{
    let ghost p = event_named(name@);
    let mut i: usize = 0;
    while i < list.len()
        invariant
            i <= list@.len(),
            p == event_named(name@),
            first_index(list@, p, 0) == first_index(list@, p, i as int),
        decreases list@.len() - i,
    {
        if str_eq(list[i].name.as_str(), name) {
            return Some(&list[i]);
        }
        i = i + 1;
    }
    None
}

/// Searching a concatenation searches the first part, then the second.
pub proof fn lemma_first_index_concat<T>(a: Seq<T>, b: Seq<T>, p: spec_fn(T) -> bool, i: int)
    requires
        0 <= i <= a.len(),
    ensures
        first_index(a + b, p, i) == match first_index(a, p, i) {
            Some(j) => Some(j),
            None => match first_index(b, p, 0) {
                Some(j) => Some(j + a.len()),
                None => None,
            },
        },
    decreases a.len() + b.len() - i,
{
    if i < a.len() {
        assert((a + b)[i] == a[i]);
        lemma_first_index_concat(a, b, p, i + 1);
    } else {
        lemma_first_index_shift(a, b, p, 0);
    }
}

proof fn lemma_first_index_shift<T>(a: Seq<T>, b: Seq<T>, p: spec_fn(T) -> bool, j: int)
    requires
        0 <= j <= b.len(),
    ensures
        first_index(a + b, p, a.len() + j) == match first_index(b, p, j) {
            Some(k) => Some(k + a.len()),
            None => None,
        },
    decreases b.len() - j,
{
    if j < b.len() {
        assert((a + b)[a.len() + j] == b[j]);
        lemma_first_index_shift(a, b, p, j + 1);
    }
}

/// A found position satisfies the predicate, and nothing before it does.
pub proof fn lemma_first_index_found<T>(s: Seq<T>, p: spec_fn(T) -> bool, i: int)
    requires
        0 <= i,
    ensures
        first_index(s, p, i) matches Some(k) ==> i <= k < s.len() && p(s[k]),
    decreases s.len() - i,
{
    if i < s.len() && !p(s[i]) {
        lemma_first_index_found(s, p, i + 1);
    }
}

/// The item at the first position of `a + b` that satisfies `p`.
pub open spec fn first_in_chain<T>(a: Seq<T>, b: Seq<T>, p: spec_fn(T) -> bool) -> Option<T> {
    match first_index(a + b, p, 0) {
        Some(i) => Some((a + b)[i]),
        None => None,
    }
}

/// The value behind an optional reference.
pub open spec fn opt_deref<T>(r: Option<&T>) -> Option<T> {
    match r {
        Some(a) => Some(*a),
        None => None,
    }
}

/// References to the items of `a` and then of `b`.
fn chain_refs<'a, T>(a: &'a Vec<T>, b: &'a Vec<T>) -> (r: Vec<&'a T>)
    ensures
        r@.len() == a@.len() + b@.len(),
        forall|i: int| 0 <= i < r@.len() ==> *r@[i] == (a@ + b@)[i],
{
    let mut r: Vec<&'a T> = Vec::new();
    let mut i: usize = 0;
    while i < a.len()
        invariant
            i <= a@.len(),
            r@.len() == i,
            forall|t: int| 0 <= t < i ==> *r@[t] == a@[t],
        decreases a@.len() - i,
    {
        r.push(&a[i]);
        i = i + 1;
    }
    let mut j: usize = 0;
    while j < b.len()
        invariant
            j <= b@.len(),
            r@.len() == a@.len() + j,
            forall|t: int| 0 <= t < a@.len() ==> *r@[t] == a@[t],
            forall|t: int| 0 <= t < j ==> *r@[a@.len() + t] == b@[t],
        decreases b@.len() - j,
    {
        r.push(&b[j]);
        j = j + 1;
    }
    r
}

pub open spec fn tag_is_element(tag_name: Seq<char>) -> spec_fn(ElementConfig) -> bool {
    |x: ElementConfig| x.tag_name@ == tag_name
}

pub open spec fn tag_is_component(tag_name: Seq<char>) -> spec_fn(ComponentConfig) -> bool {
    |x: ComponentConfig| x.tag_name@ == tag_name
}

pub open spec fn attribute_named(name: Seq<char>) -> spec_fn(AttributeConfig) -> bool {
    |x: AttributeConfig| x.name@ == name
}

pub open spec fn event_named(name: Seq<char>) -> spec_fn(EventConfig) -> bool {
    |x: EventConfig| x.name@ == name
}

impl BackendConfig {
    /// The first element with the tag name.
    pub fn search_element(&self, tag_name: &str) -> (r: Option<&ElementConfig>)
        ensures
            match first_index(self.element@, tag_is_element(tag_name@), 0) {
                Some(i) => r == Some(&self.element@[i]),
                None => r is None,
            },
    {
        let ghost p = tag_is_element(tag_name@);
        let mut i: usize = 0;
        while i < self.element.len()
            invariant
                i <= self.element@.len(),
                p == tag_is_element(tag_name@),
                first_index(self.element@, p, 0) == first_index(self.element@, p, i as int),
            decreases self.element@.len() - i,
        {
            if str_eq(self.element[i].tag_name.as_str(), tag_name) {
                return Some(&self.element[i]);
            }
            i = i + 1;
        }
        None
    }

    /// The first component with the tag name.
    pub fn search_component(&self, tag_name: &str) -> (r: Option<&ComponentConfig>)
        ensures
            match first_index(self.component@, tag_is_component(tag_name@), 0) {
                Some(i) => r == Some(&self.component@[i]),
                None => r is None,
            },
    {
        let ghost p = tag_is_component(tag_name@);
        let mut i: usize = 0;
        while i < self.component.len()
            invariant
                i <= self.component@.len(),
                p == tag_is_component(tag_name@),
                first_index(self.component@, p, 0) == first_index(self.component@, p, i as int),
            decreases self.component@.len() - i,
        {
            if str_eq(self.component[i].tag_name.as_str(), tag_name) {
                return Some(&self.component[i]);
            }
            i = i + 1;
        }
        None
    }

    /// The first attribute with the name among those of the element with the tag name (the
    /// first such element) and then the global attributes; `None` for an unknown element.
    pub fn search_attribute(&self, tag_name: &str, attr_name: &str) -> (r: Option<&AttributeConfig>)
        ensures
            opt_deref(r) == match first_index(self.element@, tag_is_element(tag_name@), 0) {
                None => None,
                Some(e) => first_in_chain(
                    self.element@[e].attribute@,
                    self.global_attribute@,
                    attribute_named(attr_name@),
                ),
            },
    {
        let elem = match self.search_element(tag_name) {
            Some(e) => e,
            None => return None,
        };
        self.search_in_chain(&elem.attribute, attr_name)
    }

    /// The first attribute with the name in `first` and then among the global attributes.
    fn search_in_chain<'a>(&'a self, first: &'a Vec<AttributeConfig>, attr_name: &str) -> (r: Option<&'a AttributeConfig>)
        ensures
            opt_deref(r) == first_in_chain(first@, self.global_attribute@, attribute_named(attr_name@)),
    {
        proof {
            let p = attribute_named(attr_name@);
            lemma_first_index_concat(first@, self.global_attribute@, p, 0);
            lemma_first_index_found(first@, p, 0);
            lemma_first_index_found(self.global_attribute@, p, 0);
        }
        match find_attribute(first, attr_name) {
            Some(a) => Some(a),
            None => find_attribute(&self.global_attribute, attr_name),
        }
    }

    /// The first event with the name in `first` and then among the global events.
    fn search_event_in_chain<'a>(&'a self, first: &'a Vec<EventConfig>, event_name: &str) -> (r: Option<&'a EventConfig>)
        ensures
            opt_deref(r) == first_in_chain(first@, self.global_event@, event_named(event_name@)),
    {
        proof {
            let p = event_named(event_name@);
            lemma_first_index_concat(first@, self.global_event@, p, 0);
            lemma_first_index_found(first@, p, 0);
            lemma_first_index_found(self.global_event@, p, 0);
        }
        match find_event(first, event_name) {
            Some(a) => Some(a),
            None => find_event(&self.global_event, event_name),
        }
    }

    /// The first property with the name among those of the component with the tag name and then
    /// the global attributes; `None` for an unknown component.
    pub fn search_property(&self, tag_name: &str, attr_name: &str) -> (r: Option<&AttributeConfig>)
        ensures
            opt_deref(r) == match first_index(self.component@, tag_is_component(tag_name@), 0) {
                None => None,
                Some(c) => first_in_chain(
                    self.component@[c].property@,
                    self.global_attribute@,
                    attribute_named(attr_name@),
                ),
            },
    {
        let comp = match self.search_component(tag_name) {
            Some(c) => c,
            None => return None,
        };
        self.search_in_chain(&comp.property, attr_name)
    }

    /// The attributes of the element with the tag name, then the global attributes; `None` for
    /// an unknown element.
    pub fn list_attributes(&self, tag_name: &str) -> (r: Option<Vec<&AttributeConfig>>)
        ensures
            match first_index(self.element@, tag_is_element(tag_name@), 0) {
                None => r is None,
                Some(e) => r matches Some(v) && v@.len() == self.element@[e].attribute@.len()
                    + self.global_attribute@.len() && forall|i: int| 0 <= i < v@.len() ==> *v@[i]
                    == (self.element@[e].attribute@ + self.global_attribute@)[i],
            },
    {
        let elem = match self.search_element(tag_name) {
            Some(e) => e,
            None => return None,
        };
        Some(chain_refs(&elem.attribute, &self.global_attribute))
    }

    /// The properties of the component with the tag name, then the global attributes; `None`
    /// for an unknown component.
    pub fn list_properties(&self, tag_name: &str) -> (r: Option<Vec<&AttributeConfig>>)
        ensures
            match first_index(self.component@, tag_is_component(tag_name@), 0) {
                None => r is None,
                Some(c) => r matches Some(v) && v@.len() == self.component@[c].property@.len()
                    + self.global_attribute@.len() && forall|i: int| 0 <= i < v@.len() ==> *v@[i]
                    == (self.component@[c].property@ + self.global_attribute@)[i],
            },
    {
        let comp = match self.search_component(tag_name) {
            Some(c) => c,
            None => return None,
        };
        Some(chain_refs(&comp.property, &self.global_attribute))
    }

    /// The first global event with the name.
    pub fn search_global_event(&self, event_name: &str) -> (r: Option<&EventConfig>)
        ensures
            match first_index(self.global_event@, event_named(event_name@), 0) {
                Some(i) => r == Some(&self.global_event@[i]),
                None => r is None,
            },
    {
        find_event(&self.global_event, event_name)
    }

    /// The first event with the name among those of the element with the tag name and then the
    /// global events; `None` for an unknown element.
    pub fn search_element_event(&self, tag_name: &str, event_name: &str) -> (r: Option<&EventConfig>)
        ensures
            opt_deref(r) == match first_index(self.element@, tag_is_element(tag_name@), 0) {
                None => None,
                Some(e) => first_in_chain(self.element@[e].event@, self.global_event@, event_named(event_name@)),
            },
    {
        let elem = match self.search_element(tag_name) {
            Some(e) => e,
            None => return None,
        };
        self.search_event_in_chain(&elem.event, event_name)
    }

    /// The first event with the name among those of the component with the tag name and then
    /// the global events; `None` for an unknown component.
    pub fn search_component_event(&self, tag_name: &str, event_name: &str) -> (r: Option<&EventConfig>)
        ensures
            opt_deref(r) == match first_index(self.component@, tag_is_component(tag_name@), 0) {
                None => None,
                Some(c) => first_in_chain(self.component@[c].event@, self.global_event@, event_named(event_name@)),
            },
    {
        let comp = match self.search_component(tag_name) {
            Some(c) => c,
            None => return None,
        };
        self.search_event_in_chain(&comp.event, event_name)
    }

    /// The event of a component when the tag name is a component's, and of an element otherwise.
    pub fn search_event(&self, tag_name: &str, event_name: &str) -> (r: Option<&EventConfig>)
        ensures
            opt_deref(r) == match first_index(self.component@, tag_is_component(tag_name@), 0) {
                Some(c) => first_in_chain(self.component@[c].event@, self.global_event@, event_named(event_name@)),
                None => match first_index(self.element@, tag_is_element(tag_name@), 0) {
                    None => None,
                    Some(e) => first_in_chain(self.element@[e].event@, self.global_event@, event_named(event_name@)),
                },
            },
    {
        if self.search_component(tag_name).is_some() {
            self.search_component_event(tag_name, event_name)
        } else {
            self.search_element_event(tag_name, event_name)
        }
    }

    /// The global events.
    pub fn list_global_events(&self) -> (r: Vec<&EventConfig>)
        ensures
            r@.len() == self.global_event@.len(),
            forall|i: int| 0 <= i < r@.len() ==> *r@[i] == self.global_event@[i],
    {
        let mut r: Vec<&EventConfig> = Vec::new();
        let mut i: usize = 0;
        while i < self.global_event.len()
            invariant
                i <= self.global_event@.len(),
                r@.len() == i,
                forall|t: int| 0 <= t < i ==> *r@[t] == self.global_event@[t],
            decreases self.global_event@.len() - i,
        {
            r.push(&self.global_event[i]);
            i = i + 1;
        }
        r
    }

    /// The events of the component with the tag name, or else of the element with the tag name,
    /// then the global events; `None` when the tag name is neither.
    pub fn list_events(&self, tag_name: &str) -> (r: Option<Vec<&EventConfig>>)
        ensures
            match first_index(self.component@, tag_is_component(tag_name@), 0) {
                Some(c) => r matches Some(v) && v@.len() == self.component@[c].event@.len()
                    + self.global_event@.len() && forall|i: int| 0 <= i < v@.len() ==> *v@[i]
                    == (self.component@[c].event@ + self.global_event@)[i],
                None => match first_index(self.element@, tag_is_element(tag_name@), 0) {
                    None => r is None,
                    Some(e) => r matches Some(v) && v@.len() == self.element@[e].event@.len()
                        + self.global_event@.len() && forall|i: int| 0 <= i < v@.len() ==> *v@[i]
                        == (self.element@[e].event@ + self.global_event@)[i],
                },
            },
    {
        if let Some(comp) = self.search_component(tag_name) {
            Some(chain_refs(&comp.event, &self.global_event))
        } else if let Some(elem) = self.search_element(tag_name) {
            Some(chain_refs(&elem.event, &self.global_event))
        } else {
            None
        }
    }
}


pub open spec fn ascii_upper(c: char) -> char {
    if 'a' <= c && c <= 'z' {
        ((c as u32) - 32) as char
    } else {
        c
    }
}

/// A dashed name in camel case: each `-` dropped and the character after it made upper case.
pub open spec fn dash_to_camel_from(s: Seq<char>, next_upper: bool) -> Seq<char>
    decreases s.len(),
{
    if s.len() == 0 {
        Seq::empty()
    } else if s[0] == '-' {
        dash_to_camel_from(s.drop_first(), true)
    } else if next_upper {
        seq![ascii_upper(s[0])] + dash_to_camel_from(s.drop_first(), false)
    } else {
        seq![s[0]] + dash_to_camel_from(s.drop_first(), false)
    }
}

pub open spec fn dash_to_camel(s: Seq<char>) -> Seq<char> {
    dash_to_camel_from(s, false)
}

/// The ASCII upper case of a character: `a` to `z` become `A` to `Z`, and other characters stay.
fn to_ascii_upper(c: char) -> (r: char)
    ensures
        r == ascii_upper(c),
{
    if 'a' <= c && c <= 'z' {
        let b: u8 = c as u8;
        (b - 32) as char
    } else {
        c
    }
}

/// Appends a dashed name in camel case.
fn push_camel(out: &mut String, s: &str)
    ensures
        final(out)@ == old(out)@ + dash_to_camel(s@),
{
    let chars = str_chars(s);
    let mut next_upper = false;
    let mut i: usize = 0;
    proof {
        assert(s@.skip(0) =~= s@);
    }
    while i < chars.len()
        invariant
            chars@ == s@,
            i <= chars@.len(),
            old(out)@ + dash_to_camel(s@) == out@ + dash_to_camel_from(s@.skip(i as int), next_upper),
        decreases chars@.len() - i,
    {
        let c = chars[i];
        proof {
            assert(s@.skip(i as int)[0] == c);
            assert(s@.skip(i as int).drop_first() =~= s@.skip(i + 1));
        }
        if c == '-' {
            next_upper = true;
        } else if next_upper {
            next_upper = false;
            string_push(out, to_ascii_upper(c));
        } else {
            string_push(out, c);
        }
        i = i + 1;
    }
    proof {
        assert(s@.skip(i as int) =~= Seq::<char>::empty());
    }
}

pub open spec fn ty_or_any(ty: Seq<char>) -> Seq<char> {
    if ty.len() == 0 { "any"@ } else { ty }
}

/// The line of a field of a TypeScript object type: the attribute's name in camel case, quoted,
/// and its type (`any` when it has none).
pub open spec fn field_line(a: AttributeConfig) -> Seq<char> {
    debug_quoted(dash_to_camel(a.name@)) + ": "@ + ty_or_any(a.ty@) + "\n"@
}

pub open spec fn field_lines(s: Seq<AttributeConfig>) -> Seq<char>
    decreases s.len(),
{
    if s.len() == 0 {
        Seq::empty()
    } else {
        field_lines(s.drop_last()) + field_line(s.last())
    }
}

/// The object type of a tag: the global attributes and its own fields.
pub open spec fn tag_type(tag_name: Seq<char>, fields: Seq<AttributeConfig>) -> Seq<char> {
    debug_quoted(tag_name) + ": GlobalAttributes & {\n"@ + field_lines(fields) + "}\n"@
}

pub open spec fn element_types(s: Seq<ElementConfig>) -> Seq<char>
    decreases s.len(),
{
    if s.len() == 0 {
        Seq::empty()
    } else {
        element_types(s.drop_last()) + tag_type(s.last().tag_name@, s.last().attribute@)
    }
}

pub open spec fn component_types(s: Seq<ComponentConfig>) -> Seq<char>
    decreases s.len(),
{
    if s.len() == 0 {
        Seq::empty()
    } else {
        component_types(s.drop_last()) + tag_type(s.last().tag_name@, s.last().property@)
    }
}

/// The type of the configuration's name and version.
pub open spec fn header_text(g: GlassEaselBackendConfig) -> Seq<char> {
    "export type GlassEaselTemplateBackendConfig = {\n    name: "@ + debug_quoted(g.name@)
        + "\n    description: "@ + debug_quoted(g.description@)
        + "\n    majorVersion: "@ + decimal(g.major_version as nat)
        + "\n    minorVersion: "@ + decimal(g.minor_version as nat)
        + "\n}\n\n"@
}

/// The TypeScript declarations of the configuration: its name and version, the global
/// attributes, and the properties of each element and component.
pub open spec fn template_backend_config_text(c: BackendConfig) -> Seq<char> {
    header_text(c.glass_easel_backend_config)
        + "type GlobalAttributes = {\n"@ + field_lines(c.global_attribute@) + "}\n"@
        + "export type ComponentProperties = {\n"@ + element_types(c.element@) + component_types(c.component@) + "}\n"@
}

fn push_field_lines(out: &mut String, s: &Vec<AttributeConfig>)
    ensures
        final(out)@ == old(out)@ + field_lines(s@),
{
    let mut i: usize = 0;
    proof {
        assert(s@.take(0) =~= Seq::<AttributeConfig>::empty());
    }
    while i < s.len()
        invariant
            i <= s@.len(),
            out@ == old(out)@ + field_lines(s@.take(i as int)),
        decreases s@.len() - i,
    {
        let a = &s[i];
        let mut camel = String::new();
        push_camel(&mut camel, a.name.as_str());
        let q = debug_str(camel.as_str());
        push_str(out, q.as_str());
        push_str(out, ": ");
        if a.ty.as_str().is_empty() {
            push_str(out, "any");
        } else {
            push_str(out, a.ty.as_str());
        }
        push_str(out, "\n");
        proof {
            assert(camel@ =~= dash_to_camel(a.name@));
            assert(s@.take(i + 1).drop_last() =~= s@.take(i as int));
            assert(s@.take(i + 1).last() == *a);
            assert(out@ =~= old(out)@ + field_lines(s@.take(i + 1)));
        }
        i = i + 1;
    }
    proof {
        assert(s@.take(i as int) =~= s@);
    }
}

fn push_tag_type(out: &mut String, tag_name: &String, fields: &Vec<AttributeConfig>)
    ensures
        final(out)@ == old(out)@ + tag_type(tag_name@, fields@),
{
    let q = debug_str(tag_name.as_str());
    push_str(out, q.as_str());
    push_str(out, ": GlobalAttributes & {\n");
    push_field_lines(out, fields);
    push_str(out, "}\n");
    proof {
        assert(out@ =~= old(out)@ + tag_type(tag_name@, fields@));
    }
}

fn push_header(w: &mut String, g: &GlassEaselBackendConfig)
    ensures
        final(w)@ == old(w)@ + header_text(*g),
{
    push_str(w, "export type GlassEaselTemplateBackendConfig = {\n    name: ");
    push_str(w, debug_str(g.name.as_str()).as_str());
    push_str(w, "\n    description: ");
    push_str(w, debug_str(g.description.as_str()).as_str());
    push_str(w, "\n    majorVersion: ");
    push_decimal(w, g.major_version);
    push_str(w, "\n    minorVersion: ");
    push_decimal(w, g.minor_version);
    push_str(w, "\n}\n\n");
    proof {
        assert(w@ =~= old(w)@ + header_text(*g));
    }
}

fn push_element_types(w: &mut String, s: &Vec<ElementConfig>)
    ensures
        final(w)@ == old(w)@ + element_types(s@),
{
    let mut i: usize = 0;
    proof {
        assert(s@.take(0) =~= Seq::<ElementConfig>::empty());
    }
    while i < s.len()
        invariant
            i <= s@.len(),
            w@ == old(w)@ + element_types(s@.take(i as int)),
        decreases s@.len() - i,
    {
        let e = &s[i];
        push_tag_type(w, &e.tag_name, &e.attribute);
        proof {
            assert(s@.take(i + 1).drop_last() =~= s@.take(i as int));
            assert(s@.take(i + 1).last() == *e);
            assert(w@ =~= old(w)@ + element_types(s@.take(i + 1)));
        }
        i = i + 1;
    }
    proof {
        assert(s@.take(i as int) =~= s@);
    }
}

fn push_component_types(w: &mut String, s: &Vec<ComponentConfig>)
    ensures
        final(w)@ == old(w)@ + component_types(s@),
{
    let mut i: usize = 0;
    proof {
        assert(s@.take(0) =~= Seq::<ComponentConfig>::empty());
    }
    while i < s.len()
        invariant
            i <= s@.len(),
            w@ == old(w)@ + component_types(s@.take(i as int)),
        decreases s@.len() - i,
    {
        let c = &s[i];
        push_tag_type(w, &c.tag_name, &c.property);
        proof {
            assert(s@.take(i + 1).drop_last() =~= s@.take(i as int));
            assert(s@.take(i + 1).last() == *c);
            assert(w@ =~= old(w)@ + component_types(s@.take(i + 1)));
        }
        i = i + 1;
    }
    proof {
        assert(s@.take(i as int) =~= s@);
    }
}

impl BackendConfig {
    /// Appends the TypeScript declarations of the configuration, as
    /// `template_backend_config_text` states.
    pub fn extract_template_backend_config(&self, w: &mut String)
        ensures
            final(w)@ == old(w)@ + template_backend_config_text(*self),
    {
        push_header(w, &self.glass_easel_backend_config);
        push_str(w, "type GlobalAttributes = {\n");
        push_field_lines(w, &self.global_attribute);
        push_str(w, "}\n");
        push_str(w, "export type ComponentProperties = {\n");
        push_element_types(w, &self.element);
        push_component_types(w, &self.component);
        push_str(w, "}\n");
        proof {
            assert(w@ =~= old(w)@ + template_backend_config_text(*self));
        }
    }

    /// The TypeScript declarations of the configuration.
    pub fn generate_template_backend_config(&self) -> (r: String)
        ensures
            r@ == template_backend_config_text(*self),
    {
        let mut r = String::new();
        self.extract_template_backend_config(&mut r);
        proof {
            assert(r@ =~= template_backend_config_text(*self));
        }
        r
    }
}

} // verus!
