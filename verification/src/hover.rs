//! Hover texts for the tokens of style sheets and templates.

use vstd::prelude::*;
use crate::position::Location;
use crate::text::{push_str, str_eq, strip_prefix};
use crate::backend_config::{
    BackendConfig, MediaFeatureConfig, MediaFeatureType, first_index, opt_deref,
};
use crate::wxss::location::span;
use crate::wxss_utils::SheetToken;
use crate::backend_config::{
    AttributeConfig, EventConfig, ValueOption, attribute_named, event_named, first_in_chain, tag_is_component,
    tag_is_element,
};
use crate::wxml::ElementKind;
use crate::wxml_utils::{ScopeKind, WxmlTokenRef};

verus! {

/// A hover: its text (Markdown, or plain text when `markdown` is false) and the range it
/// describes.
#[derive(Debug)]
pub struct Hover {
    pub markdown: bool,
    pub contents: String,
    pub range: Location,
}

/// The reference link that ends a description, if there is a reference.
pub open spec fn reference_args(reference: Option<String>) -> Seq<char> {
    match reference {
        Some(r) => "\n\n[Reference]("@ + r@ + ")"@,
        None => Seq::empty(),
    }
}

/// The hover text of a configured name: `**name** *what*`, a blank line, the description and
/// the reference link.
pub open spec fn described(name: Seq<char>, what: Seq<char>, description: Seq<char>, reference: Option<String>) -> Seq<char> {
    "**"@ + name + "** *"@ + what + "*\n\n"@ + description + reference_args(reference)
}

fn push_reference_args(out: &mut String, reference: &Option<String>)
    ensures
        final(out)@ == old(out)@ + reference_args(*reference),
{
    match reference {
        Some(r) => {
            push_str(out, "\n\n[Reference](");
            push_str(out, r.as_str());
            push_str(out, ")");
        },
        None => {
            proof {
                assert(final(out)@ =~= old(out)@ + reference_args(*reference));
            }
        },
    }
}

fn describe(name: &str, what: &str, description: &str, reference: &Option<String>) -> (r: String)
    ensures
        r@ == described(name@, what@, description@, *reference),
{
    let mut out = String::new();
    push_str(&mut out, "**");
    push_str(&mut out, name);
    push_str(&mut out, "** *");
    push_str(&mut out, what);
    push_str(&mut out, "*\n\n");
    push_str(&mut out, description);
    push_reference_args(&mut out, reference);
    proof {
        assert(out@ =~= described(name@, what@, description@, *reference));
    }
    out
}

/// Whether a media feature name refers to a configured feature: by its name, or, for a range
/// feature, by its name after `min-` or `max-`.
pub open spec fn feature_matches(c: MediaFeatureConfig, name: Seq<char>) -> bool {
    c.name@ == name || (c.ty == MediaFeatureType::Range && (("min-"@.is_prefix_of(name)
        && c.name@ == name.skip(4)) || ("max-"@.is_prefix_of(name) && c.name@ == name.skip(4))))
}

pub open spec fn feature_named(name: Seq<char>) -> spec_fn(MediaFeatureConfig) -> bool {
    |c: MediaFeatureConfig| feature_matches(c, name)
}

/// The first configured media feature that a name refers to.
pub fn search_media_feature<'a>(config: &'a BackendConfig, name: &str) -> (r: Option<&'a MediaFeatureConfig>)
    ensures
        match first_index(config.media_feature@, feature_named(name@), 0) {
            Some(i) => r == Some(&config.media_feature@[i]),
            None => r is None,
        },
{
    let ghost p = feature_named(name@);
    let min = strip_prefix(name, "min-");
    let max = strip_prefix(name, "max-");
    proof {
        reveal_strlit("min-");
        reveal_strlit("max-");
    }
    let mut i: usize = 0;
    while i < config.media_feature.len()
        invariant
            i <= config.media_feature@.len(),
            p == feature_named(name@),
            "min-"@.len() == 4,
            "max-"@.len() == 4,
            "min-"@.is_prefix_of(name@) ==> min is Some && min->0@ == name@.skip(4),
            !"min-"@.is_prefix_of(name@) ==> min is None,
            "max-"@.is_prefix_of(name@) ==> max is Some && max->0@ == name@.skip(4),
            !"max-"@.is_prefix_of(name@) ==> max is None,
            first_index(config.media_feature@, p, 0) == first_index(config.media_feature@, p, i as int),
        decreases config.media_feature@.len() - i,
    {
        let c = &config.media_feature[i];
        let mut found = str_eq(c.name.as_str(), name);
        if !found && c.ty == MediaFeatureType::Range {
            match &min {
                Some(m) => {
                    if str_eq(c.name.as_str(), m.as_str()) {
                        found = true;
                    }
                },
                None => {},
            }
            match &max {
                Some(m) => {
                    if str_eq(c.name.as_str(), m.as_str()) {
                        found = true;
                    }
                },
                None => {},
            }
        }
        proof {
            assert(found == feature_matches(*c, name@));
        }
        if found {
            return Some(c);
        }
        i = i + 1;
    }
    None
}

pub open spec fn named_pseudo_class(name: Seq<char>) -> spec_fn(crate::backend_config::PseudoClassConfig) -> bool {
    |c: crate::backend_config::PseudoClassConfig| c.name@ == name
}

pub open spec fn named_pseudo_element(name: Seq<char>) -> spec_fn(crate::backend_config::PseudoElementConfig) -> bool {
    |c: crate::backend_config::PseudoElementConfig| c.name@ == name
}

pub open spec fn named_style_property(name: Seq<char>) -> spec_fn(crate::backend_config::StylePropertyConfig) -> bool {
    |c: crate::backend_config::StylePropertyConfig| c.name@ == name
}

pub open spec fn named_media_type(name: Seq<char>) -> spec_fn(crate::backend_config::MediaTypeConfig) -> bool {
    |c: crate::backend_config::MediaTypeConfig| c.name@ == name
}

/// The hover of a token of a style sheet: what a selector matches, or the description of a
/// configured pseudo class, pseudo element, property, media type or media feature; `None` for
/// other tokens and for names that the configuration lacks.
pub open spec fn spec_hover_wxss(config: BackendConfig, token: SheetToken) -> Option<(Seq<char>, Location)> {
    match token {
        SheetToken::TagName(x) => Some((
            "Tag name selector `"@ + x.content@ + "`, matches `<"@ + x.content@ + " ...>`."@,
            x.location,
        )),
        SheetToken::Id(x) => Some((
            "ID selector `#"@ + x.content@ + "`, matches `<... id=\""@ + x.content@ + "\">`."@,
            x.location,
        )),
        SheetToken::Class(op, x) => Some((
            "Class selector `."@ + x.content@ + "`, matches `<... class=\""@ + x.content@ + "\">`."@,
            span(op.location, x.location),
        )),
        SheetToken::PseudoClass(op, x) => match first_index(config.pseudo_class@, named_pseudo_class(x.spec_name()), 0) {
            Some(i) => {
                let c = config.pseudo_class@[i];
                Some((described(c.name@, "pseudo class"@, c.description@, c.reference), span(op.location, x.spec_location())))
            },
            None => None,
        },
        SheetToken::PseudoElement(op, _, x) => match first_index(config.pseudo_element@, named_pseudo_element(x.spec_name()), 0) {
            Some(i) => {
                let c = config.pseudo_element@[i];
                Some((described(c.name@, "pseudo element"@, c.description@, c.reference), span(op.location, x.spec_location())))
            },
            None => None,
        },
        SheetToken::PropertyName(x) => match first_index(config.style_property@, named_style_property(x.content@), 0) {
            Some(i) => {
                let c = config.style_property@[i];
                Some((described(c.name@, "property"@, c.description@, c.reference), x.location))
            },
            None => None,
        },
        SheetToken::MediaType(x) => match first_index(config.media_type@, named_media_type(x.content@), 0) {
            Some(i) => {
                let c = config.media_type@[i];
                Some((described(c.name@, "media type"@, c.description@, c.reference), x.location))
            },
            None => None,
        },
        SheetToken::MediaFeatureName(x) => match first_index(config.media_feature@, feature_named(x.content@), 0) {
            Some(i) => {
                let c = config.media_feature@[i];
                Some((described(c.name@, "media feature"@, c.description@, c.reference), x.location))
            },
            None => None,
        },
        _ => None,
    }
}

pub open spec fn hover_view(h: Option<Hover>) -> Option<(Seq<char>, Location)> {
    match h {
        Some(h) => Some((h.contents@, h.range)),
        None => None,
    }
}

/// A hover as its kind of text, its text and its range.
pub open spec fn hover_full_view(h: Option<Hover>) -> Option<(bool, Seq<char>, Location)> {
    match h {
        Some(h) => Some((h.markdown, h.contents@, h.range)),
        None => None,
    }
}

/// `t` ends with `suffix`.
pub open spec fn ends_with(t: Seq<char>, suffix: Seq<char>) -> bool {
    exists|p: Seq<char>| #[trigger] (p + suffix) == t
}

/// The hover of a selector says what the selector matches, with the selector's own name, and
/// covers the selector: an ID selector `#x` matches the elements whose `id` attribute is `x`,
/// a class selector `.x` those whose `class` attribute holds `x`, and a tag name selector `x`
/// the elements named `x`.
pub proof fn lemma_selector_hover_names_what_matches(config: BackendConfig, token: SheetToken)
    ensures
        token matches SheetToken::Id(x) ==> (spec_hover_wxss(config, token) matches Some((text, range))
            && range == x.location && ends_with(text, "<... id=\""@ + x.content@ + "\">`."@)),
        token matches SheetToken::Class(op, x) ==> (spec_hover_wxss(config, token) matches Some((text, range))
            && range == span(op.location, x.location) && ends_with(text, "<... class=\""@ + x.content@ + "\">`."@)),
        token matches SheetToken::TagName(x) ==> (spec_hover_wxss(config, token) matches Some((text, range))
            && range == x.location && ends_with(text, "<"@ + x.content@ + " ...>`."@)),
{
    reveal_strlit("ID selector `#");
    reveal_strlit("`, matches `<... id=\"");
    reveal_strlit("<... id=\"");
    reveal_strlit("`, matches `");
    reveal_strlit("\">`.");
    reveal_strlit("Class selector `.");
    reveal_strlit("`, matches `<... class=\"");
    reveal_strlit("<... class=\"");
    reveal_strlit("Tag name selector `");
    reveal_strlit("`, matches `<");
    reveal_strlit("<");
    reveal_strlit(" ...>`.");
    match token {
        SheetToken::Id(x) => {
            let n = x.content@;
            let p = "ID selector `#"@ + n + "`, matches `"@;
            assert(p + ("<... id=\""@ + n + "\">`."@) =~= "ID selector `#"@ + n + "`, matches `<... id=\""@ + n + "\">`."@);
        },
        SheetToken::Class(op, x) => {
            let n = x.content@;
            let p = "Class selector `."@ + n + "`, matches `"@;
            assert(p + ("<... class=\""@ + n + "\">`."@) =~= "Class selector `."@ + n + "`, matches `<... class=\""@ + n + "\">`."@);
        },
        SheetToken::TagName(x) => {
            let n = x.content@;
            let p = "Tag name selector `"@ + n + "`, matches `"@;
            assert(p + ("<"@ + n + " ...>`."@) =~= "Tag name selector `"@ + n + "`, matches `<"@ + n + " ...>`."@);
        },
        _ => {},
    }
}

/// The hover of a token of a style sheet.
pub fn hover_wxss(config: &BackendConfig, token: &SheetToken) -> (r: Option<Hover>)
    ensures
        hover_view(r) == spec_hover_wxss(*config, *token),
        r matches Some(h) ==> h.markdown,
{
    match token {
        SheetToken::TagName(x) => {
            let mut s = String::new();
            push_str(&mut s, "Tag name selector `");
            push_str(&mut s, x.content.as_str());
            push_str(&mut s, "`, matches `<");
            push_str(&mut s, x.content.as_str());
            push_str(&mut s, " ...>`.");
            proof {
                assert(s@ =~= "Tag name selector `"@ + x.content@ + "`, matches `<"@ + x.content@ + " ...>`."@);
            }
            Some(Hover { markdown: true, contents: s, range: x.location })
        },
        SheetToken::Id(x) => {
            let mut s = String::new();
            push_str(&mut s, "ID selector `#");
            push_str(&mut s, x.content.as_str());
            push_str(&mut s, "`, matches `<... id=\"");
            push_str(&mut s, x.content.as_str());
            push_str(&mut s, "\">`.");
            proof {
                assert(s@ =~= "ID selector `#"@ + x.content@ + "`, matches `<... id=\""@ + x.content@ + "\">`."@);
            }
            Some(Hover { markdown: true, contents: s, range: x.location })
        },
        SheetToken::Class(op, x) => {
            let mut s = String::new();
            push_str(&mut s, "Class selector `.");
            push_str(&mut s, x.content.as_str());
            push_str(&mut s, "`, matches `<... class=\"");
            push_str(&mut s, x.content.as_str());
            push_str(&mut s, "\">`.");
            proof {
                assert(s@ =~= "Class selector `."@ + x.content@ + "`, matches `<... class=\""@ + x.content@ + "\">`."@);
            }
            Some(Hover { markdown: true, contents: s, range: Location { start: op.location.start, end: x.location.end } })
        },
        SheetToken::PseudoClass(op, x) => {
            let name = x.name();
            let ghost p = named_pseudo_class(x.spec_name());
            let mut i: usize = 0;
            while i < config.pseudo_class.len()
                invariant
                    i <= config.pseudo_class@.len(),
                    name@ == x.spec_name(),
                    p == named_pseudo_class(x.spec_name()),
                    *token == SheetToken::PseudoClass(op, x),
                    first_index(config.pseudo_class@, p, 0) == first_index(config.pseudo_class@, p, i as int),
                decreases config.pseudo_class@.len() - i,
            {
                let c = &config.pseudo_class[i];
                if str_eq(c.name.as_str(), name) {
                    let contents = describe(c.name.as_str(), "pseudo class", c.description.as_str(), &c.reference);
                    return Some(Hover { markdown: true, contents, range: Location { start: op.location.start, end: x.location().end } });
                }
                i = i + 1;
            }
            None
        },
        SheetToken::PseudoElement(op, _op2, x) => {
            let name = x.name();
            let ghost p = named_pseudo_element(x.spec_name());
            let mut i: usize = 0;
            while i < config.pseudo_element.len()
                invariant
                    i <= config.pseudo_element@.len(),
                    name@ == x.spec_name(),
                    p == named_pseudo_element(x.spec_name()),
                    *token == SheetToken::PseudoElement(op, _op2, x),
                    first_index(config.pseudo_element@, p, 0) == first_index(config.pseudo_element@, p, i as int),
                decreases config.pseudo_element@.len() - i,
            {
                let c = &config.pseudo_element[i];
                if str_eq(c.name.as_str(), name) {
                    let contents = describe(c.name.as_str(), "pseudo element", c.description.as_str(), &c.reference);
                    return Some(Hover { markdown: true, contents, range: Location { start: op.location.start, end: x.location().end } });
                }
                i = i + 1;
            }
            None
        },
        SheetToken::PropertyName(x) => {
            let ghost p = named_style_property(x.content@);
            let mut i: usize = 0;
            while i < config.style_property.len()
                invariant
                    i <= config.style_property@.len(),
                    p == named_style_property(x.content@),
                    *token == SheetToken::PropertyName(x),
                    first_index(config.style_property@, p, 0) == first_index(config.style_property@, p, i as int),
                decreases config.style_property@.len() - i,
            {
                let c = &config.style_property[i];
                if str_eq(c.name.as_str(), x.content.as_str()) {
                    let contents = describe(c.name.as_str(), "property", c.description.as_str(), &c.reference);
                    return Some(Hover { markdown: true, contents, range: x.location });
                }
                i = i + 1;
            }
            None
        },
        SheetToken::MediaType(x) => {
            let ghost p = named_media_type(x.content@);
            let mut i: usize = 0;
            while i < config.media_type.len()
                invariant
                    i <= config.media_type@.len(),
                    p == named_media_type(x.content@),
                    *token == SheetToken::MediaType(x),
                    first_index(config.media_type@, p, 0) == first_index(config.media_type@, p, i as int),
                decreases config.media_type@.len() - i,
            {
                let c = &config.media_type[i];
                if str_eq(c.name.as_str(), x.content.as_str()) {
                    let contents = describe(c.name.as_str(), "media type", c.description.as_str(), &c.reference);
                    return Some(Hover { markdown: true, contents, range: x.location });
                }
                i = i + 1;
            }
            None
        },
        SheetToken::MediaFeatureName(x) => {
            match search_media_feature(config, x.content.as_str()) {
                Some(c) => {
                    let contents = describe(c.name.as_str(), "media feature", c.description.as_str(), &c.reference);
                    Some(Hover { markdown: true, contents, range: x.location })
                },
                None => None,
            }
        },
        _ => None,
    }
}


/// The property of a built-in component, as `BackendConfig::search_property` finds it.
pub open spec fn property_of(config: BackendConfig, tag_name: Seq<char>, name: Seq<char>) -> Option<AttributeConfig> {
    match first_index(config.component@, tag_is_component(tag_name), 0) {
        None => None,
        Some(c) => first_in_chain(config.component@[c].property@, config.global_attribute@, attribute_named(name)),
    }
}

/// The attribute of a built-in element, as `BackendConfig::search_attribute` finds it.
pub open spec fn attribute_of(config: BackendConfig, tag_name: Seq<char>, name: Seq<char>) -> Option<AttributeConfig> {
    match first_index(config.element@, tag_is_element(tag_name), 0) {
        None => None,
        Some(e) => first_in_chain(config.element@[e].attribute@, config.global_attribute@, attribute_named(name)),
    }
}

/// The event of a built-in component or element, as `BackendConfig::search_event` finds it.
pub open spec fn event_of(config: BackendConfig, tag_name: Seq<char>, name: Seq<char>) -> Option<EventConfig> {
    match first_index(config.component@, tag_is_component(tag_name), 0) {
        Some(c) => first_in_chain(config.component@[c].event@, config.global_event@, event_named(name)),
        None => match first_index(config.element@, tag_is_element(tag_name), 0) {
            None => None,
            Some(e) => first_in_chain(config.element@[e].event@, config.global_event@, event_named(name)),
        },
    }
}

pub open spec fn option_valued(value: Seq<char>) -> spec_fn(ValueOption) -> bool {
    |o: ValueOption| o.value@ == value
}

/// The hover text of a property: `**name**`, `: type` when it has a type, ` *property*`, a
/// blank line, the description and the reference link.
pub open spec fn property_text(p: AttributeConfig) -> Seq<char> {
    "**"@ + p.name@ + "**"@ + (if p.ty@.len() > 0 { ": "@ + p.ty@ } else { Seq::empty() }) + " *property*\n\n"@
        + p.description@ + reference_args(p.reference)
}

/// The tag name of a normal element.
pub open spec fn normal_tag_name(e: crate::wxml::Element) -> Option<Seq<char>> {
    match e.kind {
        ElementKind::Normal { tag_name, .. } => Some(tag_name.name@),
        _ => None,
    }
}

/// The hover of a token of a template: the kind of a scope reference; for a tag name, an
/// attribute name or an event name, "custom component..." when `custom_component` (the element's
/// tag name resolves to a custom component of the project), else the description of the
/// built-in component, element, property, attribute or event, or "unknown"; for a static
/// attribute value, the description of the matching value option. `None` for other tokens.
/// Each result is the kind of text (Markdown or plain), the text and its range.
pub open spec fn spec_hover_wxml(config: BackendConfig, token: WxmlTokenRef, custom_component: bool) -> Option<(bool, Seq<char>, Location)> {
    match token {
        WxmlTokenRef::ScopeRef(loc, kind) => Some((false, match kind {
            ScopeKind::Script(_) => "wxs script"@,
            ScopeKind::ForScope(_, _) => "wx:for scope"@,
            ScopeKind::SlotValue(_, _) => "slot value"@,
        }, loc)),
        WxmlTokenRef::TagName(t) => Some(if custom_component {
            (false, "custom component"@, t.location)
        } else {
            match first_index(config.component@, tag_is_component(t.name@), 0) {
                Some(i) => {
                    let c = config.component@[i];
                    (true, described(c.tag_name@, "component"@, c.description@, c.reference), t.location)
                },
                None => match first_index(config.element@, tag_is_element(t.name@), 0) {
                    Some(i) => {
                        let c = config.element@[i];
                        (true, described(c.tag_name@, "element"@, c.description@, c.reference), t.location)
                    },
                    None => (false, "unknown"@, t.location),
                },
            }
        }),
        WxmlTokenRef::AttributeName(a, e) => Some(match normal_tag_name(*e) {
            Some(tag) => if custom_component {
                (false, "custom component property"@, a.location)
            } else {
                match property_of(config, tag, a.name@) {
                    Some(p) => (true, property_text(p), a.location),
                    None => match attribute_of(config, tag, a.name@) {
                        Some(at) => (true, described(at.name@, "attribute"@, at.description@, at.reference), a.location),
                        None => (false, "unknown"@, a.location),
                    },
                }
            },
            None => (false, "unknown"@, a.location),
        }),
        WxmlTokenRef::EventName(ev, e) => Some(match normal_tag_name(*e) {
            Some(tag) => if custom_component {
                (false, "custom component event"@, ev.location)
            } else {
                match event_of(config, tag, ev.name@) {
                    Some(c) => (true, described(c.name@, "event"@, c.description@, c.reference), ev.location),
                    None => (false, "unknown"@, ev.location),
                }
            },
            None => match first_index(config.global_event@, event_named(ev.name@), 0) {
                Some(i) => {
                    let c = config.global_event@[i];
                    (true, described(c.name@, "event"@, c.description@, c.reference), ev.location)
                },
                None => (false, "unknown"@, ev.location),
            },
        }),
        WxmlTokenRef::AttributeStaticValue(loc, value, name, e) => match normal_tag_name(*e) {
            Some(tag) => {
                let found: Option<AttributeConfig> = match property_of(config, tag, name.name@) {
                    Some(p) => Some(p),
                    None => attribute_of(config, tag, name.name@),
                };
                match found {
                    Some(a) => match first_index(a.value_option@, option_valued(value@), 0) {
                        Some(i) => {
                            let o = a.value_option@[i];
                            Some((true, "**"@ + o.value@ + "**\n\n"@ + o.description@ + reference_args(a.reference), loc))
                        },
                        None => None,
                    },
                    None => None,
                }
            },
            None => None,
        },
        _ => None,
    }
}

fn plain_hover(text: &str, range: Location) -> (r: Hover)
    ensures
        !r.markdown,
        r.contents@ == text@,
        r.range == range,
{
    let mut contents = String::new();
    push_str(&mut contents, text);
    Hover { markdown: false, contents, range }
}

fn find_value_option<'a>(options: &'a Vec<ValueOption>, value: &str) -> (r: Option<&'a ValueOption>)
    ensures
        match first_index(options@, option_valued(value@), 0) {
            Some(i) => r == Some(&options@[i]),
            None => r is None,
        },
{
    let ghost p = option_valued(value@);
    let mut i: usize = 0;
    while i < options.len()
        invariant
            i <= options@.len(),
            p == option_valued(value@),
            first_index(options@, p, 0) == first_index(options@, p, i as int),
        decreases options@.len() - i,
    {
        if str_eq(options[i].value.as_str(), value) {
            return Some(&options[i]);
        }
        i = i + 1;
    }
    None
}

/// The hover of a token of a template; `custom_component` tells whether the tag name of the
/// token's element resolves to a custom component of the project.
pub fn hover_wxml(config: &BackendConfig, token: &WxmlTokenRef, custom_component: bool) -> (r: Option<Hover>)
    ensures
        hover_full_view(r) == spec_hover_wxml(*config, *token, custom_component),
{
    match token {
        WxmlTokenRef::ScopeRef(loc, kind) => Some(match kind {
            ScopeKind::Script(_) => plain_hover("wxs script", *loc),
            ScopeKind::ForScope(_, _) => plain_hover("wx:for scope", *loc),
            ScopeKind::SlotValue(_, _) => plain_hover("slot value", *loc),
        }),
        WxmlTokenRef::TagName(t) => {
            if custom_component {
                return Some(plain_hover("custom component", t.location));
            }
            match config.search_component(t.name.as_str()) {
                Some(c) => {
                    let contents = describe(c.tag_name.as_str(), "component", c.description.as_str(), &c.reference);
                    return Some(Hover { markdown: true, contents, range: t.location });
                },
                None => {},
            }
            match config.search_element(t.name.as_str()) {
                Some(c) => {
                    let contents = describe(c.tag_name.as_str(), "element", c.description.as_str(), &c.reference);
                    Some(Hover { markdown: true, contents, range: t.location })
                },
                None => Some(plain_hover("unknown", t.location)),
            }
        },
        WxmlTokenRef::AttributeName(a, e) => {
            let tag = match &e.kind {
                ElementKind::Normal { tag_name, .. } => tag_name,
                _ => {
                    return Some(plain_hover("unknown", a.location));
                },
            };
            if custom_component {
                return Some(plain_hover("custom component property", a.location));
            }
            match config.search_property(tag.name.as_str(), a.name.as_str()) {
                Some(p) => {
                    let mut contents = String::new();
                    push_str(&mut contents, "**");
                    push_str(&mut contents, p.name.as_str());
                    push_str(&mut contents, "**");
                    if !p.ty.as_str().is_empty() {
                        push_str(&mut contents, ": ");
                        push_str(&mut contents, p.ty.as_str());
                    }
                    push_str(&mut contents, " *property*\n\n");
                    push_str(&mut contents, p.description.as_str());
                    push_reference_args(&mut contents, &p.reference);
                    proof {
                        assert(contents@ =~= property_text(*p));
                    }
                    return Some(Hover { markdown: true, contents, range: a.location });
                },
                None => {},
            }
            match config.search_attribute(tag.name.as_str(), a.name.as_str()) {
                Some(at) => {
                    let contents = describe(at.name.as_str(), "attribute", at.description.as_str(), &at.reference);
                    Some(Hover { markdown: true, contents, range: a.location })
                },
                None => Some(plain_hover("unknown", a.location)),
            }
        },
        WxmlTokenRef::EventName(ev, e) => {
            match &e.kind {
                ElementKind::Normal { tag_name, .. } => {
                    if custom_component {
                        return Some(plain_hover("custom component event", ev.location));
                    }
                    match config.search_event(tag_name.name.as_str(), ev.name.as_str()) {
                        Some(c) => {
                            let contents = describe(c.name.as_str(), "event", c.description.as_str(), &c.reference);
                            Some(Hover { markdown: true, contents, range: ev.location })
                        },
                        None => Some(plain_hover("unknown", ev.location)),
                    }
                },
                _ => match config.search_global_event(ev.name.as_str()) {
                    Some(c) => {
                        let contents = describe(c.name.as_str(), "event", c.description.as_str(), &c.reference);
                        Some(Hover { markdown: true, contents, range: ev.location })
                    },
                    None => Some(plain_hover("unknown", ev.location)),
                },
            }
        },
        WxmlTokenRef::AttributeStaticValue(loc, value, name, e) => {
            let tag = match &e.kind {
                ElementKind::Normal { tag_name, .. } => tag_name,
                _ => {
                    return None;
                },
            };
            let found = match config.search_property(tag.name.as_str(), name.name.as_str()) {
                Some(p) => Some(p),
                None => config.search_attribute(tag.name.as_str(), name.name.as_str()),
            };
            match found {
                Some(a) => match find_value_option(&a.value_option, value.as_str()) {
                    Some(o) => {
                        let mut contents = String::new();
                        push_str(&mut contents, "**");
                        push_str(&mut contents, o.value.as_str());
                        push_str(&mut contents, "**\n\n");
                        push_str(&mut contents, o.description.as_str());
                        push_reference_args(&mut contents, &a.reference);
                        proof {
                            assert(contents@ =~= "**"@ + o.value@ + "**\n\n"@ + o.description@ + reference_args(a.reference));
                        }
                        Some(Hover { markdown: true, contents, range: *loc })
                    },
                    None => None,
                },
                None => None,
            }
        },
        _ => None,
    }
}

} // verus!
