//! Completion lists for the tokens of style sheets.

use vstd::prelude::*;
use crate::text::push_str;
use crate::backend_config::{BackendConfig, MediaFeatureConfig, MediaFeatureType, StylePropertyConfig};
use crate::wxss_utils::SheetToken;

verus! {

#[derive(Debug, Clone, Copy, PartialEq, Eq, Structural)]
pub enum CompletionItemKind {
    Property,
    Variable,
    Operator,
    Class,
    Keyword,
    EnumMember,
}

/// A completion: its label and kind, and the snippet to insert in place of the label, if any.
#[derive(Debug)]
pub struct CompletionItem {
    pub label: String,
    pub kind: CompletionItemKind,
    pub snippet: Option<String>,
    pub deprecated: bool,
}

/// What completes a token of a style sheet: a list of items, or the IDs or classes used in the
/// template beside the style sheet, which the caller collects.
#[derive(Debug)]
pub enum WxssCompletion {
    Items(Vec<CompletionItem>),
    TemplateIds,
    TemplateClasses,
}

/// An item as `(label, kind, snippet)`.
pub open spec fn item_view(i: CompletionItem) -> (Seq<char>, CompletionItemKind, Option<Seq<char>>) {
    (i.label@, i.kind, match i.snippet {
        Some(s) => Some(s@),
        None => None,
    })
}

/// The strings joined with `sep` between them.
pub open spec fn join(parts: Seq<String>, sep: Seq<char>) -> Seq<char>
    decreases parts.len(),
{
    if parts.len() == 0 {
        Seq::empty()
    } else if parts.len() == 1 {
        parts[0]@
    } else {
        join(parts.drop_last(), sep) + sep + parts.last()@
    }
}

/// `[T]::join` of strings with a comma.
pub fn join_commas(parts: &Vec<String>) -> (r: String)
    ensures
        r@ == join(parts@, ","@),
{
    let mut r = String::new();
    let mut i: usize = 0;
    proof {
        assert(parts@.take(0) =~= Seq::<String>::empty());
    }
    while i < parts.len()
        invariant
            i <= parts@.len(),
            r@ == join(parts@.take(i as int), ","@),
        decreases parts@.len() - i,
    {
        proof {
            assert(parts@.take(i + 1).drop_last() =~= parts@.take(i as int));
        }
        if i > 0 {
            push_str(&mut r, ",");
        }
        push_str(&mut r, parts[i].as_str());
        proof {
            if i == 0 {
                assert(r@ =~= join(parts@.take(1), ","@));
            } else {
                assert(r@ =~= join(parts@.take(i + 1), ","@));
            }
        }
        i = i + 1;
    }
    proof {
        assert(parts@.take(i as int) =~= parts@);
    }
    r
}

/// The item that completes a property name into a declaration: with a choice of its options,
/// or with the cursor at the value.
pub open spec fn property_declaration_item(c: StylePropertyConfig) -> (Seq<char>, CompletionItemKind, Option<Seq<char>>) {
    (c.name@, CompletionItemKind::Property, Some(if c.options@.len() > 0 {
        c.name@ + ": ${1|"@ + join(c.options@, ","@) + "|};"@
    } else {
        c.name@ + ": $0;"@
    }))
}

pub open spec fn property_declaration_items(cs: Seq<StylePropertyConfig>) -> Seq<(Seq<char>, CompletionItemKind, Option<Seq<char>>)> {
    cs.map_values(|c: StylePropertyConfig| property_declaration_item(c))
}

/// The item for a media feature name: with a choice of its options, with the cursor at its value
/// when it takes one, or the bare name.
pub open spec fn media_feature_item(name: Seq<char>, options: Seq<String>, has_value: bool) -> (Seq<char>, CompletionItemKind, Option<Seq<char>>) {
    (name, CompletionItemKind::Property, if options.len() > 0 {
        Some(name + ": ${1|"@ + join(options, ","@) + "|}"@)
    } else if has_value {
        Some(name + ": $0"@)
    } else {
        None
    })
}

/// The items of a media feature: for a range feature, its name and its `min-` and `max-` forms.
pub open spec fn media_feature_items(c: MediaFeatureConfig) -> Seq<(Seq<char>, CompletionItemKind, Option<Seq<char>>)> {
    if c.ty == MediaFeatureType::Range {
        seq![
            media_feature_item(c.name@, c.options@, true),
            media_feature_item("min-"@ + c.name@, c.options@, true),
            media_feature_item("max-"@ + c.name@, c.options@, true),
        ]
    } else {
        seq![media_feature_item(c.name@, c.options@, false)]
    }
}

pub open spec fn media_features_items(cs: Seq<MediaFeatureConfig>) -> Seq<(Seq<char>, CompletionItemKind, Option<Seq<char>>)>
    decreases cs.len(),
{
    if cs.len() == 0 {
        Seq::empty()
    } else {
        media_features_items(cs.drop_last()) + media_feature_items(cs.last())
    }
}

/// Plain items for the given names.
pub open spec fn plain_items(names: Seq<Seq<char>>, kind: CompletionItemKind) -> Seq<(Seq<char>, CompletionItemKind, Option<Seq<char>>)> {
    names.map_values(|n: Seq<char>| (n, kind, None::<Seq<char>>))
}

/// No item is marked deprecated.
pub open spec fn none_deprecated(v: Seq<CompletionItem>) -> bool {
    forall|i: int| 0 <= i < v.len() ==> !(#[trigger] v[i]).deprecated
}

pub open spec fn completion_view(c: WxssCompletion) -> Option<Seq<(Seq<char>, CompletionItemKind, Option<Seq<char>>)>> {
    match c {
        WxssCompletion::Items(v) => Some(v@.map_values(|i: CompletionItem| item_view(i))),
        _ => None,
    }
}

fn simple_item(label: String, kind: CompletionItemKind) -> (r: CompletionItem)
    ensures
        item_view(r) == (label@, kind, None::<Seq<char>>),
        !r.deprecated,
{
    CompletionItem { label, kind, snippet: None, deprecated: false }
}

fn snippet_item(label: String, snippet: String, kind: CompletionItemKind) -> (r: CompletionItem)
    ensures
        item_view(r) == (label@, kind, Some(snippet@)),
        !r.deprecated,
{
    CompletionItem { label, kind, snippet: Some(snippet), deprecated: false }
}

pub(crate) fn string_of(s: &str) -> (r: String)
    ensures
        r@ == s@,
{
    let mut r = String::new();
    push_str(&mut r, s);
    proof {
        assert(r@ =~= s@);
    }
    r
}

fn push_media_feature_item(items: &mut Vec<CompletionItem>, name: String, options: &Vec<String>, has_value: bool)
    ensures
        final(items)@.map_values(|i: CompletionItem| item_view(i)) == old(items)@.map_values(
            |i: CompletionItem| item_view(i),
        ).push(media_feature_item(name@, options@, has_value)),
        none_deprecated(old(items)@) ==> none_deprecated(final(items)@),
{
    let ghost before = items@.map_values(|i: CompletionItem| item_view(i));
    if options.len() > 0 {
        let mut snippet = string_of(name.as_str());
        push_str(&mut snippet, ": ${1|");
        let opts = join_commas(options);
        push_str(&mut snippet, opts.as_str());
        push_str(&mut snippet, "|}");
        proof {
            assert(snippet@ =~= name@ + ": ${1|"@ + join(options@, ","@) + "|}"@);
        }
        items.push(snippet_item(name, snippet, CompletionItemKind::Property));
    } else if has_value {
        let mut snippet = string_of(name.as_str());
        push_str(&mut snippet, ": $0");
        items.push(snippet_item(name, snippet, CompletionItemKind::Property));
    } else {
        items.push(simple_item(name, CompletionItemKind::Property));
    }
    proof {
        assert(items@.map_values(|i: CompletionItem| item_view(i)) =~= before.push(
            media_feature_item(name@, options@, has_value),
        ));
    }
}

/// The completion of a token of a style sheet: declarations of the configured properties for
/// an identifier that starts an unknown rule, property names for a property name, media
/// features for a media feature name, the template's IDs or classes for an ID or class
/// selector, and the configured pseudo classes or elements for a pseudo selector; `None` for
/// other tokens.
pub fn completion_wxss(config: &BackendConfig, token: &SheetToken) -> (r: Option<WxssCompletion>)
    ensures
        r matches Some(WxssCompletion::Items(v)) ==> none_deprecated(v@),
        match *token {
            SheetToken::StyleRuleUnknownIdent(_) => r matches Some(c) && completion_view(c) == Some(
                property_declaration_items(config.style_property@),
            ),
            SheetToken::PropertyName(_) => r matches Some(c) && completion_view(c) == Some(
                plain_items(config.style_property@.map_values(|c: StylePropertyConfig| c.name@), CompletionItemKind::Property),
            ),
            SheetToken::MediaFeatureName(_) => r matches Some(c) && completion_view(c) == Some(
                media_features_items(config.media_feature@),
            ),
            SheetToken::Id(_) => r matches Some(WxssCompletion::TemplateIds),
            SheetToken::Class(_, _) => r matches Some(WxssCompletion::TemplateClasses),
            SheetToken::PseudoClass(_, _) => r matches Some(c) && completion_view(c) == Some(
                plain_items(config.pseudo_class@.map_values(|c: crate::backend_config::PseudoClassConfig| c.name@), CompletionItemKind::Operator),
            ),
            SheetToken::PseudoElement(_, _, _) => r matches Some(c) && completion_view(c) == Some(
                plain_items(config.pseudo_element@.map_values(|c: crate::backend_config::PseudoElementConfig| c.name@), CompletionItemKind::Operator),
            ),
            _ => r is None,
        },
{
    match token {
        SheetToken::StyleRuleUnknownIdent(_) => {
            let mut items: Vec<CompletionItem> = Vec::new();
            let mut i: usize = 0;
            while i < config.style_property.len()
                invariant
                    i <= config.style_property@.len(),
                    none_deprecated(items@),
                    items@.map_values(|x: CompletionItem| item_view(x)) == property_declaration_items(
                        config.style_property@.take(i as int),
                    ),
                decreases config.style_property@.len() - i,
            {
                let c = &config.style_property[i];
                let ghost before = items@.map_values(|x: CompletionItem| item_view(x));
                let name = string_of(c.name.as_str());
                let mut snippet = string_of(c.name.as_str());
                if c.options.len() > 0 {
                    push_str(&mut snippet, ": ${1|");
                    let opts = join_commas(&c.options);
                    push_str(&mut snippet, opts.as_str());
                    push_str(&mut snippet, "|};");
                } else {
                    push_str(&mut snippet, ": $0;");
                }
                items.push(snippet_item(name, snippet, CompletionItemKind::Property));
                proof {
                    assert(config.style_property@.take(i + 1) =~= config.style_property@.take(i as int).push(*c));
                    assert(items@.map_values(|x: CompletionItem| item_view(x)) =~= before.push(property_declaration_item(*c)));
                    assert(property_declaration_items(config.style_property@.take(i + 1)) =~= property_declaration_items(
                        config.style_property@.take(i as int),
                    ).push(property_declaration_item(*c)));
                }
                i = i + 1;
            }
            proof {
                assert(config.style_property@.take(i as int) =~= config.style_property@);
            }
            Some(WxssCompletion::Items(items))
        },
        SheetToken::PropertyName(_) => {
            let mut items: Vec<CompletionItem> = Vec::new();
            let mut i: usize = 0;
            while i < config.style_property.len()
                invariant
                    i <= config.style_property@.len(),
                    none_deprecated(items@),
                    items@.map_values(|x: CompletionItem| item_view(x)) == plain_items(
                        config.style_property@.take(i as int).map_values(|c: StylePropertyConfig| c.name@),
                        CompletionItemKind::Property,
                    ),
                decreases config.style_property@.len() - i,
            {
                let c = &config.style_property[i];
                let ghost before = items@.map_values(|x: CompletionItem| item_view(x));
                items.push(simple_item(string_of(c.name.as_str()), CompletionItemKind::Property));
                proof {
                    let f = |c: StylePropertyConfig| c.name@;
                    let names = config.style_property@.take(i as int).map_values(f);
                    assert(config.style_property@.take(i + 1) =~= config.style_property@.take(i as int).push(*c));
                    assert(config.style_property@.take(i + 1).map_values(f) =~= names.push(c.name@));
                    assert(plain_items(names.push(c.name@), CompletionItemKind::Property) =~= plain_items(names, CompletionItemKind::Property).push((c.name@, CompletionItemKind::Property, None::<Seq<char>>)));
                    assert(items@.map_values(|x: CompletionItem| item_view(x)) =~= before.push((c.name@, CompletionItemKind::Property, None::<Seq<char>>)));
                    assert(items@.map_values(|x: CompletionItem| item_view(x)) =~= plain_items(
                        config.style_property@.take(i + 1).map_values(|c: StylePropertyConfig| c.name@),
                        CompletionItemKind::Property,
                    ));
                }
                i = i + 1;
            }
            proof {
                assert(config.style_property@.take(i as int) =~= config.style_property@);
            }
            Some(WxssCompletion::Items(items))
        },
        SheetToken::MediaFeatureName(_) => {
            let mut items: Vec<CompletionItem> = Vec::new();
            let mut i: usize = 0;
            proof {
                assert(config.media_feature@.take(0) =~= Seq::<MediaFeatureConfig>::empty());
                assert(items@.map_values(|x: CompletionItem| item_view(x)) =~= Seq::empty());
            }
            while i < config.media_feature.len()
                invariant
                    i <= config.media_feature@.len(),
                    none_deprecated(items@),
                    items@.map_values(|x: CompletionItem| item_view(x)) == media_features_items(
                        config.media_feature@.take(i as int),
                    ),
                decreases config.media_feature@.len() - i,
            {
                let c = &config.media_feature[i];
                let ghost before = items@.map_values(|x: CompletionItem| item_view(x));
                if c.ty == MediaFeatureType::Range {
                    push_media_feature_item(&mut items, string_of(c.name.as_str()), &c.options, true);
                    let mut min = string_of("min-");
                    push_str(&mut min, c.name.as_str());
                    push_media_feature_item(&mut items, min, &c.options, true);
                    let mut max = string_of("max-");
                    push_str(&mut max, c.name.as_str());
                    push_media_feature_item(&mut items, max, &c.options, true);
                } else {
                    push_media_feature_item(&mut items, string_of(c.name.as_str()), &c.options, false);
                }
                proof {
                    assert(config.media_feature@.take(i + 1).drop_last() =~= config.media_feature@.take(i as int));
                    assert(items@.map_values(|x: CompletionItem| item_view(x)) =~= before + media_feature_items(*c));
                }
                i = i + 1;
            }
            proof {
                assert(config.media_feature@.take(i as int) =~= config.media_feature@);
            }
            Some(WxssCompletion::Items(items))
        },
        SheetToken::Id(_) => Some(WxssCompletion::TemplateIds),
        SheetToken::Class(_, _) => Some(WxssCompletion::TemplateClasses),
        SheetToken::PseudoClass(_, _) => {
            let mut items: Vec<CompletionItem> = Vec::new();
            let mut i: usize = 0;
            while i < config.pseudo_class.len()
                invariant
                    i <= config.pseudo_class@.len(),
                    none_deprecated(items@),
                    items@.map_values(|x: CompletionItem| item_view(x)) == plain_items(
                        config.pseudo_class@.take(i as int).map_values(|c: crate::backend_config::PseudoClassConfig| c.name@),
                        CompletionItemKind::Operator,
                    ),
                decreases config.pseudo_class@.len() - i,
            {
                let c = &config.pseudo_class[i];
                let ghost before = items@.map_values(|x: CompletionItem| item_view(x));
                items.push(simple_item(string_of(c.name.as_str()), CompletionItemKind::Operator));
                proof {
                    let f = |c: crate::backend_config::PseudoClassConfig| c.name@;
                    let names = config.pseudo_class@.take(i as int).map_values(f);
                    assert(config.pseudo_class@.take(i + 1) =~= config.pseudo_class@.take(i as int).push(*c));
                    assert(config.pseudo_class@.take(i + 1).map_values(f) =~= names.push(c.name@));
                    assert(plain_items(names.push(c.name@), CompletionItemKind::Operator) =~= plain_items(names, CompletionItemKind::Operator).push((c.name@, CompletionItemKind::Operator, None::<Seq<char>>)));
                    assert(items@.map_values(|x: CompletionItem| item_view(x)) =~= before.push((c.name@, CompletionItemKind::Operator, None::<Seq<char>>)));
                    assert(items@.map_values(|x: CompletionItem| item_view(x)) =~= plain_items(
                        config.pseudo_class@.take(i + 1).map_values(|c: crate::backend_config::PseudoClassConfig| c.name@),
                        CompletionItemKind::Operator,
                    ));
                }
                i = i + 1;
            }
            proof {
                assert(config.pseudo_class@.take(i as int) =~= config.pseudo_class@);
            }
            Some(WxssCompletion::Items(items))
        },
        SheetToken::PseudoElement(_, _, _) => {
            let mut items: Vec<CompletionItem> = Vec::new();
            let mut i: usize = 0;
            while i < config.pseudo_element.len()
                invariant
                    i <= config.pseudo_element@.len(),
                    none_deprecated(items@),
                    items@.map_values(|x: CompletionItem| item_view(x)) == plain_items(
                        config.pseudo_element@.take(i as int).map_values(|c: crate::backend_config::PseudoElementConfig| c.name@),
                        CompletionItemKind::Operator,
                    ),
                decreases config.pseudo_element@.len() - i,
            {
                let c = &config.pseudo_element[i];
                let ghost before = items@.map_values(|x: CompletionItem| item_view(x));
                items.push(simple_item(string_of(c.name.as_str()), CompletionItemKind::Operator));
                proof {
                    let f = |c: crate::backend_config::PseudoElementConfig| c.name@;
                    let names = config.pseudo_element@.take(i as int).map_values(f);
                    assert(config.pseudo_element@.take(i + 1) =~= config.pseudo_element@.take(i as int).push(*c));
                    assert(config.pseudo_element@.take(i + 1).map_values(f) =~= names.push(c.name@));
                    assert(plain_items(names.push(c.name@), CompletionItemKind::Operator) =~= plain_items(names, CompletionItemKind::Operator).push((c.name@, CompletionItemKind::Operator, None::<Seq<char>>)));
                    assert(items@.map_values(|x: CompletionItem| item_view(x)) =~= before.push((c.name@, CompletionItemKind::Operator, None::<Seq<char>>)));
                    assert(items@.map_values(|x: CompletionItem| item_view(x)) =~= plain_items(
                        config.pseudo_element@.take(i + 1).map_values(|c: crate::backend_config::PseudoElementConfig| c.name@),
                        CompletionItemKind::Operator,
                    ));
                }
                i = i + 1;
            }
            proof {
                assert(config.pseudo_element@.take(i as int) =~= config.pseudo_element@);
            }
            Some(WxssCompletion::Items(items))
        },
        _ => None,
    }
}


/// The completion of an ID or class selector: the IDs or classes of the templates beside the
/// style sheet as variables; `None` when there are none.
pub fn template_name_completion(names: &Vec<String>) -> (r: Option<Vec<CompletionItem>>)
    ensures
        names@.len() == 0 ==> r is None,
        names@.len() > 0 ==> (r matches Some(v) && v@.map_values(|i: CompletionItem| item_view(i)) == plain_items(
            names@.map_values(|s: String| s@),
            CompletionItemKind::Variable,
        ) && none_deprecated(v@)),
{
    if names.len() == 0 {
        return None;
    }
    let mut items: Vec<CompletionItem> = Vec::new();
    let mut i: usize = 0;
    while i < names.len()
        invariant
            i <= names@.len(),
            none_deprecated(items@),
            items@.map_values(|x: CompletionItem| item_view(x)) == plain_items(
                names@.take(i as int).map_values(|s: String| s@),
                CompletionItemKind::Variable,
            ),
        decreases names@.len() - i,
    {
        let ghost before = items@.map_values(|x: CompletionItem| item_view(x));
        items.push(simple_item(names[i].clone(), CompletionItemKind::Variable));
        proof {
            let f = |s: String| s@;
            let ns = names@.take(i as int).map_values(f);
            let n = names@[i as int]@;
            assert(names@.take(i + 1) =~= names@.take(i as int).push(names@[i as int]));
            assert(names@.take(i + 1).map_values(f) =~= ns.push(n));
            assert(plain_items(ns.push(n), CompletionItemKind::Variable) =~= plain_items(ns, CompletionItemKind::Variable).push((n, CompletionItemKind::Variable, None::<Seq<char>>)));
            assert(items@.map_values(|x: CompletionItem| item_view(x)) =~= before.push((n, CompletionItemKind::Variable, None::<Seq<char>>)));
            assert(items@.map_values(|x: CompletionItem| item_view(x)) =~= plain_items(
                names@.take(i + 1).map_values(|s: String| s@),
                CompletionItemKind::Variable,
            ));
        }
        i = i + 1;
    }
    proof {
        assert(names@.take(i as int) =~= names@);
    }
    Some(items)
}

} // verus!
