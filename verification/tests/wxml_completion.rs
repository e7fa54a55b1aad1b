use glass_easel_analyzer::backend_config::{
    AttributeConfig, BackendConfig, ComponentConfig, ElementConfig, EventConfig, GlassEaselBackendConfig,
    ValueOption,
};
use glass_easel_analyzer::completion::{template_name_completion, CompletionItem, CompletionItemKind};
use glass_easel_analyzer::file_content::{FileContentMetadata, FileLang};
use glass_easel_analyzer::position::{Location, Position};
use glass_easel_analyzer::wxml::{
    ClassAttribute, CommonAttributes, Element, ElementKind, EventBinding, StyleAttribute, TagLocation, Value,
    WxmlName,
};
use glass_easel_analyzer::wxml_completion::{completion_wxml, text_ends_with_lt, WxmlCompletionContext};
use glass_easel_analyzer::wxml_utils::WxmlTokenRef;

fn pos(line: u32, col: u32) -> Position {
    Position { line, utf16_col: col }
}

fn loc(c1: u32, c2: u32) -> Location {
    Location { start: pos(0, c1), end: pos(0, c2) }
}

fn name(n: &str, c1: u32, c2: u32) -> WxmlName {
    WxmlName { name: n.to_string(), location: loc(c1, c2) }
}

fn no_common() -> CommonAttributes {
    CommonAttributes { id: None, slot: None, slot_value_refs: vec![], event_bindings: vec![], data: vec![], marks: vec![] }
}

fn tag_location() -> TagLocation {
    TagLocation { start: (loc(0, 5), loc(20, 21)), close: loc(20, 21), end: None }
}

fn normal_with(tag: &str, class: ClassAttribute, common: CommonAttributes) -> Element {
    Element {
        kind: ElementKind::Normal {
            tag_name: name(tag, 1, 1 + tag.len() as u32),
            attributes: vec![],
            class,
            style: StyleAttribute::Absent,
            change_attributes: vec![],
            worklet_attributes: vec![],
            children: vec![],
            generics: vec![],
            extra_attr: vec![],
            let_vars: vec![],
            common,
        },
        tag_location: tag_location(),
    }
}

fn attr(n: &str, ty: &str, options: &[&str]) -> AttributeConfig {
    AttributeConfig {
        name: n.to_string(),
        ty: ty.to_string(),
        description: String::new(),
        reference: None,
        value_option: options
            .iter()
            .map(|v| ValueOption { value: v.to_string(), description: String::new(), deprecated: *v == "old" })
            .collect(),
        deprecated: false,
    }
}

fn event(n: &str) -> EventConfig {
    EventConfig { name: n.to_string(), description: String::new(), reference: None, deprecated: false }
}

fn config() -> BackendConfig {
    BackendConfig {
        glass_easel_backend_config: GlassEaselBackendConfig {
            name: "test".to_string(),
            description: String::new(),
            major_version: 1,
            minor_version: 0,
        },
        element: vec![ElementConfig {
            tag_name: "view".to_string(),
            description: String::new(),
            reference: None,
            attribute: vec![attr("hover-class", "", &["none", "old"])],
            event: vec![event("tap")],
            deprecated: false,
        }],
        component: vec![ComponentConfig {
            tag_name: "button".to_string(),
            description: String::new(),
            reference: None,
            property: vec![attr("size", "string", &[]), attr("disabled", "boolean", &[])],
            event: vec![],
            deprecated: true,
        }],
        global_attribute: vec![],
        global_event: vec![event("touchstart")],
        media_type: vec![],
        media_feature: vec![],
        pseudo_class: vec![],
        pseudo_element: vec![],
        style_property: vec![],
    }
}

fn ctx() -> WxmlCompletionContext {
    WxmlCompletionContext {
        using_components: vec!["my-comp".to_string(), "9bad".to_string()],
        custom_component: false,
        wxss_classes: vec!["a".to_string(), "b".to_string()],
        wxss_ids: vec![],
        template_names: Some(vec!["t1".to_string(), "t2".to_string()]),
    }
}

fn opened(text: &str) -> FileContentMetadata {
    let mut meta = FileContentMetadata::new(text.to_string(), FileLang::Wxml);
    meta.open();
    meta
}

fn labels(items: &[CompletionItem]) -> Vec<&str> {
    items.iter().map(|i| i.label.as_str()).collect()
}

fn snippet_of<'a>(items: &'a [CompletionItem], label: &str) -> Option<&'a str> {
    items.iter().find(|i| i.label == label).and_then(|i| i.snippet.as_deref())
}

#[test]
fn text_before_position_ending_with_lt() {
    let meta = opened("ab <c");
    assert_eq!(text_ends_with_lt(&meta, pos(0, 0), pos(0, 4)), Some(true));
    assert_eq!(text_ends_with_lt(&meta, pos(0, 0), pos(0, 3)), Some(false));
    assert_eq!(text_ends_with_lt(&meta, pos(0, 4), pos(0, 4)), Some(false));
    assert_eq!(text_ends_with_lt(&meta, pos(0, 4), pos(0, 2)), None);
}

#[test]
fn completion_after_lt_lists_tags_and_template_keywords() {
    let meta = opened("a <");
    let text = "a <".to_string();
    let token = WxmlTokenRef::StaticTextContent(loc(0, 3), &text, None);
    let items = completion_wxml(&config(), &meta, &token, pos(0, 3), &ctx()).unwrap();
    assert_eq!(
        labels(&items),
        vec!["my-comp", "button", "view", "slot", "block", "include", "import", "template name", "template is"]
    );
    assert_eq!(items[0].kind, CompletionItemKind::Class);
    assert_eq!(snippet_of(&items, "my-comp"), Some("my-comp>$0</my-comp>"));
    assert!(items[1].deprecated);
    assert_eq!(snippet_of(&items, "block"), Some("block>$0</block>"));
    assert_eq!(items[3].kind, CompletionItemKind::Keyword);
    assert_eq!(snippet_of(&items, "import"), Some("import src=\"$0\" />"));
    assert_eq!(snippet_of(&items, "template name"), Some("template name=\"$1\">$0</template>"));
    assert_eq!(snippet_of(&items, "template is"), Some("template is=\"${1|t1,t2|}\" data=\"{{ $0 }}\" />"));
}

#[test]
fn completion_in_text_without_lt_is_none() {
    let meta = opened("a b");
    let text = "a b".to_string();
    let token = WxmlTokenRef::StaticTextContent(loc(0, 3), &text, None);
    assert!(completion_wxml(&config(), &meta, &token, pos(0, 3), &ctx()).is_none());
}

#[test]
fn completion_of_end_tag_and_tag_name() {
    let meta = opened("");
    let e = normal_with("view", ClassAttribute::Absent, no_common());
    let items = completion_wxml(&config(), &meta, &WxmlTokenRef::EndTagBody(&e), pos(0, 0), &ctx()).unwrap();
    assert_eq!(labels(&items), vec!["view>"]);
    assert_eq!(items[0].snippet, None);
    let n = name("vi", 1, 3);
    let items = completion_wxml(&config(), &meta, &WxmlTokenRef::TagName(&n), pos(0, 2), &ctx()).unwrap();
    assert_eq!(labels(&items), vec!["my-comp", "button", "view"]);
    assert!(items.iter().all(|i| i.snippet.is_none()));
}

#[test]
fn attribute_completion_of_a_native_element() {
    let meta = opened("");
    let e = normal_with("view", ClassAttribute::Absent, no_common());
    let items = completion_wxml(&config(), &meta, &WxmlTokenRef::StartTagBody(&e), pos(0, 6), &ctx()).unwrap();
    assert_eq!(
        labels(&items),
        vec![
            "hover-class", "model:", "change:", "class", "class:", "style", "style:", "generic:", "wx:if", "wx:elif",
            "wx:else", "wx:for", "wx:for-item", "wx:for-index", "wx:key", "bind:", "mut-bind:", "catch:",
            "capture-bind:", "capture-mut-bind:", "capture-catch:", "let:", "id", "slot", "slot:", "data:", "mark:",
        ]
    );
    assert_eq!(items[0].kind, CompletionItemKind::Variable);
    assert_eq!(snippet_of(&items, "hover-class"), Some("hover-class=\"$0\""));
    assert_eq!(snippet_of(&items, "model:"), Some("model:${1|hover-class|}=\"{{ $0 }}\""));
    assert_eq!(snippet_of(&items, "class"), Some("class=\"${1|a,b|}\"$0"));
    assert_eq!(snippet_of(&items, "class:"), Some("class:${1|a,b|}$0"));
    assert_eq!(snippet_of(&items, "style"), Some("style=\"$0\""));
    assert_eq!(snippet_of(&items, "style:"), Some("style:${1||}=\"$0\""));
    assert_eq!(snippet_of(&items, "generic:"), Some("generic:$1=\"$0\""));
    assert_eq!(snippet_of(&items, "wx:key"), Some("wx:key=\"$0\""));
    assert_eq!(snippet_of(&items, "capture-catch:"), Some("capture-catch:${1|tap,touchstart|}=\"$0\""));
    assert_eq!(snippet_of(&items, "let:"), Some("let:$1=\"{{ $0 }}\""));
    assert_eq!(snippet_of(&items, "id"), Some("id=\"$0\""));
    assert_eq!(snippet_of(&items, "mark:"), Some("mark:$1=\"$0\""));
}

#[test]
fn attribute_completion_after_model_prefix_and_of_custom_components() {
    let meta = opened("");
    let common = CommonAttributes {
        id: Some((loc(6, 8), Value::Static { value: "x".to_string(), location: loc(10, 11) })),
        slot: Some((loc(6, 8), Value::Static { value: "s".to_string(), location: loc(10, 11) })),
        event_bindings: vec![EventBinding {
            prefix_location: loc(12, 16),
            name: name("tap", 16, 19),
            value: None,
            is_catch: false,
            is_mut: false,
            is_capture: false,
        }],
        ..no_common()
    };
    let e = normal_with("view", ClassAttribute::Multiple(vec![(loc(6, 12), name("a", 12, 13), None)]), common);
    let n = name("hover-class", 6, 17);
    let mut c = ctx();
    c.wxss_ids = vec!["top".to_string()];
    let items = completion_wxml(&config(), &meta, &WxmlTokenRef::ModelAttributeName(&n, &e), pos(0, 8), &c).unwrap();
    let ls = labels(&items);
    assert!(!ls.contains(&"model:") && !ls.contains(&"class") && !ls.contains(&"id") && !ls.contains(&"slot"));
    assert_eq!(ls[0], "hover-class");
    assert_eq!(snippet_of(&items, "class:"), Some("class:${1|b|}$0"));
    assert_eq!(snippet_of(&items, "bind:"), Some("bind:${1|touchstart|}=\"$0\""));
    c.custom_component = true;
    let items = completion_wxml(&config(), &meta, &WxmlTokenRef::ModelAttributeName(&n, &e), pos(0, 8), &c).unwrap();
    assert_eq!(labels(&items)[0], "class:");
}

#[test]
fn attribute_completion_of_a_built_in_component_and_a_for() {
    let meta = opened("");
    let mut c = ctx();
    c.wxss_ids = vec!["top".to_string(), "bottom".to_string()];
    let e = normal_with("button", ClassAttribute::Absent, no_common());
    let items = completion_wxml(&config(), &meta, &WxmlTokenRef::StartTagBody(&e), pos(0, 8), &c).unwrap();
    assert_eq!(labels(&items)[..4], ["size", "disabled", "model:", "change:"]);
    assert_eq!(snippet_of(&items, "size"), Some("size=\"$0\""));
    assert_eq!(snippet_of(&items, "disabled"), None);
    assert_eq!(snippet_of(&items, "change:"), Some("change:${1|size,disabled|}=\"{{ $0 }}\""));
    assert_eq!(snippet_of(&items, "id"), Some("id=\"${1|top,bottom|}\"$0"));
    assert_eq!(snippet_of(&items, "bind:"), Some("bind:${1|touchstart|}=\"$0\""));

    let list_value = Value::Static { value: "{{ list }}".to_string(), location: loc(8, 18) };
    let for_elem = Element {
        kind: ElementKind::For {
            list: (loc(1, 7), list_value),
            item_name: (loc(1, 7), name("item", 1, 7)),
            index_name: (loc(20, 33), name("i", 35, 36)),
            key: (loc(1, 7), name("", 1, 7)),
            children: vec![],
        },
        tag_location: tag_location(),
    };
    let items = completion_wxml(&config(), &meta, &WxmlTokenRef::StartTagBody(&for_elem), pos(0, 8), &c).unwrap();
    assert_eq!(labels(&items), vec!["wx:for-item", "wx:key"]);
}

#[test]
fn completion_of_class_event_value_and_template_names() {
    let meta = opened("");
    let e = normal_with("view", ClassAttribute::Multiple(vec![(loc(6, 12), name("b", 12, 13), None)]), no_common());
    let class_name = "b".to_string();
    let items =
        completion_wxml(&config(), &meta, &WxmlTokenRef::StaticClassName(loc(12, 13), &class_name, &e), pos(0, 12), &ctx())
            .unwrap();
    assert_eq!(labels(&items), vec!["a"]);
    assert_eq!(items[0].kind, CompletionItemKind::Property);

    let ev = name("ta", 10, 12);
    let items = completion_wxml(&config(), &meta, &WxmlTokenRef::EventName(&ev, &e), pos(0, 11), &ctx()).unwrap();
    assert_eq!(labels(&items), vec!["tap", "touchstart"]);
    assert_eq!(items[0].kind, CompletionItemKind::Variable);

    let attr_name = name("hover-class", 6, 17);
    let value = "n".to_string();
    let token = WxmlTokenRef::AttributeStaticValue(loc(19, 20), &value, &attr_name, &e);
    let items = completion_wxml(&config(), &meta, &token, pos(0, 19), &ctx()).unwrap();
    assert_eq!(labels(&items), vec!["none", "old"]);
    assert_eq!(items[0].kind, CompletionItemKind::EnumMember);
    assert!(!items[0].deprecated && items[1].deprecated);
    let unknown = name("nothing", 6, 13);
    let token = WxmlTokenRef::AttributeStaticValue(loc(19, 20), &value, &unknown, &e);
    assert!(completion_wxml(&config(), &meta, &token, pos(0, 19), &ctx()).is_none());

    let t = "t".to_string();
    let items = completion_wxml(&config(), &meta, &WxmlTokenRef::TemplateRef(&t, loc(0, 1)), pos(0, 0), &ctx()).unwrap();
    assert_eq!(labels(&items), vec!["template is"]);
    let mut c = ctx();
    c.template_names = Some(vec![]);
    let items = completion_wxml(&config(), &meta, &WxmlTokenRef::TemplateRef(&t, loc(0, 1)), pos(0, 0), &c).unwrap();
    assert!(items.is_empty());
    assert!(completion_wxml(&config(), &meta, &WxmlTokenRef::Blank, pos(0, 0), &c).is_none());
}

#[test]
fn completion_of_ids_and_classes_in_style_sheets() {
    assert!(template_name_completion(&vec![]).is_none());
    let items = template_name_completion(&vec!["main".to_string(), "side".to_string()]).unwrap();
    assert_eq!(labels(&items), vec!["main", "side"]);
    assert_eq!(items[1].kind, CompletionItemKind::Variable);
}
