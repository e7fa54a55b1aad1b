use glass_easel_analyzer::backend_config::{
    check_major_version, AttributeConfig, BackendConfig, ComponentConfig, ElementConfig,
    EventConfig, GlassEaselBackendConfig, MediaFeatureConfig, MediaFeatureType, MediaTypeConfig,
    PseudoClassConfig, PseudoElementConfig, StylePropertyConfig, VersionCheck,
};
use glass_easel_analyzer::completion::{completion_wxss, CompletionItemKind, WxssCompletion};
use glass_easel_analyzer::hover::hover_wxss;
use glass_easel_analyzer::position::Position;
use glass_easel_analyzer::wxss::sheet::StyleSheet;
use glass_easel_analyzer::wxss_utils::find_token_in_position;

fn attr(name: &str) -> AttributeConfig {
    AttributeConfig {
        name: name.to_string(),
        ty: String::new(),
        description: String::new(),
        reference: None,
        value_option: vec![],
        deprecated: false,
    }
}

fn event(name: &str, description: &str) -> EventConfig {
    EventConfig { name: name.to_string(), description: description.to_string(), reference: None, deprecated: false }
}

fn config() -> BackendConfig {
    BackendConfig {
        glass_easel_backend_config: GlassEaselBackendConfig {
            name: "test".to_string(),
            description: String::new(),
            major_version: 1,
            minor_version: 0,
        },
        element: vec![ElementConfig {
            tag_name: "view".to_string(),
            description: String::new(),
            reference: None,
            attribute: vec![attr("hover-class")],
            event: vec![event("tap", "element tap")],
            deprecated: false,
        }],
        component: vec![ComponentConfig {
            tag_name: "button".to_string(),
            description: String::new(),
            reference: None,
            property: vec![attr("size")],
            event: vec![],
            deprecated: false,
        }],
        global_attribute: vec![attr("id"), attr("class")],
        global_event: vec![event("tap", "global tap"), event("longpress", "")],
        media_type: vec![MediaTypeConfig {
            name: "screen".to_string(),
            description: "Screens.".to_string(),
            reference: None,
        }],
        media_feature: vec![
            MediaFeatureConfig {
                name: "width".to_string(),
                ty: MediaFeatureType::Range,
                options: vec![],
                description: "Width.".to_string(),
                reference: None,
            },
            MediaFeatureConfig {
                name: "orientation".to_string(),
                ty: MediaFeatureType::Any,
                options: vec!["portrait".to_string(), "landscape".to_string()],
                description: String::new(),
                reference: None,
            },
        ],
        pseudo_class: vec![PseudoClassConfig {
            name: "hover".to_string(),
            description: "When hovered.".to_string(),
            reference: Some("https://example.com/hover".to_string()),
        }],
        pseudo_element: vec![PseudoElementConfig {
            name: "before".to_string(),
            description: String::new(),
            reference: None,
        }],
        style_property: vec![
            StylePropertyConfig {
                name: "color".to_string(),
                options: vec![],
                description: "Text color.".to_string(),
                reference: None,
            },
            StylePropertyConfig {
                name: "display".to_string(),
                options: vec!["block".to_string(), "flex".to_string()],
                description: String::new(),
                reference: None,
            },
        ],
    }
}

#[test]
fn version_check() {
    assert_eq!(check_major_version(0), VersionCheck::Outdated);
    assert_eq!(check_major_version(1), VersionCheck::Supported);
    assert_eq!(check_major_version(2), VersionCheck::TooNew);
}

#[test]
fn attribute_search_looks_at_element_then_globals() {
    let c = config();
    assert_eq!(c.search_attribute("view", "hover-class").unwrap().name, "hover-class");
    assert_eq!(c.search_attribute("view", "class").unwrap().name, "class");
    assert!(c.search_attribute("view", "size").is_none());
    assert!(c.search_attribute("unknown", "id").is_none());
    assert_eq!(c.search_property("button", "size").unwrap().name, "size");
    let names: Vec<&str> = c.list_attributes("view").unwrap().iter().map(|a| a.name.as_str()).collect();
    assert_eq!(names, vec!["hover-class", "id", "class"]);
    assert!(c.list_properties("view").is_none());
}

#[test]
fn event_search_prefers_element_events() {
    let c = config();
    assert_eq!(c.search_event("view", "tap").unwrap().description, "element tap");
    assert_eq!(c.search_event("button", "tap").unwrap().description, "global tap");
    assert!(c.search_event("unknown", "tap").is_none());
    assert_eq!(c.search_global_event("longpress").unwrap().name, "longpress");
    let names: Vec<&str> = c.list_events("button").unwrap().iter().map(|e| e.name.as_str()).collect();
    assert_eq!(names, vec!["tap", "longpress"]);
    assert!(c.list_events("unknown").is_none());
    assert_eq!(c.list_global_events().len(), 2);
}

#[test]
fn hover_on_selectors_and_configured_names() {
    let c = config();
    let (sheet, _) = StyleSheet::parse_str("view:hover { color: red; }\n@media (min-width: 1px) {}");
    let t = find_token_in_position(&sheet, Position { line: 0, utf16_col: 2 });
    let h = hover_wxss(&c, &t).unwrap();
    assert_eq!(h.contents, "Tag name selector `view`, matches `<view ...>`.");
    let t = find_token_in_position(&sheet, Position { line: 0, utf16_col: 7 });
    let h = hover_wxss(&c, &t).unwrap();
    assert_eq!(
        h.contents,
        "**hover** *pseudo class*\n\nWhen hovered.\n\n[Reference](https://example.com/hover)"
    );
    let t = find_token_in_position(&sheet, Position { line: 0, utf16_col: 14 });
    let h = hover_wxss(&c, &t).unwrap();
    assert_eq!(h.contents, "**color** *property*\n\nText color.");
    let t = find_token_in_position(&sheet, Position { line: 1, utf16_col: 10 });
    let h = hover_wxss(&c, &t).unwrap();
    assert_eq!(h.contents, "**width** *media feature*\n\nWidth.");
}

#[test]
fn completion_of_property_names_and_media_features() {
    let c = config();
    let (sheet, _) = StyleSheet::parse_str(".a { color: red; }\n@media (width: 1px) {}");
    let t = find_token_in_position(&sheet, Position { line: 0, utf16_col: 6 });
    match completion_wxss(&c, &t) {
        Some(WxssCompletion::Items(items)) => {
            let labels: Vec<&str> = items.iter().map(|i| i.label.as_str()).collect();
            assert_eq!(labels, vec!["color", "display"]);
            assert!(items.iter().all(|i| i.kind == CompletionItemKind::Property && i.snippet.is_none()));
        }
        other => panic!("unexpected completion {:?}", other),
    }
    let t = find_token_in_position(&sheet, Position { line: 1, utf16_col: 9 });
    match completion_wxss(&c, &t) {
        Some(WxssCompletion::Items(items)) => {
            let v: Vec<(&str, Option<&str>)> = items.iter().map(|i| (i.label.as_str(), i.snippet.as_deref())).collect();
            assert_eq!(
                v,
                vec![
                    ("width", Some("width: $0")),
                    ("min-width", Some("min-width: $0")),
                    ("max-width", Some("max-width: $0")),
                    ("orientation", Some("orientation: ${1|portrait,landscape|}")),
                ]
            );
        }
        other => panic!("unexpected completion {:?}", other),
    }
}

#[test]
fn completion_of_an_unknown_rule_gives_declarations() {
    let c = config();
    // an identifier that ends a block stands alone as an unknown rule
    let (sheet, _) = StyleSheet::parse_str(".a { col }");
    let t = find_token_in_position(&sheet, Position { line: 0, utf16_col: 6 });
    match completion_wxss(&c, &t) {
        Some(WxssCompletion::Items(items)) => {
            let v: Vec<(&str, Option<&str>)> = items.iter().map(|i| (i.label.as_str(), i.snippet.as_deref())).collect();
            assert_eq!(v, vec![("color", Some("color: $0;")), ("display", Some("display: ${1|block,flex|};"))]);
        }
        other => panic!("unexpected completion {:?}", other),
    }
}

#[test]
fn typescript_declarations_of_the_configuration() {
    let mut typed = attr("hover-class");
    typed.ty = "string".to_string();
    let c = BackendConfig {
        glass_easel_backend_config: GlassEaselBackendConfig {
            name: "n".to_string(),
            description: "d \"q\"".to_string(),
            major_version: 12,
            minor_version: 0,
        },
        element: vec![ElementConfig {
            tag_name: "view".to_string(),
            description: String::new(),
            reference: None,
            attribute: vec![typed],
            event: vec![],
            deprecated: false,
        }],
        component: vec![ComponentConfig {
            tag_name: "button".to_string(),
            description: String::new(),
            reference: None,
            property: vec![attr("form-type")],
            event: vec![],
            deprecated: false,
        }],
        global_attribute: vec![attr("aria-label")],
        global_event: vec![],
        media_type: vec![],
        media_feature: vec![],
        pseudo_class: vec![],
        pseudo_element: vec![],
        style_property: vec![],
    };
    let expected = "export type GlassEaselTemplateBackendConfig = {\n    name: \"n\"\n    description: \"d \\\"q\\\"\"\n    majorVersion: 12\n    minorVersion: 0\n}\n\ntype GlobalAttributes = {\n\"ariaLabel\": any\n}\nexport type ComponentProperties = {\n\"view\": GlobalAttributes & {\n\"hoverClass\": string\n}\n\"button\": GlobalAttributes & {\n\"formType\": any\n}\n}\n";
    assert_eq!(c.generate_template_backend_config(), expected);
    let mut w = "// types\n".to_string();
    c.extract_template_backend_config(&mut w);
    assert_eq!(w, format!("// types\n{}", expected));
}
