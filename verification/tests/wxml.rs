use glass_easel_analyzer::backend_config::{
    AttributeConfig, BackendConfig, ComponentConfig, ElementConfig, EventConfig, GlassEaselBackendConfig,
    ValueOption,
};
use glass_easel_analyzer::file_content::{FileContentMetadata, FileLang};
use glass_easel_analyzer::folding::FoldingRangeKind;
use glass_easel_analyzer::hover::hover_wxml;
use glass_easel_analyzer::position::{Location, Position};
use glass_easel_analyzer::wxml::{
    Attribute, ClassAttribute, CommonAttributes, Element, ElementKind, EventBinding, Expr, Node, Script,
    StyleAttribute, TagLocation, Template, TemplateDefinition, Value, WxmlComment, WxmlName,
};
use glass_easel_analyzer::wxml_outline::{collect_wxml_folding_ranges, collect_wxml_symbol_list};
use glass_easel_analyzer::wxml_semantic::{find_wxml_semantic_tokens, MODIFIER_DEFINITION};
use glass_easel_analyzer::wxml_utils::{
    find_token_in_position, wxml_declaration, wxml_local_references, ScopeKind, WxmlDeclaration, WxmlTokenRef,
};

fn pos(line: u32, col: u32) -> Position {
    Position { line, utf16_col: col }
}

fn loc(c1: u32, c2: u32) -> Location {
    Location { start: pos(0, c1), end: pos(0, c2) }
}

fn name(n: &str, c1: u32, c2: u32) -> WxmlName {
    WxmlName { name: n.to_string(), location: loc(c1, c2) }
}

fn no_common() -> CommonAttributes {
    CommonAttributes { id: None, slot: None, slot_value_refs: vec![], event_bindings: vec![], data: vec![], marks: vec![] }
}

fn normal(tag_name: WxmlName, attributes: Vec<Attribute>, common: CommonAttributes, children: Vec<Node>, tag_location: TagLocation) -> Element {
    Element {
        kind: ElementKind::Normal {
            tag_name,
            attributes,
            class: ClassAttribute::Absent,
            style: StyleAttribute::Absent,
            change_attributes: vec![],
            worklet_attributes: vec![],
            children,
            generics: vec![],
            extra_attr: vec![],
            let_vars: vec![],
            common,
        },
        tag_location,
    }
}

fn template(content: Vec<Node>) -> Template {
    Template {
        path: "/a.wxml".to_string(),
        content,
        imports: vec![],
        includes: vec![],
        sub_templates: vec![],
        scripts: vec![],
    }
}

/// `<view id="main" bindtap="onTap">text</view>`, or the same without its `id` when `with_id`
/// is false.
fn sample_with(with_id: bool) -> Template {
    let id = if with_id {
        Some((loc(6, 8), Value::Static { value: "main".to_string(), location: loc(10, 14) }))
    } else {
        None
    };
    let common = CommonAttributes {
        id,
        event_bindings: vec![EventBinding {
            prefix_location: loc(16, 20),
            name: name("tap", 20, 23),
            value: Some(Value::Static { value: "onTap".to_string(), location: loc(25, 30) }),
            is_catch: false,
            is_mut: false,
            is_capture: false,
        }],
        ..no_common()
    };
    let text = Node::Text(Value::Static { value: "text".to_string(), location: loc(32, 36) });
    let elem = normal(
        name("view", 1, 5),
        vec![],
        common,
        vec![text],
        TagLocation { start: (loc(0, 5), loc(31, 32)), close: loc(31, 32), end: Some((loc(36, 42), loc(42, 43))) },
    );
    template(vec![Node::Element(elem)])
}

fn sample() -> Template {
    sample_with(true)
}

const SAMPLE: &str = "<view id=\"main\" bindtap=\"onTap\">text</view>";

#[test]
fn token_at_tag_name() {
    let t = sample();
    match find_token_in_position(&t, pos(0, 2)) {
        Some(WxmlTokenRef::TagName(n)) => assert_eq!(n.name, "view"),
        other => panic!("unexpected {:?}", other),
    }
}

#[test]
fn token_at_id_keyword_and_value() {
    let t = sample();
    match find_token_in_position(&t, pos(0, 7)) {
        Some(WxmlTokenRef::AttributeKeyword(l, _)) => assert_eq!(l, loc(6, 8)),
        other => panic!("unexpected {:?}", other),
    }
    match find_token_in_position(&t, pos(0, 12)) {
        Some(WxmlTokenRef::StaticId(l, v)) => {
            assert_eq!(l, loc(10, 14));
            assert_eq!(v, "main");
        },
        other => panic!("unexpected {:?}", other),
    }
}

#[test]
fn static_id_answers_for_the_rest_of_the_start_tag() {
    let t = sample();
    match find_token_in_position(&t, pos(0, 21)) {
        Some(WxmlTokenRef::StaticId(l, v)) => {
            assert_eq!(l, loc(10, 14));
            assert_eq!(v, "main");
        },
        other => panic!("unexpected {:?}", other),
    }
}

#[test]
fn token_at_event_name_text_and_end_tag() {
    let t = sample_with(false);
    match find_token_in_position(&t, pos(0, 21)) {
        Some(WxmlTokenRef::EventName(n, _)) => assert_eq!(n.name, "tap"),
        other => panic!("unexpected {:?}", other),
    }
    match find_token_in_position(&t, pos(0, 33)) {
        Some(WxmlTokenRef::StaticTextContent(l, v, Some(_))) => {
            assert_eq!(l, loc(32, 36));
            assert_eq!(v, "text");
        },
        other => panic!("unexpected {:?}", other),
    }
    assert!(matches!(find_token_in_position(&t, pos(0, 39)), Some(WxmlTokenRef::EndTagBody(_))));
    assert!(matches!(find_token_in_position(&t, pos(3, 0)), Some(WxmlTokenRef::Blank)));
}

#[test]
fn scope_reference_past_the_scopes_fails() {
    let text = Node::Text(Value::Dynamic {
        expression: Box::new(Expr::ScopeRef { location: loc(2, 3), index: 0 }),
        double_brace_location: (loc(0, 2), loc(3, 5)),
    });
    let t = template(vec![text]);
    assert!(find_token_in_position(&t, pos(0, 2)).is_none());
}

fn script_template() -> Template {
    let text = Node::Text(Value::Dynamic {
        expression: Box::new(Expr::Binary {
            left: Box::new(Expr::ScopeRef { location: loc(2, 3), index: 0 }),
            right: Box::new(Expr::DataField { name: "d".to_string(), location: loc(6, 7) }),
            location: loc(4, 5),
            is_plus: false,
        }),
        double_brace_location: (loc(0, 2), loc(7, 9)),
    });
    let tl = TagLocation { start: (loc(10, 14), loc(20, 21)), close: loc(20, 21), end: Some((loc(30, 35), loc(35, 36))) };
    Template {
        scripts: vec![Script::Inline {
            tag_location: tl,
            module_location: loc(15, 21),
            module_name: name("m", 22, 23),
            content_location: loc(24, 30),
        }],
        ..template(vec![text])
    }
}

#[test]
fn scope_reference_names_its_script() {
    let t = script_template();
    match find_token_in_position(&t, pos(0, 2)) {
        Some(WxmlTokenRef::ScopeRef(l, ScopeKind::Script(_))) => assert_eq!(l, loc(2, 3)),
        other => panic!("unexpected {:?}", other),
    }
    match find_token_in_position(&t, pos(0, 6)) {
        Some(WxmlTokenRef::DataField(n, l)) => {
            assert_eq!(n, "d");
            assert_eq!(l, loc(6, 7));
        },
        other => panic!("unexpected {:?}", other),
    }
}

#[test]
fn script_module_references_and_declaration() {
    let t = script_template();
    let module = match find_token_in_position(&t, pos(0, 22)) {
        Some(tok @ WxmlTokenRef::ScriptModule(_)) => tok,
        other => panic!("unexpected {:?}", other),
    };
    assert_eq!(wxml_local_references(&t, &module), vec![loc(2, 3)]);
    let scope_ref = find_token_in_position(&t, pos(0, 2)).unwrap();
    assert_eq!(wxml_local_references(&t, &scope_ref), vec![loc(2, 3)]);
    match wxml_declaration(&t, &scope_ref, false) {
        Some(WxmlDeclaration::Local { origin, target }) => {
            assert_eq!(origin, loc(2, 3));
            assert_eq!(target, loc(22, 23));
        },
        other => panic!("unexpected {:?}", other),
    }
}

#[test]
fn declaration_of_static_id_is_itself() {
    let t = sample();
    let tok = find_token_in_position(&t, pos(0, 12)).unwrap();
    match wxml_declaration(&t, &tok, true) {
        Some(WxmlDeclaration::Local { origin, target }) => {
            assert_eq!(origin, loc(10, 14));
            assert_eq!(target, loc(10, 14));
        },
        other => panic!("unexpected {:?}", other),
    }
    let tag = find_token_in_position(&t, pos(0, 2)).unwrap();
    assert!(matches!(wxml_declaration(&t, &tag, true), Some(WxmlDeclaration::ComponentTemplate { .. })));
}

#[test]
fn semantic_tokens_of_an_element() {
    let t = sample();
    let mut content = FileContentMetadata::new(SAMPLE.to_string(), FileLang::Wxml);
    content.open();
    let range = Location { start: pos(0, 0), end: pos(5, 0) };
    let toks: Vec<(u32, u32, u32, u32, u32)> = find_wxml_semantic_tokens(&content, &t, range)
        .unwrap()
        .iter()
        .map(|x| (x.delta_line, x.delta_start, x.length, x.token_type, x.token_modifiers_bitset))
        .collect();
    assert_eq!(
        toks,
        vec![
            (0, 0, 5, 0, 0),
            (0, 6, 2, 6, 0),
            (0, 4, 4, 8, 0),
            (0, 6, 4, 6, 0),
            (0, 4, 3, 3, 0),
            (0, 5, 5, 5, 0),
            (0, 6, 1, 0, 0),
            (0, 1, 4, 8, 0),
            (0, 4, 7, 0, 0),
        ]
    );
}

#[test]
fn semantic_tokens_carry_definition_modifiers() {
    let t = script_template();
    let mut content = FileContentMetadata::new("{{m + d}}  <wxs module=\"m\">x</wxs>".to_string(), FileLang::Wxml);
    content.open();
    let range = Location { start: pos(0, 0), end: pos(5, 0) };
    let toks = find_wxml_semantic_tokens(&content, &t, range).unwrap();
    assert!(toks.iter().any(|x| x.token_modifiers_bitset == MODIFIER_DEFINITION && x.length == 1));
}

#[test]
fn folding_ranges_of_elements_and_comments() {
    let mut t = sample();
    t.content.push(Node::Comment(WxmlComment {
        content: " c ".to_string(),
        location: Location { start: pos(1, 0), end: pos(1, 10) },
    }));
    let r = collect_wxml_folding_ranges(&t);
    assert_eq!(r.len(), 2);
    assert_eq!((r[0].start_line, r[0].start_character, r[0].end_line, r[0].end_character), (0, 32, 0, 36));
    assert_eq!(r[0].kind, None);
    assert_eq!((r[1].start_line, r[1].start_character, r[1].end_line, r[1].end_character), (1, 3, 1, 7));
    assert_eq!(r[1].kind, Some(FoldingRangeKind::Comment));
}

#[test]
fn outline_lists_named_sub_templates() {
    let mut t = sample();
    let tl = TagLocation { start: (loc(0, 9), loc(18, 19)), close: loc(18, 19), end: Some((loc(20, 30), loc(30, 31))) };
    t.sub_templates.push(TemplateDefinition { tag_location: tl, name_location: loc(10, 14), name: name("t1", 16, 18), content: vec![] });
    let tl2 = TagLocation { start: (loc(0, 9), loc(18, 19)), close: loc(18, 19), end: None };
    t.sub_templates.push(TemplateDefinition { tag_location: tl2, name_location: loc(10, 14), name: name("", 16, 16), content: vec![] });
    let syms = collect_wxml_symbol_list(&t);
    assert_eq!(syms.len(), 1);
    assert_eq!(syms[0].name, "t1");
    assert_eq!(syms[0].detail, "<template name=\"t1\">");
    assert_eq!(syms[0].selection_range, loc(16, 18));
    assert_eq!(syms[0].range, loc(0, 31));
}

fn config() -> BackendConfig {
    BackendConfig {
        glass_easel_backend_config: GlassEaselBackendConfig {
            name: "test".to_string(),
            description: String::new(),
            major_version: 1,
            minor_version: 0,
        },
        element: vec![ElementConfig {
            tag_name: "view".to_string(),
            description: "A view.".to_string(),
            reference: None,
            attribute: vec![AttributeConfig {
                name: "hover-class".to_string(),
                ty: String::new(),
                description: "Hover.".to_string(),
                reference: None,
                value_option: vec![ValueOption { value: "none".to_string(), description: "No class.".to_string(), deprecated: false }],
                deprecated: false,
            }],
            event: vec![EventConfig { name: "tap".to_string(), description: "Tapped.".to_string(), reference: None, deprecated: false }],
            deprecated: false,
        }],
        component: vec![ComponentConfig {
            tag_name: "button".to_string(),
            description: "A button.".to_string(),
            reference: None,
            property: vec![AttributeConfig {
                name: "size".to_string(),
                ty: "string".to_string(),
                description: "Size.".to_string(),
                reference: None,
                value_option: vec![],
                deprecated: false,
            }],
            event: vec![],
            deprecated: false,
        }],
        global_attribute: vec![],
        global_event: vec![],
        media_type: vec![],
        media_feature: vec![],
        pseudo_class: vec![],
        pseudo_element: vec![],
        style_property: vec![],
    }
}

#[test]
fn hover_on_tag_name_and_event() {
    let t = sample();
    let c = config();
    let tag = find_token_in_position(&t, pos(0, 2)).unwrap();
    let h = hover_wxml(&c, &tag, false).unwrap();
    assert!(h.markdown);
    assert_eq!(h.contents, "**view** *element*\n\nA view.");
    assert_eq!(h.range, loc(1, 5));
    let h = hover_wxml(&c, &tag, true).unwrap();
    assert!(!h.markdown);
    assert_eq!(h.contents, "custom component");
    let t2 = sample_with(false);
    let ev = find_token_in_position(&t2, pos(0, 21)).unwrap();
    let h = hover_wxml(&c, &ev, false).unwrap();
    assert_eq!(h.contents, "**tap** *event*\n\nTapped.");
}

#[test]
fn hover_on_attribute_value_option_and_property() {
    let attr = Attribute {
        prefix_location: None,
        is_model: false,
        name: name("hover-class", 6, 17),
        value: Some(Value::Static { value: "none".to_string(), location: loc(19, 23) }),
    };
    let elem = normal(
        name("view", 1, 5),
        vec![attr],
        no_common(),
        vec![],
        TagLocation { start: (loc(0, 5), loc(24, 26)), close: loc(24, 26), end: None },
    );
    let t = template(vec![Node::Element(elem)]);
    let c = config();
    let value = find_token_in_position(&t, pos(0, 20)).unwrap();
    assert!(matches!(value, WxmlTokenRef::AttributeStaticValue(..)));
    let h = hover_wxml(&c, &value, false).unwrap();
    assert_eq!(h.contents, "**none**\n\nNo class.");
    assert_eq!(h.range, loc(19, 23));
    let name_tok = find_token_in_position(&t, pos(0, 8)).unwrap();
    let h = hover_wxml(&c, &name_tok, false).unwrap();
    assert_eq!(h.contents, "**hover-class** *attribute*\n\nHover.");

    let prop = Attribute { prefix_location: None, is_model: false, name: name("size", 8, 12), value: None };
    let button = normal(
        name("button", 1, 7),
        vec![prop],
        no_common(),
        vec![],
        TagLocation { start: (loc(0, 7), loc(13, 15)), close: loc(13, 15), end: None },
    );
    let t2 = template(vec![Node::Element(button)]);
    let tok = find_token_in_position(&t2, pos(0, 9)).unwrap();
    let h = hover_wxml(&c, &tok, false).unwrap();
    assert_eq!(h.contents, "**size**: string *property*\n\nSize.");
}
