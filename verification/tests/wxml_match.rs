use glass_easel_analyzer::name_set::add_name;
use glass_easel_analyzer::position::{Location, Position};
use glass_easel_analyzer::text::trim;
use glass_easel_analyzer::wxml::{
    Attribute, ClassAttribute, StaticAttribute, CommonAttributes, Element, ElementKind, Expr, Node, StyleAttribute, TagLocation, Template,
    TemplateDefinition, Value, WxmlName,
};
use glass_easel_analyzer::wxml_match::{
    collect_template_class_names, collect_template_ids, element_static_class_names, find_elements_matching,
    component_slot_value_usages, reference_plan, template_elements, ElementQuery,
};
use glass_easel_analyzer::wxml_utils::WxmlTokenRef;
use glass_easel_analyzer::wxss::sheet::StyleSheet;
use glass_easel_analyzer::wxss_utils::{collect_selector_names, SelectorKind};

fn loc(line: u32, c1: u32, c2: u32) -> Location {
    Location { start: Position { line, utf16_col: c1 }, end: Position { line, utf16_col: c2 } }
}

fn name(n: &str, line: u32) -> WxmlName {
    WxmlName { name: n.to_string(), location: loc(line, 1, 1 + n.len() as u32) }
}

fn tags(line: u32) -> TagLocation {
    TagLocation { start: (loc(line, 0, 2), loc(line, 30, 31)), close: loc(line, 30, 31), end: None }
}

fn element(tag: &str, line: u32, id: Option<&str>, class: ClassAttribute, children: Vec<Node>) -> Element {
    Element {
        kind: ElementKind::Normal {
            tag_name: name(tag, line),
            attributes: vec![],
            class,
            style: StyleAttribute::Absent,
            change_attributes: vec![],
            worklet_attributes: vec![],
            children,
            generics: vec![],
            extra_attr: vec![],
            let_vars: vec![],
            common: CommonAttributes {
                id: id.map(|v| (loc(line, 8, 10), Value::Static { value: v.to_string(), location: loc(line, 12, 20) })),
                slot: None,
                slot_value_refs: vec![],
                event_bindings: vec![],
                data: vec![],
                marks: vec![],
            },
        },
        tag_location: tags(line),
    }
}

fn static_class(s: &str, line: u32) -> ClassAttribute {
    ClassAttribute::String(loc(line, 3, 8), Value::Static { value: s.to_string(), location: loc(line, 10, 20) })
}

fn lit(s: &str, c: u32) -> Expr {
    Expr::LitStr { value: s.to_string(), location: loc(0, c, c + s.len() as u32) }
}

fn plus(l: Expr, r: Expr) -> Expr {
    Expr::Binary { left: Box::new(l), right: Box::new(r), location: loc(0, 0, 0), is_plus: true }
}

/// `<view class=" a  b\tc">` inside a `block`, beside `<text id=" main ">`, and a sub-template
/// holding `<view class="b">`.
fn sample() -> Template {
    let inner = element("view", 1, None, static_class(" a  b\tc", 1), vec![]);
    let block = Element {
        kind: ElementKind::Pure { children: vec![Node::Element(inner)], let_vars: vec![], slot: None, slot_value_refs: vec![] },
        tag_location: tags(0),
    };
    let text = element("text", 2, Some(" main "), ClassAttribute::Absent, vec![]);
    let sub_view = element("view", 4, Some("main"), static_class("b", 4), vec![]);
    Template {
        path: "/a.wxml".to_string(),
        content: vec![Node::Element(block), Node::Element(text)],
        imports: vec![],
        includes: vec![],
        sub_templates: vec![TemplateDefinition {
            tag_location: tags(3),
            name_location: loc(3, 10, 12),
            name: name("t", 3),
            content: vec![Node::Element(sub_view)],
        }],
        scripts: vec![],
    }
}

#[test]
fn elements_are_walked_sub_templates_first_then_in_document_order() {
    let t = sample();
    let els = template_elements(&t);
    let lines: Vec<u32> = els.iter().map(|e| e.tag_location.start.0.start.line).collect();
    assert_eq!(lines, vec![4, 0, 1, 2]);
}

#[test]
fn static_class_names_split_at_ascii_whitespace() {
    let t = sample();
    let els = template_elements(&t);
    let names: Vec<String> = element_static_class_names(els[2]).into_iter().map(|x| x.0).collect();
    assert_eq!(names, vec!["a", "b", "c"]);
    assert_eq!(element_static_class_names(els[2])[0].1, loc(1, 10, 20));
}

#[test]
fn class_names_touching_an_interpolation_are_left_out() {
    // class="x {{y}} z" and class="ab{{c}}"
    let y = Expr::ToStringWithoutUndefined {
        value: Box::new(Expr::DataField { name: "y".to_string(), location: loc(0, 4, 5) }),
        location: loc(0, 2, 7),
    };
    let e = plus(plus(lit("x ", 0), y), lit(" z", 7));
    let class = ClassAttribute::String(
        loc(0, 0, 5),
        Value::Dynamic { expression: Box::new(e), double_brace_location: (loc(0, 2, 4), loc(0, 5, 7)) },
    );
    let elem = element("view", 0, None, class, vec![]);
    let names: Vec<String> = element_static_class_names(&elem).into_iter().map(|x| x.0).collect();
    assert_eq!(names, vec!["x", "z"]);

    let c = Expr::ToStringWithoutUndefined {
        value: Box::new(Expr::DataField { name: "c".to_string(), location: loc(0, 4, 5) }),
        location: loc(0, 2, 7),
    };
    let class = ClassAttribute::String(
        loc(0, 0, 5),
        Value::Dynamic { expression: Box::new(plus(lit("ab", 0), c)), double_brace_location: (loc(0, 2, 4), loc(0, 5, 7)) },
    );
    let elem = element("view", 0, None, class, vec![]);
    assert!(element_static_class_names(&elem).is_empty());
}

#[test]
fn elements_matching_tag_name_id_and_class() {
    let t = sample();
    assert_eq!(find_elements_matching(&t, ElementQuery::TagName, "view"), vec![loc(4, 1, 5), loc(1, 1, 5)]);
    assert_eq!(find_elements_matching(&t, ElementQuery::Id, "main"), vec![loc(4, 12, 20), loc(2, 12, 20)]);
    assert_eq!(find_elements_matching(&t, ElementQuery::Class, "b"), vec![loc(4, 10, 20), loc(1, 10, 20)]);
    assert!(find_elements_matching(&t, ElementQuery::Class, "d").is_empty());
}

#[test]
fn static_ids_and_class_names_are_collected_once_each() {
    let t = sample();
    let mut ids = vec!["main".to_string()];
    collect_template_ids(&t, &mut ids);
    assert_eq!(ids, vec!["main", " main "]);
    let mut classes = vec![];
    collect_template_class_names(&t, &mut classes);
    assert_eq!(classes, vec!["b", "a", "c"]);
}

#[test]
fn selector_names_are_collected_once_each() {
    let (sheet, _) = StyleSheet::parse_str(".a #x .b {} .a {} #y view {}");
    let mut classes = vec![];
    collect_selector_names(&sheet, SelectorKind::Class, &mut classes);
    assert_eq!(classes, vec!["a", "b"]);
    let mut ids = vec!["y".to_string()];
    collect_selector_names(&sheet, SelectorKind::Id, &mut ids);
    assert_eq!(ids, vec!["y", "x"]);
}

#[test]
fn trim_drops_unicode_whitespace_at_both_ends() {
    assert_eq!(trim(" \t a b \u{3000}"), "a b");
    assert_eq!(trim("   "), "");
    assert_eq!(trim("x"), "x");
}

#[test]
fn add_name_keeps_names_distinct() {
    let mut names = vec!["a".to_string()];
    add_name(&mut names, &"b".to_string());
    add_name(&mut names, &"a".to_string());
    assert_eq!(names, vec!["a", "b"]);
}

#[test]
fn slot_values_and_template_uses_are_found_by_name() {
    let value = |n: &str, line: u32| Attribute { prefix_location: None, is_model: false, name: name(n, line), value: None };
    let slot = Element {
        kind: ElementKind::Slot {
            name: (loc(0, 6, 10), Value::Static { value: String::new(), location: loc(0, 12, 12) }),
            values: vec![value("item", 0), value("index", 0), value("item", 1)],
            common: CommonAttributes {
                id: None,
                slot: None,
                slot_value_refs: vec![],
                event_bindings: vec![],
                data: vec![],
                marks: vec![],
            },
        },
        tag_location: tags(0),
    };
    let use_t = |is: &str, line: u32| Element {
        kind: ElementKind::TemplateRef {
            target: (loc(line, 10, 12), Value::Static { value: is.to_string(), location: loc(line, 14, 16) }),
            data: (loc(line, 18, 22), Value::Static { value: String::new(), location: loc(line, 24, 24) }),
        },
        tag_location: tags(line),
    };
    let t = Template {
        path: "/c.wxml".to_string(),
        content: vec![Node::Element(slot), Node::Element(use_t("t1", 2)), Node::Element(use_t("t2", 3)), Node::Element(use_t("t1", 4))],
        imports: vec![],
        includes: vec![],
        sub_templates: vec![],
        scripts: vec![],
    };
    assert_eq!(find_elements_matching(&t, ElementQuery::SlotValue, "item"), vec![loc(0, 1, 5)]);
    assert!(find_elements_matching(&t, ElementQuery::SlotValue, "key").is_empty());
    assert_eq!(find_elements_matching(&t, ElementQuery::TemplateRef, "t1"), vec![loc(2, 14, 16), loc(4, 14, 16)]);
}

#[test]
fn slot_value_usages_under_a_component() {
    // <comp><view slot:item="it">{{ it }}</view></comp>
    let text = Node::Text(Value::Dynamic {
        expression: Box::new(Expr::ScopeRef { location: loc(1, 30, 32), index: 0 }),
        double_brace_location: (loc(1, 27, 29), loc(1, 33, 35)),
    });
    let mut view = element("view", 1, None, ClassAttribute::Absent, vec![text]);
    if let ElementKind::Normal { common, .. } = &mut view.kind {
        common.slot_value_refs = vec![StaticAttribute {
            prefix_location: Some(loc(1, 6, 11)),
            name: WxmlName { name: "item".to_string(), location: loc(1, 11, 15) },
            value: WxmlName { name: "it".to_string(), location: loc(1, 17, 19) },
        }];
    }
    let comp = element("comp", 0, None, ClassAttribute::Absent, vec![Node::Element(view)]);
    let t = Template {
        path: "/p.wxml".to_string(),
        content: vec![Node::Element(comp)],
        imports: vec![],
        includes: vec![],
        sub_templates: vec![],
        scripts: vec![],
    };
    assert_eq!(component_slot_value_usages(&t, "comp", "item"), vec![loc(1, 11, 15), loc(1, 30, 32)]);
    assert!(component_slot_value_usages(&t, "comp", "index").is_empty());
    assert!(component_slot_value_usages(&t, "other", "item").is_empty());
}

#[test]
fn reference_searches_follow_the_token() {
    let at = Location { start: Position { line: 0, utf16_col: 0 }, end: Position { line: 0, utf16_col: 1 } };
    let tag = WxmlName { name: "my-comp".to_string(), location: at };
    let p = reference_plan(&WxmlTokenRef::TagName(&tag));
    assert!(p.local);
    assert_eq!(p.selector, Some((SelectorKind::TagName, "my-comp".to_string())));
    assert!(p.slot_value.is_none() && p.template_name.is_none());
    let is = "t".to_string();
    let p = reference_plan(&WxmlTokenRef::TemplateRef(&is, at));
    assert_eq!(p.template_name, Some((true, "t".to_string())));
    assert!(p.selector.is_none());
    let p = reference_plan(&WxmlTokenRef::Src(&tag));
    assert!(!p.local);
}
