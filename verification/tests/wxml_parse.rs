use glass_easel_analyzer::wxml::{ElementKind, Node, Value};
use glass_easel_analyzer::wxml_match::find_template_definition;
use glass_easel_analyzer::wxml_parse::parse_template;

#[test]
fn template_is_parsed_into_the_model() {
    let src = "<import src=\"a.wxml\" />\n<view id=\"x\" class=\"b c\">{{ y }}</view>\n<template name=\"t\"><text /></template>";
    let (t, problems) = parse_template("pages/p.wxml", src);
    assert_eq!(t.path, "pages/p.wxml");
    assert!(problems.is_empty());
    assert_eq!(t.imports.len(), 1);
    assert_eq!(t.imports[0].src.name, "a");
    assert_eq!(t.sub_templates.len(), 1);
    assert_eq!(t.sub_templates[0].name.name, "t");
    let view = t
        .content
        .iter()
        .find_map(|n| match n {
            Node::Element(e) => match &e.kind {
                ElementKind::Normal { tag_name, common, children, .. } => Some((tag_name, common, children)),
                _ => None,
            },
            _ => None,
        })
        .unwrap();
    assert_eq!(view.0.name, "view");
    match &view.1.id {
        Some((_, Value::Static { value, .. })) => assert_eq!(value, "x"),
        _ => panic!("expected a static id"),
    }
    assert!(view.2.iter().any(|n| matches!(n, Node::Text(Value::Dynamic { .. }))));
}

#[test]
fn template_problems_are_reported() {
    let (_, problems) = parse_template("p.wxml", "<view>");
    assert!(!problems.is_empty());
    assert!(problems.iter().all(|p| (1..=4).contains(&p.level)));
}

#[test]
fn the_last_template_definition_is_found() {
    let (t, _) = parse_template("p.wxml", "<template name=\"a\"><view/></template>\n<template name=\"b\" />");
    assert_eq!(find_template_definition(&t, "a").unwrap().start.line, 0);
    assert_eq!(find_template_definition(&t, "b").unwrap().start.line, 1);
    assert!(find_template_definition(&t, "c").is_none());
}
