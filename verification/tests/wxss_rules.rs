use glass_easel_analyzer::position::{Location, Position};
use glass_easel_analyzer::wxml_match::pick_imported_definition;
use glass_easel_analyzer::wxss::error::ParseErrorKind;
use glass_easel_analyzer::wxss::list::MaybeUnknown;
use glass_easel_analyzer::wxss::media::MediaQueryList;
use glass_easel_analyzer::wxss::sheet::{Rule, RuleOrProperty, StyleSheet};
use glass_easel_analyzer::wxss::token::{BraceOrSemicolon, Operator};

fn loc(l1: u32, c1: u32, l2: u32, c2: u32) -> Location {
    Location { start: Position { line: l1, utf16_col: c1 }, end: Position { line: l2, utf16_col: c2 } }
}

fn style_selector(r: &Rule) -> String {
    match r {
        Rule::Style(s) => s.selector_str.clone(),
        other => panic!("unexpected rule {:?}", other),
    }
}

#[test]
fn rules_come_one_after_the_other() {
    let (sheet, errors) = StyleSheet::parse_str(".a { color: red } .b { color: blue } .c { top: 0 }");
    assert!(errors.is_empty());
    assert_eq!(sheet.items.len(), 3);
    assert_eq!(style_selector(&sheet.items[0]), ".a");
    assert_eq!(style_selector(&sheet.items[1]), ".b");
    assert_eq!(style_selector(&sheet.items[2]), ".c");
}

#[test]
fn empty_block_is_read_as_an_unknown_rule() {
    let (sheet, _) = StyleSheet::parse_str(".a {}");
    assert_eq!(sheet.items.len(), 2);
    match &sheet.items[0] {
        Rule::Style(s) => assert!(s.brace.is_none()),
        other => panic!("unexpected rule {:?}", other),
    }
    assert!(matches!(&sheet.items[1], Rule::Unknown(_)));
}

#[test]
fn semicolon_ends_a_body_less_rule() {
    let (sheet, _) = StyleSheet::parse_str("@font-face; .b { color: red }");
    assert_eq!(sheet.items.len(), 2);
    match &sheet.items[0] {
        Rule::FontFace(f) => assert!(matches!(f.body, Some(BraceOrSemicolon::Semicolon(_)))),
        other => panic!("unexpected rule {:?}", other),
    }
    assert_eq!(style_selector(&sheet.items[1]), ".b");
}

#[test]
fn import_rule_ends_at_its_semicolon() {
    let (sheet, _) = StyleSheet::parse_str("@import \"a.wxss\"; .b { color: red }");
    assert_eq!(sheet.items.len(), 2);
    assert!(matches!(&sheet.items[0], Rule::Import(_)));
    assert_eq!(style_selector(&sheet.items[1]), ".b");
}

#[test]
fn stray_closing_brace_warns_and_starts_an_unknown_rule() {
    let (sheet, errors) = StyleSheet::parse_str("} .a { color: red }");
    assert!(matches!(&sheet.items[0], Rule::Unknown(_)));
    assert!(errors.iter().any(|e| e.kind == ParseErrorKind::UnexpectedToken && e.location == loc(0, 0, 0, 1)));
}

#[test]
fn comments_before_and_after_rules_are_kept_in_order() {
    let (sheet, _) = StyleSheet::parse_str("/* a */ .x { color: red } /* b */");
    assert_eq!(sheet.comments.len(), 2);
    assert_eq!(sheet.comments[0].content, " a ");
    assert_eq!(sheet.comments[1].content, " b ");
    assert_eq!(sheet.comments[1].location, loc(0, 26, 0, 33));
}

#[test]
fn media_rule_reads_its_type_and_body() {
    let (sheet, _) = StyleSheet::parse_str("@media screen { .a { color: red } }");
    assert_eq!(sheet.items.len(), 1);
    match &sheet.items[0] {
        Rule::Media(m) => {
            assert!(matches!(m.list, Some(MediaQueryList::MediaType(_))));
            assert_eq!(m.list_str, "screen");
            assert!(matches!(m.body, Some(BraceOrSemicolon::Brace(_))));
        }
        other => panic!("unexpected rule {:?}", other),
    }
}

#[test]
fn keyframes_rule_reads_its_name_then_its_body() {
    let (sheet, _) = StyleSheet::parse_str("@keyframes spin { from { top: 0 } }");
    assert_eq!(sheet.items.len(), 1);
    match &sheet.items[0] {
        Rule::Keyframes(k) => {
            match &k.name {
                MaybeUnknown::Normal(n, trailing) => {
                    assert_eq!(n.content, "spin");
                    assert!(trailing.is_empty());
                }
                other => panic!("unexpected name {:?}", other),
            }
            assert!(matches!(k.body, Some(BraceOrSemicolon::Brace(_))));
        }
        other => panic!("unexpected rule {:?}", other),
    }
}

#[test]
fn operator_spelling_is_its_source() {
    let op = Operator::new("*=", loc(0, 0, 0, 2));
    assert!(op.is("*="));
    assert!(!op.is("*"));
    assert!(!op.is("*=*=*"));
}

#[test]
fn last_import_that_defines_the_template_wins() {
    let a = loc(1, 0, 1, 3);
    let b = loc(2, 0, 2, 3);
    assert_eq!(pick_imported_definition(&vec![Some(a), None, Some(b), None]), Some((2, b)));
    assert_eq!(pick_imported_definition(&vec![Some(a), None]), Some((0, a)));
    assert_eq!(pick_imported_definition(&vec![None, None]), None);
    assert_eq!(pick_imported_definition(&vec![]), None);
}

#[test]
fn property_value_runs_to_its_semicolon() {
    let (sheet, _) = StyleSheet::parse_str(".a { color: red blue; top: 0 }");
    match &sheet.items[0] {
        Rule::Style(s) => match &s.brace {
            Some(BraceOrSemicolon::Brace(b)) => {
                let items = b.children.refs();
                assert_eq!(items.len(), 2);
                match items[0] {
                    RuleOrProperty::Property(p) => {
                        assert_eq!(p.name.content, "color");
                        assert_eq!(p.value.len(), 2);
                        assert!(p.semicolon.is_some());
                    }
                    other => panic!("unexpected item {:?}", other),
                }
                match items[1] {
                    RuleOrProperty::Property(p) => {
                        assert_eq!(p.name.content, "top");
                        assert_eq!(p.value.len(), 1);
                        assert!(p.semicolon.is_none());
                    }
                    other => panic!("unexpected item {:?}", other),
                }
            }
            other => panic!("unexpected body {:?}", other),
        },
        other => panic!("unexpected rule {:?}", other),
    }
}

#[test]
fn media_type_before_a_semicolon_is_a_list() {
    let (sheet, _) = StyleSheet::parse_str("@media screen;");
    match &sheet.items[0] {
        Rule::Media(m) => {
            match &m.list {
                Some(MediaQueryList::Or(items)) => {
                    assert_eq!(items.len(), 2);
                    assert!(matches!(items[0].0, MediaQueryList::MediaType(_)));
                    assert!(matches!(&items[1].0, MediaQueryList::Unknown(v) if v.is_empty()));
                }
                other => panic!("unexpected list {:?}", other),
            }
            assert!(matches!(m.body, Some(BraceOrSemicolon::Semicolon(_))));
        }
        other => panic!("unexpected rule {:?}", other),
    }
}

#[test]
fn media_feature_group_is_a_list() {
    let (sheet, _) = StyleSheet::parse_str("@media (min-width: 100px) { .a { top: 0 } }");
    match &sheet.items[0] {
        Rule::Media(m) => {
            assert!(matches!(m.list, Some(MediaQueryList::MediaFeature(_))));
            assert!(matches!(m.body, Some(BraceOrSemicolon::Brace(_))));
        }
        other => panic!("unexpected rule {:?}", other),
    }
}

#[test]
fn import_rule_keeps_its_url_and_semicolon() {
    let (sheet, _) = StyleSheet::parse_str("@import \"a.wxss\";");
    match &sheet.items[0] {
        Rule::Import(i) => {
            match &i.url {
                MaybeUnknown::Normal(q, _) => assert_eq!(q.content, "a.wxss"),
                other => panic!("unexpected url {:?}", other),
            }
            assert!(i.semicolon.is_some());
        }
        other => panic!("unexpected rule {:?}", other),
    }
    let (sheet, _) = StyleSheet::parse_str("@import \"b.wxss\"");
    match &sheet.items[0] {
        Rule::Import(i) => assert!(i.semicolon.is_none()),
        other => panic!("unexpected rule {:?}", other),
    }
}

#[test]
fn negated_media_type_is_a_list() {
    let (sheet, _) = StyleSheet::parse_str("@media not screen { .a { top: 0 } }");
    match &sheet.items[0] {
        Rule::Media(m) => {
            assert!(matches!(&m.list, Some(MediaQueryList::Not(kw, inner))
                if kw.content == "not" && matches!(**inner, MediaQueryList::MediaType(_))));
            assert!(matches!(m.body, Some(BraceOrSemicolon::Brace(_))));
        }
        other => panic!("unexpected rule {:?}", other),
    }
}
