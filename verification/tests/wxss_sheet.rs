use glass_easel_analyzer::position::{Location, Position};
use glass_easel_analyzer::wxss::error::{ParseErrorKind, ParseErrorLevel};
use glass_easel_analyzer::wxss::sheet::{Rule, RuleOrProperty, StyleSheet};
use glass_easel_analyzer::wxss::rule::Selector;
use glass_easel_analyzer::wxss::token::BraceOrSemicolon;
use glass_easel_analyzer::wxss_utils::{
    find_selector_ranges, find_token_in_position, import_urls, selectors_in_style_sheet,
    wxss_declaration, wxss_reference_target, SelectorKind, SheetToken, WxssDeclaration,
};
use glass_easel_analyzer::folding::{collect_wxss_folding_ranges, FoldingRangeKind};

fn pos(line: u32, col: u32) -> Position {
    Position { line, utf16_col: col }
}

fn loc(l1: u32, c1: u32, l2: u32, c2: u32) -> Location {
    Location { start: pos(l1, c1), end: pos(l2, c2) }
}

#[test]
fn parses_style_rule_with_property() {
    let (sheet, errors) = StyleSheet::parse_str(".a { color: red; }");
    assert!(errors.is_empty());
    assert_eq!(sheet.items.len(), 1);
    match &sheet.items[0] {
        Rule::Style(s) => {
            assert_eq!(s.selector_str, ".a");
            let lists = s.selector.iter_values();
            assert_eq!(lists.len(), 1);
            match lists[0].first() {
                Selector::Class(_, x) => assert_eq!(x.content, "a"),
                other => panic!("unexpected selector {:?}", other),
            }
            match &s.brace {
                Some(BraceOrSemicolon::Brace(b)) => {
                    let items = b.children.refs();
                    assert_eq!(items.len(), 1);
                    match items[0] {
                        RuleOrProperty::Property(p) => assert_eq!(p.name.content, "color"),
                        other => panic!("unexpected item {:?}", other),
                    }
                }
                other => panic!("unexpected body {:?}", other),
            }
        }
        other => panic!("unexpected rule {:?}", other),
    }
    assert_eq!(sheet.braces, vec![loc(0, 4, 0, 17)]);
}

#[test]
fn selector_text_collapses_whitespace() {
    let (sheet, _) = StyleSheet::parse_str(".a   >\n  .b {}");
    match &sheet.items[0] {
        Rule::Style(s) => assert_eq!(s.selector_str, ".a > .b"),
        other => panic!("unexpected rule {:?}", other),
    }
}

#[test]
fn unclosed_brace_is_reported() {
    let (_, errors) = StyleSheet::parse_str(".a { color: red;");
    assert!(errors.iter().any(|e| e.kind == ParseErrorKind::UnmatchedBrace));
}

#[test]
fn error_kinds_have_messages_levels_and_codes() {
    assert_eq!(ParseErrorKind::UnexpectedToken.static_message(), "unexpected token");
    assert_eq!(ParseErrorKind::UnmatchedBrace.static_message(), "unmatched curly bracket");
    assert_eq!(ParseErrorKind::UnmatchedParenthesis.static_message(), "unmatched parenthesis");
    assert_eq!(ParseErrorKind::UnexpectedToken.level(), ParseErrorLevel::Fatal);
    assert_eq!(ParseErrorKind::BadUrl.level(), ParseErrorLevel::Error);
    assert_eq!(ParseErrorKind::UnexpectedToken.code(), 0x10001);
    assert_eq!(ParseErrorKind::UnmatchedParenthesis.code(), 0x10006);
}

#[test]
fn comments_are_collected() {
    let (sheet, _) = StyleSheet::parse_str("/* x */ .a {}");
    assert_eq!(sheet.comments.len(), 1);
    assert_eq!(sheet.comments[0].content, " x ");
    assert_eq!(sheet.comments[0].location, loc(0, 0, 0, 7));
}

#[test]
fn folding_ranges_are_comments_then_blocks() {
    let (sheet, _) = StyleSheet::parse_str("/* x */\n.a {\n  color: red;\n}");
    let ranges = collect_wxss_folding_ranges(&sheet);
    assert_eq!(ranges.len(), 2);
    assert_eq!(ranges[0].kind, Some(FoldingRangeKind::Comment));
    assert_eq!((ranges[0].start_line, ranges[0].start_character), (0, 0));
    assert_eq!((ranges[0].end_line, ranges[0].end_character), (0, 7));
    assert_eq!(ranges[1].kind, None);
    assert_eq!((ranges[1].start_line, ranges[1].start_character), (1, 4));
    assert_eq!((ranges[1].end_line, ranges[1].end_character), (3, 0));
}

#[test]
fn token_at_class_selector() {
    let (sheet, _) = StyleSheet::parse_str(".abc { color: red; }");
    match find_token_in_position(&sheet, pos(0, 2)) {
        SheetToken::Class(op, x) => {
            assert_eq!(x.content, "abc");
            assert_eq!(op.location.start, pos(0, 0));
        }
        other => panic!("unexpected token {:?}", other),
    }
}

#[test]
fn token_at_property_name_and_value() {
    let (sheet, _) = StyleSheet::parse_str(".abc { color: red; }");
    match find_token_in_position(&sheet, pos(0, 9)) {
        SheetToken::PropertyName(x) => assert_eq!(x.content, "color"),
        other => panic!("unexpected token {:?}", other),
    }
    match find_token_in_position(&sheet, pos(0, 15)) {
        SheetToken::Ident(x) => assert_eq!(x.content, "red"),
        other => panic!("unexpected token {:?}", other),
    }
}

#[test]
fn token_at_id_tag_and_pseudo_class() {
    let (sheet, _) = StyleSheet::parse_str("#main view:hover {}");
    match find_token_in_position(&sheet, pos(0, 2)) {
        SheetToken::Id(x) => assert_eq!(x.content, "main"),
        other => panic!("unexpected token {:?}", other),
    }
    match find_token_in_position(&sheet, pos(0, 7)) {
        SheetToken::TagName(x) => assert_eq!(x.content, "view"),
        other => panic!("unexpected token {:?}", other),
    }
    match find_token_in_position(&sheet, pos(0, 13)) {
        SheetToken::PseudoClass(_, x) => assert_eq!(x.name(), "hover"),
        other => panic!("unexpected token {:?}", other),
    }
}

#[test]
fn token_at_media_rule_parts() {
    let (sheet, _) = StyleSheet::parse_str("@media screen { .a {} }");
    match find_token_in_position(&sheet, pos(0, 3)) {
        SheetToken::AtKeyword(x) => assert_eq!(x.content, "media"),
        other => panic!("unexpected token {:?}", other),
    }
    match find_token_in_position(&sheet, pos(0, 9)) {
        SheetToken::MediaType(x) => assert_eq!(x.content, "screen"),
        other => panic!("unexpected token {:?}", other),
    }
    match find_token_in_position(&sheet, pos(0, 17)) {
        SheetToken::Class(_, x) => assert_eq!(x.content, "a"),
        other => panic!("unexpected token {:?}", other),
    }
}

#[test]
fn no_token_after_the_sheet() {
    let (sheet, _) = StyleSheet::parse_str(".a {}");
    assert!(matches!(find_token_in_position(&sheet, pos(5, 0)), SheetToken::Blank));
}

#[test]
fn found_token_covers_position() {
    let (sheet, _) = StyleSheet::parse_str("@import \"a.wxss\";\n.x .y { margin: 0 auto; }");
    for line in 0..2u32 {
        for col in 0..30u32 {
            let p = pos(line, col);
            match find_token_in_position(&sheet, p) {
                SheetToken::Class(op, x) => {
                    assert!(op.location.start.le(&p) && p.le(&x.location.end))
                }
                SheetToken::PropertyName(x) | SheetToken::Ident(x) | SheetToken::AtKeyword(x)
                | SheetToken::ImportUrl(x) => {
                    assert!(x.location.start.le(&p) && p.le(&x.location.end))
                }
                _ => {}
            }
        }
    }
}

#[test]
fn import_url_declaration() {
    let (sheet, _) = StyleSheet::parse_str("@import \"a.wxss\";");
    let urls = import_urls(&sheet);
    assert_eq!(urls, vec!["a.wxss"]);
    let token = find_token_in_position(&sheet, pos(0, 10));
    match wxss_declaration(&token) {
        Some(WxssDeclaration::ImportUrl(x)) => assert_eq!(x.content, "a.wxss"),
        other => panic!("unexpected declaration {:?}", other),
    }
}

#[test]
fn class_declaration_is_itself_and_reference_target() {
    let (sheet, _) = StyleSheet::parse_str(".abc {}");
    let token = find_token_in_position(&sheet, pos(0, 2));
    match wxss_declaration(&token) {
        Some(WxssDeclaration::Itself(l)) => assert_eq!(l, loc(0, 0, 0, 4)),
        other => panic!("unexpected declaration {:?}", other),
    }
    assert_eq!(wxss_reference_target(&token), Some((SelectorKind::Class, "abc")));
}

#[test]
fn selectors_are_collected_from_nested_blocks() {
    let (sheet, _) = StyleSheet::parse_str(".a, .b {} @media screen { .c {} }");
    let sels = selectors_in_style_sheet(&sheet);
    let names: Vec<&str> = sels
        .iter()
        .filter_map(|s| match s {
            Selector::Class(_, x) => Some(x.content.as_str()),
            _ => None,
        })
        .collect();
    assert_eq!(names, vec!["a", "b", "c"]);
    let ranges = find_selector_ranges(&sheet, SelectorKind::Class, "c");
    assert_eq!(ranges, vec![loc(0, 26, 0, 28)]);
    assert!(find_selector_ranges(&sheet, SelectorKind::Id, "c").is_empty());
}
