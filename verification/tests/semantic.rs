use glass_easel_analyzer::file_content::{FileContentMetadata, FileLang};
use glass_easel_analyzer::position::{Location, Position};
use glass_easel_analyzer::semantic::{find_wxss_semantic_tokens, token_type_index_of, TokenType};
use glass_easel_analyzer::wxss::sheet::StyleSheet;

fn loc(l1: u32, c1: u32, l2: u32, c2: u32) -> Location {
    Location { start: Position { line: l1, utf16_col: c1 }, end: Position { line: l2, utf16_col: c2 } }
}

fn tokens(src: &str, range: Location) -> Vec<(u32, u32, u32, u32)> {
    let mut content = FileContentMetadata::new(src.to_string(), FileLang::Wxss);
    content.open();
    let (sheet, _) = StyleSheet::parse_str(src);
    find_wxss_semantic_tokens(&content, &sheet, range)
        .expect("tokens in order")
        .iter()
        .map(|t| (t.delta_line, t.delta_start, t.length, t.token_type))
        .collect()
}

const TYPE: u32 = 0;
const PROPERTY: u32 = 2;
const KEYWORD: u32 = 6;
const COMMENT: u32 = 7;
const NUMBER: u32 = 9;
const OPERATOR: u32 = 10;

#[test]
fn token_type_indices_follow_the_legend() {
    assert_eq!(token_type_index_of(TokenType::Type), TYPE);
    assert_eq!(token_type_index_of(TokenType::Property), PROPERTY);
    assert_eq!(token_type_index_of(TokenType::Keyword), KEYWORD);
    assert_eq!(token_type_index_of(TokenType::Comment), COMMENT);
    assert_eq!(token_type_index_of(TokenType::Number), NUMBER);
    assert_eq!(token_type_index_of(TokenType::Operator), OPERATOR);
    assert_eq!(token_type_index_of(TokenType::Macro), 11);
}

#[test]
fn style_rule_tokens_are_relative() {
    let t = tokens(".a { color: red; }", loc(0, 0, 10, 0));
    assert_eq!(
        t,
        vec![
            (0, 0, 1, OPERATOR),
            (0, 1, 1, TYPE),
            (0, 1, 2, OPERATOR),
            (0, 3, 5, PROPERTY),
            (0, 5, 1, OPERATOR),
            (0, 2, 3, TYPE),
            (0, 3, 1, OPERATOR),
            (0, 2, 1, OPERATOR),
        ]
    );
}

#[test]
fn tokens_before_the_range_are_left_out() {
    let t = tokens(".a { color: red; }", loc(0, 5, 10, 0));
    assert_eq!(
        t,
        vec![
            (0, 5, 5, PROPERTY),
            (0, 5, 1, OPERATOR),
            (0, 2, 3, TYPE),
            (0, 3, 1, OPERATOR),
            (0, 2, 1, OPERATOR),
        ]
    );
}

#[test]
fn a_token_at_the_range_end_stops_the_walk() {
    let t = tokens(".a { color: red; }", loc(0, 0, 0, 5));
    assert_eq!(t, vec![(0, 0, 1, OPERATOR), (0, 1, 1, TYPE), (0, 1, 2, OPERATOR)]);
}

#[test]
fn comments_come_before_the_tokens_after_them_and_an_empty_block_has_no_closing_token() {
    let t = tokens("/* x */\n.a {}", loc(0, 0, 10, 0));
    assert_eq!(
        t,
        vec![
            (0, 0, 7, COMMENT),
            (1, 0, 1, OPERATOR),
            (0, 1, 1, TYPE),
            (0, 2, 1, OPERATOR),
        ]
    );
}

#[test]
fn a_comment_over_two_lines_is_split() {
    let t = tokens("/* a\nbc */ .x {}", loc(0, 0, 10, 0));
    assert_eq!(
        t,
        vec![
            (0, 0, 5, COMMENT),
            (1, 0, 5, COMMENT),
            (0, 6, 1, OPERATOR),
            (0, 1, 1, TYPE),
            (0, 2, 1, OPERATOR),
        ]
    );
}

#[test]
fn media_rule_tokens() {
    let t = tokens("@media (min-width: 10px) {}", loc(0, 0, 10, 0));
    assert_eq!(
        t,
        vec![
            (0, 0, 6, KEYWORD),
            (0, 7, 1, OPERATOR),
            (0, 1, 9, PROPERTY),
            (0, 9, 1, OPERATOR),
            (0, 2, 4, NUMBER),
            (0, 4, 1, OPERATOR),
            (0, 2, 1, OPERATOR),
        ]
    );
}

#[test]
fn media_query_list_cut_by_the_range_end() {
    let t = tokens("@media (min-width: 10px) {}", loc(0, 0, 0, 10));
    assert_eq!(t, vec![(0, 0, 6, KEYWORD), (0, 7, 1, OPERATOR), (0, 1, 9, PROPERTY)]);
}

#[test]
fn comments_after_the_last_rule_follow() {
    let t = tokens(".a {}\n/* end */", loc(0, 0, 10, 0));
    assert_eq!(
        t,
        vec![
            (0, 0, 1, OPERATOR),
            (0, 1, 1, TYPE),
            (0, 2, 1, OPERATOR),
            (1, 0, 9, COMMENT),
        ]
    );
}

#[test]
fn deltas_add_up_to_token_starts() {
    let t = tokens("/* c */\n.a {\n  color: red;\n}", loc(0, 0, 10, 0));
    let mut line = 0u32;
    let mut col = 0u32;
    let mut starts = Vec::new();
    for (dl, ds, _, _) in t {
        if dl > 0 {
            line += dl;
            col = ds;
        } else {
            col += ds;
        }
        starts.push((line, col));
    }
    assert_eq!(starts[0], (0, 0));
    assert_eq!(starts[1], (1, 0));
    assert_eq!(starts[2], (1, 1));
    assert!(starts.contains(&(2, 2)));
    assert!(starts.contains(&(2, 7)));
    assert!(starts.contains(&(2, 9)));
    assert!(starts.windows(2).all(|w| w[0] <= w[1]));
}
