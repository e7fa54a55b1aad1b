use glass_easel_analyzer::position::{Location, Position};
use glass_easel_analyzer::wxss::error::ParseErrorKind;
use glass_easel_analyzer::wxss::lexer::{lex, push_trees_text, RawKind, RawTree};
use glass_easel_analyzer::wxss::rule::{parse_selector, IdentOrFunction, Selector};
use glass_easel_analyzer::wxss::sheet::{parse_rule, Rule};
use glass_easel_analyzer::wxss::state::{ParseOutput, ParseState};
use glass_easel_analyzer::wxss::token::TokenTree;

fn text_of(trees: &Vec<RawTree>) -> String {
    let mut out = String::new();
    push_trees_text(trees, 0, trees.len(), &mut out);
    out
}

fn start() -> Position {
    Position { line: 0, utf16_col: 0 }
}

#[test]
fn lexed_texts_make_up_the_source() {
    for src in [
        "",
        ".a { color: red; }",
        "@media (max-width: 10px) { .b::before { content: 'x' } }",
        "/* c */ a > b ~ c + d { f: g(1, 2) [x=y] }",
        "é { ä: ö }\n\t",
        "a { b: c",
        ") ] } x",
    ] {
        let trees = lex(src);
        assert_eq!(text_of(&trees), src);
    }
}

#[test]
fn lexer_nests_blocks() {
    let trees = lex("a(b)c");
    assert_eq!(trees.len(), 2);
    match &trees[0] {
        RawTree::Block(b) => {
            assert!(matches!(&b.open.kind, RawKind::Function(n) if n == "a"));
            assert_eq!(b.open.text, "a(");
            assert_eq!(b.children.len(), 1);
            assert_eq!(b.close_text, ")");
        }
        RawTree::Token(_) => panic!("expected a block"),
    }
    assert!(matches!(&trees[1], RawTree::Token(t) if matches!(&t.kind, RawKind::Ident(n) if n == "c")));
}

fn selector_of(src: &str) -> (Option<Selector>, usize, usize) {
    let trees = lex(src);
    let mut ps = ParseState::new(&trees, start(), ParseOutput::new());
    let r = parse_selector(&mut ps);
    (r, ps.pos, trees.len())
}

#[test]
fn class_selector_is_read_whole() {
    let (r, pos, _) = selector_of(".foo {}");
    match r {
        Some(Selector::Class(op, name)) => {
            assert_eq!(op.name, ".");
            assert_eq!(name.content, "foo");
        }
        _ => panic!("expected a class selector"),
    }
    assert_eq!(pos, 2);
}

#[test]
fn dot_before_whitespace_is_unknown() {
    let (r, pos, _) = selector_of(". foo {}");
    match r {
        Some(Selector::Unknown(l)) => {
            assert_eq!(l.len(), 1);
        }
        _ => panic!("expected an unknown selector"),
    }
    assert_eq!(pos, 1);
}

#[test]
fn pseudo_selectors_are_read() {
    match selector_of("::before {}").0 {
        Some(Selector::PseudoElement(_, _, IdentOrFunction::Ident(n))) => assert_eq!(n.content, "before"),
        _ => panic!("expected a pseudo element"),
    }
    match selector_of(":hover {}").0 {
        Some(Selector::PseudoClass(_, IdentOrFunction::Ident(n))) => assert_eq!(n.content, "hover"),
        _ => panic!("expected a pseudo class"),
    }
    match selector_of(":not(.a) {}").0 {
        Some(Selector::PseudoClass(_, IdentOrFunction::Function(f))) => assert_eq!(f.name, "not"),
        _ => panic!("expected a functional pseudo class"),
    }
}

#[test]
fn universal_column_and_namespace_selectors() {
    assert!(matches!(selector_of("* {}").0, Some(Selector::Universal(_))));
    assert!(matches!(selector_of("|| a").0, Some(Selector::Column(_, _))));
    match selector_of("|* a").0 {
        Some(Selector::Namespace(ns)) => assert_eq!(ns.name, "*"),
        _ => panic!("expected a namespace"),
    }
}

#[test]
fn nothing_is_read_before_a_brace_or_semicolon() {
    let (r, pos, _) = selector_of("{}");
    assert!(r.is_none());
    assert_eq!(pos, 0);
    let (r, pos, _) = selector_of(";");
    assert!(r.is_none());
    assert_eq!(pos, 0);
}

#[test]
fn next_collects_comments_and_warnings() {
    let trees = lex("/* a */ /*b*/ x )");
    let mut ps = ParseState::new(&trees, start(), ParseOutput::new());
    match ps.next() {
        Some(TokenTree::Ident(x)) => assert_eq!(x.content, "x"),
        _ => panic!("expected an identifier"),
    }
    assert_eq!(ps.out.comments.len(), 2);
    assert_eq!(ps.out.comments[0].content, " a ");
    assert_eq!(ps.out.comments[1].content, "b");
    assert!(ps.out.warnings.is_empty());
    match ps.next() {
        Some(TokenTree::BadOperator(op)) => assert_eq!(op.name, ")"),
        _ => panic!("expected a stray bracket"),
    }
    assert_eq!(ps.out.warnings.len(), 1);
    assert_eq!(ps.out.warnings[0].kind, ParseErrorKind::UnexpectedToken);
    assert!(ps.next().is_none());
}

#[test]
fn peek_gives_an_empty_range_and_no_children() {
    let trees = lex("a (b c)");
    let mut ps = ParseState::new(&trees, start(), ParseOutput::new());
    ps.next();
    let here = Location { start: Position { line: 0, utf16_col: 1 }, end: Position { line: 0, utf16_col: 1 } };
    match ps.peek() {
        Some(TokenTree::Paren(g)) => {
            assert!(g.children.is_empty());
            assert_eq!(g.left, here);
            assert_eq!(g.right, here);
        }
        _ => panic!("expected a group"),
    }
    assert!(ps.peek_with_whitespace().is_none());
}

fn rule_of(src: &str) -> Rule {
    let trees = lex(src);
    let mut ps = ParseState::new(&trees, start(), ParseOutput::new());
    parse_rule(&mut ps).unwrap()
}

#[test]
fn rule_kind_follows_the_leading_token() {
    assert!(matches!(rule_of("@import 'a.wxss';"), Rule::Import(_)));
    assert!(matches!(rule_of("@media screen { a {} }"), Rule::Media(_)));
    assert!(matches!(rule_of("@font-face { font-family: x; }"), Rule::FontFace(_)));
    assert!(matches!(rule_of("@keyframes k { from {} }"), Rule::Keyframes(_)));
    assert!(matches!(rule_of("@foo bar;"), Rule::UnknownAtRule(_, _)));
    assert!(matches!(rule_of(".a { b: c }"), Rule::Style(_)));
    assert!(matches!(rule_of("; x"), Rule::Unknown(_)));
}

#[test]
fn lexed_ranges_are_lines_and_utf16_columns() {
    let trees = lex("é\r\n  b\u{1F600}c");
    let starts: Vec<(u32, u32)> = trees
        .iter()
        .map(|t| match t {
            RawTree::Token(x) => (x.location.start.line, x.location.start.utf16_col),
            RawTree::Block(b) => (b.open.location.start.line, b.open.location.start.utf16_col),
        })
        .collect();
    // `é`, the whitespace with the line break, then `b😀c` on the second line
    assert_eq!(starts, vec![(0, 0), (0, 1), (1, 2)]);
    match &trees[2] {
        RawTree::Token(x) => assert_eq!((x.location.end.line, x.location.end.utf16_col), (1, 6)),
        RawTree::Block(_) => panic!("expected a token"),
    }
}
