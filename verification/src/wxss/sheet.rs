//! Rules and style sheets.

use vstd::prelude::*;
use vstd::string::StringSliceAdditionalSpecFns;
use crate::position::{Location, Position};
use super::lexer::{RawKind, RawTree, lex, lemma_wf_elem, push_trees_text, raw_trees_wf, trees_located, trees_named, trees_text};
use super::state::{ParseOutput, ParseState, comments_in, corresponds, first_solid, is_stop, lemma_first_solid, tree_warnings};
use super::token::{AtKeyword, Brace, BraceOrSemicolon, Comment, Group, Ident, Percentage, TokenTree};
use super::list::{List, MaybeUnknown, Repeat};
use super::basic::{lemma_first_warnings_kept, lemma_leading_comments_kept, lemma_no_stop_step, lemma_no_stop_trans, parse_at_keyword, parse_ident, parse_percentage, parse_semicolon};
use super::rule::{Selector, parse_selector_repeat, selectors_read, starts_selector, lemma_style_start, lemma_style_start_back};
use super::property::{ImportRule, Property, parse_import_rule, parse_property, semicolon_only_last, state_at};
use super::media::{MediaQueryList, brace_after_next, media_list_read, next_is_media_type, parse_media_query_list};
use super::error::{ParseError, ParseErrorKind};
use super::token::Comma;

verus! {

#[derive(Debug)]
pub enum Rule {
    Unknown(List<TokenTree>),
    Style(StyleRule),
    Import(ImportRule),
    Media(MediaRule),
    FontFace(FontFaceRule),
    Keyframes(KeyframesRule),
    UnknownAtRule(AtKeyword, Vec<TokenTree>),
}

#[derive(Debug)]
pub enum RuleOrProperty {
    Rule(Rule),
    Property(Property),
}

/// A style rule: its selectors, their source text with whitespace runs collapsed, and its body.
#[derive(Debug)]
pub struct StyleRule {
    pub selector: Repeat<List<Selector>, Comma>,
    pub selector_str: String,
    pub brace: Option<BraceOrSemicolon<List<RuleOrProperty>>>,
}

/// A media rule: its at-keyword, its query list, the list's source text with whitespace runs
/// collapsed, and its body.
#[derive(Debug)]
pub struct MediaRule {
    pub at_media: AtKeyword,
    pub list: Option<MediaQueryList>,
    pub list_str: String,
    pub body: Option<BraceOrSemicolon<List<Rule>>>,
}

#[derive(Debug)]
pub struct FontFaceRule {
    pub at_font_face: AtKeyword,
    pub body: Option<BraceOrSemicolon<List<RuleOrProperty>>>,
}

#[derive(Debug)]
pub struct KeyframesRule {
    pub at_keyframes: AtKeyword,
    pub name: MaybeUnknown<Ident>,
    pub body: Option<BraceOrSemicolon<List<Keyframe>>>,
}

#[derive(Debug)]
#[allow(inconsistent_fields)]
pub enum Keyframe {
    Named { progress: MaybeUnknown<Ident>, body: Option<BraceOrSemicolon<List<RuleOrProperty>>> },
    Percentage {
        progress: MaybeUnknown<Percentage>,
        body: Option<BraceOrSemicolon<List<RuleOrProperty>>>,
    },
    Unknown(Vec<TokenTree>),
}

/// A parsed style sheet: its rules, its comments, and the inner ranges of its `{...}` blocks.
#[derive(Debug)]
pub struct StyleSheet {
    pub items: Vec<Rule>,
    pub comments: Vec<Comment>,
    pub braces: Vec<Location>,
}

/// Whether a token can start a style rule: an identifier, an ID hash, a colon, a `[...]`
/// group, or one of the operators `.`, `:`, `*`, `&`, `#`.
pub fn probably_style_rule_start(tt: &TokenTree) -> (r: bool)
    ensures
        r == (tt is Ident || tt is IDHash || tt is Colon || tt is Bracket || (tt is Operator && ({
            let n = tt->Operator_0.name@;
            n == "."@ || n == ":"@ || n == "*"@ || n == "&"@ || n == "#"@
        }))),
{
    match tt {
        TokenTree::Ident(_) | TokenTree::IDHash(_) | TokenTree::Colon(_) | TokenTree::Bracket(_) => true,
        TokenTree::Operator(op) => op.is(".") || op.is(":") || op.is("*") || op.is("&") || op.is("#"),
        _ => false,
    }
}

/// What reading a `{...}` block, or a semicolon in its place, from `before` to `after` gives: a
/// semicolon, read alone, when one comes next; a block, read alone, when a `{` block with
/// content comes next; and otherwise nothing, with nothing read.
pub open spec fn bos_read<'a, T>(before: ParseState<'a>, after: ParseState<'a>, r: Option<BraceOrSemicolon<T>>) -> bool {
    &&& after.follows(&before)
    &&& r is Some ==> after.pos > before.pos
    &&& r is None ==> after.pos == before.pos
    &&& before.next_kind_is_semicolon() ==> (r matches Some(BraceOrSemicolon::Semicolon(_))
        && after.read_one(&before))
    &&& before.next_kind_is_curly() ==> (r is Some <==> before.next_block_filled())
    &&& before.next_kind_is_curly() && r is Some ==> r->0 is Brace && after.read_one(&before)
    &&& !before.next_kind_is_curly() && !before.next_kind_is_semicolon() ==> r is None
}

/// What reading a keyframes name from `before` to `after` gives: a name exactly when an
/// identifier comes next; then the tokens up to a semicolon, a `{` block or the end of the
/// level are read.
pub open spec fn name_read<'a>(before: ParseState<'a>, after: ParseState<'a>, r: MaybeUnknown<Ident>) -> bool {
    &&& after.follows(&before)
    &&& after.no_stop_since(&before)
    &&& (r is Normal <==> (!before.at_end() && before.next_tree().kind() is Ident))
    &&& r is Normal ==> after.pos > before.pos
    &&& after.at_end() || after.next_tree().kind() is Semicolon || after.next_tree().kind() is CurlyBracketBlock
}

/// Between `before` and `after`, the last token read is the only one that may be a semicolon
/// or a `{...}` block.
pub open spec fn stops_only_last<'a>(before: ParseState<'a>, after: ParseState<'a>) -> bool {
    forall|j: int| before.pos <= j < after.pos - 1 ==> !is_stop(#[trigger] after.items@[j].kind())
}

/// Passing no semicolon and no `{...}` block, then reading at most one more token, leaves that
/// token the only one that may be one.
pub proof fn lemma_stops_only_last<'a>(a: ParseState<'a>, m: ParseState<'a>, f: ParseState<'a>)
    requires
        m.wf(),
        m.no_stop_since(&a),
        a.pos <= m.pos,
        m.items == a.items,
        f.items == m.items,
        m.pos <= f.pos <= m.next_solid() + 1,
    ensures
        stops_only_last(a, f),
{
    lemma_first_solid(m.items@, m.pos as int);
    assert forall|j: int| a.pos <= j < f.pos - 1 implies !is_stop(#[trigger] f.items@[j].kind()) by {
        if j < m.pos {
            assert(!is_stop(m.items@[j].kind()));
        } else {
            assert(m.items@[j].kind().is_trivia());
        }
    }
}

/// The kind of rule that starts with a token of kind `k`: an at-rule by its keyword, a style
/// rule at a selector, and an unknown rule otherwise.
pub open spec fn rule_kind_fits(k: RawKind, r: Rule) -> bool {
    if k is AtKeyword {
        let name = k->AtKeyword_0@;
        if name == "import"@ {
            r is Import
        } else if name == "media"@ {
            r is Media
        } else if name == "font-face"@ {
            r is FontFace
        } else if name == "keyframes"@ {
            r is Keyframes
        } else {
            r is UnknownAtRule
        }
    } else if starts_selector(k) {
        r is Style
    } else {
        r is Unknown
    }
}

/// Reading the rule `r` took the state from `before` to `after`: a token came next, the state
/// moved forward over the same level keeping the comments before that token and the warning
/// for that token (a bad string or URL, a stray closing bracket), the rule's kind
/// is the one its first token calls for, and the rule ends at the first semicolon or `{...}`
/// block at the latest (an import rule: at the first semicolon).
pub open spec fn rule_read<'a>(before: ParseState<'a>, after: ParseState<'a>, r: Rule) -> bool {
    &&& !before.at_end()
    &&& after.follows(&before)
    &&& after.pos > before.pos
    &&& after.kept_leading_comments(&before)
    &&& after.kept_first_warnings(&before)
    &&& rule_kind_fits(before.next_tree().kind(), r)
    &&& r is Import ==> semicolon_only_last(before, after)
    &&& !(r is Import) ==> stops_only_last(before, after)
}

/// Reading the sheet went through the states `states`, one rule of `rules` from each state to
/// the next, from a state at the start of the trees with no output to one with only
/// whitespace and comments left.
pub open spec fn rules_read<'a>(trees: Seq<RawTree>, states: Seq<ParseState<'a>>, rules: Seq<Rule>) -> bool {
    &&& states.len() == rules.len() + 1
    &&& states[0].items@ == trees
    &&& states[0].pos == 0
    &&& states[0].out.warnings@.len() == 0
    &&& states[0].out.comments@.len() == 0
    &&& forall|i: int| 0 <= i < rules.len() ==> #[trigger] rule_read(states[i], states[i + 1], rules[i])
    &&& states.last().at_end()
}

/// The state with the cursor right after the next token.
pub open spec fn after_next<'a>(ps: ParseState<'a>) -> ParseState<'a> {
    ParseState { items: ps.items, pos: (ps.next_solid() + 1) as usize, level_start: ps.level_start, out: ps.out }
}

/// Reads a `{...}` block of rules and properties. Fails, reading nothing, when the block holds
/// no item. Warns when the block is not closed, and records its inner range.
pub fn parse_brace_rule_or_property(ps: &mut ParseState) -> (r: Option<Brace<List<RuleOrProperty>>>)
    requires
        old(ps).wf(),
    ensures
        final(ps).follows(old(ps)),
        r is Some ==> final(ps).pos > old(ps).pos,
        r is None ==> final(ps).pos == old(ps).pos,
        r is Some <==> old(ps).next_kind_is_curly() && old(ps).next_block_filled(),
        r is Some ==> final(ps).read_one(old(ps)),
    decreases old(ps).size(), 5nat,
{
    proof { lemma_first_solid(ps.items@, ps.pos as int); }
    match ps.peek() {
        Some(TokenTree::Brace(_)) => {},
        _ => return None,
    }
    proof {
        lemma_wf_elem(ps.items@, ps.next_solid());
        assert(ps.next_kind_is_curly());
    }
    let ghost before = *ps;
    let (mut sub, saved, left) = ps.enter_block();
    proof {
        lemma_first_solid(sub.items@, 0);
    }
    match parse_rule_or_property_list(&mut sub) {
        None => {
            ps.abandon_block(sub, saved);
            None
        },
        Some(children) => {
            let (trailing, right) = ps.leave_block(sub);
            if right.is_empty() {
                ps.add_warning(ParseErrorKind::UnmatchedBrace, left);
            }
            ps.out.braces.push(Location { start: left.end, end: right.start });
            Some(Group { children, left, right, trailing })
        },
    }
}

/// Reads a `{...}` block of rules.
pub fn parse_brace_rule_list(ps: &mut ParseState) -> (r: Option<Brace<List<Rule>>>)
    requires
        old(ps).wf(),
    ensures
        final(ps).follows(old(ps)),
        r is Some ==> final(ps).pos > old(ps).pos,
        r is None ==> final(ps).pos == old(ps).pos,
        r is Some <==> old(ps).next_kind_is_curly() && old(ps).next_block_filled(),
        r is Some ==> final(ps).read_one(old(ps)),
    decreases old(ps).size(), 5nat,
{
    proof { lemma_first_solid(ps.items@, ps.pos as int); }
    match ps.peek() {
        Some(TokenTree::Brace(_)) => {},
        _ => return None,
    }
    proof {
        lemma_wf_elem(ps.items@, ps.next_solid());
        assert(ps.next_kind_is_curly());
    }
    let ghost before = *ps;
    let (mut sub, saved, left) = ps.enter_block();
    proof {
        lemma_first_solid(sub.items@, 0);
    }
    match parse_rule_list(&mut sub) {
        None => {
            ps.abandon_block(sub, saved);
            None
        },
        Some(children) => {
            let (trailing, right) = ps.leave_block(sub);
            if right.is_empty() {
                ps.add_warning(ParseErrorKind::UnmatchedBrace, left);
            }
            ps.out.braces.push(Location { start: left.end, end: right.start });
            Some(Group { children, left, right, trailing })
        },
    }
}

/// Reads a `{...}` block of keyframes.
pub fn parse_brace_keyframe_list(ps: &mut ParseState) -> (r: Option<Brace<List<Keyframe>>>)
    requires
        old(ps).wf(),
    ensures
        final(ps).follows(old(ps)),
        r is Some ==> final(ps).pos > old(ps).pos,
        r is None ==> final(ps).pos == old(ps).pos,
        r is Some <==> old(ps).next_kind_is_curly() && old(ps).next_block_filled(),
        r is Some ==> final(ps).read_one(old(ps)),
    decreases old(ps).size(), 5nat,
{
    proof { lemma_first_solid(ps.items@, ps.pos as int); }
    match ps.peek() {
        Some(TokenTree::Brace(_)) => {},
        _ => return None,
    }
    proof {
        lemma_wf_elem(ps.items@, ps.next_solid());
        assert(ps.next_kind_is_curly());
    }
    let ghost before = *ps;
    let (mut sub, saved, left) = ps.enter_block();
    proof {
        lemma_first_solid(sub.items@, 0);
    }
    match parse_keyframe_list(&mut sub) {
        None => {
            ps.abandon_block(sub, saved);
            None
        },
        Some(children) => {
            let (trailing, right) = ps.leave_block(sub);
            if right.is_empty() {
                ps.add_warning(ParseErrorKind::UnmatchedBrace, left);
            }
            ps.out.braces.push(Location { start: left.end, end: right.start });
            Some(Group { children, left, right, trailing })
        },
    }
}

/// A block of rules and properties, or a semicolon in its place.
pub fn parse_bos_rule_or_property(ps: &mut ParseState) -> (r: Option<BraceOrSemicolon<List<RuleOrProperty>>>)
    requires
        old(ps).wf(),
    ensures
        bos_read(*old(ps), *final(ps), r),
    decreases old(ps).size(), 6nat,
{
    proof { lemma_first_solid(ps.items@, ps.pos as int); }
    match ps.peek() {
        Some(TokenTree::Brace(_)) => match parse_brace_rule_or_property(ps) {
            Some(x) => Some(BraceOrSemicolon::Brace(x)),
            None => None,
        },
        Some(TokenTree::Semicolon(_)) => match parse_semicolon(ps) {
            Some(x) => Some(BraceOrSemicolon::Semicolon(x)),
            None => None,
        },
        _ => None,
    }
}

/// A block of rules, or a semicolon in its place.
pub fn parse_bos_rule_list(ps: &mut ParseState) -> (r: Option<BraceOrSemicolon<List<Rule>>>)
    requires
        old(ps).wf(),
    ensures
        bos_read(*old(ps), *final(ps), r),
    decreases old(ps).size(), 6nat,
{
    proof { lemma_first_solid(ps.items@, ps.pos as int); }
    match ps.peek() {
        Some(TokenTree::Brace(_)) => match parse_brace_rule_list(ps) {
            Some(x) => Some(BraceOrSemicolon::Brace(x)),
            None => None,
        },
        Some(TokenTree::Semicolon(_)) => match parse_semicolon(ps) {
            Some(x) => Some(BraceOrSemicolon::Semicolon(x)),
            None => None,
        },
        _ => None,
    }
}

/// A block of keyframes, or a semicolon in its place.
pub fn parse_bos_keyframe_list(ps: &mut ParseState) -> (r: Option<BraceOrSemicolon<List<Keyframe>>>)
    requires
        old(ps).wf(),
    ensures
        bos_read(*old(ps), *final(ps), r),
    decreases old(ps).size(), 6nat,
{
    proof { lemma_first_solid(ps.items@, ps.pos as int); }
    match ps.peek() {
        Some(TokenTree::Brace(_)) => match parse_brace_keyframe_list(ps) {
            Some(x) => Some(BraceOrSemicolon::Brace(x)),
            None => None,
        },
        Some(TokenTree::Semicolon(_)) => match parse_semicolon(ps) {
            Some(x) => Some(BraceOrSemicolon::Semicolon(x)),
            None => None,
        },
        _ => None,
    }
}

/// Reads a style rule: its selectors, and its body when one follows. The selector text is the
/// source from the first selector token to the last one, whitespace runs collapsed.
pub fn parse_style_rule(ps: &mut ParseState) -> (r: Option<StyleRule>)
    requires
        old(ps).wf(),
    ensures
        final(ps).follows(old(ps)),
        r is Some ==> final(ps).pos > old(ps).pos,
        !old(ps).at_end() && starts_selector(old(ps).next_tree().kind()) ==> r is Some,
        r is Some ==> final(ps).kept_leading_comments(old(ps)),
        r is Some ==> stops_only_last(*old(ps), *final(ps)),
        r matches Some(x) ==> exists|a: ParseState, m: ParseState| #![trigger selectors_read(a, m, Some(x.selector))]
            state_at(a, *old(ps), old(ps).next_solid()) && selectors_read(a, m, Some(x.selector))
            && bos_read(m, *final(ps), x.brace),
    decreases old(ps).size(), 7nat,
{
    proof { lemma_first_solid(ps.items@, ps.pos as int); }
    let ghost b = *ps;
    ps.skip_comments();
    let ghost a = *ps;
    let start = ps.pos;
    proof { lemma_first_solid(ps.items@, ps.pos as int); }
    let selector = match parse_selector_repeat(ps) {
        Some(x) => x,
        None => return None,
    };
    let ghost m = *ps;
    let end = ps.pos;
    let mut text = String::new();
    push_trees_text(ps.items, start, end, &mut text);
    let selector_str = crate::text::collapse_whitespace(text.as_str());
    let brace = parse_bos_rule_or_property(ps);
    proof {
        assert(state_at(a, *old(ps), old(ps).next_solid()));
        assert(selectors_read(a, m, Some(selector)));
        assert(bos_read(m, *ps, brace));
        lemma_no_stop_step(*old(ps), a);
        lemma_no_stop_trans(*old(ps), a, m);
        lemma_first_solid(m.items@, m.pos as int);
        lemma_stops_only_last(*old(ps), m, *ps);
    }
    let r = StyleRule { selector, selector_str, brace };
    proof {
        assert(selectors_read(a, m, Some(r.selector)));
    }
    Some(r)
}

/// Reads a media rule: the at-keyword, the query list and the body.
pub fn parse_media_rule(ps: &mut ParseState) -> (r: Option<MediaRule>)
    requires
        old(ps).wf(),
    ensures
        final(ps).follows(old(ps)),
        r is Some <==> (!old(ps).at_end() && old(ps).next_tree().kind() is AtKeyword),
        r is Some ==> final(ps).pos > old(ps).pos,
        r is Some ==> final(ps).kept_leading_comments(old(ps)),
        r is Some ==> stops_only_last(*old(ps), *final(ps)),
        r matches Some(x) ==> exists|a: ParseState, m: ParseState| #![trigger media_list_read(a, m, x.list)]
            state_at(a, *old(ps), after_next(*old(ps)).next_solid()) && media_list_read(a, m, x.list)
            && bos_read(m, *final(ps), x.body),
        !old(ps).at_end() && old(ps).next_tree().kind() is AtKeyword && next_is_media_type(&after_next(*old(ps)))
            && brace_after_next(&after_next(*old(ps))) ==> (r matches Some(x) && x.list matches Some(MediaQueryList::MediaType(_))),
    decreases old(ps).size(), 7nat,
{
    proof { lemma_first_solid(ps.items@, ps.pos as int); }
    let at_media = match parse_at_keyword(ps) {
        Some(x) => x,
        None => return None,
    };
    proof { lemma_first_solid(ps.items@, ps.pos as int); }
    let ghost b = *ps;
    ps.skip_comments();
    let ghost a = *ps;
    let start = ps.pos;
    proof { lemma_first_solid(ps.items@, ps.pos as int); }
    let list = parse_media_query_list(ps);
    let ghost m = *ps;
    let end = ps.pos;
    let mut text = String::new();
    push_trees_text(ps.items, start, end, &mut text);
    let list_str = crate::text::collapse_whitespace(text.as_str());
    let body = parse_bos_rule_list(ps);
    proof {
        assert(state_at(a, *old(ps), after_next(*old(ps)).next_solid()));
        assert(media_list_read(a, m, list));
        assert(bos_read(m, *ps, body));
        lemma_no_stop_step(b, a);
        lemma_no_stop_trans(*old(ps), b, a);
        lemma_no_stop_trans(*old(ps), a, m);
        lemma_first_solid(m.items@, m.pos as int);
        lemma_stops_only_last(*old(ps), m, *ps);
    }
    Some(MediaRule { at_media, list, list_str, body })
}

/// Reads a font face rule: the at-keyword and the body.
pub fn parse_font_face_rule(ps: &mut ParseState) -> (r: Option<FontFaceRule>)
    requires
        old(ps).wf(),
    ensures
        final(ps).follows(old(ps)),
        r is Some <==> (!old(ps).at_end() && old(ps).next_tree().kind() is AtKeyword),
        r is Some ==> final(ps).pos > old(ps).pos,
        r is Some ==> final(ps).kept_leading_comments(old(ps)),
        r is Some ==> stops_only_last(*old(ps), *final(ps)),
        r matches Some(x) ==> exists|m: ParseState| #![trigger bos_read(m, *final(ps), x.body)]
            state_at(m, *old(ps), old(ps).next_solid() + 1) && bos_read(m, *final(ps), x.body),
    decreases old(ps).size(), 7nat,
{
    proof { lemma_first_solid(ps.items@, ps.pos as int); }
    let at_font_face = match parse_at_keyword(ps) {
        Some(x) => x,
        None => return None,
    };
    let ghost m = *ps;
    let body = parse_bos_rule_or_property(ps);
    proof {
        assert(state_at(m, *old(ps), old(ps).next_solid() + 1));
        assert(bos_read(m, *ps, body));
        lemma_first_solid(m.items@, m.pos as int);
        lemma_stops_only_last(*old(ps), m, *ps);
    }
    Some(FontFaceRule { at_font_face, body })
}

/// Reads an identifier followed by the tokens up to a semicolon or a `{` block; or, when no
/// identifier comes, just those tokens.
fn parse_ident_with_trailing(ps: &mut ParseState) -> (r: MaybeUnknown<Ident>)
    requires
        old(ps).wf(),
    ensures
        name_read(*old(ps), *final(ps), r),
{
    match parse_ident(ps) {
        Some(t) => {
            let ghost mid = *ps;
            let trailing = ps.skip_until_before_brace_or_semicolon();
            proof { lemma_no_stop_trans(*old(ps), mid, *ps); }
            MaybeUnknown::Normal(t, trailing)
        },
        None => MaybeUnknown::Unknown(ps.skip_until_before_brace_or_semicolon()),
    }
}

fn parse_percentage_with_trailing(ps: &mut ParseState) -> (r: MaybeUnknown<Percentage>)
    requires
        old(ps).wf(),
    ensures
        final(ps).follows(old(ps)),
        (!old(ps).at_end() && old(ps).next_tree().kind() is Percentage) ==> final(ps).pos > old(ps).pos,
{
    match parse_percentage(ps) {
        Some(t) => {
            let trailing = ps.skip_until_before_brace_or_semicolon();
            MaybeUnknown::Normal(t, trailing)
        },
        None => MaybeUnknown::Unknown(ps.skip_until_before_brace_or_semicolon()),
    }
}

/// Reads a keyframes rule: the at-keyword, the name and the body.
pub fn parse_keyframes_rule(ps: &mut ParseState) -> (r: Option<KeyframesRule>)
    requires
        old(ps).wf(),
    ensures
        final(ps).follows(old(ps)),
        r is Some <==> (!old(ps).at_end() && old(ps).next_tree().kind() is AtKeyword),
        r is Some ==> final(ps).pos > old(ps).pos,
        r is Some ==> final(ps).kept_leading_comments(old(ps)),
        r is Some ==> stops_only_last(*old(ps), *final(ps)),
        r matches Some(x) ==> exists|a: ParseState, m: ParseState| #![trigger name_read(a, m, x.name)]
            state_at(a, *old(ps), old(ps).next_solid() + 1) && name_read(a, m, x.name)
            && bos_read(m, *final(ps), x.body),
    decreases old(ps).size(), 7nat,
{
    proof { lemma_first_solid(ps.items@, ps.pos as int); }
    let at_keyframes = match parse_at_keyword(ps) {
        Some(x) => x,
        None => return None,
    };
    let ghost a = *ps;
    let name = parse_ident_with_trailing(ps);
    let ghost m = *ps;
    let body = parse_bos_keyframe_list(ps);
    proof {
        assert(state_at(a, *old(ps), old(ps).next_solid() + 1));
        assert(name_read(a, m, name));
        assert(bos_read(m, *ps, body));
        lemma_no_stop_trans(*old(ps), a, m);
        lemma_first_solid(m.items@, m.pos as int);
        lemma_stops_only_last(*old(ps), m, *ps);
    }
    Some(KeyframesRule { at_keyframes, name, body })
}

/// Reads a keyframe: a named or percentage progress with its body, or, before any other token,
/// an empty unknown keyframe that reads nothing. `None` at the end of the level.
pub fn parse_keyframe(ps: &mut ParseState) -> (r: Option<Keyframe>)
    requires
        old(ps).wf(),
    ensures
        final(ps).follows(old(ps)),
        r is None <==> old(ps).at_end(),
        r is None ==> final(ps).pos == old(ps).pos,
        r is Some && !(r->0 is Unknown) ==> final(ps).pos > old(ps).pos,
        r matches Some(Keyframe::Unknown(v)) ==> v@.len() == 0 && final(ps).pos == old(ps).pos,
    decreases old(ps).size(), 8nat,
{
    proof { lemma_first_solid(ps.items@, ps.pos as int); }
    match ps.peek() {
        None => None,
        Some(TokenTree::Ident(_)) => {
            let progress = parse_ident_with_trailing(ps);
            let body = parse_bos_rule_or_property(ps);
            Some(Keyframe::Named { progress, body })
        },
        Some(TokenTree::Percentage(_)) => {
            let progress = parse_percentage_with_trailing(ps);
            let body = parse_bos_rule_or_property(ps);
            Some(Keyframe::Percentage { progress, body })
        },
        Some(_) => Some(Keyframe::Unknown(Vec::new())),
    }
}

/// Reads an unrecognized rule: tokens up to and including a semicolon or a `{` block.
fn parse_unknown_rule(ps: &mut ParseState) -> (r: Option<Rule>)
    requires
        old(ps).wf(),
    ensures
        final(ps).follows(old(ps)),
        r is Some <==> !old(ps).at_end(),
        r is Some ==> final(ps).pos > old(ps).pos,
        r is None ==> final(ps).pos == old(ps).pos || final(ps).at_end(),
        r is Some ==> r->0 is Unknown,
        r is Some ==> final(ps).kept_leading_comments(old(ps)),
        r is Some ==> final(ps).kept_first_warnings(old(ps)),
        r is Some ==> stops_only_last(*old(ps), *final(ps)),
{
    let mut tt: Vec<TokenTree> = Vec::new();
    proof { lemma_first_solid(ps.items@, ps.pos as int); }
    let ghost first_at_end = ps.at_end();
    loop
        invariant_except_break
            tt@.len() == 0 ==> ps.pos == old(ps).pos && ps.out == old(ps).out,
            ps.no_stop_since(old(ps)),
        invariant
            ps.follows(old(ps)),
            tt@.len() > 0 ==> ps.pos > old(ps).pos && !first_at_end,
            tt@.len() > 0 ==> ps.kept_leading_comments(old(ps)),
            tt@.len() > 0 ==> ps.kept_first_warnings(old(ps)),
            first_at_end == old(ps).at_end(),
        ensures
            ps.follows(old(ps)),
            tt@.len() > 0 ==> ps.pos > old(ps).pos && !first_at_end,
            tt@.len() > 0 ==> ps.kept_leading_comments(old(ps)),
            tt@.len() > 0 ==> ps.kept_first_warnings(old(ps)),
            tt@.len() == 0 ==> first_at_end && ps.at_end(),
            stops_only_last(*old(ps), *ps),
        decreases ps.remaining(),
    {
        proof { lemma_first_solid(ps.items@, ps.pos as int); }
        let ghost before = *ps;
        let next = match ps.next() {
            Some(x) => x,
            None => {
                proof { lemma_stops_only_last(*old(ps), before, *ps); }
                break ;
            },
        };
        proof {
            if tt@.len() > 0 {
                lemma_leading_comments_kept(*old(ps), before, *ps);
                lemma_first_warnings_kept(*old(ps), before, *ps);
            } else {
                lemma_wf_elem(before.items@, before.next_solid());
                if before.next_tree() is Block {
                    assert(before.out.warnings@ + tree_warnings(before.next_tree()) =~= before.out.warnings@);
                }
            }
            lemma_stops_only_last(*old(ps), before, *ps);
        }
        let ended = match &next {
            TokenTree::Semicolon(_) | TokenTree::Brace(_) => true,
            _ => false,
        };
        proof {
            if !ended {
                lemma_no_stop_step(before, *ps);
                lemma_no_stop_trans(*old(ps), before, *ps);
            }
        }
        tt.push(next);
        if ended {
            break ;
        }
    }
    if tt.len() == 0 {
        None
    } else {
        Some(Rule::Unknown(List::from_vec(tt)))
    }
}

/// Reads an at-rule with an unrecognized keyword: the keyword, the tokens up to a semicolon or
/// a `{` block, and that semicolon or block.
fn parse_unknown_at_rule(ps: &mut ParseState) -> (r: Option<Rule>)
    requires
        old(ps).wf(),
    ensures
        final(ps).follows(old(ps)),
        r is Some <==> (!old(ps).at_end() && old(ps).next_tree().kind() is AtKeyword),
        r is Some ==> final(ps).pos > old(ps).pos,
        r is Some ==> r->0 is UnknownAtRule,
        r is Some ==> final(ps).kept_leading_comments(old(ps)),
        r is Some ==> stops_only_last(*old(ps), *final(ps)),
{
    proof { lemma_first_solid(ps.items@, ps.pos as int); }
    let at_keyword = match parse_at_keyword(ps) {
        Some(x) => x,
        None => return None,
    };
    let ghost b = *ps;
    let mut tt_list = ps.skip_until_before_brace_or_semicolon();
    proof { lemma_first_solid(ps.items@, ps.pos as int); }
    let ghost c = *ps;
    match ps.next() {
        Some(tt) => tt_list.push(tt),
        None => {},
    }
    proof {
        lemma_no_stop_trans(*old(ps), b, c);
        lemma_stops_only_last(*old(ps), c, *ps);
    }
    Some(Rule::UnknownAtRule(at_keyword, tt_list))
}

/// Reads a rule. `None` only at the end of the level.
pub fn parse_rule(ps: &mut ParseState) -> (r: Option<Rule>)
    requires
        old(ps).wf(),
    ensures
        final(ps).follows(old(ps)),
        r is None <==> old(ps).at_end(),
        r is None ==> *final(ps) == *old(ps),
        r matches Some(x) ==> rule_read(*old(ps), *final(ps), x),
    decreases old(ps).size(), 9nat,
{
    proof {
        lemma_first_solid(ps.items@, ps.pos as int);
        if !ps.at_end() {
            let k = ps.next_tree().kind();
            if k is AtKeyword || starts_selector(k) {
                assert(ps.out.warnings@ + tree_warnings(ps.next_tree()) =~= ps.out.warnings@);
            }
        }
    }
    let peek = match ps.peek() {
        None => return None,
        Some(p) => p,
    };
    match peek {
        TokenTree::AtKeyword(kw) => {
            proof {
                reveal_strlit("import");
                reveal_strlit("media");
                reveal_strlit("font-face");
                reveal_strlit("keyframes");
                assert("import"@[0] != "media"@[0]);
                assert("import"@[0] != "font-face"@[0]);
                assert("import"@[0] != "keyframes"@[0]);
                assert("media"@[0] != "font-face"@[0]);
                assert("media"@[0] != "keyframes"@[0]);
                assert("font-face"@[0] != "keyframes"@[0]);
            }
            let name = kw.content.as_str();
            if crate::text::str_eq(name, "import") {
                match parse_import_rule(ps) {
                    Some(x) => Some(Rule::Import(x)),
                    None => None,
                }
            } else if crate::text::str_eq(name, "media") {
                match parse_media_rule(ps) {
                    Some(x) => Some(Rule::Media(x)),
                    None => None,
                }
            } else if crate::text::str_eq(name, "font-face") {
                match parse_font_face_rule(ps) {
                    Some(x) => Some(Rule::FontFace(x)),
                    None => None,
                }
            } else if crate::text::str_eq(name, "keyframes") {
                match parse_keyframes_rule(ps) {
                    Some(x) => Some(Rule::Keyframes(x)),
                    None => None,
                }
            } else {
                parse_unknown_at_rule(ps)
            }
        },
        x => {
            proof {
                if starts_selector(ps.next_tree().kind()) {
                    lemma_style_start_back(x, ps.next_tree().kind());
                }
            }
            if probably_style_rule_start(&x) {
                proof { lemma_style_start(x, ps.next_tree().kind()); }
                match parse_style_rule(ps) {
                    Some(r) => Some(Rule::Style(r)),
                    None => None,
                }
            } else {
                parse_unknown_rule(ps)
            }
        },
    }
}

/// Reads a property when an identifier and a colon come next, a lone trailing identifier as an
/// unknown rule, and otherwise a rule.
pub fn parse_rule_or_property(ps: &mut ParseState) -> (r: Option<RuleOrProperty>)
    requires
        old(ps).wf(),
    ensures
        final(ps).follows(old(ps)),
        r is Some ==> final(ps).pos > old(ps).pos,
        r is Some <==> !old(ps).at_end(),
        r is None ==> final(ps).pos == old(ps).pos,
        old(ps).next_is_property_start() ==> r matches Some(RuleOrProperty::Property(_)),
    decreases old(ps).size(), 10nat,
{
    proof { lemma_first_solid(ps.items@, ps.pos as int); }
    let (p1, p2) = ps.peek2();
    let first_ident = match &p1 {
        Some(TokenTree::Ident(_)) => true,
        _ => false,
    };
    proof {
        if !ps.at_end() {
            lemma_wf_elem(ps.items@, ps.next_solid());
            if first_ident {
                assert(ps.next_tree().kind() is Ident);
                assert(ps.next_tree() is Token);
            }
        }
        if ps.next_is_property_start() {
            assert(first_ident);
            assert(p2 is Some);
            assert(p2->0 is Colon);
        }
    }
    if first_ident {
        match p2 {
            Some(TokenTree::Colon(c)) => {
                proof {
                    let k2 = first_solid(ps.items@, ps.next_solid() + 1);
                    lemma_first_solid(ps.items@, ps.next_solid() + 1);
                    assert(k2 < ps.items@.len());
                    assert(corresponds(TokenTree::Colon(c), ps.items@[k2].kind()));
                    assert(ps.next_is_property_start());
                }
                match parse_property(ps) {
                    Some(p) => return Some(RuleOrProperty::Property(p)),
                    None => {},
                }
            },
            None => {
                match ps.next() {
                    Some(tt) => {
                        let mut v: Vec<TokenTree> = Vec::new();
                        v.push(tt);
                        return Some(RuleOrProperty::Rule(Rule::Unknown(List::from_vec(v))));
                    },
                    None => return None,
                }
            },
            _ => {},
        }
    }
    match parse_rule(ps) {
        Some(x) => Some(RuleOrProperty::Rule(x)),
        None => None,
    }
}

/// Reads rules and properties while there are some; `None` when there is none.
pub fn parse_rule_or_property_list(ps: &mut ParseState) -> (r: Option<List<RuleOrProperty>>)
    requires
        old(ps).wf(),
    ensures
        final(ps).follows(old(ps)),
        r is Some ==> final(ps).pos > old(ps).pos,
        r is None <==> old(ps).at_end(),
        r is None ==> final(ps).pos == old(ps).pos,
    decreases old(ps).size(), 11nat,
{
    let mut items: Vec<RuleOrProperty> = Vec::new();
    loop
        invariant
            ps.follows(old(ps)),
            items@.len() > 0 ==> ps.pos > old(ps).pos && !old(ps).at_end(),
            items@.len() == 0 ==> ps.pos == old(ps).pos,
            ps.size() == old(ps).size(),
        ensures
            ps.follows(old(ps)),
            items@.len() > 0 ==> ps.pos > old(ps).pos && !old(ps).at_end(),
            items@.len() == 0 ==> ps.pos == old(ps).pos && old(ps).at_end(),
        decreases ps.remaining(),
    {
        match parse_rule_or_property(ps) {
            Some(c) => items.push(c),
            None => break ,
        }
    }
    if items.len() == 0 {
        None
    } else {
        Some(List::from_vec(items))
    }
}

/// Reads rules while there are some; `None` when there is none.
pub fn parse_rule_list(ps: &mut ParseState) -> (r: Option<List<Rule>>)
    requires
        old(ps).wf(),
    ensures
        final(ps).follows(old(ps)),
        r is Some ==> final(ps).pos > old(ps).pos,
        r is None <==> old(ps).at_end(),
        final(ps).at_end(),
    decreases old(ps).size(), 11nat,
{
    let mut items: Vec<Rule> = Vec::new();
    loop
        invariant
            ps.follows(old(ps)),
            items@.len() > 0 ==> ps.pos > old(ps).pos && !old(ps).at_end(),
            items@.len() == 0 ==> ps.pos == old(ps).pos,
            ps.size() == old(ps).size(),
        ensures
            ps.follows(old(ps)),
            items@.len() > 0 ==> ps.pos > old(ps).pos && !old(ps).at_end(),
            items@.len() == 0 ==> old(ps).at_end(),
            ps.at_end(),
        decreases ps.remaining(),
    {
        match parse_rule(ps) {
            Some(c) => items.push(c),
            None => break ,
        }
    }
    if items.len() == 0 {
        None
    } else {
        Some(List::from_vec(items))
    }
}

/// Reads keyframes while there are some. A keyframe that reads nothing ends the list.
pub fn parse_keyframe_list(ps: &mut ParseState) -> (r: Option<List<Keyframe>>)
    requires
        old(ps).wf(),
    ensures
        final(ps).follows(old(ps)),
        r is None <==> old(ps).at_end(),
    decreases old(ps).size(), 11nat,
{
    let mut items: Vec<Keyframe> = Vec::new();
    loop
        invariant
            ps.follows(old(ps)),
            items@.len() > 0 ==> !old(ps).at_end(),
            items@.len() == 0 ==> ps.pos == old(ps).pos,
            ps.size() == old(ps).size(),
        ensures
            ps.follows(old(ps)),
            items@.len() > 0 ==> !old(ps).at_end(),
            items@.len() == 0 ==> old(ps).at_end(),
        decreases ps.remaining(),
    {
        let before = ps.pos;
        match parse_keyframe(ps) {
            Some(c) => items.push(c),
            None => break ,
        }
        if ps.pos == before {
            break ;
        }
    }
    if items.len() == 0 {
        None
    } else {
        Some(List::from_vec(items))
    }
}

impl StyleSheet {
    /// Parses the token trees of a style sheet: rule after rule until only whitespace and
    /// comments are left, then those are read too. The rules are those read one after the other
    /// from the start of the trees (see `rules_read`); the sheet has a rule exactly when the
    /// trees hold a token other than whitespace and comments; the warnings are those that the
    /// reading gathered, starting from none, and the comments are those too, followed by the
    /// comments after the last rule.
    pub fn parse_trees<'a>(trees: &'a Vec<RawTree>) -> (r: (StyleSheet, Vec<ParseError>))
        requires
            raw_trees_wf(trees@),
        ensures
            r.0.items@.len() > 0 <==> first_solid(trees@, 0) < trees@.len(),
            exists|states: Seq<ParseState<'a>>| #![trigger rules_read(trees@, states, r.0.items@)]
                rules_read(trees@, states, r.0.items@)
                && r.1@ == states.last().out.warnings@
                && r.0.comments@ == states.last().out.comments@
                    + comments_in(trees@, states.last().pos as int, trees@.len() as int),
    {
        let mut ps = ParseState::new(trees, Position { line: 0, utf16_col: 0 }, ParseOutput::new());
        let ghost mut states: Seq<ParseState<'a>> = seq![ps];
        let mut items: Vec<Rule> = Vec::new();
        loop
            invariant
                ps.wf(),
                ps.items == trees,
                items@.len() == 0 ==> ps.pos == 0,
                items@.len() > 0 ==> first_solid(trees@, 0) < trees@.len(),
                states.len() == items@.len() + 1,
                states[0].items@ == trees@,
                states[0].pos == 0,
                states[0].out.warnings@.len() == 0,
                states[0].out.comments@.len() == 0,
                states.last() == ps,
                forall|i: int| 0 <= i < items@.len() ==> #[trigger] rule_read(states[i], states[i + 1], items@[i]),
            ensures
                ps.wf(),
                ps.items == trees,
                items@.len() == 0 ==> ps.at_end(),
                items@.len() > 0 ==> first_solid(trees@, 0) < trees@.len(),
                rules_read(trees@, states, items@),
                states.last() == ps,
            decreases ps.remaining(),
        {
            proof { lemma_first_solid(ps.items@, ps.pos as int); }
            let ghost before = ps;
            match parse_rule(&mut ps) {
                Some(item) => {
                    proof {
                        let old_states = states;
                        states = states.push(ps);
                        assert(rule_read(states[items@.len() as int], states[items@.len() + 1int], item));
                        assert forall|i: int| 0 <= i < items@.len() implies #[trigger] rule_read(states[i], states[i + 1], items@[i]) by {
                            assert(states[i] == old_states[i]);
                            assert(states[i + 1] == old_states[i + 1]);
                        }
                    }
                    items.push(item);
                },
                None => break ,
            }
            proof {
                if before.pos == 0 {
                    assert(!before.at_end());
                    assert(before.next_solid() == first_solid(trees@, 0));
                }
            }
        }
        let ghost last = ps;
        proof { lemma_first_solid(ps.items@, ps.pos as int); }
        ps.skip_comments();
        let ParseState { items: _, pos: _, level_start: _, out } = ps;
        let ParseOutput { warnings, comments, braces } = out;
        let sheet = StyleSheet { items, comments, braces };
        proof {
            assert(last.at_end());
            assert(rules_read(trees@, states, sheet.items@));
            assert(warnings@ == states.last().out.warnings@);
            assert(sheet.comments@ == states.last().out.comments@
                + comments_in(trees@, states.last().pos as int, trees@.len() as int));
        }
        let r = (sheet, warnings);
        proof {
            assert(rules_read(trees@, states, r.0.items@));
        }
        r
    }

    /// Parses a style sheet source: the token trees that `lex` makes of it (their texts make up
    /// the source, and their kinds and ranges are the tokenizer's), as `parse_trees` states.
    pub fn parse_str(src: &str) -> (r: (StyleSheet, Vec<ParseError>))
        ensures
            exists|trees: Seq<RawTree>| #![trigger trees_text(trees)]
                raw_trees_wf(trees) && trees_text(trees) == src@
                && trees_named(trees, src.spec_bytes(), 0) && trees_located(trees, src.spec_bytes(), 0)
                && (r.0.items@.len() > 0 <==> first_solid(trees, 0) < trees.len())
                && exists|states: Seq<ParseState>| #![trigger rules_read(trees, states, r.0.items@)]
                    rules_read(trees, states, r.0.items@)
                    && r.1@ == states.last().out.warnings@
                    && r.0.comments@ == states.last().out.comments@
                        + comments_in(trees, states.last().pos as int, trees.len() as int),
    {
        let trees = lex(src);
        let r = Self::parse_trees(&trees);
        proof {
            assert(trees_text(trees@) == src@);
        }
        r
    }
}

} // verus!
