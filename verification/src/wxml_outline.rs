//! Folding ranges and outline symbols of WXML templates.

use vstd::prelude::*;
use crate::position::{Location, Position};
use crate::folding::{FoldingRange, FoldingRangeKind, spec_folding_range, convert_folding_range};
use crate::wxml::{Element, ElementKind, Node, Script, TagLocation, Template, TemplateDefinition, Value};
use crate::text::{debug_quoted, debug_str, push_str};
use crate::wxml_match::{branch_elements, children_elements, elements_of_template, lemma_contains_concat, lemma_lists_concat, lists, node_elements, nodes_elements, subs_elements};

verus! {

/// The folding range between an element's tags: from the end of its opening tag to the start of
/// its closing tag; none for an element without a closing tag.
pub open spec fn element_fold(tl: TagLocation) -> Seq<FoldingRange> {
    match tl.end {
        Some(e) => seq![spec_folding_range(Location { start: tl.start.1.end, end: e.0.start }, None)],
        None => Seq::empty(),
    }
}

/// The folding range of a comment: its range without the `<!--` and `-->` columns (the end
/// column is kept when it is below 3).
pub open spec fn comment_fold(l: Location) -> FoldingRange {
    spec_folding_range(
        Location {
            start: Position { line: l.start.line, utf16_col: (l.start.utf16_col + 3) as u32 },
            end: Position {
                line: l.end.line,
                utf16_col: if l.end.utf16_col >= 3 { (l.end.utf16_col - 3) as u32 } else { l.end.utf16_col },
            },
        },
        Some(FoldingRangeKind::Comment),
    )
}

/// The folding ranges of the nodes from the `i`-th on, each element's before those of its
/// children.
pub open spec fn nodes_folds(ns: Seq<Node>, i: int) -> Seq<FoldingRange>
    decreases ns, ns.len() - i,
{
    if i < 0 || i >= ns.len() {
        Seq::empty()
    } else {
        node_folds(&ns[i]) + nodes_folds(ns, i + 1)
    }
}

pub open spec fn node_folds(n: &Node) -> Seq<FoldingRange>
    decreases n, 0int,
{
    match n {
        Node::Element(e) => element_fold(e.tag_location) + children_folds(e),
        Node::Comment(c) => seq![comment_fold(c.location)],
        _ => Seq::empty(),
    }
}

pub open spec fn children_folds(e: &Element) -> Seq<FoldingRange>
    decreases e, 0int,
{
    match &e.kind {
        ElementKind::Normal { children, .. } => nodes_folds(children@, 0),
        ElementKind::Pure { children, .. } => nodes_folds(children@, 0),
        ElementKind::For { children, .. } => nodes_folds(children@, 0),
        ElementKind::If { branches, else_branch } => branch_folds(branches@, 0) + match else_branch {
            Some(x) => nodes_folds(x.1@, 0),
            None => Seq::empty(),
        },
        _ => Seq::empty(),
    }
}

pub open spec fn branch_folds(bs: Seq<(Location, Value, Vec<Node>)>, i: int) -> Seq<FoldingRange>
    decreases bs, bs.len() - i,
{
    if i < 0 || i >= bs.len() {
        Seq::empty()
    } else {
        nodes_folds(bs[i].2@, 0) + branch_folds(bs, i + 1)
    }
}

/// Whether every comment among the nodes from the `i`-th on (and in their subtrees) starts at
/// a column that three more columns keep within `u32`.
pub open spec fn nodes_comments_fit(ns: Seq<Node>, i: int) -> bool
    decreases ns, ns.len() - i,
{
    if i < 0 || i >= ns.len() {
        true
    } else {
        node_comments_fit(&ns[i]) && nodes_comments_fit(ns, i + 1)
    }
}

pub open spec fn node_comments_fit(n: &Node) -> bool
    decreases n, 0int,
{
    match n {
        Node::Element(e) => children_comments_fit(e),
        Node::Comment(c) => c.location.start.utf16_col + 3 <= u32::MAX,
        _ => true,
    }
}

pub open spec fn children_comments_fit(e: &Element) -> bool
    decreases e, 0int,
{
    match &e.kind {
        ElementKind::Normal { children, .. } => nodes_comments_fit(children@, 0),
        ElementKind::Pure { children, .. } => nodes_comments_fit(children@, 0),
        ElementKind::For { children, .. } => nodes_comments_fit(children@, 0),
        ElementKind::If { branches, else_branch } => branch_comments_fit(branches@, 0) && match else_branch {
            Some(x) => nodes_comments_fit(x.1@, 0),
            None => true,
        },
        _ => true,
    }
}

pub open spec fn branch_comments_fit(bs: Seq<(Location, Value, Vec<Node>)>, i: int) -> bool
    decreases bs, bs.len() - i,
{
    if i < 0 || i >= bs.len() {
        true
    } else {
        nodes_comments_fit(bs[i].2@, 0) && branch_comments_fit(bs, i + 1)
    }
}

pub open spec fn subs_comments_fit(s: Seq<TemplateDefinition>, i: int) -> bool
    decreases s.len() - i,
{
    if i < 0 || i >= s.len() {
        true
    } else {
        nodes_comments_fit(s[i].content@, 0) && subs_comments_fit(s, i + 1)
    }
}

/// Every comment of the template starts at a column that three more columns keep within `u32`.
pub open spec fn comments_fit(t: Template) -> bool {
    subs_comments_fit(t.sub_templates@, 0) && nodes_comments_fit(t.content@, 0)
}

pub open spec fn scripts_folds(s: Seq<Script>, i: int) -> Seq<FoldingRange>
    decreases s.len() - i,
{
    if i < 0 || i >= s.len() {
        Seq::empty()
    } else {
        (match s[i] {
            Script::Inline { tag_location, .. } => element_fold(tag_location),
            _ => Seq::empty(),
        }) + scripts_folds(s, i + 1)
    }
}

pub open spec fn subs_folds(s: Seq<TemplateDefinition>, i: int) -> Seq<FoldingRange>
    decreases s.len() - i,
{
    if i < 0 || i >= s.len() {
        Seq::empty()
    } else {
        element_fold(s[i].tag_location) + nodes_folds(s[i].content@, 0) + subs_folds(s, i + 1)
    }
}

/// The folding ranges of a template: those of its inline scripts, then of its sub-templates
/// (each before those of its content), then of its content.
pub open spec fn template_folds(t: Template) -> Seq<FoldingRange> {
    scripts_folds(t.scripts@, 0) + subs_folds(t.sub_templates@, 0) + nodes_folds(t.content@, 0)
}

/// The folding ranges of an element and of everything under it.
pub open spec fn element_all_folds(c: Element) -> Seq<FoldingRange> {
    element_fold(c.tag_location) + children_folds(&c)
}

proof fn lemma_nodes_fold<'a>(ns: Seq<Node>, i: int, c: Element, f: FoldingRange)
    requires
        lists(nodes_elements(ns, i), c),
        element_all_folds(c).contains(f),
    ensures
        nodes_folds(ns, i).contains(f),
    decreases ns, ns.len() - i,
{
    if 0 <= i < ns.len() {
        let rest: Seq<&'a Element> = nodes_elements(ns, i + 1);
        let head: Seq<&'a Element> = node_elements(&ns[i]);
        assert(nodes_elements(ns, i) == head + rest);
        lemma_lists_concat(head, rest, c);
        assert(nodes_folds(ns, i) == node_folds(&ns[i]) + nodes_folds(ns, i + 1));
        if lists(rest, c) {
            lemma_nodes_fold(ns, i + 1, c, f);
        } else {
            match &ns[i] {
                Node::Element(e) => {
                    lemma_lists_concat(seq![e], children_elements(e), c);
                    if lists(seq![e], c) {
                        assert(*e == c);
                        assert(node_folds(&ns[i]) == element_all_folds(c));
                    } else {
                        lemma_children_fold(e, c, f);
                        lemma_contains_concat(element_fold(e.tag_location), children_folds(e), f);
                    }
                },
                _ => {},
            }
        }
        lemma_contains_concat(node_folds(&ns[i]), nodes_folds(ns, i + 1), f);
    }
}

proof fn lemma_children_fold<'a>(e: &'a Element, c: Element, f: FoldingRange)
    requires
        lists(children_elements(e), c),
        element_all_folds(c).contains(f),
    ensures
        children_folds(e).contains(f),
    decreases e, 0int,
{
    match &e.kind {
        ElementKind::Normal { children, .. } => lemma_nodes_fold(children@, 0, c, f),
        ElementKind::Pure { children, .. } => lemma_nodes_fold(children@, 0, c, f),
        ElementKind::For { children, .. } => lemma_nodes_fold(children@, 0, c, f),
        ElementKind::If { branches, else_branch } => {
            let tail: Seq<&'a Element> = match else_branch {
                Some(x) => nodes_elements(x.1@, 0),
                None => Seq::empty(),
            };
            let ftail = match else_branch {
                Some(x) => nodes_folds(x.1@, 0),
                None => Seq::empty(),
            };
            let bw: Seq<&'a Element> = branch_elements(branches@, 0);
            lemma_lists_concat(bw, tail, c);
            if lists(bw, c) {
                lemma_branch_fold(branches@, 0, c, f);
            } else {
                match else_branch {
                    Some(x) => lemma_nodes_fold(x.1@, 0, c, f),
                    None => {},
                }
            }
            lemma_contains_concat(branch_folds(branches@, 0), ftail, f);
        },
        _ => {},
    }
}

proof fn lemma_branch_fold<'a>(bs: Seq<(Location, Value, Vec<Node>)>, i: int, c: Element, f: FoldingRange)
    requires
        lists(branch_elements(bs, i), c),
        element_all_folds(c).contains(f),
    ensures
        branch_folds(bs, i).contains(f),
    decreases bs, bs.len() - i,
{
    if 0 <= i < bs.len() {
        let rest: Seq<&'a Element> = branch_elements(bs, i + 1);
        let head: Seq<&'a Element> = nodes_elements(bs[i].2@, 0);
        assert(branch_elements(bs, i) == head + rest);
        lemma_lists_concat(head, rest, c);
        if lists(rest, c) {
            lemma_branch_fold(bs, i + 1, c, f);
        } else {
            assert(decreases_to!(bs => bs[i]));
            lemma_nodes_fold(bs[i].2@, 0, c, f);
        }
        lemma_contains_concat(nodes_folds(bs[i].2@, 0), branch_folds(bs, i + 1), f);
    }
}

proof fn lemma_subs_fold<'a>(s: Seq<TemplateDefinition>, i: int, c: Element, f: FoldingRange)
    requires
        lists(subs_elements(s, i), c),
        element_all_folds(c).contains(f),
    ensures
        subs_folds(s, i).contains(f),
    decreases s.len() - i,
{
    if 0 <= i < s.len() {
        let rest: Seq<&'a Element> = subs_elements(s, i + 1);
        let head: Seq<&'a Element> = nodes_elements(s[i].content@, 0);
        assert(subs_elements(s, i) == head + rest);
        lemma_lists_concat(head, rest, c);
        let a = element_fold(s[i].tag_location);
        let b = nodes_folds(s[i].content@, 0);
        if lists(rest, c) {
            lemma_subs_fold(s, i + 1, c, f);
        } else {
            lemma_nodes_fold(s[i].content@, 0, c, f);
            lemma_contains_concat(a, b, f);
        }
        lemma_contains_concat(a + b, subs_folds(s, i + 1), f);
    }
}

proof fn lemma_walked_folds<'a>(t: &'a Template, c: Element, f: FoldingRange)
    requires
        lists(elements_of_template(t), c),
        element_all_folds(c).contains(f),
    ensures
        template_folds(*t).contains(f),
{
    let subs: Seq<&'a Element> = subs_elements(t.sub_templates@, 0);
    let top: Seq<&'a Element> = nodes_elements(t.content@, 0);
    lemma_lists_concat(subs, top, c);
    let sc = scripts_folds(t.scripts@, 0);
    let sf = subs_folds(t.sub_templates@, 0);
    let nf = nodes_folds(t.content@, 0);
    if lists(subs, c) {
        lemma_subs_fold(t.sub_templates@, 0, c, f);
        lemma_contains_concat(sc, sf, f);
        lemma_contains_concat(sc + sf, nf, f);
    } else {
        lemma_nodes_fold(t.content@, 0, c, f);
        lemma_contains_concat(sc + sf, nf, f);
    }
}

proof fn lemma_held_comment_folds(ns: Seq<Node>, i: int, j: int)
    requires
        0 <= i <= j < ns.len(),
        ns[j] is Comment,
    ensures
        nodes_folds(ns, i).contains(comment_fold(ns[j]->Comment_0.location)),
    decreases j - i,
{
    let f = comment_fold(ns[j]->Comment_0.location);
    if i == j {
        assert(node_folds(&ns[i])[0] == f);
    } else {
        lemma_held_comment_folds(ns, i + 1, j);
    }
    lemma_contains_concat(node_folds(&ns[i]), nodes_folds(ns, i + 1), f);
}

/// A comment standing among the child nodes of an element of the template's walk (a `wx:for`,
/// a `wx:if` branch or its `wx:else` included), or at the top of the content, gives its folding
/// range.
pub proof fn lemma_every_comment_folds<'a>(t: &'a Template, c: Element, j: int, k: int)
    ensures
        0 <= j < t.content@.len() && t.content@[j] is Comment
            ==> template_folds(*t).contains(comment_fold(t.content@[j]->Comment_0.location)),
        lists(elements_of_template(t), c) && c.kind is Normal && 0 <= j < c.kind->Normal_children@.len()
            && c.kind->Normal_children@[j] is Comment
            ==> template_folds(*t).contains(comment_fold(c.kind->Normal_children@[j]->Comment_0.location)),
        lists(elements_of_template(t), c) && c.kind is For && 0 <= j < c.kind->For_children@.len()
            && c.kind->For_children@[j] is Comment
            ==> template_folds(*t).contains(comment_fold(c.kind->For_children@[j]->Comment_0.location)),
        lists(elements_of_template(t), c) && c.kind is If && 0 <= k < c.kind->branches@.len()
            && 0 <= j < c.kind->branches@[k].2@.len() && c.kind->branches@[k].2@[j] is Comment
            ==> template_folds(*t).contains(comment_fold(c.kind->branches@[k].2@[j]->Comment_0.location)),
        lists(elements_of_template(t), c) && c.kind is If && c.kind->else_branch is Some
            && 0 <= j < (c.kind->else_branch->0).1@.len() && (c.kind->else_branch->0).1@[j] is Comment
            ==> template_folds(*t).contains(comment_fold((c.kind->else_branch->0).1@[j]->Comment_0.location)),
{
    let sc = scripts_folds(t.scripts@, 0);
    let sf = subs_folds(t.sub_templates@, 0);
    let nf = nodes_folds(t.content@, 0);
    if 0 <= j < t.content@.len() && t.content@[j] is Comment {
        lemma_held_comment_folds(t.content@, 0, j);
        lemma_contains_concat(sc + sf, nf, comment_fold(t.content@[j]->Comment_0.location));
    }
    if lists(elements_of_template(t), c) {
        match &c.kind {
            ElementKind::Normal { children, .. } => if 0 <= j < children@.len() && children@[j] is Comment {
                let f = comment_fold(children@[j]->Comment_0.location);
                lemma_held_comment_folds(children@, 0, j);
                lemma_contains_concat(element_fold(c.tag_location), children_folds(&c), f);
                lemma_walked_folds(t, c, f);
            },
            ElementKind::For { children, .. } => if 0 <= j < children@.len() && children@[j] is Comment {
                let f = comment_fold(children@[j]->Comment_0.location);
                lemma_held_comment_folds(children@, 0, j);
                lemma_contains_concat(element_fold(c.tag_location), children_folds(&c), f);
                lemma_walked_folds(t, c, f);
            },
            ElementKind::If { branches, else_branch } => {
                let ftail = match else_branch {
                    Some(x) => nodes_folds(x.1@, 0),
                    None => Seq::empty(),
                };
                if 0 <= k < branches@.len() && 0 <= j < branches@[k].2@.len() && branches@[k].2@[j] is Comment {
                    let f = comment_fold(branches@[k].2@[j]->Comment_0.location);
                    lemma_held_comment_folds(branches@[k].2@, 0, j);
                    lemma_branch_fold_has(branches@, 0, k, f);
                    lemma_contains_concat(branch_folds(branches@, 0), ftail, f);
                    lemma_contains_concat(element_fold(c.tag_location), children_folds(&c), f);
                    lemma_walked_folds(t, c, f);
                }
                match else_branch {
                    Some(x) => if 0 <= j < x.1@.len() && x.1@[j] is Comment {
                        let f = comment_fold(x.1@[j]->Comment_0.location);
                        lemma_held_comment_folds(x.1@, 0, j);
                        lemma_contains_concat(branch_folds(branches@, 0), ftail, f);
                        lemma_contains_concat(element_fold(c.tag_location), children_folds(&c), f);
                        lemma_walked_folds(t, c, f);
                    },
                    None => {},
                }
            },
            _ => {},
        }
    }
}

proof fn lemma_branch_fold_has(bs: Seq<(Location, Value, Vec<Node>)>, i: int, k: int, f: FoldingRange)
    requires
        0 <= i <= k < bs.len(),
        nodes_folds(bs[k].2@, 0).contains(f),
    ensures
        branch_folds(bs, i).contains(f),
    decreases k - i,
{
    if i < k {
        lemma_branch_fold_has(bs, i + 1, k, f);
    }
    lemma_contains_concat(nodes_folds(bs[i].2@, 0), branch_folds(bs, i + 1), f);
}

/// Every element of the template's walk with a closing tag, and so every element at any depth
/// (see `lemma_template_walk_reaches_all`), the content of a `wx:if` branch, of its `wx:else`
/// and of a `wx:for` included, gives the folding range from the end of its opening tag to the
/// start of its closing tag.
pub proof fn lemma_every_closed_element_folds<'a>(t: &'a Template, c: Element)
    requires
        lists(elements_of_template(t), c),
        c.tag_location.end is Some,
    ensures
        template_folds(*t).contains(spec_folding_range(
            Location { start: c.tag_location.start.1.end, end: (c.tag_location.end->0).0.start },
            None,
        )),
{
    let f = element_fold(c.tag_location)[0];
    lemma_contains_concat(element_fold(c.tag_location), children_folds(&c), f);
    lemma_walked_folds(t, c, f);
}

fn push_element_fold(tl: &TagLocation, out: &mut Vec<FoldingRange>)
    ensures
        final(out)@ == old(out)@ + element_fold(*tl),
{
    match &tl.end {
        Some(e) => out.push(convert_folding_range(Location { start: tl.start.1.end, end: e.0.start }, None)),
        None => {},
    }
    proof {
        assert(final(out)@ =~= old(out)@ + element_fold(*tl));
    }
}

fn push_nodes_folds(ns: &Vec<Node>, out: &mut Vec<FoldingRange>)
    requires
        nodes_comments_fit(ns@, 0),
    ensures
        final(out)@ == old(out)@ + nodes_folds(ns@, 0),
    decreases ns@, 1int,
{
    let ghost o = out@;
    let mut i: usize = 0;
    while i < ns.len()
        invariant
            i <= ns@.len(),
            nodes_comments_fit(ns@, i as int),
            o + nodes_folds(ns@, 0) == out@ + nodes_folds(ns@, i as int),
        decreases ns@.len() - i,
    {
        proof {
            assert(node_comments_fit(&ns@[i as int]) && nodes_comments_fit(ns@, i + 1));
            assert(nodes_folds(ns@, i as int) == node_folds(&ns@[i as int]) + nodes_folds(ns@, i + 1));
        }
        let ghost before = out@;
        match &ns[i] {
            Node::Element(e) => {
                push_element_fold(&e.tag_location, out);
                push_children_folds(e, out);
            },
            Node::Comment(c) => {
                let l = c.location;
                let end_col = if l.end.utf16_col >= 3 { l.end.utf16_col - 3 } else { l.end.utf16_col };
                out.push(convert_folding_range(
                    Location {
                        start: Position { line: l.start.line, utf16_col: l.start.utf16_col + 3 },
                        end: Position { line: l.end.line, utf16_col: end_col },
                    },
                    Some(FoldingRangeKind::Comment),
                ));
            },
            _ => {},
        }
        proof {
            assert(out@ =~= before + node_folds(&ns@[i as int]));
        }
        i = i + 1;
    }
    proof {
        assert(out@ =~= o + nodes_folds(ns@, 0));
    }
}

fn push_children_folds(e: &Element, out: &mut Vec<FoldingRange>)
    requires
        children_comments_fit(e),
    ensures
        final(out)@ == old(out)@ + children_folds(e),
    decreases e, 0int,
{
    let ghost o = out@;
    match &e.kind {
        ElementKind::Normal { children, .. } => push_nodes_folds(children, out),
        ElementKind::Pure { children, .. } => push_nodes_folds(children, out),
        ElementKind::For { children, .. } => push_nodes_folds(children, out),
        ElementKind::If { branches, else_branch } => {
            push_branch_folds(branches, out);
            match else_branch {
                Some(x) => push_nodes_folds(&x.1, out),
                None => {},
            }
        },
        _ => {},
    }
    proof {
        assert(out@ =~= o + children_folds(e));
    }
}

fn push_branch_folds(bs: &Vec<(Location, Value, Vec<Node>)>, out: &mut Vec<FoldingRange>)
    requires
        branch_comments_fit(bs@, 0),
    ensures
        final(out)@ == old(out)@ + branch_folds(bs@, 0),
    decreases bs@, 0int,
{
    let ghost o = out@;
    let mut i: usize = 0;
    while i < bs.len()
        invariant
            i <= bs@.len(),
            branch_comments_fit(bs@, i as int),
            o + branch_folds(bs@, 0) == out@ + branch_folds(bs@, i as int),
        decreases bs@.len() - i,
    {
        proof {
            assert(decreases_to!(bs@ => bs@[i as int]));
        }
        push_nodes_folds(&bs[i].2, out);
        i = i + 1;
    }
    proof {
        assert(out@ =~= o + branch_folds(bs@, 0));
    }
}

/// The folding ranges of a template: between the tags of each inline script, sub-template and
/// element that has a closing tag, and over each comment without its `<!--` and `-->`; scripts
/// first, then sub-templates and their content, then the content, each element before its
/// children.
pub fn collect_wxml_folding_ranges(t: &Template) -> (r: Vec<FoldingRange>)
    requires
        comments_fit(*t),
    ensures
        r@ == template_folds(*t),
{
    let mut out: Vec<FoldingRange> = Vec::new();
    let mut i: usize = 0;
    while i < t.scripts.len()
        invariant
            i <= t.scripts@.len(),
            scripts_folds(t.scripts@, 0) == out@ + scripts_folds(t.scripts@, i as int),
        decreases t.scripts@.len() - i,
    {
        match &t.scripts[i] {
            Script::Inline { tag_location, .. } => push_element_fold(tag_location, &mut out),
            _ => {},
        }
        i = i + 1;
    }
    let ghost after_scripts = out@;
    let mut j: usize = 0;
    while j < t.sub_templates.len()
        invariant
            j <= t.sub_templates@.len(),
            subs_comments_fit(t.sub_templates@, j as int),
            after_scripts + subs_folds(t.sub_templates@, 0) == out@ + subs_folds(t.sub_templates@, j as int),
        decreases t.sub_templates@.len() - j,
    {
        let sub = &t.sub_templates[j];
        push_element_fold(&sub.tag_location, &mut out);
        push_nodes_folds(&sub.content, &mut out);
        j = j + 1;
    }
    push_nodes_folds(&t.content, &mut out);
    proof {
        assert(out@ =~= template_folds(*t));
    }
    out
}

/// A symbol of a template's outline: a named sub-template.
#[derive(Debug)]
pub struct TemplateSymbol {
    pub name: String,
    pub detail: String,
    pub selection_range: Location,
    pub range: Location,
}

/// The symbol of a sub-template: its name, `<template name=...>` as detail, the range of its
/// name, and the range from its opening tag to the end of its closing tag (or of its opening
/// tag).
pub open spec fn sub_template_symbol(d: TemplateDefinition, s: TemplateSymbol) -> bool {
    &&& s.name@ == d.name.name@
    &&& s.detail@ == "<template name="@ + debug_quoted(d.name.name@) + ">"@
    &&& s.selection_range == d.name.location
    &&& s.range == Location {
        start: d.tag_location.start.0.start,
        end: match d.tag_location.end {
            Some(e) => e.1.end,
            None => d.tag_location.start.1.end,
        },
    }
}

/// The sub-templates from the `i`-th on that have a name, in order.
pub open spec fn named_subs(s: Seq<TemplateDefinition>, i: int) -> Seq<TemplateDefinition>
    decreases s.len() - i,
{
    if i < 0 || i >= s.len() {
        Seq::empty()
    } else if s[i].name.name@.len() == 0 {
        named_subs(s, i + 1)
    } else {
        seq![s[i]] + named_subs(s, i + 1)
    }
}

/// The outline of a template: a symbol for each sub-template with a name, in order.
pub fn collect_wxml_symbol_list(t: &Template) -> (r: Vec<TemplateSymbol>)
    ensures
        r@.len() == named_subs(t.sub_templates@, 0).len(),
        forall|k: int| 0 <= k < r@.len() ==> sub_template_symbol(named_subs(t.sub_templates@, 0)[k], #[trigger] r@[k]),
{
    let mut out: Vec<TemplateSymbol> = Vec::new();
    let ghost mut done: Seq<TemplateDefinition> = Seq::empty();
    let mut i: usize = 0;
    while i < t.sub_templates.len()
        invariant
            i <= t.sub_templates@.len(),
            named_subs(t.sub_templates@, 0) == done + named_subs(t.sub_templates@, i as int),
            out@.len() == done.len(),
            forall|k: int| 0 <= k < out@.len() ==> sub_template_symbol(done[k], #[trigger] out@[k]),
        decreases t.sub_templates@.len() - i,
    {
        let sub = &t.sub_templates[i];
        if !sub.name.name.as_str().is_empty() {
            let mut detail = String::new();
            push_str(&mut detail, "<template name=");
            let q = debug_str(sub.name.name.as_str());
            push_str(&mut detail, q.as_str());
            push_str(&mut detail, ">");
            let end = match &sub.tag_location.end {
                Some(e) => e.1.end,
                None => sub.tag_location.start.1.end,
            };
            let mut name = String::new();
            push_str(&mut name, sub.name.name.as_str());
            proof {
                assert(detail@ =~= "<template name="@ + debug_quoted(sub.name.name@) + ">"@);
                assert(named_subs(t.sub_templates@, i as int) == seq![t.sub_templates@[i as int]] + named_subs(t.sub_templates@, i + 1));
                assert(done + named_subs(t.sub_templates@, i as int) =~= done.push(t.sub_templates@[i as int]) + named_subs(t.sub_templates@, i + 1));
                done = done.push(t.sub_templates@[i as int]);
            }
            out.push(TemplateSymbol {
                name,
                detail,
                selection_range: sub.name.location,
                range: Location { start: sub.tag_location.start.0.start, end },
            });
        }
        i = i + 1;
    }
    proof {
        assert(done + named_subs(t.sub_templates@, i as int) =~= done);
    }
    out
}

} // verus!
