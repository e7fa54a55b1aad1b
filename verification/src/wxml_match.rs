//! The elements of a template, the static IDs and class names they carry, and those that a
//! tag name, an ID or a class selects.

use vstd::prelude::*;
use crate::name_set::{add_all_names, add_names, views};
use crate::position::Location;
use crate::text::{spec_trim, str_chars, str_eq, string_push, trim};
use crate::wxml_utils::{collect_scope_uses, slot_value_refs_of, tag_start, template_scope_uses, ScopeKind, ScopeUse, WxmlTokenRef};
use crate::wxss_utils::SelectorKind;
use crate::wxml::{Attribute, ClassAttribute, StaticAttribute, Element, ElementKind, Expr, Node, Template, TemplateDefinition, Value, holds_element, is_child_element};
use crate::position::Location as Loc;
use crate::backend_config::first_index;

verus! {

/// The elements among the nodes from the `i`-th on, each before those of its children.
pub open spec fn nodes_elements<'a>(ns: Seq<Node>, i: int) -> Seq<&'a Element>
    decreases ns, ns.len() - i,
{
    if i < 0 || i >= ns.len() {
        Seq::empty()
    } else {
        node_elements(&ns[i]) + nodes_elements(ns, i + 1)
    }
}

pub open spec fn node_elements<'a>(n: &'a Node) -> Seq<&'a Element>
    decreases n, 0int,
{
    match n {
        Node::Element(e) => seq![e] + children_elements(e),
        _ => Seq::empty(),
    }
}

/// The elements under an element: in the children of an ordinary element, a `block` or a
/// `wx:for`, and in each branch of a `wx:if` and then its `wx:else`.
pub open spec fn children_elements<'a>(e: &'a Element) -> Seq<&'a Element>
    decreases e, 0int,
{
    match &e.kind {
        ElementKind::Normal { children, .. } => nodes_elements(children@, 0),
        ElementKind::Pure { children, .. } => nodes_elements(children@, 0),
        ElementKind::For { children, .. } => nodes_elements(children@, 0),
        ElementKind::If { branches, else_branch } => branch_elements(branches@, 0) + match else_branch {
            Some(x) => nodes_elements(x.1@, 0),
            None => Seq::empty(),
        },
        _ => Seq::empty(),
    }
}

pub open spec fn branch_elements<'a>(bs: Seq<(Location, Value, Vec<Node>)>, i: int) -> Seq<&'a Element>
    decreases bs, bs.len() - i,
{
    if i < 0 || i >= bs.len() {
        Seq::empty()
    } else {
        nodes_elements(bs[i].2@, 0) + branch_elements(bs, i + 1)
    }
}

pub open spec fn subs_elements<'a>(s: Seq<TemplateDefinition>, i: int) -> Seq<&'a Element>
    decreases s.len() - i,
{
    if i < 0 || i >= s.len() {
        Seq::empty()
    } else {
        nodes_elements(s[i].content@, 0) + subs_elements(s, i + 1)
    }
}

/// The elements of a template: those of its sub-templates, then those of its content.
pub open spec fn elements_of_template<'a>(t: &'a Template) -> Seq<&'a Element> {
    subs_elements(t.sub_templates@, 0) + nodes_elements(t.content@, 0)
}

fn push_nodes_elements<'a>(ns: &'a Vec<Node>, out: &mut Vec<&'a Element>)
    ensures
        final(out)@ == old(out)@ + nodes_elements(ns@, 0),
    decreases ns@, 1int,
{
    let ghost o = out@;
    let mut i: usize = 0;
    while i < ns.len()
        invariant
            i <= ns@.len(),
            o + nodes_elements(ns@, 0) == out@ + nodes_elements(ns@, i as int),
        decreases ns@.len() - i,
    {
        proof {
            assert(nodes_elements(ns@, i as int) == node_elements(&ns@[i as int]) + nodes_elements(ns@, i + 1));
        }
        let ghost before = out@;
        match &ns[i] {
            Node::Element(e) => {
                out.push(e);
                push_children_elements(e, out);
            },
            _ => {},
        }
        proof {
            assert(out@ =~= before + node_elements(&ns@[i as int]));
        }
        i = i + 1;
    }
    proof {
        assert(out@ =~= o + nodes_elements(ns@, 0));
    }
}

fn push_children_elements<'a>(e: &'a Element, out: &mut Vec<&'a Element>)
    ensures
        final(out)@ == old(out)@ + children_elements(e),
    decreases e, 0int,
{
    let ghost o = out@;
    match &e.kind {
        ElementKind::Normal { children, .. } => push_nodes_elements(children, out),
        ElementKind::Pure { children, .. } => push_nodes_elements(children, out),
        ElementKind::For { children, .. } => push_nodes_elements(children, out),
        ElementKind::If { branches, else_branch } => {
            push_branch_elements(branches, out);
            match else_branch {
                Some(x) => push_nodes_elements(&x.1, out),
                None => {},
            }
        },
        _ => {},
    }
    proof {
        assert(out@ =~= o + children_elements(e));
    }
}

fn push_branch_elements<'a>(bs: &'a Vec<(Location, Value, Vec<Node>)>, out: &mut Vec<&'a Element>)
    ensures
        final(out)@ == old(out)@ + branch_elements(bs@, 0),
    decreases bs@, 0int,
{
    let ghost o = out@;
    let mut i: usize = 0;
    while i < bs.len()
        invariant
            i <= bs@.len(),
            o + branch_elements(bs@, 0) == out@ + branch_elements(bs@, i as int),
        decreases bs@.len() - i,
    {
        proof {
            assert(decreases_to!(bs@ => bs@[i as int]));
        }
        push_nodes_elements(&bs[i].2, out);
        i = i + 1;
    }
    proof {
        assert(out@ =~= o + branch_elements(bs@, 0));
    }
}

/// The elements of a template, in the order of `elements_of_template`.
pub fn template_elements<'a>(t: &'a Template) -> (r: Vec<&'a Element>)
    ensures
        r@ == elements_of_template(t),
{
    let mut out: Vec<&'a Element> = Vec::new();
    let mut j: usize = 0;
    while j < t.sub_templates.len()
        invariant
            j <= t.sub_templates@.len(),
            subs_elements(t.sub_templates@, 0) == out@ + subs_elements(t.sub_templates@, j as int),
        decreases t.sub_templates@.len() - j,
    {
        push_nodes_elements(&t.sub_templates[j].content, &mut out);
        j = j + 1;
    }
    push_nodes_elements(&t.content, &mut out);
    proof {
        assert(out@ =~= elements_of_template(t));
    }
    out
}


/// The walk `s` lists the element `d`.
pub open spec fn lists<'a>(s: Seq<&'a Element>, d: Element) -> bool {
    exists|k: int| 0 <= k < s.len() && *s[k] == d
}

pub proof fn lemma_lists_concat<'a>(a: Seq<&'a Element>, b: Seq<&'a Element>, d: Element)
    ensures
        lists(a + b, d) <==> (lists(a, d) || lists(b, d)),
{
    if lists(a, d) {
        let k = choose|k: int| 0 <= k < a.len() && *a[k] == d;
        assert((a + b)[k] == a[k]);
    }
    if lists(b, d) {
        let k = choose|k: int| 0 <= k < b.len() && *b[k] == d;
        assert((a + b)[a.len() + k] == b[k]);
    }
    if lists(a + b, d) {
        let k = choose|k: int| 0 <= k < (a + b).len() && *(a + b)[k] == d;
        if k < a.len() {
            assert(a[k] == (a + b)[k]);
        } else {
            assert(b[k - a.len()] == (a + b)[k]);
        }
    }
}

/// An element that nodes hold is in their walk.
proof fn lemma_node_listed<'a>(ns: Seq<Node>, i: int, j: int)
    requires
        0 <= i <= j < ns.len(),
        ns[j] is Element,
    ensures
        lists(nodes_elements(ns, i), ns[j]->Element_0),
    decreases j - i,
{
    let rest = nodes_elements(ns, i + 1);
    let head = node_elements(&ns[i]);
    assert(nodes_elements(ns, i) == head + rest);
    if i == j {
        assert(*head[0] == ns[j]->Element_0);
        lemma_lists_concat(head, rest, ns[j]->Element_0);
    } else {
        lemma_node_listed(ns, i + 1, j);
        lemma_lists_concat(head, rest, ns[j]->Element_0);
    }
}

/// An element that a branch of a `wx:if` holds is in the walk of the branches.
proof fn lemma_branch_listed<'a>(bs: Seq<(Location, Value, Vec<Node>)>, i: int, k: int, d: Element)
    requires
        0 <= i <= k < bs.len(),
        holds_element(bs[k].2@, d),
    ensures
        lists(branch_elements(bs, i), d),
    decreases k - i,
{
    let rest = branch_elements(bs, i + 1);
    let head = nodes_elements(bs[i].2@, 0);
    assert(branch_elements(bs, i) == head + rest);
    if i == k {
        let j = choose|j: int| 0 <= j < bs[k].2@.len() && bs[k].2@[j] == Node::Element(d);
        lemma_node_listed(bs[k].2@, 0, j);
    } else {
        lemma_branch_listed(bs, i + 1, k, d);
    }
    lemma_lists_concat(head, rest, d);
}

/// A child element of `e` is in the walk under `e`.
proof fn lemma_child_listed<'a>(e: &'a Element, d: Element)
    requires
        is_child_element(*e, d),
    ensures
        lists(children_elements(e), d),
{
    match &e.kind {
        ElementKind::Normal { children, .. } => {
            let j = choose|j: int| 0 <= j < children@.len() && children@[j] == Node::Element(d);
            lemma_node_listed(children@, 0, j);
        },
        ElementKind::Pure { children, .. } => {
            let j = choose|j: int| 0 <= j < children@.len() && children@[j] == Node::Element(d);
            lemma_node_listed(children@, 0, j);
        },
        ElementKind::For { children, .. } => {
            let j = choose|j: int| 0 <= j < children@.len() && children@[j] == Node::Element(d);
            lemma_node_listed(children@, 0, j);
        },
        ElementKind::If { branches, else_branch } => {
            let tail: Seq<&'a Element> = match else_branch {
                Some(x) => nodes_elements(x.1@, 0),
                None => Seq::empty(),
            };
            if exists|k: int| 0 <= k < branches@.len() && holds_element(#[trigger] branches@[k].2@, d) {
                let k = choose|k: int| 0 <= k < branches@.len() && holds_element(#[trigger] branches@[k].2@, d);
                lemma_branch_listed(branches@, 0, k, d);
            } else {
                let x = else_branch->0;
                let j = choose|j: int| 0 <= j < x.1@.len() && x.1@[j] == Node::Element(d);
                lemma_node_listed(x.1@, 0, j);
            }
            lemma_lists_concat(branch_elements(branches@, 0), tail, d);
        },
        _ => {},
    }
}

/// The walk of nodes is closed under children: a child of an element it lists is listed too.
proof fn lemma_nodes_closed<'a>(ns: Seq<Node>, i: int, c: Element, d: Element)
    requires
        lists(nodes_elements(ns, i), c),
        is_child_element(c, d),
    ensures
        lists(nodes_elements(ns, i), d),
    decreases ns, ns.len() - i,
{
    if 0 <= i < ns.len() {
        let rest = nodes_elements(ns, i + 1);
        let head = node_elements(&ns[i]);
        assert(nodes_elements(ns, i) == head + rest);
        lemma_lists_concat(head, rest, c);
        if lists(rest, c) {
            lemma_nodes_closed(ns, i + 1, c, d);
        } else {
            match &ns[i] {
                Node::Element(e) => {
                    assert(head == seq![e] + children_elements(e));
                    lemma_lists_concat(seq![e], children_elements(e), c);
                    lemma_lists_concat(seq![e], children_elements(e), d);
                    if lists(seq![e], c) {
                        assert(*e == c);
                        lemma_child_listed(e, d);
                    } else {
                        lemma_children_closed(e, c, d);
                    }
                },
                _ => {},
            }
        }
        lemma_lists_concat(head, rest, d);
    }
}

proof fn lemma_children_closed<'a>(e: &'a Element, c: Element, d: Element)
    requires
        lists(children_elements(e), c),
        is_child_element(c, d),
    ensures
        lists(children_elements(e), d),
    decreases e, 0int,
{
    match &e.kind {
        ElementKind::Normal { children, .. } => lemma_nodes_closed(children@, 0, c, d),
        ElementKind::Pure { children, .. } => lemma_nodes_closed(children@, 0, c, d),
        ElementKind::For { children, .. } => lemma_nodes_closed(children@, 0, c, d),
        ElementKind::If { branches, else_branch } => {
            let tail: Seq<&'a Element> = match else_branch {
                Some(x) => nodes_elements(x.1@, 0),
                None => Seq::empty(),
            };
            let bw = branch_elements(branches@, 0);
            lemma_lists_concat(bw, tail, c);
            lemma_lists_concat(bw, tail, d);
            if lists(bw, c) {
                lemma_branch_closed(branches@, 0, c, d);
            } else {
                match else_branch {
                    Some(x) => lemma_nodes_closed(x.1@, 0, c, d),
                    None => {},
                }
            }
        },
        _ => {},
    }
}

proof fn lemma_branch_closed<'a>(bs: Seq<(Location, Value, Vec<Node>)>, i: int, c: Element, d: Element)
    requires
        lists(branch_elements(bs, i), c),
        is_child_element(c, d),
    ensures
        lists(branch_elements(bs, i), d),
    decreases bs, bs.len() - i,
{
    if 0 <= i < bs.len() {
        let rest = branch_elements(bs, i + 1);
        let head = nodes_elements(bs[i].2@, 0);
        assert(branch_elements(bs, i) == head + rest);
        lemma_lists_concat(head, rest, c);
        lemma_lists_concat(head, rest, d);
        if lists(rest, c) {
            lemma_branch_closed(bs, i + 1, c, d);
        } else {
            assert(decreases_to!(bs => bs[i]));
            lemma_nodes_closed(bs[i].2@, 0, c, d);
        }
    }
}

proof fn lemma_subs_closed<'a>(s: Seq<TemplateDefinition>, i: int, c: Element, d: Element)
    requires
        lists(subs_elements(s, i), c),
        is_child_element(c, d),
    ensures
        lists(subs_elements(s, i), d),
    decreases s.len() - i,
{
    if 0 <= i < s.len() {
        let rest = subs_elements(s, i + 1);
        let head = nodes_elements(s[i].content@, 0);
        assert(subs_elements(s, i) == head + rest);
        lemma_lists_concat(head, rest, c);
        lemma_lists_concat(head, rest, d);
        if lists(rest, c) {
            lemma_subs_closed(s, i + 1, c, d);
        } else {
            lemma_nodes_closed(s[i].content@, 0, c, d);
        }
    }
}

proof fn lemma_sub_listed<'a>(s: Seq<TemplateDefinition>, i: int, k: int, d: Element)
    requires
        0 <= i <= k < s.len(),
        holds_element(s[k].content@, d),
    ensures
        lists(subs_elements(s, i), d),
    decreases k - i,
{
    let rest = subs_elements(s, i + 1);
    let head = nodes_elements(s[i].content@, 0);
    assert(subs_elements(s, i) == head + rest);
    if i == k {
        let j = choose|j: int| 0 <= j < s[k].content@.len() && s[k].content@[j] == Node::Element(d);
        lemma_node_listed(s[k].content@, 0, j);
    } else {
        lemma_sub_listed(s, i + 1, k, d);
    }
    lemma_lists_concat(head, rest, d);
}

/// The element walk of a template reaches every element: each element at the top of its content
/// or of a sub-template is in it, and so is each element standing among the child nodes of an
/// element in it, whatever that element's kind (an ordinary element, a `block`, a `wx:for`, a
/// branch of a `wx:if` or its `wx:else`). So every element at any depth is in the walk.
pub proof fn lemma_template_walk_reaches_all<'a>(t: &'a Template, c: Element, d: Element)
    ensures
        holds_element(t.content@, d) ==> lists(elements_of_template(t), d),
        (exists|k: int| 0 <= k < t.sub_templates@.len() && holds_element(#[trigger] t.sub_templates@[k].content@, d))
            ==> lists(elements_of_template(t), d),
        lists(elements_of_template(t), c) && is_child_element(c, d) ==> lists(elements_of_template(t), d),
{
    let subs = subs_elements(t.sub_templates@, 0);
    let top = nodes_elements(t.content@, 0);
    lemma_lists_concat(subs, top, c);
    lemma_lists_concat(subs, top, d);
    if holds_element(t.content@, d) {
        let j = choose|j: int| 0 <= j < t.content@.len() && t.content@[j] == Node::Element(d);
        lemma_node_listed(t.content@, 0, j);
    }
    if exists|k: int| 0 <= k < t.sub_templates@.len() && holds_element(#[trigger] t.sub_templates@[k].content@, d) {
        let k = choose|k: int| 0 <= k < t.sub_templates@.len() && holds_element(#[trigger] t.sub_templates@[k].content@, d);
        lemma_sub_listed(t.sub_templates@, 0, k, d);
    }
    if lists(elements_of_template(t), c) && is_child_element(c, d) {
        if lists(subs, c) {
            lemma_subs_closed(t.sub_templates@, 0, c, d);
        } else {
            lemma_nodes_closed(t.content@, 0, c, d);
        }
    }
}

/// ASCII whitespace, as `str::split_ascii_whitespace` splits at it.
pub open spec fn is_ascii_ws(c: char) -> bool {
    c == ' ' || c == '\t' || c == '\n' || c == '\x0C' || c == '\r'
}

/// The word `s[a..b]`, unless it is empty, or it starts the string where the string does not
/// start after a space (`left`), or it ends the string where the string does not end before
/// one (`right`).
pub open spec fn word_if(s: Seq<char>, a: int, b: int, left: bool, right: bool) -> Seq<Seq<char>> {
    if a < b && (left || a != 0) && (right || b != s.len()) {
        seq![s.subrange(a, b)]
    } else {
        Seq::empty()
    }
}

/// The class names of `s` from position `i` on, the current word having started at `start`:
/// the runs between ASCII whitespace, as `word_if` keeps them.
pub open spec fn class_words_from(s: Seq<char>, i: int, start: int, left: bool, right: bool) -> Seq<Seq<char>>
    decreases s.len() - i,
{
    if i >= s.len() {
        word_if(s, start, s.len() as int, left, right)
    } else if is_ascii_ws(s[i]) {
        word_if(s, start, i, left, right) + class_words_from(s, i + 1, i + 1, left, right)
    } else {
        class_words_from(s, i + 1, start, left, right)
    }
}

pub open spec fn with_location(names: Seq<Seq<char>>, loc: Location) -> Seq<(Seq<char>, Location)> {
    names.map_values(|n: Seq<char>| (n, loc))
}

/// The class names in the string literals of a binding joined by `+`: a literal on the left of
/// a `+` keeps no name that touches its right end, and one on the right keeps none that
/// touches its left end (nor its right end, unless the whole binding's left end is free).
pub open spec fn expr_class_names(e: &Expr, left: bool, right: bool) -> Seq<(Seq<char>, Location)>
    decreases e,
{
    match e {
        Expr::Binary { left: l, right: r, is_plus, .. } => if *is_plus {
            expr_class_names(&**l, left, false) + expr_class_names(&**r, false, left)
        } else {
            Seq::empty()
        },
        Expr::LitStr { value, location } => with_location(class_words_from(value@, 0, 0, left, right), *location),
        _ => Seq::empty(),
    }
}

/// The static class names of an ordinary element's `class` attribute, each with the range of
/// the string it stands in.
pub open spec fn static_class_names(e: &Element) -> Seq<(Seq<char>, Location)> {
    match &e.kind {
        ElementKind::Normal { class, .. } => match class {
            ClassAttribute::String(_, v) => match v {
                Value::Static { value, location } => with_location(class_words_from(value@, 0, 0, true, true), *location),
                Value::Dynamic { expression, .. } => expr_class_names(&**expression, true, true),
            },
            _ => Seq::empty(),
        },
        _ => Seq::empty(),
    }
}

fn push_class_words(s: &String, left: bool, right: bool, loc: Location, out: &mut Vec<(String, Location)>)
    ensures
        views_with_locations(final(out)@) == views_with_locations(old(out)@) + with_location(class_words_from(s@, 0, 0, left, right), loc),
{
    let ghost o = views_with_locations(out@);
    let chars = str_chars(s.as_str());
    let n = chars.len();
    let mut i: usize = 0;
    let mut start: usize = 0;
    let mut word = String::new();
    proof {
        assert(s@.subrange(0, 0) =~= Seq::<char>::empty());
    }
    while i < n
        invariant
            chars@ == s@,
            n == s@.len(),
            start <= i <= n,
            word@ == s@.subrange(start as int, i as int),
            o + with_location(class_words_from(s@, 0, 0, left, right), loc)
                == views_with_locations(out@) + with_location(class_words_from(s@, i as int, start as int, left, right), loc),
        decreases n - i,
    {
        let c = chars[i];
        if c == ' ' || c == '\t' || c == '\n' || c == '\x0C' || c == '\r' {
            let ghost before = views_with_locations(out@);
            if start < i && (left || start != 0) && (right || i != n) {
                out.push((word, loc));
            }
            proof {
                assert(views_with_locations(out@) =~= before + with_location(word_if(s@, start as int, i as int, left, right), loc));
                assert(with_location(class_words_from(s@, i as int, start as int, left, right), loc) =~= with_location(
                    word_if(s@, start as int, i as int, left, right),
                    loc,
                ) + with_location(class_words_from(s@, i + 1, i + 1, left, right), loc));
                assert(s@.subrange(i + 1, i + 1) =~= Seq::<char>::empty());
            }
            word = String::new();
            start = i + 1;
        } else {
            proof {
                assert(s@.subrange(start as int, i + 1) =~= s@.subrange(start as int, i as int).push(c));
            }
            string_push(&mut word, c);
        }
        i = i + 1;
    }
    let ghost before = views_with_locations(out@);
    if start < n && (left || start != 0) && right {
        out.push((word, loc));
    }
    proof {
        assert(views_with_locations(out@) =~= before + with_location(word_if(s@, start as int, n as int, left, right), loc));
    }
}

pub open spec fn views_with_locations(v: Seq<(String, Location)>) -> Seq<(Seq<char>, Location)> {
    v.map_values(|x: (String, Location)| (x.0@, x.1))
}

fn push_expr_class_names(e: &Expr, left: bool, right: bool, out: &mut Vec<(String, Location)>)
    ensures
        views_with_locations(final(out)@) == views_with_locations(old(out)@) + expr_class_names(e, left, right),
    decreases e,
{
    let ghost o = views_with_locations(out@);
    match e {
        Expr::Binary { left: l, right: r, is_plus, .. } => {
            if *is_plus {
                push_expr_class_names(l, left, false, out);
                push_expr_class_names(r, false, left, out);
            }
        },
        Expr::LitStr { value, location } => push_class_words(value, left, right, *location, out),
        _ => {},
    }
    proof {
        assert(views_with_locations(out@) =~= o + expr_class_names(e, left, right));
    }
}

/// The static class names of an element, as `static_class_names` states.
pub fn element_static_class_names(e: &Element) -> (r: Vec<(String, Location)>)
    ensures
        views_with_locations(r@) == static_class_names(e),
{
    let mut out: Vec<(String, Location)> = Vec::new();
    match &e.kind {
        ElementKind::Normal { class, .. } => match class {
            ClassAttribute::String(_, v) => match v {
                Value::Static { value, location } => push_class_words(value, true, true, *location, &mut out),
                Value::Dynamic { expression, .. } => push_expr_class_names(expression, true, true, &mut out),
            },
            _ => {},
        },
        _ => {},
    }
    proof {
        assert(views_with_locations(out@) =~= static_class_names(e));
    }
    out
}


/// The ranges of the static class names that equal `name`.
pub open spec fn class_name_ranges(names: Seq<(Seq<char>, Location)>, name: Seq<char>) -> Seq<Location>
    decreases names.len(),
{
    if names.len() == 0 {
        Seq::empty()
    } else {
        class_name_ranges(names.drop_last(), name) + if names.last().0 == name {
            seq![names.last().1]
        } else {
            Seq::empty()
        }
    }
}

/// What a search looks for in the elements of a template: a tag name, a static ID, a static
/// class name, a slot value of a `slot`, or the target of a template use.
#[derive(Debug, Clone, Copy, PartialEq, Eq, Structural)]
pub enum ElementQuery {
    TagName,
    Id,
    Class,
    SlotValue,
    TemplateRef,
}

pub open spec fn value_named(name: Seq<char>) -> spec_fn(Attribute) -> bool {
    |a: Attribute| a.name.name@ == name
}

/// What of an element a search finds: the tag name of an ordinary element with that name; the
/// static ID of an ordinary element whose trimmed value is the name; the ranges of its static
/// class names equal to the name; the name of the first value of a `slot` with that name; the
/// static target of a template use with that name.
pub open spec fn element_match(e: &Element, kind: ElementQuery, name: Seq<char>) -> Seq<Location> {
    match kind {
        ElementQuery::TagName => match &e.kind {
            ElementKind::Normal { tag_name, .. } => if tag_name.name@ == name {
                seq![tag_name.location]
            } else {
                Seq::empty()
            },
            _ => Seq::empty(),
        },
        ElementQuery::Id => match &e.kind {
            ElementKind::Normal { common, .. } => match &common.id {
                Some((_, Value::Static { value, location })) => if spec_trim(value@) == name {
                    seq![*location]
                } else {
                    Seq::empty()
                },
                _ => Seq::empty(),
            },
            _ => Seq::empty(),
        },
        ElementQuery::Class => class_name_ranges(static_class_names(e), name),
        ElementQuery::SlotValue => match &e.kind {
            ElementKind::Slot { values, .. } => match first_index(values@, value_named(name), 0) {
                Some(k) => seq![values@[k].name.location],
                None => Seq::empty(),
            },
            _ => Seq::empty(),
        },
        ElementQuery::TemplateRef => match &e.kind {
            ElementKind::TemplateRef { target, .. } => match &target.1 {
                Value::Static { value, location } => if value@ == name {
                    seq![*location]
                } else {
                    Seq::empty()
                },
                _ => Seq::empty(),
            },
            _ => Seq::empty(),
        },
    }
}

pub open spec fn elements_match(els: Seq<&Element>, kind: ElementQuery, name: Seq<char>) -> Seq<Location>
    decreases els.len(),
{
    if els.len() == 0 {
        Seq::empty()
    } else {
        elements_match(els.drop_last(), kind, name) + element_match(els.last(), kind, name)
    }
}

fn push_element_match(e: &Element, kind: ElementQuery, name: &str, out: &mut Vec<Location>)
    ensures
        final(out)@ == old(out)@ + element_match(e, kind, name@),
{
    let ghost o = out@;
    match kind {
        ElementQuery::TagName => match &e.kind {
            ElementKind::Normal { tag_name, .. } => if str_eq(tag_name.name.as_str(), name) {
                out.push(tag_name.location);
            },
            _ => {},
        },
        ElementQuery::Id => match &e.kind {
            ElementKind::Normal { common, .. } => match &common.id {
                Some((_, Value::Static { value, location })) => {
                    let t = trim(value.as_str());
                    if str_eq(t.as_str(), name) {
                        out.push(*location);
                    }
                },
                _ => {},
            },
            _ => {},
        },
        ElementQuery::SlotValue => match &e.kind {
            ElementKind::Slot { values, .. } => {
                let ghost p = value_named(name@);
                let mut k: usize = 0;
                let mut found: Option<usize> = None;
                while k < values.len() && found.is_none()
                    invariant
                        k <= values@.len(),
                        p == value_named(name@),
                        match found {
                            None => first_index(values@, p, 0) == first_index(values@, p, k as int),
                            Some(f) => first_index(values@, p, 0) == Some(f as int) && f < values@.len(),
                        },
                    decreases values@.len() - k, if found is None { 1int } else { 0int },
                {
                    if str_eq(values[k].name.name.as_str(), name) {
                        found = Some(k);
                    } else {
                        k = k + 1;
                    }
                }
                match found {
                    Some(f) => out.push(values[f].name.location),
                    None => {},
                }
            },
            _ => {},
        },
        ElementQuery::TemplateRef => match &e.kind {
            ElementKind::TemplateRef { target, .. } => match &target.1 {
                Value::Static { value, location } => if str_eq(value.as_str(), name) {
                    out.push(*location);
                },
                _ => {},
            },
            _ => {},
        },
        ElementQuery::Class => {
            let names = element_static_class_names(e);
            let mut i: usize = 0;
            proof {
                assert(views_with_locations(names@).take(0) =~= Seq::<(Seq<char>, Location)>::empty());
            }
            while i < names.len()
                invariant
                    i <= names@.len(),
                    views_with_locations(names@) == static_class_names(e),
                    out@ == o + class_name_ranges(views_with_locations(names@).take(i as int), name@),
                decreases names@.len() - i,
            {
                proof {
                    assert(views_with_locations(names@).take(i + 1).drop_last() =~= views_with_locations(names@).take(i as int));
                    assert(views_with_locations(names@).take(i + 1).last() == (names@[i as int].0@, names@[i as int].1));
                }
                let ghost before = out@;
                if str_eq(names[i].0.as_str(), name) {
                    out.push(names[i].1);
                }
                proof {
                    assert(out@ =~= o + class_name_ranges(views_with_locations(names@).take(i + 1), name@));
                }
                i = i + 1;
            }
            proof {
                assert(views_with_locations(names@).take(i as int) =~= views_with_locations(names@));
            }
        },
    }
    proof {
        assert(out@ =~= o + element_match(e, kind, name@));
    }
}

pub proof fn lemma_contains_concat<T>(a: Seq<T>, b: Seq<T>, x: T)
    ensures
        (a.contains(x) || b.contains(x)) ==> (a + b).contains(x),
{
    if a.contains(x) {
        let k = choose|k: int| 0 <= k < a.len() && a[k] == x;
        assert((a + b)[k] == x);
    } else if b.contains(x) {
        let k = choose|k: int| 0 <= k < b.len() && b[k] == x;
        assert((a + b)[a.len() + k] == x);
    }
}

proof fn lemma_matches_of_listed<'a>(els: Seq<&'a Element>, c: Element, kind: ElementQuery, name: Seq<char>, loc: Location)
    requires
        lists(els, c),
        element_match(&c, kind, name).contains(loc),
    ensures
        elements_match(els, kind, name).contains(loc),
    decreases els.len(),
{
    let k = choose|k: int| 0 <= k < els.len() && *els[k] == c;
    let init = els.drop_last();
    if k == els.len() - 1 {
        lemma_contains_concat(elements_match(init, kind, name), element_match(els.last(), kind, name), loc);
    } else {
        assert(init[k] == els[k]);
        lemma_matches_of_listed(init, c, kind, name, loc);
        lemma_contains_concat(elements_match(init, kind, name), element_match(els.last(), kind, name), loc);
    }
}

proof fn lemma_class_range_found(names: Seq<(Seq<char>, Location)>, name: Seq<char>, loc: Location)
    requires
        names.contains((name, loc)),
    ensures
        class_name_ranges(names, name).contains(loc),
    decreases names.len(),
{
    let init = names.drop_last();
    let tail: Seq<Location> = if names.last().0 == name { seq![names.last().1] } else { Seq::empty() };
    if names.last() == (name, loc) {
        assert(tail[0] == loc);
    } else {
        let k = choose|k: int| 0 <= k < names.len() && names[k] == (name, loc);
        assert(init[k] == names[k]);
        lemma_class_range_found(init, name, loc);
    }
    lemma_contains_concat(class_name_ranges(init, name), tail, loc);
}

/// A search finds what every element of the template's walk holds (and the walk reaches every
/// element, see `lemma_template_walk_reaches_all`): each range that such an element yields for
/// the query is among the results; for a class query, that is the range of each static class
/// name of the element equal to the name searched.
pub proof fn lemma_search_finds_every_element<'a>(t: &'a Template, c: Element, kind: ElementQuery, name: Seq<char>, loc: Location)
    requires
        lists(elements_of_template(t), c),
    ensures
        element_match(&c, kind, name).contains(loc) ==> elements_match(elements_of_template(t), kind, name).contains(loc),
        kind == ElementQuery::Class && static_class_names(&c).contains((name, loc))
            ==> elements_match(elements_of_template(t), kind, name).contains(loc),
{
    if kind == ElementQuery::Class && static_class_names(&c).contains((name, loc)) {
        lemma_class_range_found(static_class_names(&c), name, loc);
    }
    if element_match(&c, kind, name).contains(loc) {
        lemma_matches_of_listed(elements_of_template(t), c, kind, name, loc);
    }
}

/// The ranges in a template that a search finds, element by element in the order of
/// `elements_of_template`.
pub fn find_elements_matching(t: &Template, kind: ElementQuery, name: &str) -> (r: Vec<Location>)
    ensures
        r@ == elements_match(elements_of_template(t), kind, name@),
{
    let els = template_elements(t);
    let mut out: Vec<Location> = Vec::new();
    let mut i: usize = 0;
    proof {
        assert(els@.take(0) =~= Seq::<&Element>::empty());
    }
    while i < els.len()
        invariant
            i <= els@.len(),
            els@ == elements_of_template(t),
            out@ == elements_match(els@.take(i as int), kind, name@),
        decreases els@.len() - i,
    {
        proof {
            assert(els@.take(i + 1).drop_last() =~= els@.take(i as int));
        }
        push_element_match(els[i], kind, name, &mut out);
        i = i + 1;
    }
    proof {
        assert(els@.take(i as int) =~= els@);
    }
    out
}


/// The static ID of an ordinary element, as written.
pub open spec fn static_id(e: &Element) -> Seq<Seq<char>> {
    match &e.kind {
        ElementKind::Normal { common, .. } => match &common.id {
            Some((_, Value::Static { value, .. })) => seq![value@],
            _ => Seq::empty(),
        },
        _ => Seq::empty(),
    }
}

pub open spec fn elements_static_ids(els: Seq<&Element>) -> Seq<Seq<char>>
    decreases els.len(),
{
    if els.len() == 0 {
        Seq::empty()
    } else {
        elements_static_ids(els.drop_last()) + static_id(els.last())
    }
}

pub open spec fn elements_class_names(els: Seq<&Element>) -> Seq<Seq<char>>
    decreases els.len(),
{
    if els.len() == 0 {
        Seq::empty()
    } else {
        elements_class_names(els.drop_last()) + static_class_names(els.last()).map_values(|x: (Seq<char>, Location)| x.0)
    }
}

/// Adds the static IDs of a template's elements to `names`, each unless `names` holds it.
pub fn collect_template_ids(t: &Template, names: &mut Vec<String>)
    ensures
        views(final(names)@) == add_names(views(old(names)@), elements_static_ids(elements_of_template(t))),
{
    let els = template_elements(t);
    let mut flat: Vec<String> = Vec::new();
    let mut i: usize = 0;
    proof {
        assert(els@.take(0) =~= Seq::<&Element>::empty());
        assert(views(flat@) =~= elements_static_ids(els@.take(0)));
    }
    while i < els.len()
        invariant
            i <= els@.len(),
            views(flat@) == elements_static_ids(els@.take(i as int)),
        decreases els@.len() - i,
    {
        let e = els[i];
        let ghost before = views(flat@);
        match &e.kind {
            ElementKind::Normal { common, .. } => match &common.id {
                Some((_, Value::Static { value, .. })) => flat.push(value.clone()),
                _ => {},
            },
            _ => {},
        }
        proof {
            assert(els@.take(i + 1).drop_last() =~= els@.take(i as int));
            assert(views(flat@) =~= before + static_id(e));
        }
        i = i + 1;
    }
    proof {
        assert(els@.take(i as int) =~= els@);
    }
    add_all_names(names, &flat);
}

/// Adds the static class names of a template's elements to `names`, each unless `names` holds
/// it.
pub fn collect_template_class_names(t: &Template, names: &mut Vec<String>)
    ensures
        views(final(names)@) == add_names(views(old(names)@), elements_class_names(elements_of_template(t))),
{
    let els = template_elements(t);
    let mut flat: Vec<String> = Vec::new();
    let mut i: usize = 0;
    proof {
        assert(els@.take(0) =~= Seq::<&Element>::empty());
        assert(views(flat@) =~= elements_class_names(els@.take(0)));
    }
    while i < els.len()
        invariant
            i <= els@.len(),
            views(flat@) == elements_class_names(els@.take(i as int)),
        decreases els@.len() - i,
    {
        let e = els[i];
        let found = element_static_class_names(e);
        let ghost before = views(flat@);
        let mut j: usize = 0;
        while j < found.len()
            invariant
                j <= found@.len(),
                views_with_locations(found@) == static_class_names(e),
                views(flat@) == before + views_with_locations(found@).take(j as int).map_values(|x: (Seq<char>, Location)| x.0),
            decreases found@.len() - j,
        {
            let ghost b2 = views(flat@);
            flat.push(found[j].0.clone());
            proof {
                assert(views_with_locations(found@).take(j + 1) =~= views_with_locations(found@).take(j as int).push(
                    (found@[j as int].0@, found@[j as int].1),
                ));
                assert(views(flat@) =~= b2.push(found@[j as int].0@));
                assert(views(flat@) =~= before + views_with_locations(found@).take(j + 1).map_values(|x: (Seq<char>, Location)| x.0));
            }
            j = j + 1;
        }
        proof {
            assert(views_with_locations(found@).take(j as int) =~= views_with_locations(found@));
            assert(els@.take(i + 1).drop_last() =~= els@.take(i as int));
            assert(views(flat@) =~= elements_class_names(els@.take(i + 1)));
        }
        i = i + 1;
    }
    proof {
        assert(els@.take(i as int) =~= els@);
    }
    add_all_names(names, &flat);
}


/// Whether a scope name refers to the slot value `attr` that `child` takes.
pub open spec fn refers_to_slot_value(k: ScopeKind, attr: StaticAttribute, child: &Element) -> bool {
    match k {
        ScopeKind::SlotValue(x, xe) => x.name.location == attr.name.location && x.name.name@ == attr.name.name@
            && tag_start(xe) == tag_start(child),
        _ => false,
    }
}

/// The ranges of the uses, from the `i`-th on, that refer to the slot value `attr` of `child`.
pub open spec fn slot_value_uses(uses: Seq<ScopeUse>, attr: StaticAttribute, child: &Element, i: int) -> Seq<Location>
    decreases uses.len() - i,
{
    if i < 0 || i >= uses.len() {
        Seq::empty()
    } else {
        (if refers_to_slot_value(uses[i].1, attr, child) { seq![uses[i].0] } else { Seq::empty() })
            + slot_value_uses(uses, attr, child, i + 1)
    }
}

pub open spec fn static_attr_named(name: Seq<char>) -> spec_fn(StaticAttribute) -> bool {
    |a: StaticAttribute| a.name.name@ == name
}

/// For a child element that takes the slot value `key` (its first such reference): the range
/// of that reference, then those of the uses of it.
pub open spec fn child_slot_value_usages(uses: Seq<ScopeUse>, n: &Node, key: Seq<char>) -> Seq<Location> {
    match n {
        Node::Element(child) => match slot_value_refs_of(child) {
            Some(refs) => match first_index(refs, static_attr_named(key), 0) {
                Some(k) => seq![refs[k].name.location] + slot_value_uses(uses, refs[k], child, 0),
                None => Seq::empty(),
            },
            None => Seq::empty(),
        },
        _ => Seq::empty(),
    }
}

pub open spec fn children_slot_value_usages(uses: Seq<ScopeUse>, ns: Seq<Node>, key: Seq<char>) -> Seq<Location>
    decreases ns.len(),
{
    if ns.len() == 0 {
        Seq::empty()
    } else {
        children_slot_value_usages(uses, ns.drop_last(), key) + child_slot_value_usages(uses, &ns.last(), key)
    }
}

/// The slot value usages under each ordinary element with the tag name.
pub open spec fn elements_slot_value_usages(uses: Seq<ScopeUse>, els: Seq<&Element>, tag: Seq<char>, key: Seq<char>) -> Seq<Location>
    decreases els.len(),
{
    if els.len() == 0 {
        Seq::empty()
    } else {
        elements_slot_value_usages(uses, els.drop_last(), tag, key) + match &els.last().kind {
            ElementKind::Normal { tag_name, children, .. } => if tag_name.name@ == tag {
                children_slot_value_usages(uses, children@, key)
            } else {
                Seq::empty()
            },
            _ => Seq::empty(),
        }
    }
}

fn push_slot_value_uses(uses: &Vec<ScopeUse>, attr: &StaticAttribute, child: &Element, out: &mut Vec<Location>)
    ensures
        final(out)@ == old(out)@ + slot_value_uses(uses@, *attr, child, 0),
{
    let ghost o = out@;
    let mut i: usize = 0;
    while i < uses.len()
        invariant
            i <= uses@.len(),
            o + slot_value_uses(uses@, *attr, child, 0) == out@ + slot_value_uses(uses@, *attr, child, i as int),
        decreases uses@.len() - i,
    {
        let ghost before = out@;
        let hit = match uses[i].1 {
            ScopeKind::SlotValue(x, xe) => x.name.location == attr.name.location && str_eq(x.name.name.as_str(), attr.name.name.as_str())
                && xe.tag_location.start.0.start == child.tag_location.start.0.start,
            _ => false,
        };
        if hit {
            out.push(uses[i].0);
        }
        proof {
            assert(out@ + slot_value_uses(uses@, *attr, child, i + 1) =~= before + slot_value_uses(uses@, *attr, child, i as int));
        }
        i = i + 1;
    }
    proof {
        assert(out@ + slot_value_uses(uses@, *attr, child, i as int) =~= out@);
    }
}

fn first_static_attr_named<'a>(refs: &'a Vec<StaticAttribute>, key: &str) -> (r: Option<&'a StaticAttribute>)
    ensures
        match first_index(refs@, static_attr_named(key@), 0) {
            Some(k) => r == Some(&refs@[k]),
            None => r is None,
        },
{
    let ghost p = static_attr_named(key@);
    let mut i: usize = 0;
    while i < refs.len()
        invariant
            i <= refs@.len(),
            p == static_attr_named(key@),
            first_index(refs@, p, 0) == first_index(refs@, p, i as int),
        decreases refs@.len() - i,
    {
        if str_eq(refs[i].name.name.as_str(), key) {
            return Some(&refs[i]);
        }
        i = i + 1;
    }
    None
}

fn push_children_slot_value_usages(uses: &Vec<ScopeUse>, ns: &Vec<Node>, key: &str, out: &mut Vec<Location>)
    ensures
        final(out)@ == old(out)@ + children_slot_value_usages(uses@, ns@, key@),
{
    let ghost o = out@;
    let mut i: usize = 0;
    proof {
        assert(ns@.take(0) =~= Seq::<Node>::empty());
    }
    while i < ns.len()
        invariant
            i <= ns@.len(),
            out@ == o + children_slot_value_usages(uses@, ns@.take(i as int), key@),
        decreases ns@.len() - i,
    {
        let ghost before = out@;
        match &ns[i] {
            Node::Element(child) => {
                let refs = match &child.kind {
                    ElementKind::Normal { common, .. } => Some(&common.slot_value_refs),
                    ElementKind::Slot { common, .. } => Some(&common.slot_value_refs),
                    ElementKind::Pure { slot_value_refs, .. } => Some(slot_value_refs),
                    _ => None,
                };
                match refs {
                    Some(refs) => match first_static_attr_named(refs, key) {
                        Some(attr) => {
                            out.push(attr.name.location);
                            push_slot_value_uses(uses, attr, child, out);
                        },
                        None => {},
                    },
                    None => {},
                }
            },
            _ => {},
        }
        proof {
            assert(ns@.take(i + 1).drop_last() =~= ns@.take(i as int));
            assert(ns@.take(i + 1).last() == ns@[i as int]);
            assert(out@ =~= before + child_slot_value_usages(uses@, &ns@[i as int], key@));
        }
        i = i + 1;
    }
    proof {
        assert(ns@.take(i as int) =~= ns@);
    }
}

/// Where a template uses the slot values named `key` of a custom component whose tag name is
/// `tag`: under each ordinary element with that tag name, for each child that takes the slot
/// value, the reference and then each use of it in the child's subtree.
pub fn component_slot_value_usages(t: &Template, tag: &str, key: &str) -> (r: Vec<Location>)
    ensures
        r@ == elements_slot_value_usages(template_scope_uses(t), elements_of_template(t), tag@, key@),
{
    let uses = collect_scope_uses(t);
    let els = template_elements(t);
    let mut out: Vec<Location> = Vec::new();
    let mut i: usize = 0;
    proof {
        assert(els@.take(0) =~= Seq::<&Element>::empty());
    }
    while i < els.len()
        invariant
            i <= els@.len(),
            uses@ == template_scope_uses(t),
            els@ == elements_of_template(t),
            out@ == elements_slot_value_usages(uses@, els@.take(i as int), tag@, key@),
        decreases els@.len() - i,
    {
        let ghost before = out@;
        match &els[i].kind {
            ElementKind::Normal { tag_name, children, .. } => {
                if str_eq(tag_name.name.as_str(), tag) {
                    push_children_slot_value_usages(&uses, children, key, &mut out);
                }
            },
            _ => {},
        }
        proof {
            assert(els@.take(i + 1).drop_last() =~= els@.take(i as int));
            assert(els@.take(i + 1).last() == els@[i as int]);
            assert(out@ =~= elements_slot_value_usages(uses@, els@.take(i + 1), tag@, key@));
        }
        i = i + 1;
    }
    proof {
        assert(els@.take(i as int) =~= els@);
    }
    out
}

/// What a search for the references of a template token looks for, besides its declaration.
#[derive(Debug)]
pub struct ReferencePlan {
    /// The uses of the token in the template itself (all tokens but the paths of imports,
    /// includes and scripts).
    pub local: bool,
    /// The selectors, elements and style rules that a tag name, a static ID or a static class
    /// name refers to.
    pub selector: Option<(SelectorKind, String)>,
    /// The slot value of a custom component: the component's tag name and the value's name.
    pub slot_value: Option<(String, String)>,
    /// The uses of a template: whether the token is a use itself, and the template's name.
    pub template_name: Option<(bool, String)>,
}

pub open spec fn plan_selector(t: WxmlTokenRef) -> Option<(SelectorKind, Seq<char>)> {
    match t {
        WxmlTokenRef::TagName(n) => Some((SelectorKind::TagName, n.name@)),
        WxmlTokenRef::StaticId(_, id) => Some((SelectorKind::Id, id@)),
        WxmlTokenRef::StaticClassName(_, c, _) => Some((SelectorKind::Class, c@)),
        _ => None,
    }
}

/// The slot value that a token names or uses, with the element that provides it.
pub open spec fn plan_slot_key(t: WxmlTokenRef) -> Option<(Seq<char>, Element)> {
    match t {
        WxmlTokenRef::ScopeRef(_, ScopeKind::SlotValue(attr, parent)) => Some((attr.name.name@, *parent)),
        WxmlTokenRef::SlotValueScope(_, key, parent) => Some((key.name@, *parent)),
        WxmlTokenRef::SlotValueRef(key, _, parent) => Some((key.name@, *parent)),
        WxmlTokenRef::SlotValueRefAndScope(key, _, parent) => Some((key.name@, *parent)),
        _ => None,
    }
}

pub open spec fn plan_slot_value(t: WxmlTokenRef) -> Option<(Seq<char>, Seq<char>)> {
    match plan_slot_key(t) {
        Some((key, parent)) => match parent.kind {
            ElementKind::Normal { tag_name, .. } => Some((tag_name.name@, key)),
            _ => None,
        },
        None => None,
    }
}

pub open spec fn plan_template(t: WxmlTokenRef) -> Option<(bool, Seq<char>)> {
    match t {
        WxmlTokenRef::TemplateName(n) => Some((false, n.name@)),
        WxmlTokenRef::TemplateRef(is, _) => Some((true, is@)),
        _ => None,
    }
}

/// Which searches the references of a token take.
pub fn reference_plan(token: &WxmlTokenRef) -> (r: ReferencePlan)
    ensures
        r.local == !(*token is Src || *token is ScriptSrc),
        match plan_selector(*token) {
            None => r.selector is None,
            Some(x) => (r.selector matches Some(y) && y.0 == x.0 && y.1@ == x.1),
        },
        match plan_slot_value(*token) {
            None => r.slot_value is None,
            Some(x) => (r.slot_value matches Some(y) && y.0@ == x.0 && y.1@ == x.1),
        },
        match plan_template(*token) {
            None => r.template_name is None,
            Some(x) => (r.template_name matches Some(y) && y.0 == x.0 && y.1@ == x.1),
        },
{
    let selector = match token {
        WxmlTokenRef::TagName(n) => Some((SelectorKind::TagName, n.name.clone())),
        WxmlTokenRef::StaticId(_, id) => Some((SelectorKind::Id, (*id).clone())),
        WxmlTokenRef::StaticClassName(_, c, _) => Some((SelectorKind::Class, (*c).clone())),
        _ => None,
    };
    let slot_key: Option<(&String, &Element)> = match token {
        WxmlTokenRef::ScopeRef(_, ScopeKind::SlotValue(attr, parent)) => Some((&attr.name.name, *parent)),
        WxmlTokenRef::SlotValueScope(_, key, parent) => Some((&key.name, *parent)),
        WxmlTokenRef::SlotValueRef(key, _, parent) => Some((&key.name, *parent)),
        WxmlTokenRef::SlotValueRefAndScope(key, _, parent) => Some((&key.name, *parent)),
        _ => None,
    };
    let slot_value = match slot_key {
        Some((key, parent)) => match &parent.kind {
            ElementKind::Normal { tag_name, .. } => Some((tag_name.name.clone(), key.clone())),
            _ => None,
        },
        None => None,
    };
    let template_name = match token {
        WxmlTokenRef::TemplateName(n) => Some((false, n.name.clone())),
        WxmlTokenRef::TemplateRef(is, _) => Some((true, (*is).clone())),
        _ => None,
    };
    let local = match token {
        WxmlTokenRef::Src(_) | WxmlTokenRef::ScriptSrc(_) => false,
        _ => true,
    };
    ReferencePlan { local, selector, slot_value, template_name }
}

/// The last template definition named `name`.
pub open spec fn last_definition(defs: Seq<TemplateDefinition>, name: Seq<char>) -> Option<Loc>
    decreases defs.len(),
{
    if defs.len() == 0 {
        None
    } else if defs.last().name.name@ == name {
        Some(defs.last().name.location)
    } else {
        last_definition(defs.drop_last(), name)
    }
}

/// The range of the name of the last template that `t` defines under the name `name`, which
/// is the one that a use of that name gets.
pub fn find_template_definition(t: &Template, name: &str) -> (r: Option<Loc>)
    ensures
        r == last_definition(t.sub_templates@, name@),
{
    let defs = &t.sub_templates;
    let mut i = defs.len();
    proof {
        assert(defs@.take(i as int) =~= defs@);
    }
    while i > 0
        invariant
            i <= defs@.len(),
            defs@ == t.sub_templates@,
            last_definition(defs@, name@) == last_definition(defs@.take(i as int), name@),
        decreases i,
    {
        proof {
            assert(defs@.take(i as int).drop_last() =~= defs@.take(i - 1));
            assert(defs@.take(i as int).last() == defs@[i - 1]);
        }
        if str_eq(defs[i - 1].name.name.as_str(), name) {
            proof {
                let tk = defs@.take(i as int);
                assert(tk.last() == defs@[i - 1]);
                assert(tk.last().name.name@ == name@);
                assert(last_definition(tk, name@) == Some(tk.last().name.location));
            }
            return Some(defs[i - 1].name.location);
        }
        i = i - 1;
    }
    proof {
        assert(defs@.take(0) =~= Seq::<TemplateDefinition>::empty());
    }
    None
}

/// Of the results of looking a template name up in each import, in import order, the last one
/// that found it: the index of that import and the range found.
pub open spec fn last_found(found: Seq<Option<Loc>>) -> Option<(usize, Loc)>
    decreases found.len(),
{
    if found.len() == 0 {
        None
    } else if found.last() is Some {
        Some(((found.len() - 1) as usize, found.last()->0))
    } else {
        last_found(found.drop_last())
    }
}

/// Which import defines a template that a page uses: of the results of looking the name up in
/// each import, in import order, the last import that has it wins.
pub fn pick_imported_definition(found: &Vec<Option<Loc>>) -> (r: Option<(usize, Loc)>)
    ensures
        r == last_found(found@),
{
    let mut i = found.len();
    proof {
        assert(found@.take(i as int) =~= found@);
    }
    while i > 0
        invariant
            i <= found@.len(),
            last_found(found@) == last_found(found@.take(i as int)),
        decreases i,
    {
        proof {
            assert(found@.take(i as int).drop_last() =~= found@.take(i - 1));
            assert(found@.take(i as int).last() == found@[i - 1]);
        }
        match found[i - 1] {
            Some(loc) => return Some((i - 1, loc)),
            None => {},
        }
        i = i - 1;
    }
    None
}

} // verus!
