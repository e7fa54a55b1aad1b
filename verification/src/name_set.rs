//! Lists of distinct names, in the order in which each name first came.

use vstd::prelude::*;
use crate::text::str_eq;

verus! {

/// The characters of each string.
pub open spec fn views(v: Seq<String>) -> Seq<Seq<char>> {
    v.map_values(|s: String| s@)
}

/// `acc` followed by the names of `xs` that neither `acc` nor an earlier name of `xs` holds.
pub open spec fn add_names(acc: Seq<Seq<char>>, xs: Seq<Seq<char>>) -> Seq<Seq<char>>
    decreases xs.len(),
{
    if xs.len() == 0 {
        acc
    } else {
        let a = add_names(acc, xs.drop_last());
        if a.contains(xs.last()) {
            a
        } else {
            a.push(xs.last())
        }
    }
}

/// Adding names to a list keeps it free of repeats, and the list then holds exactly the names
/// that it held or that were added.
pub proof fn lemma_add_names(acc: Seq<Seq<char>>, xs: Seq<Seq<char>>)
    requires
        acc.no_duplicates(),
    ensures
        add_names(acc, xs).no_duplicates(),
        forall|n: Seq<char>| #[trigger] add_names(acc, xs).contains(n) <==> acc.contains(n) || xs.contains(n),
    decreases xs.len(),
{
    if xs.len() > 0 {
        lemma_add_names(acc, xs.drop_last());
        let a = add_names(acc, xs.drop_last());
        assert forall|n: Seq<char>| #[trigger] add_names(acc, xs).contains(n) <==> acc.contains(n) || xs.contains(n) by {
            if xs.contains(n) && !xs.drop_last().contains(n) {
                let k = choose|k: int| 0 <= k < xs.len() && xs[k] == n;
                if k < xs.len() - 1 {
                    assert(xs.drop_last()[k] == n);
                }
                assert(n == xs.last());
            }
            if xs.drop_last().contains(n) {
                let k = choose|k: int| 0 <= k < xs.len() - 1 && xs.drop_last()[k] == n;
                assert(xs[k] == n);
            }
            if !a.contains(xs.last()) && a.push(xs.last()).contains(n) && n != xs.last() {
                let k = choose|k: int| 0 <= k < a.len() + 1 && a.push(xs.last())[k] == n;
                assert(a[k] == n);
            }
            if a.contains(n) && !a.contains(xs.last()) {
                let k = choose|k: int| 0 <= k < a.len() && a[k] == n;
                assert(a.push(xs.last())[k] == n);
            }
            if !a.contains(xs.last()) {
                assert(a.push(xs.last())[a.len() as int] == xs.last());
            }
            assert(xs[xs.len() - 1] == xs.last());
        }
    }
}

/// Adds a name to the list unless the list already holds it.
pub fn add_name(names: &mut Vec<String>, x: &String)
    ensures
        views(final(names)@) == add_names(views(old(names)@), seq![x@]),
{
    let ghost o = views(names@);
    proof {
        assert(seq![x@].drop_last() =~= Seq::<Seq<char>>::empty());
        assert(add_names(o, seq![x@].drop_last()) == o);
        assert(seq![x@].last() == x@);
    }
    let mut i: usize = 0;
    while i < names.len()
        invariant
            i <= names@.len(),
            views(names@) == o,
            forall|j: int| 0 <= j < i ==> o[j] != x@,
        decreases names@.len() - i,
    {
        if str_eq(names[i].as_str(), x.as_str()) {
            proof {
                assert(o[i as int] == x@);
                assert(o.contains(x@));
                assert(seq![x@].drop_last() =~= Seq::<Seq<char>>::empty());
                assert(add_names(o, seq![x@].drop_last()) == o);
                assert(seq![x@].last() == x@);
            }
            return;
        }
        i = i + 1;
    }
    names.push(x.clone());
    proof {
        assert(!o.contains(x@));
        assert(views(names@) =~= o.push(x@));
    }
}

/// Adds the names to the list, each unless the list already holds it.
pub fn add_all_names(names: &mut Vec<String>, xs: &Vec<String>)
    ensures
        views(final(names)@) == add_names(views(old(names)@), views(xs@)),
{
    let ghost o = views(names@);
    let mut i: usize = 0;
    proof {
        assert(views(xs@).take(0) =~= Seq::<Seq<char>>::empty());
    }
    while i < xs.len()
        invariant
            i <= xs@.len(),
            views(names@) == add_names(o, views(xs@).take(i as int)),
        decreases xs@.len() - i,
    {
        let ghost before = views(names@);
        add_name(names, &xs[i]);
        proof {
            let x = xs@[i as int]@;
            assert(views(xs@).take(i + 1).drop_last() =~= views(xs@).take(i as int));
            assert(views(xs@).take(i + 1).last() == x);
            assert(seq![x].drop_last() =~= Seq::<Seq<char>>::empty());
            assert(add_names(before, seq![x].drop_last()) == before);
            assert(seq![x].last() == x);
        }
        i = i + 1;
    }
    proof {
        assert(views(xs@).take(i as int) =~= views(xs@));
    }
}

} // verus!
