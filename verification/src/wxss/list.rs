//! Generic containers of parsed items.

use vstd::prelude::*;
use crate::position::Location;

verus! {

/// A non-empty list of items: the first one and those after it.
#[derive(Debug)]
pub struct List<C> {
    first: Box<C>,
    rest: Vec<C>,
}

impl<C> View for List<C> {
    type V = Seq<C>;

    closed spec fn view(&self) -> Seq<C> {
        seq![*self.first] + self.rest@
    }
}

impl<C> List<C> {
    /// Wraps a non-empty vector.
    pub fn from_vec(items: Vec<C>) -> (r: List<C>)
        requires
            items@.len() > 0,
        ensures
            r@ == items@,
    {
        let mut rest = items;
        let first = Box::new(rest.remove(0));
        let r = List { first, rest };
        proof {
            assert(r@ =~= items@);
        }
        r
    }

    /// Each item lies structurally below the list that holds it.
    pub proof fn lemma_item_decreases(l: List<C>, i: int)
        requires
            0 <= i < l@.len(),
        ensures
            decreases_to!(l => l@[i]),
    {
        if i == 0 {
            assert(decreases_to!(l => l.first));
        } else {
            assert(l@[i] == l.rest@[i - 1]);
            assert(decreases_to!(l => l.rest));
            assert(decreases_to!(l.rest => l.rest@));
            assert(decreases_to!(l.rest@ => l.rest@[i - 1]));
        }
    }

    pub proof fn lemma_non_empty(&self)
        ensures
            self@.len() > 0,
    {
    }

    pub fn first(&self) -> (r: &C)
        ensures
            self@.len() > 0,
            *r == self@[0],
    {
        &*self.first
    }

    pub fn last(&self) -> (r: &C)
        ensures
            self@.len() > 0,
            *r == self@.last(),
    {
        if self.rest.len() == 0 {
            &*self.first
        } else {
            &self.rest[self.rest.len() - 1]
        }
    }

    pub fn push(&mut self, c: C)
        ensures
            final(self)@ == old(self)@.push(c),
    {
        self.rest.push(c);
        proof {
            assert(final(self)@ =~= old(self)@.push(c));
        }
    }

    pub fn len(&self) -> (r: usize)
        requires
            self@.len() <= usize::MAX,
        ensures
            r == self@.len(),
            r > 0,
    {
        self.rest.len() + 1
    }

    pub fn get(&self, i: usize) -> (r: &C)
        requires
            i < self@.len(),
        ensures
            *r == self@[i as int],
    {
        if i == 0 {
            &*self.first
        } else {
            &self.rest[i - 1]
        }
    }

    /// References to the items, in order.
    pub fn refs(&self) -> (r: Vec<&C>)
        ensures
            r@.len() == self@.len(),
            forall|i: int| 0 <= i < r@.len() ==> *r@[i] == self@[i],
    {
        let mut r: Vec<&C> = Vec::new();
        r.push(&*self.first);
        let mut i: usize = 0;
        while i < self.rest.len()
            invariant
                i <= self.rest@.len(),
                r@.len() == i + 1,
                *r@[0] == *self.first,
                forall|j: int| 0 < j <= i ==> *r@[j] == self.rest@[j - 1],
            decreases self.rest@.len() - i,
        {
            r.push(&self.rest[i]);
            i = i + 1;
        }
        r
    }
}

/// A non-empty sequence of items, each followed by an optional separator; only the last item
/// may lack its separator.
#[derive(Debug)]
pub struct Repeat<C, S> {
    items: Vec<(C, Option<S>)>,
}

impl<C, S> View for Repeat<C, S> {
    type V = Seq<(C, Option<S>)>;

    closed spec fn view(&self) -> Seq<(C, Option<S>)> {
        self.items@
    }
}

impl<C, S> Repeat<C, S> {
    #[verifier::type_invariant]
    spec fn non_empty(&self) -> bool {
        self.items@.len() > 0
    }

    /// Wraps a non-empty vector of items with their separators.
    pub fn from_vec(items: Vec<(C, Option<S>)>) -> (r: Repeat<C, S>)
        requires
            items@.len() > 0,
        ensures
            r@ == items@,
    {
        Repeat { items }
    }

    /// The items with their separators.
    pub fn as_vec(&self) -> (r: &Vec<(C, Option<S>)>)
        ensures
            r@ == self@,
            r@.len() > 0,
    {
        proof { use_type_invariant(self); }
        &self.items
    }

    /// The items without their separators.
    pub fn iter_values(&self) -> (r: Vec<&C>)
        ensures
            r@.len() == self@.len(),
            forall|i: int| 0 <= i < r@.len() ==> *r@[i] == self@[i].0,
    {
        let mut r: Vec<&C> = Vec::new();
        let mut i: usize = 0;
        while i < self.items.len()
            invariant
                i <= self.items@.len(),
                r@.len() == i,
                forall|j: int| 0 <= j < i ==> *r@[j] == self.items@[j].0,
            decreases self.items@.len() - i,
        {
            r.push(&self.items[i].0);
            i = i + 1;
        }
        r
    }

    /// The items with references to their separators.
    pub fn iter_items(&self) -> (r: Vec<(&C, Option<&S>)>)
        ensures
            r@.len() == self@.len(),
            forall|i: int| 0 <= i < r@.len() ==> *r@[i].0 == self@[i].0
                && (r@[i].1 is Some <==> self@[i].1 is Some)
                && (r@[i].1 is Some ==> *r@[i].1->0 == self@[i].1->0),
    {
        let mut r: Vec<(&C, Option<&S>)> = Vec::new();
        let mut i: usize = 0;
        while i < self.items.len()
            invariant
                i <= self.items@.len(),
                r@.len() == i,
                forall|j: int| 0 <= j < i ==> *r@[j].0 == self.items@[j].0
                    && (r@[j].1 is Some <==> self.items@[j].1 is Some)
                    && (r@[j].1 is Some ==> *r@[j].1->0 == self.items@[j].1->0),
            decreases self.items@.len() - i,
        {
            let item = &self.items[i];
            let sep = match &item.1 {
                Some(s) => Some(s),
                None => None,
            };
            r.push((&item.0, sep));
            i = i + 1;
        }
        r
    }
}

/// A value that may not have been recognized: either the tokens read in its place, or the value
/// with the tokens that trail it.
#[derive(Debug)]
pub enum MaybeUnknown<T> {
    Unknown(Vec<super::token::TokenTree>),
    Normal(T, Vec<super::token::TokenTree>),
}

impl<T> MaybeUnknown<T> {
    pub fn known(&self) -> (r: Option<&T>)
        ensures
            self is Unknown ==> r is None,
            self is Normal ==> r == Some(&self->Normal_0),
    {
        match self {
            MaybeUnknown::Unknown(_) => None,
            MaybeUnknown::Normal(t, _) => Some(t),
        }
    }
}

} // verus!
