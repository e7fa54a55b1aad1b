//! The walk over a file and the files that it imports, directly or not, depth first: each file
//! is entered once, however the imports loop, and a file is finished after the files that it
//! imports.

use vstd::prelude::*;
use crate::name_set::views;
use crate::text::str_eq;

verus! {

/// A file being walked: its name, the files it imports, and how many of them were looked at.
pub struct Frame {
    pub file: String,
    pub imports: Vec<String>,
    pub next: usize,
}

/// A depth-first walk over files that name one another. The caller asks for the next file to
/// load with `next_file`, and hands in what it imports with `enter`; a file that cannot be
/// loaded is simply not entered, and is then never finished.
pub struct ImportWalk {
    /// The files handed out, in the order of `next_file`.
    pub entered: Vec<String>,
    /// The files finished, each after the files that it imports.
    pub finished: Vec<String>,
    /// The files being walked, the innermost last.
    pub stack: Vec<Frame>,
    /// The file handed out last, until `enter` takes it.
    pub awaiting: Option<String>,
    /// The file to start with, until it is handed out.
    pub start: Option<String>,
}

/// Whether `v` holds `x`.
fn holds(v: &Vec<String>, x: &String) -> (r: bool)
    ensures
        r == views(v@).contains(x@),
{
    let mut i: usize = 0;
    while i < v.len()
        invariant
            i <= v@.len(),
            forall|j: int| 0 <= j < i ==> views(v@)[j] != x@,
        decreases v@.len() - i,
    {
        if str_eq(v[i].as_str(), x.as_str()) {
            proof {
                assert(views(v@)[i as int] == x@);
            }
            return true;
        }
        i = i + 1;
    }
    proof {
        if views(v@).contains(x@) {
            let k = choose|k: int| 0 <= k < views(v@).len() && views(v@)[k] == x@;
            assert(views(v@)[k] != x@);
        }
    }
    false
}

/// What is left to do on the files being walked: one step per import not looked at yet, and
/// one to finish each file.
pub open spec fn work_left(s: Seq<Frame>) -> nat
    decreases s.len(),
{
    if s.len() == 0 {
        0
    } else {
        work_left(s.drop_last()) + (s.last().imports@.len() - s.last().next) as nat + 1
    }
}

impl ImportWalk {
    /// No file is entered twice, and the files finished, being walked or awaiting their
    /// imports were entered.
    pub open spec fn wf(&self) -> bool {
        &&& views(self.entered@).no_duplicates()
        &&& forall|i: int| 0 <= i < self.finished@.len() ==> views(self.entered@).contains(#[trigger] self.finished@[i]@)
        &&& forall|i: int| 0 <= i < self.stack@.len() ==> views(self.entered@).contains(#[trigger] self.stack@[i].file@)
        &&& forall|i: int| 0 <= i < self.stack@.len() ==> #[trigger] self.stack@[i].next <= self.stack@[i].imports@.len()
        &&& self.awaiting matches Some(a) ==> views(self.entered@).contains(a@)
        &&& self.start is Some ==> self.entered@.len() == 0 && self.stack@.len() == 0 && self.awaiting is None
    }

    /// A walk that starts at `start`.
    pub fn new(start: String) -> (r: ImportWalk)
        ensures
            r.wf(),
            r.entered@.len() == 0,
            r.finished@.len() == 0,
            r.start == Some(start),
    {
        let r = ImportWalk { entered: Vec::new(), finished: Vec::new(), stack: Vec::new(), awaiting: None, start: Some(start) };
        proof {
            assert(views(r.entered@) =~= Seq::<Seq<char>>::empty());
        }
        r
    }

    /// Hands in the files that the file handed out last imports; it is walked into them. When
    /// no file awaits, nothing changes.
    pub fn enter(&mut self, imports: Vec<String>)
        requires
            old(self).wf(),
        ensures
            final(self).wf(),
            final(self).entered == old(self).entered,
            final(self).finished == old(self).finished,
            final(self).start == old(self).start,
            final(self).awaiting is None,
            old(self).awaiting matches Some(a) ==> final(self).stack@ == old(self).stack@.push(
                Frame { file: a, imports, next: 0 },
            ),
            old(self).awaiting is None ==> final(self).stack@ == old(self).stack@,
    {
        match self.awaiting.take() {
            Some(a) => {
                self.stack.push(Frame { file: a, imports, next: 0 });
            },
            None => {},
        }
    }

    /// The next file to load: the start first, then, depth first, the first import of the
    /// innermost file being walked that was not entered yet; a file whose imports were all
    /// looked at is finished on the way. The file handed out is entered and awaits its
    /// imports; a file handed out earlier that still awaits them could not be loaded, and is
    /// left out: it is never finished. `None` when the walk is over.
    pub fn next_file(&mut self) -> (r: Option<String>)
        requires
            old(self).wf(),
        ensures
            final(self).wf(),
            r matches Some(f) ==> !views(old(self).entered@).contains(f@)
                && views(final(self).entered@) == views(old(self).entered@).push(f@)
                && final(self).awaiting == Some(f),
            r is None ==> final(self).entered == old(self).entered && final(self).stack@.len() == 0
                && final(self).awaiting is None,
            old(self).start matches Some(s) ==> r == Some(s),
            extends_names(views(final(self).finished@), views(old(self).finished@)),
    {
        if let Some(s) = self.start.take() {
            let f = s.clone();
            let a = s.clone();
            self.entered.push(s);
            self.awaiting = Some(a);
            proof {
                assert(views(old(self).entered@) =~= Seq::<Seq<char>>::empty());
                assert(views(self.entered@) =~= seq![f@]);
                assert(views(self.entered@)[0] == f@);
            }
            return Some(f);
        }
        self.awaiting = None;
        let ghost f0 = views(self.finished@);
        loop
            invariant
                self.wf(),
                self.awaiting is None,
                self.start is None,
                old(self).start is None,
                self.entered == old(self).entered,
                f0 == views(old(self).finished@),
                extends_names(views(self.finished@), f0),
            decreases work_left(self.stack@),
        {
            let ghost before = self.stack@;
            let fr = match self.stack.pop() {
                None => return None,
                Some(fr) => fr,
            };
            proof {
                assert(before == self.stack@.push(fr));
                assert(before.drop_last() =~= self.stack@);
                assert(fr == before[before.len() - 1]);
                assert(forall|i: int| 0 <= i < self.stack@.len() ==> self.stack@[i] == before[i]);
            }
            let ghost rest = self.stack@;
            if fr.next < fr.imports.len() {
                let imp = fr.imports[fr.next].clone();
                let Frame { file, imports, next } = fr;
                self.stack.push(Frame { file, imports, next: next + 1 });
                proof {
                    assert(self.stack@.drop_last() =~= rest);
                }
                if !holds(&self.entered, &imp) {
                    let f = imp.clone();
                    let a = imp.clone();
                    let ghost e0 = views(self.entered@);
                    self.entered.push(imp);
                    self.awaiting = Some(a);
                    proof {
                        assert(views(self.entered@) =~= e0.push(f@));
                        lemma_push_keeps_contains(e0, f@);
                    }
                    return Some(f);
                }
            } else {
                let ghost fin = views(self.finished@);
                self.finished.push(fr.file);
                proof {
                    assert(views(self.finished@) =~= fin.push(fr.file@));
                }
            }
        }
    }
}

proof fn lemma_push_keeps_contains(s: Seq<Seq<char>>, x: Seq<char>)
    ensures
        forall|y: Seq<char>| s.contains(y) ==> #[trigger] s.push(x).contains(y),
        s.push(x).contains(x),
{
    assert forall|y: Seq<char>| s.contains(y) implies #[trigger] s.push(x).contains(y) by {
        let k = choose|k: int| 0 <= k < s.len() && s[k] == y;
        assert(s.push(x)[k] == y);
    }
    assert(s.push(x)[s.len() as int] == x);
}

/// `a` starts with `b`.
pub open spec fn extends_names(a: Seq<Seq<char>>, b: Seq<Seq<char>>) -> bool {
    &&& b.len() <= a.len()
    &&& forall|i: int| 0 <= i < b.len() ==> #[trigger] a[i] == b[i]
}

} // verus!
