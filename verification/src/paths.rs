//! Paths as sequences of components, and the Unix-style relative paths that style sheets and
//! templates use to refer to one another.

use vstd::prelude::*;
use crate::text::{push_str, str_chars, str_eq, string_push};

verus! {

/// A path: whether it starts at the file system root, and its other components in order. A
/// component is a name, `..`, or `.` when the path starts with it.
#[derive(Debug)]
pub struct UnixPath {
    pub absolute: bool,
    pub parts: Vec<String>,
}

/// Why a path cannot be formed.
#[derive(Debug, Clone, Copy, PartialEq, Eq, Structural)]
pub enum PathError {
    /// The target does not lie under the base.
    NotUnderBase,
    /// The relative path leaves the directory that it must stay in.
    InvalidRelativePath,
}

impl UnixPath {
    pub open spec fn spec_parts(&self) -> Seq<Seq<char>> {
        self.parts@.map_values(|s: String| s@)
    }

    /// A well-formed path has no empty component: components are names, `.` and `..`, never
    /// the empty piece between two slashes.
    pub open spec fn wf(&self) -> bool {
        parts_nonempty(self.spec_parts())
    }
}

pub open spec fn parts_nonempty(parts: Seq<Seq<char>>) -> bool {
    forall|i: int| 0 <= i < parts.len() ==> #[trigger] parts[i].len() > 0
}

/// Whether `p` starts with all components of `prefix`.
pub open spec fn starts_with(p_abs: bool, p: Seq<Seq<char>>, q_abs: bool, q: Seq<Seq<char>>) -> bool {
    &&& p_abs == q_abs
    &&& q.len() <= p.len()
    &&& forall|i: int| 0 <= i < q.len() ==> p[i] == q[i]
}

/// The pieces of `s` between slashes, as `str::split('/')` gives them.
pub open spec fn split_slash(s: Seq<char>) -> Seq<Seq<char>>
    decreases s.len(),
{
    if s.len() == 0 {
        seq![Seq::empty()]
    } else {
        let p = split_slash(s.drop_last());
        if s.last() == '/' {
            p.push(Seq::empty())
        } else {
            p.update(p.len() - 1, p.last().push(s.last()))
        }
    }
}

/// The pieces joined with slashes between them.
pub open spec fn join_slash(parts: Seq<Seq<char>>) -> Seq<char>
    decreases parts.len(),
{
    if parts.len() == 0 {
        Seq::empty()
    } else if parts.len() == 1 {
        parts[0]
    } else {
        join_slash(parts.drop_last()) + seq!['/'] + parts.last()
    }
}

/// The components after following one piece of a relative path: `.` stays, `..` goes up one
/// component (if there is one), an empty piece adds nothing, and a name goes down into it.
pub open spec fn step_piece(parts: Seq<Seq<char>>, piece: Seq<char>) -> Seq<Seq<char>> {
    if piece == seq!['.'] {
        parts
    } else if piece == seq!['.', '.'] {
        if parts.len() > 0 { parts.drop_last() } else { parts }
    } else if piece.len() == 0 {
        parts
    } else {
        parts.push(piece)
    }
}

/// The components after following `pieces` from `i` on from `parts`, or `None` as soon as a step
/// leaves the directory `limit`.
pub open spec fn walk_pieces(
    abs: bool,
    parts: Seq<Seq<char>>,
    pieces: Seq<Seq<char>>,
    i: int,
    limit_abs: bool,
    limit: Seq<Seq<char>>,
) -> Option<Seq<Seq<char>>>
    decreases pieces.len() - i,
{
    if i < 0 || i >= pieces.len() {
        Some(parts)
    } else {
        let next = step_piece(parts, pieces[i]);
        if !starts_with(abs, next, limit_abs, limit) {
            None
        } else {
            walk_pieces(abs, next, pieces, i + 1, limit_abs, limit)
        }
    }
}

/// Following pieces of a path adds no empty component.
proof fn lemma_walk_keeps_nonempty(
    abs: bool,
    parts: Seq<Seq<char>>,
    pieces: Seq<Seq<char>>,
    i: int,
    limit_abs: bool,
    limit: Seq<Seq<char>>,
)
    requires
        parts_nonempty(parts),
    ensures
        walk_pieces(abs, parts, pieces, i, limit_abs, limit) matches Some(q) ==> parts_nonempty(q),
    decreases pieces.len() - i,
{
    if 0 <= i < pieces.len() {
        let next = step_piece(parts, pieces[i]);
        assert forall|j: int| 0 <= j < next.len() implies #[trigger] next[j].len() > 0 by {
            if j < parts.len() {
                assert(next[j] == parts[j]);
            }
        }
        lemma_walk_keeps_nonempty(abs, next, pieces, i + 1, limit_abs, limit);
    }
}

/// Copies a path.
pub fn copy_path(p: &UnixPath) -> (r: UnixPath)
    ensures
        r.absolute == p.absolute,
        r.spec_parts() == p.spec_parts(),
{
    let mut parts: Vec<String> = Vec::new();
    let mut i: usize = 0;
    while i < p.parts.len()
        invariant
            i <= p.parts@.len(),
            parts@.len() == i,
            forall|j: int| 0 <= j < i ==> parts@[j]@ == p.parts@[j]@,
        decreases p.parts@.len() - i,
    {
        parts.push(p.parts[i].clone());
        i = i + 1;
    }
    let r = UnixPath { absolute: p.absolute, parts };
    proof {
        assert(r.spec_parts() =~= p.spec_parts());
    }
    r
}

/// Whether `p` starts with all components of `prefix` (`Path::starts_with`).
pub fn path_starts_with(p: &UnixPath, prefix: &UnixPath) -> (r: bool)
    ensures
        r == starts_with(p.absolute, p.spec_parts(), prefix.absolute, prefix.spec_parts()),
{
    if p.absolute != prefix.absolute || prefix.parts.len() > p.parts.len() {
        return false;
    }
    let mut i: usize = 0;
    while i < prefix.parts.len()
        invariant
            prefix.parts@.len() <= p.parts@.len(),
            i <= prefix.parts@.len(),
            forall|j: int| 0 <= j < i ==> p.parts@[j]@ == prefix.parts@[j]@,
        decreases prefix.parts@.len() - i,
    {
        proof {
            assert(p.spec_parts()[i as int] == p.parts@[i as int]@);
            assert(prefix.spec_parts()[i as int] == prefix.parts@[i as int]@);
        }
        if !str_eq(p.parts[i].as_str(), prefix.parts[i].as_str()) {
            return false;
        }
        i = i + 1;
    }
    proof {
        assert forall|j: int| 0 <= j < prefix.spec_parts().len() implies p.spec_parts()[j] == prefix.spec_parts()[j] by {
            assert(p.spec_parts()[j] == p.parts@[j]@);
            assert(prefix.spec_parts()[j] == prefix.parts@[j]@);
        }
    }
    true
}

/// The path of `target` relative to `base`, its components joined with `/`; an error when
/// `target` does not lie under `base`.
pub fn unix_rel_path(base: &UnixPath, target: &UnixPath) -> (r: Result<String, PathError>)
    ensures
        starts_with(target.absolute, target.spec_parts(), base.absolute, base.spec_parts())
            ==> r is Ok && r->Ok_0@ == join_slash(
            target.spec_parts().skip(base.spec_parts().len() as int),
        ),
        !starts_with(target.absolute, target.spec_parts(), base.absolute, base.spec_parts())
            ==> r == Err::<String, PathError>(PathError::NotUnderBase),
{
    if !path_starts_with(target, base) {
        return Err(PathError::NotUnderBase);
    }
    let ghost rest = target.spec_parts().skip(base.spec_parts().len() as int);
    let mut out = String::new();
    let n = base.parts.len();
    let mut i: usize = n;
    proof {
        assert(rest.take(0) =~= Seq::<Seq<char>>::empty());
    }
    while i < target.parts.len()
        invariant
            n <= i <= target.parts@.len(),
            n == base.parts@.len(),
            rest == target.spec_parts().skip(n as int),
            out@ == join_slash(rest.take(i - n)),
        decreases target.parts@.len() - i,
    {
        proof {
            assert(rest.take(i + 1 - n).drop_last() =~= rest.take(i - n));
            assert(rest[i - n] == target.parts@[i as int]@);
        }
        if i > n {
            string_push(&mut out, '/');
        }
        push_str(&mut out, target.parts[i].as_str());
        proof {
            if i > n {
                assert(out@ =~= join_slash(rest.take(i - n)) + seq!['/'] + rest[i - n]);
            } else {
                assert(out@ =~= rest[0]);
            }
        }
        i = i + 1;
    }
    proof {
        assert(rest.take(i - n) =~= rest);
    }
    Ok(out)
}

/// The pieces of `s` between slashes.
pub fn split_slashes(s: &str) -> (r: Vec<String>)
    ensures
        r@.map_values(|x: String| x@) == split_slash(s@),
{
    let chars = str_chars(s);
    let mut done: Vec<String> = Vec::new();
    let mut cur = String::new();
    let mut i: usize = 0;
    proof {
        assert(chars@.take(0) =~= Seq::<char>::empty());
    }
    while i < chars.len()
        invariant
            chars@ == s@,
            i <= chars@.len(),
            done@.map_values(|x: String| x@).push(cur@) == split_slash(chars@.take(i as int)),
        decreases chars@.len() - i,
    {
        let c = chars[i];
        let ghost before = done@.map_values(|x: String| x@).push(cur@);
        proof {
            assert(chars@.take(i + 1).drop_last() =~= chars@.take(i as int));
            assert(chars@.take(i + 1).last() == c);
        }
        if c == '/' {
            let finished = cur;
            done.push(finished);
            cur = String::new();
            proof {
                assert(done@.map_values(|x: String| x@).push(cur@) =~= before.push(Seq::empty()));
            }
        } else {
            string_push(&mut cur, c);
            proof {
                assert(done@.map_values(|x: String| x@).push(cur@) =~= before.update(
                    before.len() - 1,
                    before.last().push(c),
                ));
            }
        }
        i = i + 1;
    }
    done.push(cur);
    proof {
        assert(chars@.take(i as int) =~= chars@);
    }
    done
}

/// Follows the Unix-style path `rel_or_abs_path` from the directory `base`, or from `limit` when
/// it starts with `/`; an error as soon as a step leaves `limit`.
pub fn join_unix_rel_path(base: &UnixPath, rel_or_abs_path: &str, limit: &UnixPath) -> (r: Result<UnixPath, PathError>)
    ensures
        ({
            let from_root = rel_or_abs_path@.len() > 0 && rel_or_abs_path@[0] == '/';
            let start_abs = if from_root { limit.absolute } else { base.absolute };
            let start = if from_root { limit.spec_parts() } else { base.spec_parts() };
            let rel = if from_root { rel_or_abs_path@.drop_first() } else { rel_or_abs_path@ };
            match walk_pieces(start_abs, start, split_slash(rel), 0, limit.absolute, limit.spec_parts()) {
                Some(parts) => r is Ok && r->Ok_0.absolute == start_abs && r->Ok_0.spec_parts() == parts,
                None => r == Err::<UnixPath, PathError>(PathError::InvalidRelativePath),
            }
        }),
        base.wf() && limit.wf() ==> (r matches Ok(q) ==> q.wf()),
{
    proof {
        let from_root = rel_or_abs_path@.len() > 0 && rel_or_abs_path@[0] == '/';
        let start_abs = if from_root { limit.absolute } else { base.absolute };
        let start = if from_root { limit.spec_parts() } else { base.spec_parts() };
        let rel = if from_root { rel_or_abs_path@.drop_first() } else { rel_or_abs_path@ };
        if base.wf() && limit.wf() {
            lemma_walk_keeps_nonempty(start_abs, start, split_slash(rel), 0, limit.absolute, limit.spec_parts());
        }
    }
    let chars = str_chars(rel_or_abs_path);
    let from_root = chars.len() > 0 && chars[0] == '/';
    let mut cur = if from_root { copy_path(limit) } else { copy_path(base) };
    let pieces = if from_root {
        let mut rest = String::new();
        let mut i: usize = 1;
        while i < chars.len()
            invariant
                1 <= i <= chars@.len(),
                rest@ == chars@.subrange(1, i as int),
            decreases chars@.len() - i,
        {
            proof {
                assert(chars@.subrange(1, i + 1) =~= chars@.subrange(1, i as int).push(chars@[i as int]));
            }
            string_push(&mut rest, chars[i]);
            i = i + 1;
        }
        proof {
            assert(rest@ =~= rel_or_abs_path@.drop_first());
        }
        split_slashes(rest.as_str())
    } else {
        split_slashes(rel_or_abs_path)
    };
    let ghost ps = pieces@.map_values(|x: String| x@);
    let ghost start = cur.spec_parts();
    proof {
        let rel = if from_root { rel_or_abs_path@.drop_first() } else { rel_or_abs_path@ };
        assert(ps =~= split_slash(rel));
    }
    let mut i: usize = 0;
    while i < pieces.len()
        invariant
            i <= pieces@.len(),
            ps == pieces@.map_values(|x: String| x@),
            from_root == (rel_or_abs_path@.len() > 0 && rel_or_abs_path@[0] == '/'),
            ps == split_slash(if from_root { rel_or_abs_path@.drop_first() } else { rel_or_abs_path@ }),
            start == (if from_root { limit.spec_parts() } else { base.spec_parts() }),
            cur.absolute == (if from_root { limit.absolute } else { base.absolute }),
            walk_pieces(cur.absolute, start, ps, 0, limit.absolute, limit.spec_parts())
                == walk_pieces(cur.absolute, cur.spec_parts(), ps, i as int, limit.absolute, limit.spec_parts()),
        decreases pieces@.len() - i,
    {
        let piece = pieces[i].as_str();
        let ghost before = cur.spec_parts();
        proof {
            reveal_strlit(".");
            reveal_strlit("..");
            assert("."@ =~= seq!['.']);
            assert(".."@ =~= seq!['.', '.']);
            assert(ps[i as int] == piece@);
        }
        if str_eq(piece, ".") {
        } else if str_eq(piece, "..") {
            if cur.parts.len() > 0 {
                cur.parts.pop();
                proof {
                    assert(cur.spec_parts() =~= before.drop_last());
                }
            }
        } else if piece.is_empty() {
        } else {
            cur.parts.push(pieces[i].clone());
            proof {
                assert(cur.spec_parts() =~= before.push(piece@));
            }
        }
        proof {
            assert(cur.spec_parts() == step_piece(before, ps[i as int]));
        }
        if !path_starts_with(&cur, limit) {
            proof {
                assert(walk_pieces(cur.absolute, before, ps, i as int, limit.absolute, limit.spec_parts()) is None);
            }
            return Err(PathError::InvalidRelativePath);
        }
        i = i + 1;
    }
    Ok(cur)
}

/// The file name of a path: its last component, when that is a name.
pub open spec fn file_name(parts: Seq<Seq<char>>) -> Option<Seq<char>> {
    if parts.len() > 0 && parts.last() != seq!['.'] && parts.last() != seq!['.', '.'] {
        Some(parts.last())
    } else {
        None
    }
}

/// The index of the last `.` in `name`, or -1.
pub open spec fn last_dot(name: Seq<char>) -> int
    decreases name.len(),
{
    if name.len() == 0 {
        -1
    } else if name.last() == '.' {
        name.len() - 1
    } else {
        last_dot(name.drop_last())
    }
}

/// The extension of a file name: what follows its last `.`, unless that dot starts the name or
/// there is none.
pub open spec fn extension(name: Seq<char>) -> Option<Seq<char>> {
    if name == seq!['.', '.'] || last_dot(name) <= 0 {
        None
    } else {
        Some(name.skip(last_dot(name) + 1))
    }
}

/// The components of the path with the extension `ext` made sure of: the same components when
/// the file name has that extension, else the file name with `.ext` appended; `None` when the
/// path has no file name.
pub open spec fn with_extension(parts: Seq<Seq<char>>, ext: Seq<char>) -> Option<Seq<Seq<char>>> {
    match file_name(parts) {
        None => None,
        Some(n) => if extension(n) == Some(ext) {
            Some(parts)
        } else {
            Some(parts.drop_last().push(n + seq!['.'] + ext))
        },
    }
}

/// The path with `.ext` appended to its file name; `None` when it has no file name.
pub fn add_file_extension(p: &UnixPath, ext: &str) -> (r: Option<UnixPath>)
    ensures
        match file_name(p.spec_parts()) {
            None => r is None,
            Some(n) => r is Some && r->0.absolute == p.absolute && r->0.spec_parts()
                == p.spec_parts().drop_last().push(n + seq!['.'] + ext@),
        },
        p.wf() ==> (r matches Some(q) ==> q.wf()),
{
    let n = p.parts.len();
    proof {
        reveal_strlit(".");
        reveal_strlit("..");
        assert("."@ =~= seq!['.']);
        assert(".."@ =~= seq!['.', '.']);
    }
    if n == 0 || str_eq(p.parts[n - 1].as_str(), ".") || str_eq(p.parts[n - 1].as_str(), "..") {
        proof {
            if n > 0 {
                assert(p.spec_parts().last() == p.parts@[n - 1]@);
            }
        }
        return None;
    }
    let mut r = copy_path(p);
    let mut name = r.parts.pop().unwrap();
    proof {
        assert(p.spec_parts().last() == p.parts@[n - 1]@);
        assert(r.parts@.len() == n - 1);
    }
    let ghost before = name@;
    string_push(&mut name, '.');
    push_str(&mut name, ext);
    let ghost mid = r.spec_parts();
    proof {
        assert(name@ =~= before + seq!['.'] + ext@);
    }
    r.parts.push(name);
    proof {
        assert(mid =~= p.spec_parts().drop_last());
        assert(r.spec_parts() =~= mid.push(before + seq!['.'] + ext@));
        if p.wf() {
            assert forall|i: int| 0 <= i < r.spec_parts().len() implies #[trigger] r.spec_parts()[i].len() > 0 by {
                if i < mid.len() {
                    assert(r.spec_parts()[i] == p.spec_parts()[i]);
                }
            }
        }
    }
    Some(r)
}

/// The extension of a file name, computed.
fn file_extension(name: &str) -> (r: Option<String>)
    ensures
        match extension(name@) {
            None => r is None,
            Some(e) => r is Some && r->0@ == e,
        },
{
    let chars = str_chars(name);
    proof {
        reveal_strlit("..");
        assert(".."@ =~= seq!['.', '.']);
    }
    if str_eq(name, "..") {
        return None;
    }
    let mut dot: usize = 0;
    let mut found = false;
    let mut i: usize = 0;
    proof {
        assert(chars@.take(0) =~= Seq::<char>::empty());
    }
    while i < chars.len()
        invariant
            chars@ == name@,
            i <= chars@.len(),
            found ==> dot < i,
            last_dot(chars@.take(i as int)) == (if found { dot as int } else { -1 }),
        decreases chars@.len() - i,
    {
        proof {
            assert(chars@.take(i + 1).drop_last() =~= chars@.take(i as int));
        }
        if chars[i] == '.' {
            dot = i;
            found = true;
        }
        i = i + 1;
    }
    proof {
        assert(chars@.take(i as int) =~= chars@);
    }
    if !found || dot == 0 {
        return None;
    }
    let mut e = String::new();
    let mut j: usize = dot + 1;
    proof {
        assert(chars@.subrange(dot + 1, dot + 1) =~= Seq::<char>::empty());
    }
    while j < chars.len()
        invariant
            chars@ == name@,
            dot < chars@.len(),
            dot + 1 <= j <= chars@.len(),
            e@ == chars@.subrange(dot + 1, j as int),
        decreases chars@.len() - j,
    {
        proof {
            assert(chars@.subrange(dot + 1, j + 1) =~= chars@.subrange(dot + 1, j as int).push(chars@[j as int]));
        }
        string_push(&mut e, chars[j]);
        j = j + 1;
    }
    proof {
        assert(chars@.subrange(dot + 1, j as int) =~= name@.skip(dot + 1));
    }
    Some(e)
}

/// The path itself when its file name has the extension `ext`, and otherwise the path with
/// `.ext` appended to its file name; `None` when it has no file name.
pub fn ensure_file_extension(p: &UnixPath, ext: &str) -> (r: Option<UnixPath>)
    ensures
        match with_extension(p.spec_parts(), ext@) {
            None => r is None,
            Some(q) => r is Some && r->0.absolute == p.absolute && r->0.spec_parts() == q,
        },
{
    let n = p.parts.len();
    proof {
        reveal_strlit(".");
        reveal_strlit("..");
        assert("."@ =~= seq!['.']);
        assert(".."@ =~= seq!['.', '.']);
        if n > 0 {
            assert(p.spec_parts().last() == p.parts@[n - 1]@);
        }
    }
    let has_ext = if n == 0 || str_eq(p.parts[n - 1].as_str(), ".") || str_eq(p.parts[n - 1].as_str(), "..") {
        false
    } else {
        match file_extension(p.parts[n - 1].as_str()) {
            Some(e) => str_eq(e.as_str(), ext),
            None => false,
        }
    };
    if has_ext {
        Some(copy_path(p))
    } else {
        add_file_extension(p, ext)
    }
}


proof fn lemma_split_slash_nonempty(s: Seq<char>)
    ensures
        split_slash(s).len() >= 1,
    decreases s.len(),
{
    if s.len() > 0 {
        lemma_split_slash_nonempty(s.drop_last());
    }
}

proof fn lemma_walk_ends_within(
    abs: bool,
    parts: Seq<Seq<char>>,
    pieces: Seq<Seq<char>>,
    i: int,
    limit_abs: bool,
    limit: Seq<Seq<char>>,
)
    requires
        0 <= i < pieces.len(),
    ensures
        walk_pieces(abs, parts, pieces, i, limit_abs, limit) matches Some(p) ==> starts_with(abs, p, limit_abs, limit),
    decreases pieces.len() - i,
{
    let next = step_piece(parts, pieces[i]);
    if i + 1 < pieces.len() {
        lemma_walk_ends_within(abs, next, pieces, i + 1, limit_abs, limit);
    } else {
        assert(walk_pieces(abs, next, pieces, i + 1, limit_abs, limit) == Some(next));
    }
}

/// A path that a join gives lies under the directory it must stay in: each step is checked,
/// and there is always at least one step.
pub proof fn lemma_join_stays_within_limit(base: UnixPath, rel_or_abs_path: Seq<char>, limit: UnixPath)
    ensures
        ({
            let from_root = rel_or_abs_path.len() > 0 && rel_or_abs_path[0] == '/';
            let start_abs = if from_root { limit.absolute } else { base.absolute };
            let start = if from_root { limit.spec_parts() } else { base.spec_parts() };
            let rel = if from_root { rel_or_abs_path.drop_first() } else { rel_or_abs_path };
            walk_pieces(start_abs, start, split_slash(rel), 0, limit.absolute, limit.spec_parts()) matches Some(parts)
                ==> starts_with(start_abs, parts, limit.absolute, limit.spec_parts())
        }),
{
    let from_root = rel_or_abs_path.len() > 0 && rel_or_abs_path[0] == '/';
    let start_abs = if from_root { limit.absolute } else { base.absolute };
    let start = if from_root { limit.spec_parts() } else { base.spec_parts() };
    let rel = if from_root { rel_or_abs_path.drop_first() } else { rel_or_abs_path };
    lemma_split_slash_nonempty(rel);
    lemma_walk_ends_within(start_abs, start, split_slash(rel), 0, limit.absolute, limit.spec_parts());
}


/// A plain name: not empty, not `.` or `..`, and without a slash.
pub open spec fn is_plain_name(n: Seq<char>) -> bool {
    &&& n.len() > 0
    &&& n != seq!['.']
    &&& n != seq!['.', '.']
    &&& forall|k: int| 0 <= k < n.len() ==> n[k] != '/'
}

proof fn lemma_split_after_slash(s: Seq<char>, y: Seq<char>)
    requires
        forall|k: int| 0 <= k < y.len() ==> y[k] != '/',
    ensures
        split_slash(s + seq!['/'] + y) == split_slash(s).push(y),
    decreases y.len(),
{
    let x = s + seq!['/'] + y;
    if y.len() == 0 {
        assert(x =~= s.push('/'));
        assert(x.drop_last() =~= s);
        assert(x.last() == '/');
        assert(y =~= Seq::<char>::empty());
    } else {
        let y0 = y.drop_last();
        assert forall|k: int| 0 <= k < y0.len() implies y0[k] != '/' by {
            assert(y0[k] == y[k]);
        }
        lemma_split_after_slash(s, y0);
        assert(x.drop_last() =~= s + seq!['/'] + y0);
        assert(x.last() == y[y.len() - 1]);
        assert(y[y.len() - 1] != '/');
        let p = split_slash(s).push(y0);
        assert(y0.push(x.last()) =~= y);
        assert(split_slash(x) == p.update(p.len() - 1, p.last().push(x.last())));
        assert(p.update(p.len() - 1, p.last().push(x.last())) =~= split_slash(s).push(y));
    }
}

proof fn lemma_split_single(y: Seq<char>)
    requires
        forall|k: int| 0 <= k < y.len() ==> y[k] != '/',
    ensures
        split_slash(y) == seq![y],
    decreases y.len(),
{
    if y.len() > 0 {
        let y0 = y.drop_last();
        assert forall|k: int| 0 <= k < y0.len() implies y0[k] != '/' by {
            assert(y0[k] == y[k]);
        }
        lemma_split_single(y0);
        assert(y[y.len() - 1] != '/');
        let p = seq![y0];
        assert(y0.push(y.last()) =~= y);
        assert(split_slash(y) == p.update(p.len() - 1, p.last().push(y.last())));
        assert(p.update(p.len() - 1, p.last().push(y.last())) =~= seq![y]);
    } else {
        assert(y =~= Seq::<char>::empty());
    }
}

proof fn lemma_split_join(parts: Seq<Seq<char>>)
    requires
        parts.len() >= 1,
        forall|i: int, k: int| 0 <= i < parts.len() && 0 <= k < parts[i].len() ==> #[trigger] parts[i][k] != '/',
    ensures
        split_slash(join_slash(parts)) == parts,
    decreases parts.len(),
{
    if parts.len() == 1 {
        assert forall|k: int| 0 <= k < parts[0].len() implies parts[0][k] != '/' by {
            assert(parts[0][k] == parts[0][k]);
        }
        lemma_split_single(parts[0]);
        assert(seq![parts[0]] =~= parts);
    } else {
        let d = parts.drop_last();
        assert forall|i: int, k: int| 0 <= i < d.len() && 0 <= k < d[i].len() implies #[trigger] d[i][k] != '/' by {
            assert(d[i] == parts[i]);
        }
        lemma_split_join(d);
        let y = parts.last();
        assert forall|k: int| 0 <= k < y.len() implies y[k] != '/' by {
            assert(y[k] == parts[parts.len() - 1][k]);
        }
        lemma_split_after_slash(join_slash(parts.drop_last()), y);
        assert(parts.drop_last().push(y) =~= parts);
    }
}

proof fn lemma_walk_names(
    abs: bool,
    parts: Seq<Seq<char>>,
    pieces: Seq<Seq<char>>,
    i: int,
    limit_abs: bool,
    limit: Seq<Seq<char>>,
)
    requires
        0 <= i <= pieces.len(),
        forall|k: int| i <= k < pieces.len() ==> is_plain_name(#[trigger] pieces[k]),
        starts_with(abs, parts, limit_abs, limit),
    ensures
        walk_pieces(abs, parts, pieces, i, limit_abs, limit) == Some(parts + pieces.subrange(i, pieces.len() as int)),
    decreases pieces.len() - i,
{
    if i == pieces.len() {
        assert(parts + pieces.subrange(i, pieces.len() as int) =~= parts);
    } else {
        assert(is_plain_name(pieces[i]));
        let next = parts.push(pieces[i]);
        assert(step_piece(parts, pieces[i]) == next);
        assert(starts_with(abs, next, limit_abs, limit)) by {
            assert forall|j: int| 0 <= j < limit.len() implies next[j] == limit[j] by {
                assert(next[j] == parts[j]);
            }
        }
        lemma_walk_names(abs, next, pieces, i + 1, limit_abs, limit);
        assert(next + pieces.subrange(i + 1, pieces.len() as int) =~= parts + pieces.subrange(i, pieces.len() as int));
    }
}

/// Joining, onto a base under the limit, the path of a target relative to that base gives the
/// target again, when the components that the target has beyond the base are plain names.
pub proof fn lemma_relative_path_round_trip(base: UnixPath, target: UnixPath, limit: UnixPath)
    requires
        starts_with(target.absolute, target.spec_parts(), base.absolute, base.spec_parts()),
        starts_with(base.absolute, base.spec_parts(), limit.absolute, limit.spec_parts()),
        forall|k: int| base.spec_parts().len() <= k < target.spec_parts().len() ==> is_plain_name(#[trigger] target.spec_parts()[k]),
    ensures
        ({
            let rel = join_slash(target.spec_parts().skip(base.spec_parts().len() as int));
            &&& !(rel.len() > 0 && rel[0] == '/')
            &&& walk_pieces(base.absolute, base.spec_parts(), split_slash(rel), 0, limit.absolute, limit.spec_parts())
                == Some(target.spec_parts())
        }),
{
    let bp = base.spec_parts();
    let tp = target.spec_parts();
    let rest = tp.skip(bp.len() as int);
    let rel = join_slash(rest);
    assert forall|i: int| 0 <= i < rest.len() implies is_plain_name(#[trigger] rest[i]) by {
        assert(rest[i] == tp[bp.len() + i]);
    }
    if rest.len() == 0 {
        assert(rel =~= Seq::<char>::empty());
        assert(split_slash(rel) == seq![Seq::<char>::empty()]);
        let pieces = split_slash(rel);
        assert(step_piece(bp, pieces[0]) == bp);
        assert(walk_pieces(base.absolute, bp, pieces, 1, limit.absolute, limit.spec_parts()) == Some(bp));
        assert(tp =~= bp);
    } else {
        lemma_join_slash_first(rest);
        assert forall|i: int, k: int| 0 <= i < rest.len() && 0 <= k < rest[i].len() implies #[trigger] rest[i][k] != '/' by {
            assert(is_plain_name(rest[i]));
        }
        lemma_split_join(rest);
        lemma_walk_names(base.absolute, bp, rest, 0, limit.absolute, limit.spec_parts());
        assert(bp + rest.subrange(0, rest.len() as int) =~= tp);
    }
}

/// A join of names starts with the first character of the first name.
proof fn lemma_join_slash_first(parts: Seq<Seq<char>>)
    requires
        parts.len() >= 1,
        parts[0].len() > 0,
    ensures
        join_slash(parts).len() > 0,
        join_slash(parts)[0] == parts[0][0],
    decreases parts.len(),
{
    if parts.len() > 1 {
        lemma_join_slash_first(parts.drop_last());
    }
}


proof fn lemma_last_dot_after(n: Seq<char>, ext: Seq<char>)
    requires
        forall|k: int| 0 <= k < ext.len() ==> ext[k] != '.',
    ensures
        last_dot(n + seq!['.'] + ext) == n.len(),
    decreases ext.len(),
{
    let x = n + seq!['.'] + ext;
    if ext.len() == 0 {
        assert(x.last() == '.');
    } else {
        let e0 = ext.drop_last();
        assert forall|k: int| 0 <= k < e0.len() implies e0[k] != '.' by {
            assert(e0[k] == ext[k]);
        }
        lemma_last_dot_after(n, e0);
        assert(x.drop_last() =~= n + seq!['.'] + e0);
        assert(x.last() == ext[ext.len() - 1]);
    }
}

/// Making sure of an extension twice is making sure of it once: when `ext` holds no dot, the
/// path that comes out has a file name with the extension `ext`, stays well formed, and making
/// sure of the extension again gives that same path; there is no path only when there is no
/// file name.
pub proof fn lemma_ensure_extension_idempotent(p: UnixPath, ext: Seq<char>)
    requires
        p.wf(),
        forall|k: int| 0 <= k < ext.len() ==> ext[k] != '.',
    ensures
        with_extension(p.spec_parts(), ext) is None <==> file_name(p.spec_parts()) is None,
        with_extension(p.spec_parts(), ext) matches Some(q) ==> ({
            &&& parts_nonempty(q)
            &&& file_name(q) is Some
            &&& extension(file_name(q)->0) == Some(ext)
            &&& with_extension(q, ext) == Some(q)
        }),
{
    let parts = p.spec_parts();
    match file_name(parts) {
        None => {},
        Some(n) => {
            assert(n == parts[parts.len() - 1]);
            assert(n.len() > 0);
            if extension(n) != Some(ext) {
                let x = n + seq!['.'] + ext;
                let q = parts.drop_last().push(x);
                lemma_added_extension_is_found(n, ext);
                assert(x.len() >= 2);
                assert(x != seq!['.']);
                assert(x != seq!['.', '.']);
                assert(q.last() == x);
                assert(file_name(q) == Some(x));
                assert forall|i: int| 0 <= i < q.len() implies #[trigger] q[i].len() > 0 by {
                    if i < q.len() - 1 {
                        assert(q[i] == parts[i]);
                    }
                }
            }
        },
    }
}

/// A file name with `.ext` added has the extension `ext` (when `ext` holds no dot), so making
/// sure of the extension a second time keeps the path as it is.
pub proof fn lemma_added_extension_is_found(n: Seq<char>, ext: Seq<char>)
    requires
        n.len() > 0,
        n != seq!['.'],
        forall|k: int| 0 <= k < ext.len() ==> ext[k] != '.',
    ensures
        extension(n + seq!['.'] + ext) == Some(ext),
{
    let x = n + seq!['.'] + ext;
    lemma_last_dot_after(n, ext);
    if x == seq!['.', '.'] {
        assert(x.len() == 2);
        assert(n.len() == 1 && ext.len() == 0);
        assert(x[0] == n[0]);
        assert(n =~= seq!['.']);
    }
    assert(x.skip(n.len() as int + 1) =~= ext);
}

} // verus!
