//! Maps the paths that clients name onto the directory tree under the
//! virtual root, so that no path can lead outside it.
//!
//! A location under the root is a list of names, the directories to walk
//! down from the root. A client path is joined onto the current directory
//! (an absolute one onto the root) as it stands; the operating system then
//! resolves it, `.`, `..` and symbolic links included, and only a resolved
//! path that lies within the root is used.

use vstd::prelude::*;
use crate::bytes::{append, copy_bytes, split_bytes, split_on, views, lemma_split_on_pieces};

verus! {

/// The path separator.
pub const SLASH: u8 = 47;

/// The dot.
pub const DOT: u8 = 46;

/// A segment that names a directory entry: not empty, without a slash, and
/// neither `.` nor `..`.
pub open spec fn is_name(c: Seq<u8>) -> bool {
    &&& c.len() > 0
    &&& forall|j: int| 0 <= j < c.len() ==> c[j] != SLASH
    &&& c != seq![DOT]
    &&& c != seq![DOT, DOT]
}

pub open spec fn all_names(segs: Seq<Seq<u8>>) -> bool {
    forall|k: int| 0 <= k < segs.len() ==> is_name(#[trigger] segs[k])
}

/// Applies one segment of a path to the location `st`.
pub open spec fn step(st: Seq<Seq<u8>>, c: Seq<u8>) -> Option<Seq<Seq<u8>>> {
    if c.len() == 0 || c == seq![DOT] {
        Some(st)
    } else if c == seq![DOT, DOT] {
        if st.len() == 0 {
            None
        } else {
            Some(st.drop_last())
        }
    } else {
        Some(st.push(c))
    }
}

/// Applies the segments `comps` in order, starting from `st`; `None` if a
/// `..` would leave the root.
pub open spec fn walk(st: Seq<Seq<u8>>, comps: Seq<Seq<u8>>) -> Option<Seq<Seq<u8>>>
    decreases comps.len(),
{
    if comps.len() == 0 {
        Some(st)
    } else {
        match walk(st, comps.drop_last()) {
            None => None,
            Some(x) => step(x, comps.last()),
        }
    }
}

/// A path that starts with a slash; it is taken from the virtual root.
pub open spec fn is_absolute(arg: Seq<u8>) -> bool {
    arg.len() > 0 && arg[0] == SLASH
}

/// `root` without a final slash (the empty string for `/`).
pub open spec fn base(root: Seq<u8>) -> Seq<u8> {
    if root.len() > 0 && root.last() == SLASH {
        root.drop_last()
    } else {
        root
    }
}

/// `b` followed by each name, each after a slash.
pub open spec fn join_names(b: Seq<u8>, segs: Seq<Seq<u8>>) -> Seq<u8>
    decreases segs.len(),
{
    if segs.len() == 0 {
        b
    } else {
        join_names(b, segs.drop_last()) + seq![SLASH] + segs.last()
    }
}

/// The file-system path of location `segs` under `root`.
pub open spec fn absolute(root: Seq<u8>, segs: Seq<Seq<u8>>) -> Seq<u8> {
    if segs.len() == 0 {
        root
    } else {
        join_names(base(root), segs)
    }
}

/// The path is `root` itself or lies below it.
pub open spec fn within(root: Seq<u8>, p: Seq<u8>) -> bool {
    let b = base(root);
    p == root || (p.len() > b.len() && p.take(b.len() as int) == b && p[b.len() as int] == SLASH)
}

/// The location under `root` of an already resolved path `p`: `None` if `p`
/// lies outside the root.
pub open spec fn under_root(root: Seq<u8>, p: Seq<u8>) -> Option<Seq<Seq<u8>>> {
    if p == root {
        Some(Seq::empty())
    } else if within(root, p) {
        walk(Seq::empty(), split_on(p.skip(base(root).len() as int), SLASH))
    } else {
        None
    }
}

/// Applies the segments `comps` to the location `start`.
fn walk_segments(start: Vec<Vec<u8>>, comps: &Vec<Vec<u8>>) -> (r: Option<Vec<Vec<u8>>>)
    ensures
        match walk(views(start@), views(comps@)) {
            Some(x) => r matches Some(v) && views(v@) == x,
            None => r is None,
        },
{
    let mut stack = start;
    let ghost s0 = views(stack@);
    let ghost cs = views(comps@);
    let mut i: usize = 0;
    assert(cs.take(0) =~= Seq::<Seq<u8>>::empty());
    while i < comps.len()
        invariant
            0 <= i <= comps@.len(),
            cs == views(comps@),
            s0 == views(start@),
            walk(s0, cs.take(i as int)) == Some(views(stack@)),
        decreases comps@.len() - i,
    {
        let c: &Vec<u8> = &comps[i];
        assert(c@ == cs[i as int]);
        assert(cs.take(i + 1).drop_last() =~= cs.take(i as int));
        assert(cs.take(i + 1).last() == c@);
        let ghost before = views(stack@);
        if c.len() == 0 || (c.len() == 1 && c[0] == DOT) {
            assert(c@.len() == 0 || c@ =~= seq![DOT]);
        } else if c.len() == 2 && c[0] == DOT && c[1] == DOT {
            assert(c@ =~= seq![DOT, DOT]);
            if stack.len() == 0 {
                proof {
                    assert(before.len() == 0);
                    assert(walk(s0, cs.take(i + 1)) is None);
                    lemma_walk_none_extends(s0, cs, i + 1);
                }
                return None;
            }
            stack.pop();
            assert(views(stack@) =~= before.drop_last());
        } else {
            assert(c@ != seq![DOT]) by {
                if c@ == seq![DOT] {
                    assert(c@.len() == 1 && c@[0] == DOT);
                }
            }
            assert(c@ != seq![DOT, DOT]) by {
                if c@ == seq![DOT, DOT] {
                    assert(c@.len() == 2 && c@[0] == DOT && c@[1] == DOT);
                }
            }
            let copy = copy_bytes(c.as_slice());
            stack.push(copy);
            assert(views(stack@) =~= before.push(c@));
        }
        i = i + 1;
    }
    assert(cs.take(i as int) =~= cs);
    Some(stack)
}

/// Once a walk has failed it stays failed.
proof fn lemma_walk_none_extends(st: Seq<Seq<u8>>, comps: Seq<Seq<u8>>, k: int)
    requires
        0 <= k <= comps.len(),
        walk(st, comps.take(k)) is None,
    ensures
        walk(st, comps) is None,
    decreases comps.len() - k,
{
    if k < comps.len() {
        assert(comps.take(k + 1).drop_last() =~= comps.take(k));
        lemma_walk_none_extends(st, comps, k + 1);
    } else {
        assert(comps.take(k) =~= comps);
    }
}

/// Walking from a location made of names leads to a location made of names.
pub proof fn lemma_walk_names(st: Seq<Seq<u8>>, comps: Seq<Seq<u8>>)
    requires
        all_names(st),
        forall|k: int, j: int|
            0 <= k < comps.len() && 0 <= j < comps[k].len() ==> comps[k][j] != SLASH,
    ensures
        walk(st, comps) matches Some(x) ==> all_names(x),
    decreases comps.len(),
{
    if comps.len() > 0 {
        let d = comps.drop_last();
        assert forall|k: int, j: int| 0 <= k < d.len() && 0 <= j < d[k].len() implies d[k][j]
            != SLASH by {
            assert(d[k] == comps[k]);
        }
        lemma_walk_names(st, d);
        if let Some(x) = walk(st, d) {
            let c = comps.last();
            assert(forall|j: int| 0 <= j < c.len() ==> c[j] != SLASH) by {
                assert forall|j: int| 0 <= j < c.len() implies c[j] != SLASH by {
                    assert(comps[comps.len() - 1][j] != SLASH);
                }
            }
            if let Some(y) = step(x, c) {
                assert forall|k: int| 0 <= k < y.len() implies is_name(#[trigger] y[k]) by {
                    if k < x.len() {
                        assert(y[k] == x[k]);
                    }
                }
            }
        }
    }
}

/// The path that `arg` names from the location `cwd` under `root`, before
/// the system resolves it: an absolute `arg` is taken from the root, a
/// relative one from the current directory, and an empty one names the
/// current directory.
pub open spec fn joined(root: Seq<u8>, cwd: Seq<Seq<u8>>, arg: Seq<u8>) -> Seq<u8> {
    if is_absolute(arg) {
        base(root) + arg
    } else if arg.len() == 0 {
        absolute(root, cwd)
    } else {
        join_names(base(root), cwd) + seq![SLASH] + arg
    }
}

/// `root` without its final slash, followed by each name after a slash.
fn names_path(root: &[u8], segs: &Vec<Vec<u8>>) -> (r: Vec<u8>)
    ensures
        r@ == join_names(base(root@), views(segs@)),
{
    let mut r: Vec<u8> = copy_bytes(root);
    if r.len() > 0 && r[r.len() - 1] == SLASH {
        r.pop();
    }
    assert(r@ =~= base(root@));
    let ghost ss = views(segs@);
    let mut i: usize = 0;
    assert(ss.take(0) =~= Seq::<Seq<u8>>::empty());
    while i < segs.len()
        invariant
            0 <= i <= segs@.len(),
            ss == views(segs@),
            r@ == join_names(base(root@), ss.take(i as int)),
        decreases segs@.len() - i,
    {
        let seg: &Vec<u8> = &segs[i];
        assert(seg@ == ss[i as int]);
        r.push(SLASH);
        append(&mut r, seg.as_slice());
        assert(ss.take(i + 1).drop_last() =~= ss.take(i as int));
        i = i + 1;
    }
    assert(ss.take(i as int) =~= ss);
    r
}

/// The file-system path of location `segs` under `root`.
pub fn absolute_path(root: &[u8], segs: &Vec<Vec<u8>>) -> (r: Vec<u8>)
    ensures
        r@ == absolute(root@, views(segs@)),
{
    if segs.len() == 0 {
        copy_bytes(root)
    } else {
        names_path(root, segs)
    }
}

/// The path that `extra` names from the location `current` under `root`,
/// for the system to resolve; whether the resolved path may be used is
/// decided by `relative_to_root`.
pub fn combine(root: &[u8], current: &Vec<Vec<u8>>, extra: &[u8]) -> (r: Vec<u8>)
    ensures
        r@ == joined(root@, views(current@), extra@),
{
    if extra.len() > 0 && extra[0] == SLASH {
        let mut r = copy_bytes(root);
        if r.len() > 0 && r[r.len() - 1] == SLASH {
            r.pop();
        }
        assert(r@ =~= base(root@));
        append(&mut r, extra);
        r
    } else if extra.len() == 0 {
        absolute_path(root, current)
    } else {
        let mut r = names_path(root, current);
        r.push(SLASH);
        append(&mut r, extra);
        r
    }
}

/// The location under `root` of `path`, a path whose links the operating
/// system has already resolved; `None` if it lies outside the root.
pub fn relative_to_root(root: &[u8], path: &[u8]) -> (r: Option<Vec<Vec<u8>>>)
    ensures
        match under_root(root@, path@) {
            Some(x) => r matches Some(v) && views(v@) == x,
            None => r is None,
        },
{
    if crate::bytes::bytes_eq(root, path) {
        let here: Vec<Vec<u8>> = Vec::new();
        assert(views(here@) =~= Seq::<Seq<u8>>::empty());
        return Some(here);
    }
    let mut n: usize = root.len();
    if n > 0 && root[n - 1] == SLASH {
        n = n - 1;
    }
    assert(root@.take(n as int) =~= base(root@));
    if path.len() <= n || path[n] != SLASH {
        return None;
    }
    let mut k: usize = 0;
    while k < n
        invariant
            0 <= k <= n < path@.len(),
            n <= root@.len(),
            root@.take(n as int) == base(root@),
            forall|j: int| 0 <= j < k ==> root@[j] == path@[j],
        decreases n - k,
    {
        if root[k] != path[k] {
            assert(path@.take(n as int)[k as int] != base(root@)[k as int]);
            assert(!within(root@, path@));
            return None;
        }
        k = k + 1;
    }
    assert(path@.take(n as int) =~= base(root@));
    let mut rest: Vec<u8> = Vec::new();
    let mut j: usize = n;
    while j < path.len()
        invariant
            n <= j <= path@.len(),
            rest@ == path@.subrange(n as int, j as int),
        decreases path@.len() - j,
    {
        rest.push(path[j]);
        j = j + 1;
        assert(rest@ =~= path@.subrange(n as int, j as int));
    }
    assert(rest@ =~= path@.skip(n as int));
    assert(within(root@, path@));
    let comps = split_bytes(rest.as_slice(), SLASH);
    let top: Vec<Vec<u8>> = Vec::new();
    assert(views(top@) =~= Seq::<Seq<u8>>::empty());
    walk_segments(top, &comps)
}

/// The path shown to the client for location `segs`: rooted at `/`.
pub open spec fn virtual_path(segs: Seq<Seq<u8>>) -> Seq<u8> {
    absolute(seq![SLASH], segs)
}

/// Every location made of names lies within the root: its file-system path
/// is the root itself or the root followed by a slash and more.
pub proof fn lemma_location_within_root(root: Seq<u8>, segs: Seq<Seq<u8>>)
    requires
        all_names(segs),
    ensures
        within(root, absolute(root, segs)),
{
    if segs.len() > 0 {
        lemma_join_names_prefix(base(root), segs);
    }
}

/// A checked path is within the root, and its location is made of names.
pub proof fn lemma_under_root_within(root: Seq<u8>, p: Seq<u8>)
    ensures
        under_root(root, p) matches Some(segs) ==> all_names(segs) && within(root, p),
{
    if p != root && within(root, p) {
        let rest = p.skip(base(root).len() as int);
        lemma_split_on_pieces(rest, SLASH);
        lemma_walk_names(Seq::empty(), split_on(rest, SLASH));
    }
}

/// Joining names onto `b` extends `b` by a slash and more.
proof fn lemma_join_names_prefix(b: Seq<u8>, segs: Seq<Seq<u8>>)
    requires
        segs.len() > 0,
    ensures
        join_names(b, segs).len() > b.len(),
        join_names(b, segs).take(b.len() as int) == b,
        join_names(b, segs)[b.len() as int] == SLASH,
    decreases segs.len(),
{
    let d = segs.drop_last();
    let j = join_names(b, segs);
    if d.len() == 0 {
        assert(join_names(b, d) == b);
        assert(j == b + seq![SLASH] + segs.last());
        assert(j.take(b.len() as int) =~= b);
    } else {
        lemma_join_names_prefix(b, d);
        let jd = join_names(b, d);
        assert(j == jd + seq![SLASH] + segs.last());
        assert(j.take(b.len() as int) =~= jd.take(b.len() as int));
        assert(j[b.len() as int] == jd[b.len() as int]);
    }
}

} // verus!
