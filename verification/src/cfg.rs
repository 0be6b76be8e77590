//! Control flow of a function: successor edges, paths and reachability.
use vstd::prelude::*;
use crate::model::{Function, Terminator};

verus! {

/// The blocks a terminator may transfer control to.
pub open spec fn successors(t: Terminator) -> Seq<u32> {
    match t {
        Terminator::Jump { target } => seq![target.0],
        Terminator::Branch { then_block, else_block, .. } => seq![then_block.0, else_block.0],
        Terminator::Return { .. } => Seq::empty(),
        Terminator::Stop { .. } => Seq::empty(),
    }
}

/// Block `to` follows block `from` directly.
pub open spec fn edge(f: Function, from: int, to: int) -> bool {
    &&& 0 <= from < f.blocks@.len()
    &&& 0 <= to < f.blocks@.len()
    &&& exists|k: int|
        0 <= k < successors(f.blocks@[from].terminator).len() && (#[trigger] successors(
            f.blocks@[from].terminator,
        )[k]) as int == to
}

/// Every successor named by a terminator is a block of the function.
pub open spec fn successors_in_bounds(f: Function) -> bool {
    forall|b: int, k: int|
        0 <= b < f.blocks@.len() && 0 <= k < successors(f.blocks@[b].terminator).len() ==> (
        #[trigger] successors(f.blocks@[b].terminator)[k]) < f.blocks@.len()
}

/// A path: a non-empty sequence of blocks, each followed by the next.
pub open spec fn is_path(f: Function, p: Seq<int>) -> bool {
    &&& p.len() > 0
    &&& forall|k: int| 0 <= k < p.len() ==> 0 <= #[trigger] p[k] < f.blocks@.len()
    &&& forall|k: int| 0 <= k < p.len() - 1 ==> edge(f, #[trigger] p[k], p[k + 1])
}

/// A path from `from` to `to` whose blocks before the last are all unblocked.
pub open spec fn open_path(f: Function, blocked: Seq<bool>, p: Seq<int>, from: int, to: int) -> bool {
    &&& is_path(f, p)
    &&& p[0] == from
    &&& p.last() == to
    &&& forall|k: int| 0 <= k < p.len() - 1 ==> !blocked[#[trigger] p[k]]
}

/// `to` can be reached from `from` without passing through a blocked block.
pub open spec fn reaches_avoiding(f: Function, blocked: Seq<bool>, from: int, to: int) -> bool {
    exists|p: Seq<int>| #[trigger] open_path(f, blocked, p, from, to)
}

/// Dropping the last block of an open path leaves an open path to the block
/// before it.
pub proof fn lemma_open_path_prefix(f: Function, blocked: Seq<bool>, p: Seq<int>, from: int, to: int)
    requires
        open_path(f, blocked, p, from, to),
        p.len() > 1,
    ensures
        open_path(f, blocked, p.drop_last(), from, p[p.len() - 2]),
        edge(f, p[p.len() - 2], to),
        !blocked[p[p.len() - 2]],
{
    let q = p.drop_last();
    assert forall|k: int| 0 <= k < q.len() - 1 implies edge(f, #[trigger] q[k], q[k + 1]) by {
        assert(q[k] == p[k] && q[k + 1] == p[k + 1]);
    }
    assert forall|k: int| 0 <= k < q.len() implies 0 <= #[trigger] q[k] < f.blocks@.len() by {
        assert(q[k] == p[k]);
    }
    assert forall|k: int| 0 <= k < q.len() - 1 implies !blocked[#[trigger] q[k]] by {
        assert(q[k] == p[k]);
    }
    assert(edge(f, p[p.len() - 2], p[p.len() - 1]));
}

/// An open path is open under any blocking that blocks no more of its blocks.
pub proof fn lemma_open_path_unblocked(f: Function, blocked: Seq<bool>, p: Seq<int>, from: int, to: int)
    requires
        open_path(f, blocked, p, from, to),
    ensures
        open_path(f, none_blocked(f.blocks@.len()), p, from, to),
{
}

/// No block blocked.
pub open spec fn none_blocked(n: nat) -> Seq<bool> {
    Seq::new(n, |i: int| false)
}

/// Block `b` is executable: some path leads to it from the entry block.
pub open spec fn reachable(f: Function, b: int) -> bool {
    reaches_avoiding(f, none_blocked(f.blocks@.len()), f.entry.0 as int, b)
}

pub proof fn lemma_open_path_extend(f: Function, blocked: Seq<bool>, p: Seq<int>, from: int, to: int, next: int)
    requires
        open_path(f, blocked, p, from, to),
        !blocked[to],
        edge(f, to, next),
    ensures
        open_path(f, blocked, p.push(next), from, next),
{
    let q = p.push(next);
    assert forall|k: int| 0 <= k < q.len() - 1 implies edge(f, #[trigger] q[k], q[k + 1]) by {
        if k < p.len() - 1 {
            assert(q[k] == p[k] && q[k + 1] == p[k + 1]);
        } else {
            assert(q[k] == to && q[k + 1] == next);
        }
    }
    assert forall|k: int| 0 <= k < q.len() - 1 implies !blocked[#[trigger] q[k]] by {
        if k < p.len() - 1 {
            assert(q[k] == p[k]);
        }
    }
    assert forall|k: int| 0 <= k < q.len() implies 0 <= #[trigger] q[k] < f.blocks@.len() by {
        if k < p.len() {
            assert(q[k] == p[k]);
        }
    }
}

/// Every open path stays inside a set that contains its start and is closed
/// under the edges out of its unblocked members.
pub proof fn lemma_closed_set_contains_paths(
    f: Function,
    blocked: Seq<bool>,
    marked: Seq<bool>,
    p: Seq<int>,
    from: int,
    to: int,
)
    requires
        open_path(f, blocked, p, from, to),
        marked.len() == f.blocks@.len(),
        marked[from],
        forall|b: int, s: int|
            0 <= b < f.blocks@.len() && marked[b] && !blocked[b] && #[trigger] edge(f, b, s) ==> marked[s],
    ensures
        marked[to],
    decreases p.len(),
{
    if p.len() > 1 {
        let q = p.drop_last();
        assert(open_path(f, blocked, q, from, q.last())) by {
            assert forall|k: int| 0 <= k < q.len() - 1 implies edge(f, #[trigger] q[k], q[k + 1]) by {
                assert(q[k] == p[k] && q[k + 1] == p[k + 1]);
            }
            assert forall|k: int| 0 <= k < q.len() implies 0 <= #[trigger] q[k] < f.blocks@.len() by {
                assert(q[k] == p[k]);
            }
            assert forall|k: int| 0 <= k < q.len() - 1 implies !blocked[#[trigger] q[k]] by {
                assert(q[k] == p[k]);
            }
        }
        lemma_closed_set_contains_paths(f, blocked, marked, q, from, q.last());
        assert(edge(f, p[p.len() - 2], p[p.len() - 1]));
        assert(!blocked[p[p.len() - 2]]);
    }
}

pub open spec fn count_false(s: Seq<bool>) -> nat
    decreases s.len(),
{
    if s.len() == 0 {
        0
    } else {
        count_false(s.drop_last()) + if s.last() {
            0nat
        } else {
            1nat
        }
    }
}

proof fn lemma_count_false_mark(s: Seq<bool>, i: int)
    requires
        0 <= i < s.len(),
        !s[i],
    ensures
        count_false(s.update(i, true)) + 1 == count_false(s),
    decreases s.len(),
{
    let t = s.update(i, true);
    if i == s.len() - 1 {
        assert(t.drop_last() =~= s.drop_last());
    } else {
        lemma_count_false_mark(s.drop_last(), i);
        assert(t.drop_last() =~= s.drop_last().update(i, true));
    }
}

proof fn lemma_count_all_false(s: Seq<bool>)
    requires
        forall|j: int| 0 <= j < s.len() ==> !s[j],
    ensures
        count_false(s) == s.len(),
    decreases s.len(),
{
    if s.len() > 0 {
        lemma_count_all_false(s.drop_last());
    }
}

/// The successor block indices of a terminator.
pub fn block_successors(t: &Terminator) -> (r: Vec<u32>)
    ensures
        r@ == successors(*t),
{
    let mut r: Vec<u32> = Vec::new();
    match t {
        Terminator::Jump { target } => {
            r.push(target.0);
        },
        Terminator::Branch { then_block, else_block, .. } => {
            r.push(then_block.0);
            r.push(else_block.0);
        },
        Terminator::Return { .. } => {},
        Terminator::Stop { .. } => {},
    }
    assert(r@ =~= successors(*t));
    r
}

proof fn lemma_contains_push(s: Seq<usize>, x: usize, y: usize)
    requires
        s.push(x).contains(y),
    ensures
        y == x || s.contains(y),
{
    let w = choose|w: int| 0 <= w < s.push(x).len() && s.push(x)[w] == y;
    if w < s.len() {
        assert(s[w] == y);
    }
}

proof fn lemma_contains_grow(s: Seq<usize>, x: usize, y: usize)
    requires
        s.contains(y),
    ensures
        s.push(x).contains(y),
{
    let w = choose|w: int| 0 <= w < s.len() && s[w] == y;
    assert(s.push(x)[w] == y);
}

/// The blocks reachable from `from` without passing through a blocked block.
#[verifier::rlimit(100)]
pub fn reach_avoiding(f: &Function, blocked: &Vec<bool>, from: usize) -> (marked: Vec<bool>)
    requires
        successors_in_bounds(*f),
        blocked@.len() == f.blocks@.len(),
        from < f.blocks@.len(),
    ensures
        marked@.len() == f.blocks@.len(),
        forall|b: int| 0 <= b < f.blocks@.len() ==> #[trigger] marked@[b] == reaches_avoiding(
            *f,
            blocked@,
            from as int,
            b,
        ),
{
    let n = f.blocks.len();
    let mut marked: Vec<bool> = Vec::new();
    let mut i: usize = 0;
    while i < n
        invariant
            0 <= i <= n,
            n == f.blocks@.len(),
            marked@.len() == i,
            forall|j: int| 0 <= j < i ==> !marked@[j],
        decreases n - i,
    {
        marked.push(false);
        i += 1;
    }
    proof {
        lemma_count_all_false(marked@);
    }
    let mut pending: Vec<usize> = Vec::new();
    pending.push(from);
    proof {
        let p = seq![from as int];
        assert(open_path(*f, blocked@, p, from as int, from as int));
        assert(pending@[0] == from);
    }
    loop
        invariant
            n == f.blocks@.len(),
            successors_in_bounds(*f),
            blocked@.len() == n,
            from < n,
            marked@.len() == n,
            forall|k: int| 0 <= k < pending@.len() ==> #[trigger] pending@[k] < n,
            forall|k: int|
                0 <= k < pending@.len() ==> reaches_avoiding(
                    *f,
                    blocked@,
                    from as int,
                    #[trigger] pending@[k] as int,
                ),
            forall|b: int| 0 <= b < n && #[trigger] marked@[b] ==> reaches_avoiding(*f, blocked@, from as int, b),
            marked@[from as int] || pending@.contains(from),
            forall|b: int, s: int|
                0 <= b < n && marked@[b] && !blocked@[b] && #[trigger] edge(*f, b, s) ==> marked@[s]
                    || pending@.contains(s as usize),
        decreases count_false(marked@), pending@.len(),
    {
        let ghost old_p = pending@;
        let ghost old_m = marked@;
        let b = match pending.pop() {
            Some(b) => b,
            None => {
                proof {
                    assert forall|t: int| 0 <= t < n implies #[trigger] marked@[t] == reaches_avoiding(
                        *f,
                        blocked@,
                        from as int,
                        t,
                    ) by {
                        if reaches_avoiding(*f, blocked@, from as int, t) {
                            let p = choose|p: Seq<int>| #[trigger] open_path(*f, blocked@, p, from as int, t);
                            assert forall|c: int, s: int|
                                0 <= c < f.blocks@.len() && marked@[c] && !blocked@[c] && #[trigger] edge(*f, c, s)
                                implies marked@[s] by {
                                if pending@.contains(s as usize) {
                                    let w = choose|w: int| 0 <= w < pending@.len() && pending@[w] == s as usize;
                                }
                            }
                            if pending@.contains(from) {
                                let w = choose|w: int| 0 <= w < pending@.len() && pending@[w] == from;
                            }
                            lemma_closed_set_contains_paths(*f, blocked@, marked@, p, from as int, t);
                        }
                    }
                }
                return marked;
            },
        };
        let ghost rest = pending@;
        proof {
            assert(old_p =~= rest.push(b));
            assert(old_p[old_p.len() - 1] == b);
        }
        if marked[b] {
            proof {
                assert forall|c: int, s: int|
                    0 <= c < n && marked@[c] && !blocked@[c] && #[trigger] edge(*f, c, s) implies marked@[s]
                        || pending@.contains(s as usize) by {
                    if !marked@[s] {
                        lemma_contains_push(rest, b, s as usize);
                    }
                }
                if !marked@[from as int] {
                    lemma_contains_push(rest, b, from);
                }
            }
            continue;
        }
        proof {
            lemma_count_false_mark(marked@, b as int);
        }
        marked.set(b, true);
        proof {
            assert forall|c: int, s: int|
                0 <= c < n && marked@[c] && !blocked@[c] && c != b && #[trigger] edge(*f, c, s) implies marked@[s]
                    || pending@.contains(s as usize) by {
                assert(old_m[c]);
                if !marked@[s] {
                    assert(!old_m[s]);
                    lemma_contains_push(rest, b, s as usize);
                }
            }
            if !marked@[from as int] {
                lemma_contains_push(rest, b, from);
            }
        }
        if !blocked[b] {
            let targets = block_successors(&f.blocks[b].terminator);
            let mut k: usize = 0;
            while k < targets.len()
                invariant
                    n == f.blocks@.len(),
                    b < n,
                    from < n,
                    !blocked@[b as int],
                    blocked@.len() == n,
                    marked@.len() == n,
                    marked@[b as int],
                    reaches_avoiding(*f, blocked@, from as int, b as int),
                    successors_in_bounds(*f),
                    targets@ == successors(f.blocks@[b as int].terminator),
                    0 <= k <= targets@.len(),
                    forall|j: int| 0 <= j < pending@.len() ==> #[trigger] pending@[j] < n,
                    forall|j: int|
                        0 <= j < pending@.len() ==> reaches_avoiding(
                            *f,
                            blocked@,
                            from as int,
                            #[trigger] pending@[j] as int,
                        ),
                    forall|j: int| 0 <= j < k ==> pending@.contains(#[trigger] targets@[j] as usize),
                    marked@[from as int] || pending@.contains(from),
                    forall|c: int, s: int|
                        0 <= c < n && marked@[c] && !blocked@[c] && c != b && #[trigger] edge(*f, c, s)
                            ==> marked@[s] || pending@.contains(s as usize),
                decreases targets@.len() - k,
            {
                let t = targets[k] as usize;
                assert(successors(f.blocks@[b as int].terminator)[k as int] < n);
                proof {
                    let p = choose|p: Seq<int>| #[trigger] open_path(*f, blocked@, p, from as int, b as int);
                    assert(successors(f.blocks@[b as int].terminator)[k as int] as int == t as int);
                    assert(edge(*f, b as int, t as int));
                    lemma_open_path_extend(*f, blocked@, p, from as int, b as int, t as int);
                }
                let ghost before = pending@;
                pending.push(t);
                proof {
                    assert forall|j: int| 0 <= j < k + 1 implies pending@.contains(#[trigger] targets@[j] as usize) by {
                        if j < k {
                            lemma_contains_grow(before, t, targets@[j] as usize);
                        } else {
                            assert(pending@[before.len() as int] == t);
                        }
                    }
                    assert forall|c: int, s: int|
                        0 <= c < n && marked@[c] && !blocked@[c] && c != b && #[trigger] edge(*f, c, s)
                            implies marked@[s] || pending@.contains(s as usize) by {
                        if !marked@[s] {
                            lemma_contains_grow(before, t, s as usize);
                        }
                    }
                    if !marked@[from as int] {
                        lemma_contains_grow(before, t, from);
                    }
                }
                k += 1;
            }
            proof {
                assert forall|s: int| #[trigger] edge(*f, b as int, s) implies marked@[s] || pending@.contains(
                    s as usize,
                ) by {
                    let w = choose|w: int|
                        0 <= w < successors(f.blocks@[b as int].terminator).len() && (#[trigger] successors(
                            f.blocks@[b as int].terminator,
                        )[w]) as int == s;
                    assert(pending@.contains(targets@[w] as usize));
                }
            }
        }
    }
}

/// The executable blocks of a function: those reachable from its entry.
pub fn reachable_blocks(f: &Function) -> (r: Vec<bool>)
    requires
        successors_in_bounds(*f),
        f.entry.0 < f.blocks@.len(),
    ensures
        r@.len() == f.blocks@.len(),
        forall|b: int| 0 <= b < f.blocks@.len() ==> #[trigger] r@[b] == reachable(*f, b),
{
    let n = f.blocks.len();
    let mut blocked: Vec<bool> = Vec::new();
    let mut i: usize = 0;
    while i < n
        invariant
            0 <= i <= n,
            n == f.blocks@.len(),
            blocked@ == none_blocked(i as nat),
        decreases n - i,
    {
        blocked.push(false);
        i += 1;
        assert(blocked@ =~= none_blocked(i as nat));
    }
    reach_avoiding(f, &blocked, f.entry.0 as usize)
}

} // verus!
