//! Ordering a batch of change sets so that each comes after the change sets
//! of the batch it depends on (Kahn's algorithm), or finding that no such
//! order exists.

use vstd::prelude::*;

use crate::authoring::types::AuthoringError;
use crate::order::{lemma_perm_covers, lemma_range_set_len};
use crate::text::owned;

verus! {

/// How many entries of `s` satisfy `p`.
pub open spec fn count_where(s: Seq<u128>, p: spec_fn(u128) -> bool) -> nat
    decreases s.len(),
{
    if s.len() == 0 {
        0
    } else {
        count_where(s.drop_last(), p) + if p(s.last()) {
            1nat
        } else {
            0nat
        }
    }
}

/// The dependencies of a change set that lie in the batch and are not yet
/// placed, counted with repeats.
pub open spec fn pending_deps(ids: Seq<u128>, deps: Seq<u128>, placed: Set<u128>) -> nat {
    count_where(deps, |d: u128| ids.contains(d) && !placed.contains(d))
}

/// `order` lists the batch once each, every change set after the batch's
/// change sets it depends on.
pub open spec fn is_dependency_order(ids: Seq<u128>, depends_on: Seq<Seq<u128>>, order: Seq<u128>) -> bool {
    &&& order.len() == ids.len()
    &&& order.no_duplicates()
    &&& order.to_set() == ids.to_set()
    &&& forall|j: int, k: int, a: int|
        #![trigger order[a], depends_on[j][k]]
        0 <= j < ids.len() && 0 <= a < order.len() && order[a] == ids[j] && 0 <= k < depends_on[j].len()
            && ids.contains(depends_on[j][k]) ==> exists|b: int|
            0 <= b < a && #[trigger] order[b] == depends_on[j][k]
}

proof fn lemma_count_split(s: Seq<u128>, ids: Seq<u128>, placed: Set<u128>, x: u128)
    requires
        ids.contains(x),
        !placed.contains(x),
    ensures
        pending_deps(ids, s, placed) == pending_deps(ids, s, placed.insert(x)) + count_where(
            s,
            |d: u128| d == x,
        ),
    decreases s.len(),
{
    if s.len() > 0 {
        lemma_count_split(s.drop_last(), ids, placed, x);
    }
}

proof fn lemma_count_zero(s: Seq<u128>, ids: Seq<u128>, placed: Set<u128>, k: int)
    requires
        0 <= k < s.len(),
        ids.contains(s[k]),
        !placed.contains(s[k]),
    ensures
        pending_deps(ids, s, placed) > 0,
    decreases s.len(),
{
    if k < s.len() - 1 {
        lemma_count_zero(s.drop_last(), ids, placed, k);
    }
}

proof fn lemma_count_none(s: Seq<u128>, ids: Seq<u128>, placed: Set<u128>)
    requires
        pending_deps(ids, s, placed) > 0,
    ensures
        exists|k: int| 0 <= k < s.len() && ids.contains(#[trigger] s[k]) && !placed.contains(s[k]),
    decreases s.len(),
{
    if s.len() > 0 {
        let l = s.last();
        if ids.contains(l) && !placed.contains(l) {
            assert(ids.contains(s[s.len() - 1]));
        } else {
            lemma_count_none(s.drop_last(), ids, placed);
            let k = choose|k: int|
                0 <= k < s.drop_last().len() && ids.contains(#[trigger] s.drop_last()[k]) && !placed.contains(
                    s.drop_last()[k],
                );
            assert(s[k] == s.drop_last()[k]);
        }
    }
}

fn count_occurrences(s: &Vec<u128>, x: u128) -> (r: usize)
    ensures
        r == count_where(s@, |d: u128| d == x),
        r <= s@.len(),
{
    let mut n: usize = 0;
    let mut i: usize = 0;
    while i < s.len()
        invariant
            i <= s.len(),
            n <= i,
            n == count_where(s@.take(i as int), |d: u128| d == x),
        decreases s.len() - i,
    {
        assert(s@.take(i + 1).drop_last() =~= s@.take(i as int));
        if s[i] == x {
            n += 1;
        }
        i += 1;
    }
    assert(s@.take(s.len() as int) =~= s@);
    n
}

fn contains_id(ids: &Vec<u128>, x: u128) -> (r: bool)
    ensures
        r == ids@.contains(x),
{
    let mut i: usize = 0;
    while i < ids.len()
        invariant
            i <= ids.len(),
            forall|k: int| 0 <= k < i ==> ids@[k] != x,
        decreases ids.len() - i,
    {
        if ids[i] == x {
            assert(ids@[i as int] == x);
            return true;
        }
        i += 1;
    }
    false
}

fn pending_count(ids: &Vec<u128>, deps: &Vec<u128>) -> (r: usize)
    ensures
        r == pending_deps(ids@, deps@, Set::empty()),
        r <= deps@.len(),
{
    let mut n: usize = 0;
    let mut i: usize = 0;
    while i < deps.len()
        invariant
            i <= deps.len(),
            n <= i,
            n == pending_deps(ids@, deps@.take(i as int), Set::empty()),
        decreases deps.len() - i,
    {
        assert(deps@.take(i + 1).drop_last() =~= deps@.take(i as int));
        if contains_id(ids, deps[i]) {
            n += 1;
        }
        i += 1;
    }
    assert(deps@.take(deps.len() as int) =~= deps@);
    n
}

/// A list of fewer than `n` distinct positions below `n` misses one.
proof fn lemma_uncovered(p: Seq<usize>, n: nat)
    requires
        p.len() < n,
        forall|i: int| 0 <= i < p.len() ==> #[trigger] p[i] < n,
        p.no_duplicates(),
        n <= usize::MAX,
    ensures
        exists|j: usize| j < n && !p.contains(j),
{
    let s = p.to_set();
    p.unique_seq_to_set();
    let full = Set::new(|x: usize| x < n);
    lemma_range_set_len(n);
    if forall|j: usize| j < n ==> p.contains(j) {
        assert(full.subset_of(s));
        vstd::set_lib::lemma_len_subset(full, s);
    }
}

/// A list of distinct positions below `n` has at most `n` entries.
proof fn lemma_distinct_bounded(p: Seq<usize>, n: nat)
    requires
        forall|i: int| 0 <= i < p.len() ==> #[trigger] p[i] < n,
        p.no_duplicates(),
        n <= usize::MAX,
    ensures
        p.len() <= n,
{
    let s = p.to_set();
    p.unique_seq_to_set();
    let full = Set::new(|x: usize| x < n);
    lemma_range_set_len(n);
    assert(s.subset_of(full));
    vstd::set_lib::lemma_len_subset(s, full);
}

/// No dependency order exists when some change set is never placed: the
/// first unplaced change set of any order has an unplaced dependency,
/// which that order must put before it.
proof fn lemma_first_unplaced(
    ids: Seq<u128>,
    dv: Seq<Seq<u128>>,
    q: Seq<u128>,
    placed: Set<u128>,
    indeg: Seq<usize>,
    j0: int,
)
    requires
        dv.len() == ids.len(),
        indeg.len() == ids.len(),
        0 <= j0 < ids.len(),
        !placed.contains(ids[j0]),
        forall|j: int| 0 <= j < ids.len() ==> #[trigger] indeg[j] == pending_deps(ids, dv[j], placed),
        forall|j: int| 0 <= j < ids.len() && !placed.contains(ids[j]) ==> indeg[j] > 0,
    ensures
        !is_dependency_order(ids, dv, q),
{
    if !is_dependency_order(ids, dv, q) {
        return;
    }
    assert(q.to_set().contains(ids[j0]));
    // the first position of q holding an unplaced change set
    let unplaced = |a: int| 0 <= a < q.len() && !placed.contains(q[a]);
    let a0 = choose|a: int| 0 <= a < q.len() && q[a] == ids[j0];
    assert(unplaced(a0));
    let a = lemma_least(unplaced, a0);
    let v = q[a];
    assert(ids.to_set().contains(v));
    let j = choose|j: int| 0 <= j < ids.len() && ids[j] == v;
    assert(indeg[j] > 0);
    lemma_count_none(dv[j], ids, placed);
    let k = choose|k: int| 0 <= k < dv[j].len() && ids.contains(#[trigger] dv[j][k]) && !placed.contains(dv[j][k]);
    let b = choose|b: int| 0 <= b < a && #[trigger] q[b] == dv[j][k];
    assert(unplaced(b));
}

/// The least integer at or below `x` (and at least 0) where `p` holds.
proof fn lemma_least(p: spec_fn(int) -> bool, x: int) -> (m: int)
    requires
        p(x),
        x >= 0,
    ensures
        p(m),
        0 <= m <= x,
        forall|y: int| 0 <= y < m ==> !#[trigger] p(y),
    decreases x,
{
    if x == 0 {
        0
    } else if exists|y: int| 0 <= y < x && #[trigger] p(y) {
        let y = choose|y: int| 0 <= y < x && #[trigger] p(y);
        lemma_least(p, y)
    } else {
        x
    }
}

/// The batch lists some change set twice.
pub open spec fn has_repeats(ids: Seq<u128>) -> bool {
    !ids.no_duplicates()
}

/// The message for a batch that cannot be ordered.
pub open spec fn circular_message() -> Seq<char> {
    "Circular dependency detected in batch publish"@
}

/// Order a batch of change sets so that each comes after those of the
/// batch it depends on (`depends_on[k]` are the dependencies of `ids[k]`).
/// A batch that lists a change set twice, or whose dependencies within the
/// batch form a cycle, is refused.
pub fn topological_sort(ids: &Vec<u128>, depends_on: &Vec<Vec<u128>>) -> (r: Result<Vec<u128>, AuthoringError>)
    requires
        depends_on@.len() == ids@.len(),
    ensures
        match r {
            Ok(order) => !has_repeats(ids@) && is_dependency_order(ids@, depends_on.deep_view(), order@),
            Err(e) => e == AuthoringError::InvalidInput(e->InvalidInput_0) && e->InvalidInput_0@ == circular_message()
                && (has_repeats(ids@) || !exists|q: Seq<u128>| is_dependency_order(ids@, depends_on.deep_view(), q)),
        },
{
    let ghost dv = depends_on.deep_view();
    let n = ids.len();
    // A repeated change set can never be ordered.
    let mut a: usize = 0;
    while a < n
        invariant
            n == ids.len(),
            a <= n,
            forall|x: int, y: int| 0 <= x < y < n && x < a ==> ids@[x] != ids@[y],
        decreases n - a,
    {
        let mut b: usize = a + 1;
        while b < n
            invariant
                n == ids.len(),
                a < b <= n,
                forall|x: int, y: int| 0 <= x < y < n && x < a ==> ids@[x] != ids@[y],
                forall|y: int| a < y < b ==> ids@[a as int] != ids@[y],
            decreases n - b,
        {
            if ids[a] == ids[b] {
                proof {
                    assert(!ids@.no_duplicates());
                }
                return Err(AuthoringError::InvalidInput(owned("Circular dependency detected in batch publish")));
            }
            b += 1;
        }
        a += 1;
    }
    assert(ids@.no_duplicates());
    // Pending in-batch dependencies of each change set.
    let mut indeg: Vec<usize> = Vec::new();
    let mut k: usize = 0;
    while k < n
        invariant
            n == ids.len(),
            n == depends_on.len(),
            dv == depends_on.deep_view(),
            k <= n,
            indeg@.len() == k,
            forall|j: int| 0 <= j < k ==> #[trigger] indeg@[j] == pending_deps(ids@, dv[j], Set::empty()),
        decreases n - k,
    {
        assert(dv[k as int] == depends_on@[k as int]@);
        indeg.push(pending_count(ids, &depends_on[k]));
        k += 1;
    }
    let ghost mut placed: Set<u128> = Set::empty();
    let mut order: Vec<u128> = Vec::new();
    let mut done: Vec<bool> = Vec::new();
    let mut queued: Vec<bool> = Vec::new();
    let mut queue: Vec<usize> = Vec::new();
    let mut q: usize = 0;
    while q < n
        invariant
            n == ids.len(),
            q <= n,
            done@.len() == q,
            queued@.len() == q,
            forall|j: int| 0 <= j < q ==> !(#[trigger] done@[j]),
            forall|j: int| 0 <= j < q ==> (#[trigger] queued@[j] <==> indeg@[j] == 0),
            indeg@.len() == n,
            forall|t: int| 0 <= t < queue@.len() ==> (#[trigger] queue@[t]) < q && indeg@[queue@[t] as int] == 0,
            forall|j: int| 0 <= j < q && indeg@[j] == 0 ==> #[trigger] queue@.contains(j as usize),
            queue@.no_duplicates(),
        decreases n - q,
    {
        done.push(false);
        if indeg[q] == 0 {
            queued.push(true);
            let ghost before = queue@;
            queue.push(q);
            proof {
                assert forall|j: int| 0 <= j < q + 1 && indeg@[j] == 0 implies #[trigger] queue@.contains(j as usize) by {
                    if j < q {
                        assert(before.contains(j as usize));
                        let t = choose|t: int| 0 <= t < before.len() && before[t] == j as usize;
                        assert(queue@[t] == j as usize);
                    } else {
                        assert(queue@[before.len() as int] == q);
                    }
                }
                assert forall|x: int, y: int| 0 <= x < y < queue@.len() implies queue@[x] != queue@[y] by {
                    if y == before.len() {
                        assert(before[x] < q);
                    }
                }
            }
        } else {
            queued.push(false);
        }
        q += 1;
    }
    // Kahn's algorithm over positions, first in, first out.
    let mut head: usize = 0;
    while head < queue.len()
        invariant
            n == ids.len(),
            n == depends_on.len(),
            dv == depends_on.deep_view(),
            ids@.no_duplicates(),
            indeg@.len() == n,
            done@.len() == n,
            queued@.len() == n,
            head <= queue@.len(),
            queue@.no_duplicates(),
            forall|t: int| 0 <= t < queue@.len() ==> (#[trigger] queue@[t]) < n,
            // the placed change sets are those dequeued, in order
            order@.len() == head,
            forall|t: int| 0 <= t < head ==> #[trigger] order@[t] == ids@[queue@[t] as int],
            placed == order@.to_set(),
            forall|j: int| 0 <= j < n ==> (#[trigger] done@[j] <==> placed.contains(ids@[j])),
            // every change set's count is its pending dependencies
            forall|j: int| 0 <= j < n ==> #[trigger] indeg@[j] == pending_deps(ids@, dv[j], placed),
            // queued exactly when its count reached zero, and never twice
            forall|j: int| 0 <= j < n ==> (#[trigger] queued@[j] <==> queue@.contains(j as usize)),
            forall|t: int| 0 <= t < queue@.len() ==> indeg@[#[trigger] queue@[t] as int] == 0,
            forall|t: int| head <= t < queue@.len() ==> !done@[#[trigger] queue@[t] as int],
            forall|j: int| 0 <= j < n && indeg@[j] == 0 ==> #[trigger] queued@[j],
            // placed change sets have all their batch dependencies placed before them
            forall|a: int, j: int, k: int|
                #![trigger order@[a], dv[j][k]]
                0 <= a < order@.len() && 0 <= j < n && order@[a] == ids@[j] && 0 <= k < dv[j].len()
                    && ids@.contains(dv[j][k]) ==> exists|b: int|
                    0 <= b < a && #[trigger] order@[b] == dv[j][k],
        decreases n - head,
    {
        proof {
            lemma_distinct_bounded(queue@, n as nat);
        }
        let u = queue[head];
        let x = ids[u];
        proof {
            assert(indeg@[u as int] == 0);
            assert(!done@[u as int]);
        }
        let ghost old_placed = placed;
        let ghost old_order = order@;
        // all of x's batch dependencies were placed before it
        proof {
            assert forall|k: int| 0 <= k < dv[u as int].len() && ids@.contains(dv[u as int][k]) implies
                old_placed.contains(#[trigger] dv[u as int][k]) by {
                if !old_placed.contains(dv[u as int][k]) {
                    lemma_count_zero(dv[u as int], ids@, old_placed, k);
                }
            }
        }
        order.push(x);
        done.set(u, true);
        proof {
            placed = placed.insert(x);
            assert forall|v: u128| order@.to_set().contains(v) <==> placed.contains(v) by {
                if order@.to_set().contains(v) && v != x {
                    let t = choose|t: int| 0 <= t < order@.len() && order@[t] == v;
                    assert(old_order[t] == v);
                }
                if old_placed.contains(v) {
                    let t = choose|t: int| 0 <= t < old_order.len() && old_order[t] == v;
                    assert(order@[t] == v);
                }
                if v == x {
                    assert(order@[old_order.len() as int] == x);
                }
            }
            assert(placed =~= order@.to_set());
            // every placed change set has been queued
            assert forall|i: int| 0 <= i < n && old_placed.contains(ids@[i]) implies #[trigger] queued@[i] by {
                let t = choose|t: int| 0 <= t < old_order.len() && old_order[t] == ids@[i];
                assert(ids@[queue@[t] as int] == ids@[i]);
                assert(queue@[t] as int == i);
                assert(queue@.contains(i as usize));
            }
            assert(queue@[head as int] == u);
            assert(queue@.contains(u));
        }
        let ghost old_queue = queue@;
        // lower the counts of the change sets that depend on x
        let mut j: usize = 0;
        while j < n
            invariant
                n == ids.len(),
                n == depends_on.len(),
                dv == depends_on.deep_view(),
                ids@.no_duplicates(),
                indeg@.len() == n,
                queued@.len() == n,
                j <= n,
                u < n,
                x == ids@[u as int],
                ids@.contains(x),
                !old_placed.contains(x),
                placed == old_placed.insert(x),
                head < queue@.len(),
                queue@[head as int] == u,
                queue@.no_duplicates(),
                forall|t: int| 0 <= t < queue@.len() ==> (#[trigger] queue@[t]) < n,
                forall|i: int| j <= i < n ==> #[trigger] indeg@[i] == pending_deps(ids@, dv[i], old_placed),
                forall|i: int| 0 <= i < j ==> #[trigger] indeg@[i] == pending_deps(ids@, dv[i], placed),
                forall|i: int| 0 <= i < n ==> (#[trigger] queued@[i] <==> queue@.contains(i as usize)),
                forall|t: int| 0 <= t < queue@.len() ==> indeg@[#[trigger] queue@[t] as int] == 0,
                forall|i: int| 0 <= i < j && indeg@[i] == 0 ==> #[trigger] queued@[i],
                forall|i: int| j <= i < n && pending_deps(ids@, dv[i], old_placed) == 0 ==> #[trigger] queued@[i],
                forall|t: int| head < t < queue@.len() ==> !placed.contains(ids@[#[trigger] queue@[t] as int]),
                forall|i: int| 0 <= i < n && old_placed.contains(ids@[i]) ==> #[trigger] queued@[i],
                queued@[u as int],
                old_queue.len() <= queue@.len(),
                forall|t: int| 0 <= t < old_queue.len() ==> #[trigger] queue@[t] == old_queue[t],
            decreases n - j,
        {
            assert(dv[j as int] == depends_on@[j as int]@);
            let c = count_occurrences(&depends_on[j], x);
            proof {
                lemma_count_split(dv[j as int], ids@, old_placed, x);
            }
            if c > 0 {
                let d = indeg[j] - c;
                indeg.set(j, d);
                if d == 0 && !queued[j] {
                    proof {
                        assert(!placed.contains(ids@[j as int])) by {
                            if placed.contains(ids@[j as int]) {
                                if ids@[j as int] == x {
                                    assert(ids@[j as int] == ids@[u as int]);
                                } else {
                                    assert(old_placed.contains(ids@[j as int]));
                                }
                            }
                        }
                    }
                    queued.set(j, true);
                    let ghost before = queue@;
                    queue.push(j);
                    proof {
                        assert forall|i: int| 0 <= i < n implies (#[trigger] queued@[i] <==> queue@.contains(i as usize)) by {
                            if i == j {
                                assert(queue@[before.len() as int] == j);
                            } else {
                                if before.contains(i as usize) {
                                    let t = choose|t: int| 0 <= t < before.len() && before[t] == i as usize;
                                    assert(queue@[t] == i as usize);
                                }
                                if queue@.contains(i as usize) {
                                    let t = choose|t: int| 0 <= t < queue@.len() && queue@[t] == i as usize;
                                    assert(t < before.len());
                                    assert(before[t] == i as usize);
                                }
                            }
                        }
                        assert forall|x2: int, y2: int| 0 <= x2 < y2 < queue@.len() implies queue@[x2] != queue@[y2] by {
                            if y2 == before.len() {
                                assert(!before.contains(j));
                                assert(before[x2] != j);
                            }
                        }
                    }
                }
            }
            j += 1;
        }
        proof {
            assert forall|jj: int| 0 <= jj < n implies (#[trigger] done@[jj] <==> placed.contains(ids@[jj])) by {
                if ids@[jj] == x {
                    assert(jj == u as int);
                }
            }
            assert forall|a: int, jj: int, k: int|
                #![trigger order@[a], dv[jj][k]]
                0 <= a < order@.len() && 0 <= jj < n && order@[a] == ids@[jj] && 0 <= k < dv[jj].len()
                    && ids@.contains(dv[jj][k]) implies exists|b: int|
                    0 <= b < a && #[trigger] order@[b] == dv[jj][k] by {
                if a == old_order.len() {
                    assert(jj == u as int);
                    assert(old_placed.contains(dv[jj][k]));
                    assert(old_order.to_set().contains(dv[jj][k]));
                    let b = choose|b: int| 0 <= b < old_order.len() && old_order[b] == dv[jj][k];
                    assert(order@[b] == dv[jj][k]);
                } else {
                    assert(order@[a] == old_order[a]);
                    let b = choose|b: int| 0 <= b < a && #[trigger] old_order[b] == dv[jj][k];
                    assert(order@[b] == old_order[b]);
                }
            }
        }
        head += 1;
    }
    // Every change set whose count reached zero was placed.
    proof {
        assert forall|j: int| 0 <= j < n && !placed.contains(ids@[j]) implies indeg@[j] > 0 by {
            if indeg@[j] == 0 {
                assert(queued@[j]);
                let t = choose|t: int| 0 <= t < queue@.len() && queue@[t] == j as usize;
                assert(order@[t] == ids@[j]);
                assert(order@.to_set().contains(ids@[j]));
            }
        }
    }
    if order.len() != n {
        proof {
            let qs = queue@;
            lemma_distinct_bounded(qs, n as nat);
            lemma_uncovered(qs, n as nat);
            let j = choose|j: usize| j < n && !qs.contains(j);
            assert(!placed.contains(ids@[j as int])) by {
                if placed.contains(ids@[j as int]) {
                    let t = choose|t: int| 0 <= t < order@.len() && order@[t] == ids@[j as int];
                    assert(ids@[qs[t] as int] == ids@[j as int]);
                    assert(qs[t] == j);
                }
            }
            assert forall|qq: Seq<u128>| !is_dependency_order(ids@, dv, qq) by {
                lemma_first_unplaced(ids@, dv, qq, placed, indeg@, j as int);
            }
        }
        return Err(AuthoringError::InvalidInput(owned("Circular dependency detected in batch publish")));
    }
    proof {
        let qs = queue@;
        assert(qs.len() == n);
        assert forall|j: int| 0 <= j < n implies order@.contains(ids@[j]) by {
            lemma_perm_covers(qs, n as nat, j as usize);
            let t = choose|t: int| 0 <= t < qs.len() && qs[t] == j as usize;
            assert(order@[t] == ids@[j]);
        }
        assert forall|x1: int, y1: int| 0 <= x1 < y1 < order@.len() implies order@[x1] != order@[y1] by {
            assert(qs[x1] != qs[y1]);
        }
        assert(order@.to_set() =~= ids@.to_set()) by {
            assert forall|v: u128| order@.to_set().contains(v) implies ids@.to_set().contains(v) by {
                let t = choose|t: int| 0 <= t < order@.len() && order@[t] == v;
                assert(ids@[qs[t] as int] == v);
            }
            assert forall|v: u128| ids@.to_set().contains(v) implies order@.to_set().contains(v) by {
                let j = choose|j: int| 0 <= j < ids@.len() && ids@[j] == v;
                assert(order@.contains(ids@[j]));
            }
        }
    }
    Ok(order)
}

} // verus!
