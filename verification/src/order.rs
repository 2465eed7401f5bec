//! Lexicographic order on text (the order of Rust's `str` comparison) and a
//! stable sorting permutation over keys made of several texts.

use vstd::prelude::*;

use crate::text::chars_of;

verus! {

/// Strict lexicographic order on character sequences. UTF-8 preserves the
/// order of code points, so this is the byte order that `str` comparison uses.
pub open spec fn text_lt(a: Seq<char>, b: Seq<char>) -> bool
    decreases a.len(),
{
    if b.len() == 0 {
        false
    } else if a.len() == 0 {
        true
    } else if a[0] != b[0] {
        (a[0] as int) < (b[0] as int)
    } else {
        text_lt(a.drop_first(), b.drop_first())
    }
}

/// Strict lexicographic order on tuples of texts, component by component.
pub open spec fn keys_lt(a: Seq<Seq<char>>, b: Seq<Seq<char>>) -> bool
    decreases a.len(),
{
    if b.len() == 0 {
        false
    } else if a.len() == 0 {
        true
    } else if a[0] != b[0] {
        text_lt(a[0], b[0])
    } else {
        keys_lt(a.drop_first(), b.drop_first())
    }
}

pub proof fn lemma_text_lt_irreflexive(a: Seq<char>)
    ensures
        !text_lt(a, a),
    decreases a.len(),
{
    if a.len() > 0 {
        lemma_text_lt_irreflexive(a.drop_first());
    }
}

pub proof fn lemma_text_lt_total(a: Seq<char>, b: Seq<char>)
    ensures
        a == b || text_lt(a, b) || text_lt(b, a),
        !(text_lt(a, b) && text_lt(b, a)),
    decreases a.len(),
{
    if a.len() > 0 && b.len() > 0 && a[0] == b[0] {
        lemma_text_lt_total(a.drop_first(), b.drop_first());
        if a.drop_first() == b.drop_first() {
            assert(a =~= seq![a[0]] + a.drop_first());
            assert(b =~= seq![b[0]] + b.drop_first());
        }
    } else if a.len() == 0 && b.len() == 0 {
        assert(a =~= b);
    }
}

pub proof fn lemma_text_lt_transitive(a: Seq<char>, b: Seq<char>, c: Seq<char>)
    requires
        text_lt(a, b),
        text_lt(b, c),
    ensures
        text_lt(a, c),
    decreases a.len(),
{
    if a.len() > 0 && a[0] == b[0] && b[0] == c[0] {
        lemma_text_lt_transitive(a.drop_first(), b.drop_first(), c.drop_first());
    }
}

pub proof fn lemma_keys_lt_irreflexive(a: Seq<Seq<char>>)
    ensures
        !keys_lt(a, a),
    decreases a.len(),
{
    if a.len() > 0 {
        lemma_keys_lt_irreflexive(a.drop_first());
    }
}

pub proof fn lemma_keys_lt_total(a: Seq<Seq<char>>, b: Seq<Seq<char>>)
    ensures
        a == b || keys_lt(a, b) || keys_lt(b, a),
        !(keys_lt(a, b) && keys_lt(b, a)),
    decreases a.len(),
{
    if a.len() > 0 && b.len() > 0 {
        if a[0] == b[0] {
            lemma_keys_lt_total(a.drop_first(), b.drop_first());
            if a.drop_first() == b.drop_first() {
                assert(a =~= seq![a[0]] + a.drop_first());
                assert(b =~= seq![b[0]] + b.drop_first());
            }
        } else {
            lemma_text_lt_total(a[0], b[0]);
        }
    } else if a.len() == 0 && b.len() == 0 {
        assert(a =~= b);
    }
}

pub proof fn lemma_keys_lt_transitive(a: Seq<Seq<char>>, b: Seq<Seq<char>>, c: Seq<Seq<char>>)
    requires
        keys_lt(a, b),
        keys_lt(b, c),
    ensures
        keys_lt(a, c),
    decreases a.len(),
{
    if a.len() > 0 && b.len() > 0 && c.len() > 0 {
        if a[0] == b[0] && b[0] == c[0] {
            lemma_keys_lt_transitive(a.drop_first(), b.drop_first(), c.drop_first());
        } else if a[0] != b[0] && b[0] != c[0] {
            lemma_text_lt_transitive(a[0], b[0], c[0]);
            if a[0] == c[0] {
                lemma_text_lt_total(a[0], b[0]);
            }
        } else if a[0] == b[0] {
        } else {
        }
    }
}

/// Three-way outcome of a comparison.
#[derive(PartialEq, Eq, Structural, Clone, Copy, Debug)]
pub enum TextOrder {
    Less,
    Equal,
    Greater,
}

/// Compares two character sequences lexicographically.
pub fn compare_chars(a: &Vec<char>, b: &Vec<char>) -> (r: TextOrder)
    ensures
        r == TextOrder::Less <==> text_lt(a@, b@),
        r == TextOrder::Equal <==> a@ == b@,
        r == TextOrder::Greater <==> text_lt(b@, a@),
{
    proof {
        lemma_text_lt_total(a@, b@);
        lemma_text_lt_irreflexive(a@);
    }
    let mut i: usize = 0;
    assert(a@.skip(0) =~= a@);
    assert(b@.skip(0) =~= b@);
    while i < a.len() && i < b.len()
        invariant
            i <= a.len(),
            i <= b.len(),
            a@.take(i as int) == b@.take(i as int),
            text_lt(a@, b@) == text_lt(a@.skip(i as int), b@.skip(i as int)),
            text_lt(b@, a@) == text_lt(b@.skip(i as int), a@.skip(i as int)),
        decreases a.len() - i,
    {
        if a[i] != b[i] {
            proof {
                assert(a@.skip(i as int)[0] == a@[i as int]);
                assert(b@.skip(i as int)[0] == b@[i as int]);
                if a@ == b@ {
                    assert(a@[i as int] == b@[i as int]);
                }
            }
            if a[i] < b[i] {
                return TextOrder::Less;
            } else {
                return TextOrder::Greater;
            }
        }
        proof {
            assert(a@.skip(i as int).drop_first() =~= a@.skip(i + 1));
            assert(b@.skip(i as int).drop_first() =~= b@.skip(i + 1));
            assert(a@.take(i + 1) =~= a@.take(i as int).push(a@[i as int]));
            assert(b@.take(i + 1) =~= b@.take(i as int).push(b@[i as int]));
        }
        i += 1;
    }
    if a.len() == b.len() {
        proof {
            assert(a@ =~= a@.take(i as int));
            assert(b@ =~= b@.take(i as int));
        }
        TextOrder::Equal
    } else if a.len() < b.len() {
        proof {
            assert(a@.skip(i as int).len() == 0);
            if a@ == b@ {
                assert(false);
            }
        }
        TextOrder::Less
    } else {
        proof {
            assert(b@.skip(i as int).len() == 0);
        }
        TextOrder::Greater
    }
}

/// Compares two texts lexicographically, as `str` comparison does.
pub fn compare_text(a: &str, b: &str) -> (r: TextOrder)
    ensures
        r == TextOrder::Less <==> text_lt(a@, b@),
        r == TextOrder::Equal <==> a@ == b@,
        r == TextOrder::Greater <==> text_lt(b@, a@),
{
    let va = chars_of(a);
    let vb = chars_of(b);
    compare_chars(&va, &vb)
}


/// Compares two keys (tuples of texts) lexicographically.
pub fn compare_keys(a: &Vec<String>, b: &Vec<String>) -> (r: TextOrder)
    ensures
        r == TextOrder::Less <==> keys_lt(a.deep_view(), b.deep_view()),
        r == TextOrder::Equal <==> a.deep_view() == b.deep_view(),
        r == TextOrder::Greater <==> keys_lt(b.deep_view(), a.deep_view()),
{
    let ghost da = a.deep_view();
    let ghost db = b.deep_view();
    proof {
        lemma_keys_lt_total(da, db);
        lemma_keys_lt_irreflexive(da);
        assert(da.skip(0) =~= da);
        assert(db.skip(0) =~= db);
    }
    let mut i: usize = 0;
    while i < a.len() && i < b.len()
        invariant
            i <= a.len(),
            i <= b.len(),
            da == a.deep_view(),
            db == b.deep_view(),
            da.take(i as int) == db.take(i as int),
            keys_lt(da, db) == keys_lt(da.skip(i as int), db.skip(i as int)),
            keys_lt(db, da) == keys_lt(db.skip(i as int), da.skip(i as int)),
            da == db || keys_lt(da, db) || keys_lt(db, da),
            !(keys_lt(da, db) && keys_lt(db, da)),
        decreases a.len() - i,
    {
        let c = compare_text(a[i].as_str(), b[i].as_str());
        proof {
            assert(da.skip(i as int)[0] == da[i as int]);
            assert(db.skip(i as int)[0] == db[i as int]);
            assert(da[i as int] == a@[i as int]@);
            assert(db[i as int] == b@[i as int]@);
        }
        match c {
            TextOrder::Less => {
                proof {
                    lemma_text_lt_irreflexive(da[i as int]);
                    if da == db {
                        assert(da[i as int] == db[i as int]);
                    }
                }
                return TextOrder::Less;
            },
            TextOrder::Greater => {
                proof {
                    lemma_text_lt_irreflexive(db[i as int]);
                    if da == db {
                        assert(da[i as int] == db[i as int]);
                    }
                }
                return TextOrder::Greater;
            },
            TextOrder::Equal => {},
        }
        proof {
            assert(da.skip(i as int).drop_first() =~= da.skip(i + 1));
            assert(db.skip(i as int).drop_first() =~= db.skip(i + 1));
            assert(da.take(i + 1) =~= da.take(i as int).push(da[i as int]));
            assert(db.take(i + 1) =~= db.take(i as int).push(db[i as int]));
        }
        i += 1;
    }
    if a.len() == b.len() {
        proof {
            assert(da =~= da.take(i as int));
            assert(db =~= db.take(i as int));
        }
        TextOrder::Equal
    } else if a.len() < b.len() {
        proof {
            assert(da.skip(i as int).len() == 0);
            if da == db {
                assert(false);
            }
        }
        TextOrder::Less
    } else {
        proof {
            assert(db.skip(i as int).len() == 0);
        }
        TextOrder::Greater
    }
}

/// Position `x` comes before position `y` when its key is smaller, or when
/// the keys are equal and `x` stood first: the order of a stable sort.
pub open spec fn key_before(keys: Seq<Seq<Seq<char>>>, x: int, y: int) -> bool {
    keys_lt(keys[x], keys[y]) || (keys[x] == keys[y] && x < y)
}

/// `p` lists every position of `keys` once, in the order of a stable sort.
pub open spec fn is_stable_order(keys: Seq<Seq<Seq<char>>>, p: Seq<usize>) -> bool {
    &&& p.len() == keys.len()
    &&& forall|i: int| 0 <= i < p.len() ==> #[trigger] p[i] < keys.len()
    &&& p.no_duplicates()
    &&& forall|a: int, b: int|
        0 <= a < b < p.len() ==> key_before(keys, #[trigger] p[a] as int, #[trigger] p[b] as int)
}

/// The permutation that sorts `keys` stably: ascending keys, ties in their
/// original order.
pub fn stable_order(keys: &Vec<Vec<String>>) -> (p: Vec<usize>)
    ensures
        is_stable_order(keys.deep_view(), p@),
{
    let ghost dk = keys.deep_view();
    let mut p: Vec<usize> = Vec::new();
    let n = keys.len();
    let mut i: usize = 0;
    while i < n
        invariant
            n == keys.len(),
            dk == keys.deep_view(),
            dk.len() == n,
            i <= n,
            p.len() == i,
            forall|k: int| 0 <= k < p.len() ==> #[trigger] p@[k] < i,
            p@.no_duplicates(),
            forall|a: int, b: int|
                0 <= a < b < p.len() ==> key_before(dk, #[trigger] p@[a] as int, #[trigger] p@[b] as int),
        decreases n - i,
    {
        let mut j: usize = 0;
        while j < p.len()
            invariant
                n == keys.len(),
                dk == keys.deep_view(),
                dk.len() == n,
                i < n,
                p.len() == i,
                j <= p.len(),
                forall|k: int| 0 <= k < p.len() ==> #[trigger] p@[k] < i,
                forall|k: int| 0 <= k < j ==> !keys_lt(dk[i as int], dk[#[trigger] p@[k] as int]),
            ensures
                j <= p.len(),
                forall|k: int| 0 <= k < j ==> !keys_lt(dk[i as int], dk[#[trigger] p@[k] as int]),
                j < p.len() ==> keys_lt(dk[i as int], dk[p@[j as int] as int]),
            decreases p.len() - j,
        {
            let c = compare_keys(&keys[i], &keys[p[j]]);
            proof {
                assert(dk[i as int] == keys@[i as int].deep_view());
                assert(dk[p@[j as int] as int] == keys@[p@[j as int] as int].deep_view());
            }
            if c == TextOrder::Less {
                break;
            }
            j += 1;
        }
        let ghost old_p = p@;
        p.insert(j, i);
        proof {
            assert forall|k: int| 0 <= k < p.len() implies #[trigger] p@[k] < i + 1 by {
                if k < j {
                    assert(p@[k] == old_p[k]);
                } else if k > j {
                    assert(p@[k] == old_p[k - 1]);
                }
            }
            assert forall|x: int, y: int| 0 <= x < y < p.len() implies p@[x] != p@[y] by {
                if x < j && y < j {
                    assert(old_p[x] != old_p[y]);
                } else if x < j && y > j {
                    assert(old_p[x] != old_p[y - 1]);
                } else if x > j && y > j {
                    assert(old_p[x - 1] != old_p[y - 1]);
                } else if x == j {
                    assert(old_p[y - 1] < i);
                } else {
                    assert(old_p[x] < i);
                }
            }
            assert forall|a: int, b: int| 0 <= a < b < p.len() implies key_before(dk, #[trigger] p@[a] as int, #[trigger] p@[b] as int) by {
                let pa = p@[a] as int;
                let pb = p@[b] as int;
                if b < j {
                    assert(pa == old_p[a] && pb == old_p[b]);
                } else if a < j && b == j {
                    assert(pa == old_p[a]);
                    assert(!keys_lt(dk[i as int], dk[pa]));
                    lemma_keys_lt_total(dk[i as int], dk[pa]);
                } else if a < j && b > j {
                    assert(pa == old_p[a] && pb == old_p[b - 1]);
                } else if a == j {
                    assert(pb == old_p[b - 1]);
                    let pj = old_p[j as int] as int;
                    assert(keys_lt(dk[i as int], dk[pj]));
                    if b - 1 > j {
                        assert(key_before(dk, pj, pb));
                        if keys_lt(dk[pj], dk[pb]) {
                            lemma_keys_lt_transitive(dk[i as int], dk[pj], dk[pb]);
                        }
                    }
                } else {
                    assert(pa == old_p[a - 1] && pb == old_p[b - 1]);
                }
            }
        }
        i += 1;
    }
    p
}

} // verus!

verus! {

/// Each text is strictly smaller than the next: sorted and without repeats.
pub open spec fn strictly_sorted(s: Seq<Seq<char>>) -> bool {
    forall|i: int, j: int| 0 <= i < j < s.len() ==> text_lt(#[trigger] s[i], #[trigger] s[j])
}

pub proof fn lemma_single_keys_lt(a: Seq<char>, b: Seq<char>)
    ensures
        keys_lt(seq![a], seq![b]) == text_lt(a, b),
{
    let sa = seq![a];
    let sb = seq![b];
    assert(sa[0] == a && sb[0] == b && sa.len() == 1 && sb.len() == 1);
    if a == b {
        lemma_text_lt_irreflexive(a);
        assert(sa.drop_first() =~= Seq::<Seq<char>>::empty());
        assert(sb.drop_first() =~= Seq::<Seq<char>>::empty());
        assert(!keys_lt(Seq::<Seq<char>>::empty(), Seq::<Seq<char>>::empty()));
    }
}

/// The texts of `v`, sorted ascending with repeats removed.
pub fn sorted_unique(v: &Vec<String>) -> (r: Vec<String>)
    ensures
        strictly_sorted(crate::text::texts(r@)),
        crate::text::texts(r@).to_set() == crate::text::texts(v@).to_set(),
{
    let mut keys: Vec<Vec<String>> = Vec::new();
    let mut i: usize = 0;
    while i < v.len()
        invariant
            i <= v.len(),
            keys.len() == i,
            forall|k: int| 0 <= k < i ==> #[trigger] keys@[k].deep_view() == seq![v@[k]@],
        decreases v.len() - i,
    {
        let mut one: Vec<String> = Vec::new();
        one.push(v[i].clone());
        proof {
            assert(one.deep_view() =~= seq![v@[i as int]@]);
        }
        keys.push(one);
        i += 1;
    }
    let ghost dk = keys.deep_view();
    assert forall|k: int| 0 <= k < dk.len() implies #[trigger] dk[k] == seq![v@[k]@] by {
        assert(dk[k] == keys@[k].deep_view());
    }
    let p = stable_order(&keys);
    let ghost tv = crate::text::texts(v@);
    let mut r: Vec<String> = Vec::new();
    let mut j: usize = 0;
    while j < p.len()
        invariant
            dk == keys.deep_view(),
            dk.len() == v.len(),
            tv == crate::text::texts(v@),
            forall|k: int| 0 <= k < dk.len() ==> #[trigger] dk[k] == seq![v@[k]@],
            is_stable_order(dk, p@),
            j <= p.len(),
            strictly_sorted(crate::text::texts(r@)),
            forall|x: Seq<char>| crate::text::texts(r@).contains(x) ==> tv.contains(x),
            forall|k: int| 0 <= k < j ==> crate::text::texts(r@).contains(#[trigger] tv[p@[k] as int]),
            j > 0 ==> r.len() > 0 && r@.last()@ == tv[p@[j - 1] as int],
            j == 0 ==> r.len() == 0,
        decreases p.len() - j,
    {
        let idx = p[j];
        let ghost x = tv[idx as int];
        proof {
            assert(x == v@[idx as int]@);
        }
        let fresh = r.len() == 0 || !crate::text::text_eq(r[r.len() - 1].as_str(), v[idx].as_str());
        let ghost old_r = r@;
        if fresh {
            proof {
                if j > 0 {
                    let prev = p@[j - 1] as int;
                    assert(key_before(dk, prev, idx as int));
                    lemma_single_keys_lt(tv[prev], x);
                    assert(tv[prev] != x);
                    assert(text_lt(tv[prev], x));
                }
            }
            r.push(v[idx].clone());
            proof {
                let tr = crate::text::texts(r@);
                let to = crate::text::texts(old_r);
                assert(tr =~= to.push(x));
                if j > 0 {
                    let prev = p@[j - 1] as int;
                    assert(key_before(dk, prev, idx as int));
                    lemma_single_keys_lt(tv[prev], x);
                    assert(text_lt(tv[prev], x));
                    assert(to.last() == tv[prev]);
                    assert forall|a: int, b: int| 0 <= a < b < tr.len() implies text_lt(#[trigger] tr[a], #[trigger] tr[b]) by {
                        if b == to.len() {
                            if a < to.len() - 1 {
                                assert(text_lt(to[a], to[to.len() - 1]));
                                lemma_text_lt_transitive(to[a], tv[prev], x);
                            }
                        } else {
                            assert(tr[a] == to[a] && tr[b] == to[b]);
                        }
                    }
                }
                assert forall|y: Seq<char>| crate::text::texts(r@).contains(y) implies tv.contains(y) by {
                    if y == x {
                        assert(tv[idx as int] == x);
                    } else {
                        let q = choose|q: int| 0 <= q < crate::text::texts(r@).len() && crate::text::texts(r@)[q] == y;
                        assert(crate::text::texts(old_r)[q] == y);
                    }
                }
                assert forall|k: int| 0 <= k < j + 1 implies crate::text::texts(r@).contains(#[trigger] tv[p@[k] as int]) by {
                    if k == j {
                        assert(crate::text::texts(r@)[old_r.len() as int] == x);
                    } else {
                        let q = choose|q: int| 0 <= q < crate::text::texts(old_r).len() && crate::text::texts(old_r)[q] == tv[p@[k] as int];
                        assert(crate::text::texts(r@)[q] == tv[p@[k] as int]);
                    }
                }
            }
        } else {
            proof {
                assert(crate::text::texts(r@)[r.len() - 1] == x);
            }
        }
        j += 1;
    }
    proof {
        assert forall|y: Seq<char>| tv.contains(y) implies crate::text::texts(r@).contains(y) by {
            let q = choose|q: int| 0 <= q < tv.len() && tv[q] == y;
            assert(p@.to_set().contains(q as usize)) by {
                // p lists every position once
                lemma_perm_covers(p@, v.len() as nat, q as usize);
            }
            let k = choose|k: int| 0 <= k < p@.len() && p@[k] == q as usize;
            assert(tv[p@[k] as int] == y);
        }
        assert(crate::text::texts(r@).to_set() =~= tv.to_set());
    }
    r
}

/// A list of `n` distinct positions below `n` holds every position below `n`.
/// A finite non-empty set of texts has a least element.
pub proof fn lemma_least_text(s: Set<Seq<char>>) -> (m: Seq<char>)
    requires
        s.finite(),
        s.len() > 0,
    ensures
        s.contains(m),
        forall|x: Seq<char>| s.contains(x) && x != m ==> text_lt(m, x),
    decreases s.len(),
{
    let x = s.choose();
    let rest = s.remove(x);
    if rest.len() == 0 {
        assert forall|y: Seq<char>| s.contains(y) && y != x implies text_lt(x, y) by {
            assert(rest.contains(y));
        }
        x
    } else {
        let m2 = lemma_least_text(rest);
        lemma_text_lt_total(x, m2);
        if text_lt(x, m2) {
            assert forall|y: Seq<char>| s.contains(y) && y != x implies text_lt(x, y) by {
                assert(rest.contains(y));
                if y != m2 {
                    lemma_text_lt_transitive(x, m2, y);
                }
            }
            x
        } else {
            m2
        }
    }
}

/// Every finite set of texts can be listed in ascending order.
pub proof fn lemma_sorted_listing(s: Set<Seq<char>>) -> (q: Seq<Seq<char>>)
    requires
        s.finite(),
    ensures
        strictly_sorted(q),
        q.to_set() == s,
    decreases s.len(),
{
    if s.len() == 0 {
        let q = Seq::<Seq<char>>::empty();
        assert(q.to_set() =~= s);
        q
    } else {
        let m = lemma_least_text(s);
        let rest = lemma_sorted_listing(s.remove(m));
        let q = seq![m] + rest;
        assert forall|i: int, j: int| 0 <= i < j < q.len() implies text_lt(#[trigger] q[i], #[trigger] q[j]) by {
            if i == 0 {
                assert(q[j] == rest[j - 1]);
                assert(rest.to_set().contains(rest[j - 1]));
            } else {
                assert(q[i] == rest[i - 1] && q[j] == rest[j - 1]);
            }
        }
        assert forall|x: Seq<char>| q.to_set().contains(x) <==> s.contains(x) by {
            if s.contains(x) && x != m {
                assert(s.remove(m).contains(x));
                let k = choose|k: int| 0 <= k < rest.len() && rest[k] == x;
                assert(q[k + 1] == x);
            }
            if x == m {
                assert(q[0] == m);
            }
            if q.to_set().contains(x) {
                let k = choose|k: int| 0 <= k < q.len() && q[k] == x;
                if k > 0 {
                    assert(rest[k - 1] == x);
                    assert(rest.to_set().contains(x));
                }
            }
        }
        assert(q.to_set() =~= s);
        q
    }
}

pub proof fn lemma_perm_covers(p: Seq<usize>, n: nat, q: usize)
    requires
        p.len() == n,
        forall|i: int| 0 <= i < p.len() ==> #[trigger] p[i] < n,
        p.no_duplicates(),
        q < n,
        n <= usize::MAX,
    ensures
        p.to_set().contains(q),
{
    let s = p.to_set();
    p.unique_seq_to_set();
    let full = Set::new(|x: usize| x < n);
    assert(s.subset_of(full));
    lemma_range_set_len(n);
    if !s.contains(q) {
        assert(s.subset_of(full.remove(q)));
        vstd::set_lib::lemma_len_subset(s, full.remove(q));
    }
}

pub proof fn lemma_range_set_len(n: nat)
    requires
        n <= usize::MAX + 1,
    ensures
        Set::new(|x: usize| x < n).finite(),
        Set::new(|x: usize| x < n).len() == n,
    decreases n,
{
    let full = Set::new(|x: usize| x < n);
    if n == 0 {
        assert(full =~= Set::empty());
    } else {
        lemma_range_set_len((n - 1) as nat);
        let smaller = Set::new(|x: usize| x < (n - 1) as nat);
        let top = (n - 1) as usize;
        assert(top == n - 1);
        assert(!smaller.contains(top));
        assert(full =~= smaller.insert(top));
    }
}

} // verus!

verus! {

/// Two strictly sorted lists of texts with the same elements are the same
/// list: the sorted, repeat-free order of a set of texts is unique.
pub proof fn lemma_strictly_sorted_unique(a: Seq<Seq<char>>, b: Seq<Seq<char>>)
    requires
        strictly_sorted(a),
        strictly_sorted(b),
        a.to_set() == b.to_set(),
    ensures
        a == b,
    decreases a.len(),
{
    if a.len() == 0 {
        if b.len() > 0 {
            assert(b.to_set().contains(b[0]));
        }
        assert(a =~= b);
    } else if b.len() == 0 {
        assert(a.to_set().contains(a[0]));
    } else {
        assert(b.to_set().contains(a[0]));
        assert(a.to_set().contains(b[0]));
        let k = choose|k: int| 0 <= k < b.len() && b[k] == a[0];
        let m = choose|m: int| 0 <= m < a.len() && a[m] == b[0];
        if k > 0 {
            assert(text_lt(b[0], b[k]));
            if m > 0 {
                assert(text_lt(a[0], a[m]));
                lemma_text_lt_transitive(a[0], b[0], a[0]);
                lemma_text_lt_irreflexive(a[0]);
            } else {
                lemma_text_lt_irreflexive(a[0]);
            }
        }
        assert(a[0] == b[0]);
        let ar = a.drop_first();
        let br = b.drop_first();
        assert forall|x: Seq<char>| ar.to_set().contains(x) <==> br.to_set().contains(x) by {
            if ar.to_set().contains(x) {
                let i = choose|i: int| 0 <= i < ar.len() && ar[i] == x;
                assert(a[i + 1] == x);
                assert(text_lt(a[0], a[i + 1]));
                assert(a.to_set().contains(x));
                let j = choose|j: int| 0 <= j < b.len() && b[j] == x;
                if j == 0 {
                    lemma_text_lt_irreflexive(a[0]);
                }
                assert(br[j - 1] == x);
            }
            if br.to_set().contains(x) {
                let i = choose|i: int| 0 <= i < br.len() && br[i] == x;
                assert(b[i + 1] == x);
                assert(text_lt(b[0], b[i + 1]));
                assert(b.to_set().contains(x));
                let j = choose|j: int| 0 <= j < a.len() && a[j] == x;
                if j == 0 {
                    lemma_text_lt_irreflexive(b[0]);
                }
                assert(ar[j - 1] == x);
            }
        }
        assert(ar.to_set() =~= br.to_set());
        lemma_strictly_sorted_unique(ar, br);
        assert(a =~= seq![a[0]] + ar);
        assert(b =~= seq![b[0]] + br);
    }
}

} // verus!

verus! {

/// Each text as a one-part sort key.
pub open spec fn single_keys(ts: Seq<Seq<char>>) -> Seq<Seq<Seq<char>>> {
    ts.map_values(|t: Seq<char>| seq![t])
}

/// The permutation that sorts a list of texts stably.
pub fn stable_order_by_text(v: &Vec<String>) -> (p: Vec<usize>)
    ensures
        is_stable_order(single_keys(crate::text::texts(v@)), p@),
{
    let mut keys: Vec<Vec<String>> = Vec::new();
    let mut i: usize = 0;
    while i < v.len()
        invariant
            i <= v.len(),
            keys.len() == i,
            forall|j: int| 0 <= j < i ==> #[trigger] keys@[j].deep_view() == seq![v@[j]@],
        decreases v.len() - i,
    {
        let mut one: Vec<String> = Vec::new();
        one.push(v[i].clone());
        assert(one.deep_view() =~= seq![v@[i as int]@]);
        keys.push(one);
        i += 1;
    }
    let ghost sk = single_keys(crate::text::texts(v@));
    assert(keys.deep_view() =~= sk) by {
        assert forall|j: int| 0 <= j < sk.len() implies keys.deep_view()[j] == sk[j] by {
            assert(keys.deep_view()[j] == keys@[j].deep_view());
        }
    }
    stable_order(&keys)
}

} // verus!

verus! {

/// Position `x` comes before `y` in a stable sort by integer keys.
pub open spec fn int_key_before(keys: Seq<int>, x: int, y: int) -> bool {
    keys[x] < keys[y] || (keys[x] == keys[y] && x < y)
}

/// `p` lists every position of `keys` once, in the order of a stable sort.
pub open spec fn is_stable_int_order(keys: Seq<int>, p: Seq<usize>) -> bool {
    &&& p.len() == keys.len()
    &&& forall|i: int| 0 <= i < p.len() ==> #[trigger] p[i] < keys.len()
    &&& p.no_duplicates()
    &&& forall|a: int, b: int|
        0 <= a < b < p.len() ==> int_key_before(keys, #[trigger] p[a] as int, #[trigger] p[b] as int)
}

/// The integer keys of a list of `i32`.
pub open spec fn int_keys(v: Seq<i32>) -> Seq<int> {
    v.map_values(|x: i32| x as int)
}

/// The permutation that sorts integer keys stably.
pub fn stable_order_by_int(keys: &Vec<i32>) -> (p: Vec<usize>)
    ensures
        is_stable_int_order(int_keys(keys@), p@),
{
    let ghost dk = int_keys(keys@);
    let mut p: Vec<usize> = Vec::new();
    let n = keys.len();
    let mut i: usize = 0;
    while i < n
        invariant
            n == keys.len(),
            dk == int_keys(keys@),
            dk.len() == n,
            i <= n,
            p.len() == i,
            forall|k: int| 0 <= k < p.len() ==> #[trigger] p@[k] < i,
            p@.no_duplicates(),
            forall|a: int, b: int|
                0 <= a < b < p.len() ==> int_key_before(dk, #[trigger] p@[a] as int, #[trigger] p@[b] as int),
        decreases n - i,
    {
        let mut j: usize = 0;
        while j < p.len()
            invariant
                n == keys.len(),
                dk == int_keys(keys@),
                dk.len() == n,
                i < n,
                p.len() == i,
                j <= p.len(),
                forall|k: int| 0 <= k < p.len() ==> #[trigger] p@[k] < i,
                forall|k: int| 0 <= k < j ==> !(dk[i as int] < dk[#[trigger] p@[k] as int]),
            ensures
                j <= p.len(),
                forall|k: int| 0 <= k < j ==> !(dk[i as int] < dk[#[trigger] p@[k] as int]),
                j < p.len() ==> dk[i as int] < dk[p@[j as int] as int],
            decreases p.len() - j,
        {
            if keys[i] < keys[p[j]] {
                break;
            }
            j += 1;
        }
        let ghost old_p = p@;
        p.insert(j, i);
        proof {
            assert forall|k: int| 0 <= k < p.len() implies #[trigger] p@[k] < i + 1 by {
                if k < j {
                    assert(p@[k] == old_p[k]);
                } else if k > j {
                    assert(p@[k] == old_p[k - 1]);
                }
            }
            assert forall|x: int, y: int| 0 <= x < y < p.len() implies p@[x] != p@[y] by {
                if x < j && y < j {
                    assert(old_p[x] != old_p[y]);
                } else if x < j && y > j {
                    assert(old_p[x] != old_p[y - 1]);
                } else if x > j && y > j {
                    assert(old_p[x - 1] != old_p[y - 1]);
                } else if x == j {
                    assert(old_p[y - 1] < i);
                } else {
                    assert(old_p[x] < i);
                }
            }
            assert forall|a: int, b: int| 0 <= a < b < p.len() implies int_key_before(dk, #[trigger] p@[a] as int, #[trigger] p@[b] as int) by {
                let pa = p@[a] as int;
                let pb = p@[b] as int;
                if b < j {
                    assert(pa == old_p[a] && pb == old_p[b]);
                } else if a < j && b == j {
                    assert(pa == old_p[a]);
                } else if a < j && b > j {
                    assert(pa == old_p[a] && pb == old_p[b - 1]);
                } else if a == j {
                    assert(pb == old_p[b - 1]);
                    let pj = old_p[j as int] as int;
                    if b - 1 > j {
                        assert(int_key_before(dk, pj, pb));
                    }
                } else {
                    assert(pa == old_p[a - 1] && pb == old_p[b - 1]);
                }
            }
        }
        i += 1;
    }
    p
}


} // verus!

verus! {

/// Rank `a` is ahead of rank `b`: a higher first component, or an equal
/// first and a higher second.
pub open spec fn rank_ahead(a: (usize, usize), b: (usize, usize)) -> bool {
    a.0 > b.0 || (a.0 == b.0 && a.1 > b.1)
}

/// Position `x` comes before `y` in a stable sort by descending ranks.
pub open spec fn rank_before(keys: Seq<(usize, usize)>, x: int, y: int) -> bool {
    rank_ahead(keys[x], keys[y]) || (keys[x] == keys[y] && x < y)
}

/// `p` lists every position of `keys` once, ranks descending, ties in their
/// original order.
pub open spec fn is_stable_rank_order(keys: Seq<(usize, usize)>, p: Seq<usize>) -> bool {
    &&& p.len() == keys.len()
    &&& forall|i: int| 0 <= i < p.len() ==> #[trigger] p[i] < keys.len()
    &&& p.no_duplicates()
    &&& forall|a: int, b: int|
        0 <= a < b < p.len() ==> rank_before(keys, #[trigger] p[a] as int, #[trigger] p[b] as int)
}

/// The permutation that sorts ranks descending, stably.
pub fn stable_order_by_rank(keys: &Vec<(usize, usize)>) -> (p: Vec<usize>)
    ensures
        is_stable_rank_order(keys@, p@),
{
    let ghost dk = keys@;
    let mut p: Vec<usize> = Vec::new();
    let n = keys.len();
    let mut i: usize = 0;
    while i < n
        invariant
            n == keys.len(),
            dk == keys@,
            dk.len() == n,
            i <= n,
            p.len() == i,
            forall|k: int| 0 <= k < p.len() ==> #[trigger] p@[k] < i,
            p@.no_duplicates(),
            forall|a: int, b: int|
                0 <= a < b < p.len() ==> rank_before(dk, #[trigger] p@[a] as int, #[trigger] p@[b] as int),
        decreases n - i,
    {
        let mut j: usize = 0;
        while j < p.len()
            invariant
                n == keys.len(),
                dk == keys@,
                dk.len() == n,
                i < n,
                p.len() == i,
                j <= p.len(),
                forall|k: int| 0 <= k < p.len() ==> #[trigger] p@[k] < i,
                forall|k: int| 0 <= k < j ==> !rank_ahead(dk[i as int], dk[#[trigger] p@[k] as int]),
            ensures
                j <= p.len(),
                forall|k: int| 0 <= k < j ==> !rank_ahead(dk[i as int], dk[#[trigger] p@[k] as int]),
                j < p.len() ==> rank_ahead(dk[i as int], dk[p@[j as int] as int]),
            decreases p.len() - j,
        {
            let ki = keys[i];
            let kj = keys[p[j]];
            if ki.0 > kj.0 || (ki.0 == kj.0 && ki.1 > kj.1) {
                break;
            }
            j += 1;
        }
        let ghost old_p = p@;
        p.insert(j, i);
        proof {
            assert forall|k: int| 0 <= k < p.len() implies #[trigger] p@[k] < i + 1 by {
                if k < j {
                    assert(p@[k] == old_p[k]);
                } else if k > j {
                    assert(p@[k] == old_p[k - 1]);
                }
            }
            assert forall|x: int, y: int| 0 <= x < y < p.len() implies p@[x] != p@[y] by {
                if x < j && y < j {
                    assert(old_p[x] != old_p[y]);
                } else if x < j && y > j {
                    assert(old_p[x] != old_p[y - 1]);
                } else if x > j && y > j {
                    assert(old_p[x - 1] != old_p[y - 1]);
                } else if x == j {
                    assert(old_p[y - 1] < i);
                } else {
                    assert(old_p[x] < i);
                }
            }
            assert forall|a: int, b: int| 0 <= a < b < p.len() implies rank_before(dk, #[trigger] p@[a] as int, #[trigger] p@[b] as int) by {
                let pa = p@[a] as int;
                let pb = p@[b] as int;
                if b < j {
                    assert(pa == old_p[a] && pb == old_p[b]);
                } else if a < j && b == j {
                    assert(pa == old_p[a]);
                } else if a < j && b > j {
                    assert(pa == old_p[a] && pb == old_p[b - 1]);
                } else if a == j {
                    assert(pb == old_p[b - 1]);
                    let pj = old_p[j as int] as int;
                    if b - 1 > j {
                        assert(rank_before(dk, pj, pb));
                    }
                } else {
                    assert(pa == old_p[a - 1] && pb == old_p[b - 1]);
                }
            }
        }
        i += 1;
    }
    p
}

} // verus!

verus! {

/// Order on (text, integer, text) keys: by the first text, then the
/// integer, then the second text.
pub open spec fn triple_lt(a: (Seq<char>, int, Seq<char>), b: (Seq<char>, int, Seq<char>)) -> bool {
    text_lt(a.0, b.0) || (a.0 == b.0 && (a.1 < b.1 || (a.1 == b.1 && text_lt(a.2, b.2))))
}

pub proof fn lemma_triple_lt_total(a: (Seq<char>, int, Seq<char>), b: (Seq<char>, int, Seq<char>))
    ensures
        a == b || triple_lt(a, b) || triple_lt(b, a),
{
    lemma_text_lt_total(a.0, b.0);
    lemma_text_lt_total(a.2, b.2);
}

pub proof fn lemma_triple_lt_transitive(
    a: (Seq<char>, int, Seq<char>),
    b: (Seq<char>, int, Seq<char>),
    c: (Seq<char>, int, Seq<char>),
)
    requires
        triple_lt(a, b),
        triple_lt(b, c),
    ensures
        triple_lt(a, c),
{
    lemma_text_lt_total(a.0, b.0);
    lemma_text_lt_total(b.0, c.0);
    lemma_text_lt_total(a.0, c.0);
    if text_lt(a.0, b.0) && text_lt(b.0, c.0) {
        lemma_text_lt_transitive(a.0, b.0, c.0);
    }
    if a.0 == b.0 && b.0 == c.0 && a.1 == b.1 && b.1 == c.1 {
        lemma_text_lt_transitive(a.2, b.2, c.2);
    }
}

/// Position `x` comes before `y` in a stable sort by triple keys.
pub open spec fn triple_before(keys: Seq<(Seq<char>, int, Seq<char>)>, x: int, y: int) -> bool {
    triple_lt(keys[x], keys[y]) || (keys[x] == keys[y] && x < y)
}

/// `p` lists every position of `keys` once, in the order of a stable sort.
pub open spec fn is_stable_triple_order(keys: Seq<(Seq<char>, int, Seq<char>)>, p: Seq<usize>) -> bool {
    &&& p.len() == keys.len()
    &&& forall|i: int| 0 <= i < p.len() ==> #[trigger] p[i] < keys.len()
    &&& p.no_duplicates()
    &&& forall|a: int, b: int|
        0 <= a < b < p.len() ==> triple_before(keys, #[trigger] p[a] as int, #[trigger] p[b] as int)
}

/// The triple keys of a list, as plain values.
pub open spec fn triple_keys(v: Seq<(String, i32, String)>) -> Seq<(Seq<char>, int, Seq<char>)> {
    v.map_values(|t: (String, i32, String)| (t.0@, t.1 as int, t.2@))
}

fn triple_less(a: &(String, i32, String), b: &(String, i32, String)) -> (r: bool)
    ensures
        r == triple_lt((a.0@, a.1 as int, a.2@), (b.0@, b.1 as int, b.2@)),
{
    match compare_text(a.0.as_str(), b.0.as_str()) {
        TextOrder::Less => true,
        TextOrder::Greater => {
            proof {
                lemma_text_lt_total(a.0@, b.0@);
            }
            false
        },
        TextOrder::Equal => {
            if a.1 < b.1 {
                true
            } else if a.1 > b.1 {
                false
            } else {
                compare_text(a.2.as_str(), b.2.as_str()) == TextOrder::Less
            }
        },
    }
}

/// The permutation that sorts triple keys stably.
pub fn stable_order_by_triple(keys: &Vec<(String, i32, String)>) -> (p: Vec<usize>)
    ensures
        is_stable_triple_order(triple_keys(keys@), p@),
{
    let ghost dk = triple_keys(keys@);
    let mut p: Vec<usize> = Vec::new();
    let n = keys.len();
    let mut i: usize = 0;
    while i < n
        invariant
            n == keys.len(),
            dk == triple_keys(keys@),
            dk.len() == n,
            i <= n,
            p.len() == i,
            forall|k: int| 0 <= k < p.len() ==> #[trigger] p@[k] < i,
            p@.no_duplicates(),
            forall|a: int, b: int|
                0 <= a < b < p.len() ==> triple_before(dk, #[trigger] p@[a] as int, #[trigger] p@[b] as int),
        decreases n - i,
    {
        let mut j: usize = 0;
        while j < p.len()
            invariant
                n == keys.len(),
                dk == triple_keys(keys@),
                dk.len() == n,
                i < n,
                p.len() == i,
                j <= p.len(),
                forall|k: int| 0 <= k < p.len() ==> #[trigger] p@[k] < i,
                forall|k: int| 0 <= k < j ==> !triple_lt(dk[i as int], dk[#[trigger] p@[k] as int]),
            ensures
                j <= p.len(),
                forall|k: int| 0 <= k < j ==> !triple_lt(dk[i as int], dk[#[trigger] p@[k] as int]),
                j < p.len() ==> triple_lt(dk[i as int], dk[p@[j as int] as int]),
            decreases p.len() - j,
        {
            let less = triple_less(&keys[i], &keys[p[j]]);
            proof {
                assert(dk[i as int] == (keys@[i as int].0@, keys@[i as int].1 as int, keys@[i as int].2@));
                assert(dk[p@[j as int] as int] == (
                    keys@[p@[j as int] as int].0@,
                    keys@[p@[j as int] as int].1 as int,
                    keys@[p@[j as int] as int].2@,
                ));
            }
            if less {
                break;
            }
            j += 1;
        }
        let ghost old_p = p@;
        p.insert(j, i);
        proof {
            assert forall|k: int| 0 <= k < p.len() implies #[trigger] p@[k] < i + 1 by {
                if k < j {
                    assert(p@[k] == old_p[k]);
                } else if k > j {
                    assert(p@[k] == old_p[k - 1]);
                }
            }
            assert forall|x: int, y: int| 0 <= x < y < p.len() implies p@[x] != p@[y] by {
                if x < j && y < j {
                    assert(old_p[x] != old_p[y]);
                } else if x < j && y > j {
                    assert(old_p[x] != old_p[y - 1]);
                } else if x > j && y > j {
                    assert(old_p[x - 1] != old_p[y - 1]);
                } else if x == j {
                    assert(old_p[y - 1] < i);
                } else {
                    assert(old_p[x] < i);
                }
            }
            assert forall|a: int, b: int| 0 <= a < b < p.len() implies triple_before(dk, #[trigger] p@[a] as int, #[trigger] p@[b] as int) by {
                let pa = p@[a] as int;
                let pb = p@[b] as int;
                if b < j {
                    assert(pa == old_p[a] && pb == old_p[b]);
                } else if a < j && b == j {
                    assert(pa == old_p[a]);
                    assert(!triple_lt(dk[i as int], dk[pa]));
                    lemma_triple_lt_total(dk[i as int], dk[pa]);
                } else if a < j && b > j {
                    assert(pa == old_p[a] && pb == old_p[b - 1]);
                } else if a == j {
                    assert(pb == old_p[b - 1]);
                    let pj = old_p[j as int] as int;
                    assert(triple_lt(dk[i as int], dk[pj]));
                    if b - 1 > j {
                        assert(triple_before(dk, pj, pb));
                        if triple_lt(dk[pj], dk[pb]) {
                            lemma_triple_lt_transitive(dk[i as int], dk[pj], dk[pb]);
                        }
                    }
                } else {
                    assert(pa == old_p[a - 1] && pb == old_p[b - 1]);
                }
            }
        }
        i += 1;
    }
    p
}

} // verus!
