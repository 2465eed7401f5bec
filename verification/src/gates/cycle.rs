//! Cycle detection in the derivation graph. Each spec makes its output
//! attribute depend on its inputs (a later spec with the same output
//! replaces an earlier one). An attribute is settled when all its inputs are
//! settled; the attributes that never settle are those on a cycle or fed by
//! one, and the specs producing them are reported.

use vstd::prelude::*;
use vstd::string::*;

use crate::gates::{bare_failure, failure_views, DerivationInput, DerivationSpecBody, FailureView, GateFailure, GateSeverity};
use crate::text::{contains_text, join2, join_with, joined_with, text_eq, texts};

verus! {

broadcast use vstd::string::group_string_axioms;

/// The position of the last spec producing `o`, or -1.
pub open spec fn last_spec_index(specs: Seq<DerivationSpecBody>, o: Seq<char>) -> int
    decreases specs.len(),
{
    if specs.len() == 0 {
        -1
    } else if specs.last().output_attribute_fqn@ == o {
        specs.len() - 1
    } else {
        last_spec_index(specs.drop_last(), o)
    }
}

/// The inputs of the attribute `n`: those of the last spec producing it.
pub open spec fn preds(specs: Seq<DerivationSpecBody>, n: Seq<char>) -> Seq<Seq<char>> {
    let i = last_spec_index(specs, n);
    if i >= 0 {
        specs[i].inputs@.map_values(|x: DerivationInput| x.attribute_fqn@)
    } else {
        Seq::empty()
    }
}

/// `n` is settled within `k` rounds: all its inputs are settled within `k - 1`.
pub open spec fn settled(specs: Seq<DerivationSpecBody>, n: Seq<char>, k: nat) -> bool
    decreases k,
{
    k > 0 && forall|j: int| 0 <= j < preds(specs, n).len() ==> settled(specs, #[trigger] preds(specs, n)[j], (k - 1) as nat)
}

/// `n` settles in some finite number of rounds.
pub open spec fn well_founded(specs: Seq<DerivationSpecBody>, n: Seq<char>) -> bool {
    exists|k: nat| settled(specs, n, k)
}

/// The output attributes in order of first appearance, each once.
pub open spec fn distinct_outputs(specs: Seq<DerivationSpecBody>) -> Seq<Seq<char>>
    decreases specs.len(),
{
    if specs.len() == 0 {
        Seq::empty()
    } else {
        let r = distinct_outputs(specs.drop_last());
        if r.contains(specs.last().output_attribute_fqn@) {
            r
        } else {
            r.push(specs.last().output_attribute_fqn@)
        }
    }
}

/// Among `outs`, the FQNs of the specs producing the attributes that never settle.
pub open spec fn unsettled_specs(specs: Seq<DerivationSpecBody>, outs: Seq<Seq<char>>) -> Seq<Seq<char>>
    decreases outs.len(),
{
    if outs.len() == 0 {
        Seq::empty()
    } else {
        let r = unsettled_specs(specs, outs.drop_last());
        if well_founded(specs, outs.last()) {
            r
        } else {
            r.push(specs[last_spec_index(specs, outs.last())].fqn@)
        }
    }
}

/// The cycle failure, when some attribute never settles: it names the specs
/// producing such attributes, in the order their outputs first appear.
pub open spec fn cycle_failures(specs: Seq<DerivationSpecBody>) -> Seq<FailureView> {
    let names = unsettled_specs(specs, distinct_outputs(specs));
    if names.len() == 0 {
        Seq::empty()
    } else {
        seq![
            bare_failure(
                "derivation_cycle"@,
                GateSeverity::Error,
                "derivation_spec"@,
                "Cycle detected in derivation graph involving: "@ + joined_with(names, ", "@),
            ),
        ]
    }
}

proof fn lemma_last_index(specs: Seq<DerivationSpecBody>, o: Seq<char>)
    ensures
        -1 <= last_spec_index(specs, o) < specs.len(),
        last_spec_index(specs, o) >= 0 ==> specs[last_spec_index(specs, o)].output_attribute_fqn@ == o,
        forall|j: int| last_spec_index(specs, o) < j < specs.len() ==> specs[j].output_attribute_fqn@ != o,
    decreases specs.len(),
{
    if specs.len() > 0 {
        lemma_last_index(specs.drop_last(), o);
        assert forall|j: int| last_spec_index(specs, o) < j < specs.len() implies specs[j].output_attribute_fqn@
            != o by {
            if j < specs.len() - 1 {
                assert(specs.drop_last()[j] == specs[j]);
            }
        }
    }
}

proof fn lemma_distinct_outputs(specs: Seq<DerivationSpecBody>)
    ensures
        distinct_outputs(specs).no_duplicates(),
        forall|o: Seq<char>| distinct_outputs(specs).contains(o) <==> last_spec_index(specs, o) >= 0,
    decreases specs.len(),
{
    if specs.len() > 0 {
        lemma_distinct_outputs(specs.drop_last());
        let r = distinct_outputs(specs.drop_last());
        let l = specs.last().output_attribute_fqn@;
        assert forall|o: Seq<char>| distinct_outputs(specs).contains(o) <==> last_spec_index(specs, o) >= 0 by {
            if !r.contains(l) {
                let d = r.push(l);
                if d.contains(o) && o != l {
                    let k = choose|k: int| 0 <= k < d.len() && d[k] == o;
                    assert(r[k] == o);
                }
                if r.contains(o) {
                    let k = choose|k: int| 0 <= k < r.len() && r[k] == o;
                    assert(d[k] == o);
                }
                if o == l {
                    assert(d[r.len() as int] == o);
                }
            }
        }
        if !r.contains(l) {
            assert forall|a: int, b: int| 0 <= a < b < r.push(l).len() implies r.push(l)[a] != r.push(l)[b] by {
                if b == r.len() {
                    assert(r.contains(r[a]));
                }
            }
        }
    }
}

proof fn lemma_settled_monotone(specs: Seq<DerivationSpecBody>, n: Seq<char>, k: nat)
    requires
        settled(specs, n, k),
    ensures
        settled(specs, n, k + 1),
    decreases k,
{
    let ps = preds(specs, n);
    assert forall|j: int| 0 <= j < ps.len() implies settled(specs, #[trigger] ps[j], k) by {
        lemma_settled_monotone(specs, ps[j], (k - 1) as nat);
    }
}

proof fn lemma_settled_le(specs: Seq<DerivationSpecBody>, n: Seq<char>, j: nat, k: nat)
    requires
        settled(specs, n, j),
        j <= k,
    ensures
        settled(specs, n, k),
    decreases k - j,
{
    if j < k {
        lemma_settled_monotone(specs, n, j);
        lemma_settled_le(specs, n, j + 1, k);
    }
}

/// A non-output attribute has no inputs: it settles in any positive number of rounds.
proof fn lemma_source_settled(specs: Seq<DerivationSpecBody>, n: Seq<char>, k: nat)
    requires
        last_spec_index(specs, n) < 0,
    ensures
        settled(specs, n, k) == (k > 0),
{
    assert(preds(specs, n).len() == 0);
}

/// Once the outputs settle the same in rounds `k` and `k + 1` (with `k > 0`),
/// every attribute settles in round `k + d` exactly as in round `k`.
proof fn lemma_stable(specs: Seq<DerivationSpecBody>, k: nat, d: nat, n: Seq<char>)
    requires
        k > 0,
        forall|o: Seq<char>| #[trigger] last_spec_index(specs, o) >= 0 ==> settled(specs, o, k + 1) == settled(specs, o, k),
    ensures
        settled(specs, n, k + d) == settled(specs, n, k),
    decreases d,
{
    if d > 0 {
        let ps = preds(specs, n);
        assert forall|j: int| 0 <= j < ps.len() implies settled(specs, #[trigger] ps[j], (k + d - 1) as nat) == settled(
            specs,
            ps[j],
            k,
        ) by {
            lemma_stable(specs, k, (d - 1) as nat, ps[j]);
        }
        assert(settled(specs, n, k + d) == settled(specs, n, k + 1));
        if last_spec_index(specs, n) < 0 {
            lemma_source_settled(specs, n, k);
            lemma_source_settled(specs, n, k + d);
        }
    }
}

/// At a fixpoint round `k > 0`, an attribute is well founded exactly when it
/// is settled in round `k`.
proof fn lemma_fixpoint_decides(specs: Seq<DerivationSpecBody>, k: nat, n: Seq<char>)
    requires
        k > 0,
        forall|o: Seq<char>| #[trigger] last_spec_index(specs, o) >= 0 ==> settled(specs, o, k + 1) == settled(specs, o, k),
    ensures
        well_founded(specs, n) == settled(specs, n, k),
{
    if well_founded(specs, n) {
        let j = choose|j: nat| settled(specs, n, j);
        if j <= k {
            lemma_settled_le(specs, n, j, k);
        } else {
            lemma_stable(specs, k, (j - k) as nat, n);
        }
    }
}

/// The position of the last spec producing `o`.
fn last_spec_of(specs: &Vec<DerivationSpecBody>, o: &str) -> (r: Option<usize>)
    ensures
        match r {
            Some(i) => i < specs@.len() && i as int == last_spec_index(specs@, o@),
            None => last_spec_index(specs@, o@) == -1,
        },
{
    proof {
        lemma_last_index(specs@, o@);
    }
    let mut i: usize = specs.len();
    while i > 0
        invariant
            i <= specs.len(),
            forall|j: int| i <= j < specs.len() ==> specs@[j].output_attribute_fqn@ != o@,
            -1 <= last_spec_index(specs@, o@) < specs@.len(),
            last_spec_index(specs@, o@) >= 0 ==> specs@[last_spec_index(specs@, o@)].output_attribute_fqn@ == o@,
            forall|j: int| last_spec_index(specs@, o@) < j < specs@.len() ==> specs@[j].output_attribute_fqn@ != o@,
        decreases i,
    {
        if text_eq(specs[i - 1].output_attribute_fqn.as_str(), o) {
            return Some(i - 1);
        }
        i -= 1;
    }
    None
}

/// The distinct output attributes in order of first appearance.
fn outputs_of(specs: &Vec<DerivationSpecBody>) -> (r: Vec<String>)
    ensures
        texts(r@) == distinct_outputs(specs@),
{
    let mut r: Vec<String> = Vec::new();
    let mut i: usize = 0;
    while i < specs.len()
        invariant
            i <= specs.len(),
            texts(r@) == distinct_outputs(specs@.take(i as int)),
        decreases specs.len() - i,
    {
        assert(specs@.take(i + 1).drop_last() =~= specs@.take(i as int));
        let o = &specs[i].output_attribute_fqn;
        if !contains_text(&r, o.as_str()) {
            let ghost before = texts(r@);
            r.push(o.clone());
            assert(texts(r@) =~= before.push(o@));
        }
        i += 1;
    }
    assert(specs@.take(specs.len() as int) =~= specs@);
    r
}

/// The settledness of each output in the next round, given that of the
/// current round `k`.
fn next_round(
    specs: &Vec<DerivationSpecBody>,
    outs: &Vec<String>,
    flags: &Vec<bool>,
    positive: bool,
    Ghost(k): Ghost<nat>,
) -> (r: Vec<bool>)
    requires
        positive == (k > 0),
        texts(outs@) == distinct_outputs(specs@),
        flags@.len() == outs@.len(),
        forall|i: int| 0 <= i < outs@.len() ==> flags@[i] == settled(specs@, #[trigger] outs@[i]@, k),
    ensures
        r@.len() == outs@.len(),
        forall|i: int| 0 <= i < outs@.len() ==> r@[i] == settled(specs@, #[trigger] outs@[i]@, k + 1),
{
    proof {
        lemma_distinct_outputs(specs@);
    }
    let mut r: Vec<bool> = Vec::new();
    let mut i: usize = 0;
    while i < outs.len()
        invariant
            positive == (k > 0),
            i <= outs.len(),
            texts(outs@) == distinct_outputs(specs@),
            flags@.len() == outs@.len(),
            forall|q: int| 0 <= q < outs@.len() ==> flags@[q] == settled(specs@, #[trigger] outs@[q]@, k),
            forall|o: Seq<char>| distinct_outputs(specs@).contains(o) <==> last_spec_index(specs@, o) >= 0,
            r@.len() == i,
            forall|q: int| 0 <= q < i ==> r@[q] == settled(specs@, #[trigger] outs@[q]@, k + 1),
        decreases outs.len() - i,
    {
        let ghost n = outs@[i as int]@;
        let ghost ps = preds(specs@, n);
        let mut all = true;
        match last_spec_of(specs, outs[i].as_str()) {
            None => {
                assert(ps.len() == 0);
            },
            Some(si) => {
                let inputs = &specs[si].inputs;
                assert(ps == inputs@.map_values(|x: DerivationInput| x.attribute_fqn@));
                let mut j: usize = 0;
                while j < inputs.len()
                    invariant
                        positive == (k > 0),
                        j <= inputs.len(),
                        ps == inputs@.map_values(|x: DerivationInput| x.attribute_fqn@),
                        texts(outs@) == distinct_outputs(specs@),
                        flags@.len() == outs@.len(),
                        forall|q: int| 0 <= q < outs@.len() ==> flags@[q] == settled(specs@, #[trigger] outs@[q]@, k),
                        forall|o: Seq<char>| distinct_outputs(specs@).contains(o) <==> last_spec_index(specs@, o) >= 0,
                        all == (forall|t: int| 0 <= t < j ==> settled(specs@, #[trigger] ps[t], k)),
                    decreases inputs.len() - j,
                {
                    let p = inputs[j].attribute_fqn.as_str();
                    assert(ps[j as int] == p@);
                    let mut q: usize = 0;
                    let mut found = false;
                    while q < outs.len()
                        invariant_except_break
                            !found,
                        invariant
                            q <= outs.len(),
                            forall|t: int| 0 <= t < q ==> outs@[t]@ != p@,
                        ensures
                            q <= outs.len(),
                            found ==> q < outs.len() && outs@[q as int]@ == p@,
                            !found ==> forall|t: int| 0 <= t < outs@.len() ==> outs@[t]@ != p@,
                        decreases outs.len() - q,
                    {
                        if text_eq(outs[q].as_str(), p) {
                            found = true;
                            break;
                        }
                        q += 1;
                    }
                    let s = if found {
                        flags[q]
                    } else {
                        proof {
                            if last_spec_index(specs@, p@) >= 0 {
                                assert(distinct_outputs(specs@).contains(p@));
                                let t = choose|t: int| 0 <= t < distinct_outputs(specs@).len() && distinct_outputs(specs@)[t] == p@;
                                assert(texts(outs@)[t] == outs@[t]@);
                            }
                            lemma_source_settled(specs@, p@, k);
                        }
                        positive
                    };
                    all = all && s;
                    j += 1;
                }
            },
        }
        assert(all == settled(specs@, n, k + 1));
        r.push(all);
        i += 1;
    }
    r
}

/// The number of `true` entries.
pub open spec fn count_true(s: Seq<bool>) -> nat
    decreases s.len(),
{
    if s.len() == 0 {
        0
    } else {
        count_true(s.drop_last()) + if s.last() { 1nat } else { 0nat }
    }
}

proof fn lemma_count_grows(a: Seq<bool>, b: Seq<bool>)
    requires
        a.len() == b.len(),
        forall|i: int| 0 <= i < a.len() && a[i] ==> b[i],
    ensures
        count_true(a) <= count_true(b),
        count_true(b) <= b.len(),
        (exists|i: int| 0 <= i < a.len() && b[i] && !a[i]) ==> count_true(a) < count_true(b),
    decreases a.len(),
{
    if a.len() > 0 {
        lemma_count_grows(a.drop_last(), b.drop_last());
        if exists|i: int| 0 <= i < a.len() && b[i] && !a[i] {
            let i = choose|i: int| 0 <= i < a.len() && b[i] && !a[i];
            if i < a.len() - 1 {
                assert(b.drop_last()[i] && !a.drop_last()[i]);
            }
        }
    }
}

/// `c` is a closed path of the derivation graph: each attribute is an input
/// of the one before it, and the first is an input of the last.
pub open spec fn is_cycle(specs: Seq<DerivationSpecBody>, c: Seq<Seq<char>>) -> bool {
    c.len() > 0 && forall|i: int| 0 <= i < c.len() ==> preds(specs, #[trigger] c[i]).contains(c[(i + 1) % (c.len() as int)])
}

proof fn lemma_cycle_never_settles(specs: Seq<DerivationSpecBody>, c: Seq<Seq<char>>, k: nat)
    requires
        is_cycle(specs, c),
    ensures
        forall|i: int| 0 <= i < c.len() ==> !settled(specs, #[trigger] c[i], k),
    decreases k,
{
    if k > 0 {
        lemma_cycle_never_settles(specs, c, (k - 1) as nat);
        assert forall|i: int| 0 <= i < c.len() implies !settled(specs, #[trigger] c[i], k) by {
            let nx = (i + 1) % (c.len() as int);
            let p = preds(specs, c[i]);
            assert(p.contains(c[nx]));
            let j = choose|j: int| 0 <= j < p.len() && p[j] == c[nx];
            assert(!settled(specs, c[nx], (k - 1) as nat));
            assert(!settled(specs, p[j], (k - 1) as nat));
        }
    }
}

proof fn lemma_unsettled_listed(specs: Seq<DerivationSpecBody>, outs: Seq<Seq<char>>, o: Seq<char>)
    requires
        outs.contains(o),
        !well_founded(specs, o),
    ensures
        unsettled_specs(specs, outs).len() > 0,
    decreases outs.len(),
{
    if outs.last() != o {
        let k = choose|k: int| 0 <= k < outs.len() && outs[k] == o;
        assert(outs.drop_last()[k] == o);
        lemma_unsettled_listed(specs, outs.drop_last(), o);
    }
}

/// A derivation graph with a cycle fails the check: no attribute on the
/// cycle ever settles, and the spec producing one of them is reported.
pub proof fn lemma_cycle_is_reported(specs: Seq<DerivationSpecBody>, c: Seq<Seq<char>>)
    requires
        is_cycle(specs, c),
    ensures
        forall|i: int| 0 <= i < c.len() ==> !well_founded(specs, #[trigger] c[i]),
        cycle_failures(specs).len() == 1,
{
    assert forall|i: int| 0 <= i < c.len() implies !well_founded(specs, #[trigger] c[i]) by {
        if well_founded(specs, c[i]) {
            let k = choose|k: nat| settled(specs, c[i], k);
            lemma_cycle_never_settles(specs, c, k);
        }
    }
    // the first attribute of the cycle has inputs, so some spec produces it
    assert(preds(specs, c[0]).contains(c[1int % (c.len() as int)]));
    assert(last_spec_index(specs, c[0]) >= 0);
    lemma_distinct_outputs(specs);
    lemma_unsettled_listed(specs, distinct_outputs(specs), c[0]);
}

proof fn lemma_common_bound(specs: Seq<DerivationSpecBody>, ps: Seq<Seq<char>>) -> (k: nat)
    requires
        forall|j: int| 0 <= j < ps.len() ==> well_founded(specs, #[trigger] ps[j]),
    ensures
        forall|j: int| 0 <= j < ps.len() ==> settled(specs, #[trigger] ps[j], k),
    decreases ps.len(),
{
    if ps.len() == 0 {
        0
    } else {
        let rest = ps.drop_last();
        assert forall|j: int| 0 <= j < rest.len() implies well_founded(specs, #[trigger] rest[j]) by {
            assert(rest[j] == ps[j]);
        }
        let k1 = lemma_common_bound(specs, rest);
        assert(well_founded(specs, ps[ps.len() - 1]));
        let k2 = choose|k: nat| #[trigger] settled(specs, ps[ps.len() - 1], k);
        let k = if k1 >= k2 {
            k1
        } else {
            k2
        };
        assert forall|j: int| 0 <= j < ps.len() implies settled(specs, #[trigger] ps[j], k) by {
            if j < ps.len() - 1 {
                assert(rest[j] == ps[j]);
                lemma_settled_le(specs, ps[j], k1, k);
            } else {
                lemma_settled_le(specs, ps[j], k2, k);
            }
        }
        k
    }
}

/// An attribute that never settles has an input that never settles.
proof fn lemma_unsettled_input(specs: Seq<DerivationSpecBody>, n: Seq<char>) -> (j: int)
    requires
        !well_founded(specs, n),
    ensures
        0 <= j < preds(specs, n).len(),
        !well_founded(specs, preds(specs, n)[j]),
{
    let ps = preds(specs, n);
    if forall|j: int| 0 <= j < ps.len() ==> well_founded(specs, #[trigger] ps[j]) {
        let k = lemma_common_bound(specs, ps);
        assert(settled(specs, n, k + 1));
        assert(false);
    }
    choose|j: int| 0 <= j < ps.len() && !well_founded(specs, #[trigger] ps[j])
}

/// A path of `m + 1` attributes that never settle, each an input of the one
/// before it.
proof fn lemma_unsettled_path(specs: Seq<DerivationSpecBody>, n: Seq<char>, m: nat) -> (p: Seq<Seq<char>>)
    requires
        !well_founded(specs, n),
    ensures
        p.len() == m + 1,
        p[0] == n,
        forall|i: int| 0 <= i < p.len() ==> !well_founded(specs, #[trigger] p[i]),
        forall|i: int| 0 <= i < m ==> preds(specs, #[trigger] p[i]).contains(p[i + 1]),
    decreases m,
{
    if m == 0 {
        seq![n]
    } else {
        let q = lemma_unsettled_path(specs, n, (m - 1) as nat);
        let last = q[m - 1];
        let j = lemma_unsettled_input(specs, last);
        let next = preds(specs, last)[j];
        let p = q.push(next);
        assert forall|i: int| 0 <= i < m implies preds(specs, #[trigger] p[i]).contains(p[i + 1]) by {
            if i < m - 1 {
                assert(p[i] == q[i] && p[i + 1] == q[i + 1]);
            } else {
                assert(p[i] == last && p[i + 1] == next);
                assert(preds(specs, last)[j] == next);
            }
        }
        assert forall|i: int| 0 <= i < p.len() implies !well_founded(specs, #[trigger] p[i]) by {
            if i < m {
                assert(p[i] == q[i]);
            }
        }
        p
    }
}

/// A derivation graph fails the check only when it has a cycle: an
/// attribute that never settles starts a path of unsettled attributes
/// longer than there are outputs, so one repeats.
pub proof fn lemma_failure_has_cycle(specs: Seq<DerivationSpecBody>)
    requires
        cycle_failures(specs).len() > 0,
    ensures
        exists|c: Seq<Seq<char>>| is_cycle(specs, c),
{
    let outs = distinct_outputs(specs);
    lemma_distinct_outputs(specs);
    let o = lemma_unsettled_member(specs, outs);
    let n = outs.len();
    let p = lemma_unsettled_path(specs, o, n);
    // every attribute on the path is an output
    assert forall|i: int| 0 <= i < p.len() implies outs.contains(#[trigger] p[i]) by {
        if last_spec_index(specs, p[i]) < 0 {
            lemma_source_settled(specs, p[i], 1);
        }
    }
    // so some attribute repeats
    if p.no_duplicates() {
        p.unique_seq_to_set();
        outs.unique_seq_to_set();
        assert(p.to_set().subset_of(outs.to_set()));
        vstd::set_lib::lemma_len_subset(p.to_set(), outs.to_set());
        assert(false);
    }
    let (a, b) = choose|a: int, b: int| 0 <= a < b < p.len() && p[a] == p[b];
    let c = p.subrange(a, b);
    assert forall|i: int| 0 <= i < c.len() implies preds(specs, #[trigger] c[i]).contains(c[(i + 1) % (c.len() as int)]) by {
        assert(c[i] == p[a + i]);
        assert(preds(specs, p[a + i]).contains(p[a + i + 1]));
        if i + 1 < c.len() {
            vstd::arithmetic::div_mod::lemma_small_mod((i + 1) as nat, c.len() as nat);
            assert(c[i + 1] == p[a + i + 1]);
        } else {
            vstd::arithmetic::div_mod::lemma_mod_self_0(c.len() as int);
            assert(c[0] == p[a]);
        }
    }
    assert(is_cycle(specs, c));
}

proof fn lemma_unsettled_member(specs: Seq<DerivationSpecBody>, outs: Seq<Seq<char>>) -> (o: Seq<char>)
    requires
        unsettled_specs(specs, outs).len() > 0,
    ensures
        outs.contains(o),
        !well_founded(specs, o),
    decreases outs.len(),
{
    let l = outs[outs.len() - 1];
    if !well_founded(specs, outs.last()) {
        l
    } else {
        let o = lemma_unsettled_member(specs, outs.drop_last());
        let k = choose|k: int| 0 <= k < outs.drop_last().len() && outs.drop_last()[k] == o;
        assert(outs[k] == o);
        o
    }
}

/// Check for cycles in a set of derivation specs: when some output attribute
/// never settles, one error names the specs producing the unsettled outputs.
pub fn check_derivation_cycle(specs: &Vec<DerivationSpecBody>) -> (r: Vec<GateFailure>)
    ensures
        failure_views(r@) == cycle_failures(specs@),
{
    proof {
        lemma_distinct_outputs(specs@);
    }
    let outs = outputs_of(specs);
    let n = outs.len();
    let mut flags: Vec<bool> = Vec::new();
    let mut i: usize = 0;
    while i < n
        invariant
            i <= n,
            n == outs.len(),
            flags@.len() == i,
            forall|q: int| 0 <= q < i ==> !flags@[q],
        decreases n - i,
    {
        flags.push(false);
        i += 1;
    }
    let ghost mut k: nat = 0;
    let mut positive = false;
    loop
        invariant
            n == outs.len(),
            texts(outs@) == distinct_outputs(specs@),
            forall|o: Seq<char>| distinct_outputs(specs@).contains(o) <==> last_spec_index(specs@, o) >= 0,
            flags@.len() == n,
            positive == (k > 0),
            forall|q: int| 0 <= q < n ==> flags@[q] == settled(specs@, #[trigger] outs@[q]@, k),
        ensures
            k > 0,
            flags@.len() == n,
            forall|q: int| 0 <= q < n ==> flags@[q] == settled(specs@, #[trigger] outs@[q]@, k),
            forall|q: int| 0 <= q < n ==> settled(specs@, #[trigger] outs@[q]@, k + 1) == settled(specs@, outs@[q]@, k),
        decreases (n - count_true(flags@)) + if k == 0 { 1int } else { 0int },
    {
        let next = next_round(specs, &outs, &flags, positive, Ghost(k));
        let mut same = true;
        let mut q: usize = 0;
        while q < n
            invariant
                q <= n,
                n == outs.len(),
                flags@.len() == n,
                next@.len() == n,
                same == (forall|t: int| 0 <= t < q ==> next@[t] == flags@[t]),
            decreases n - q,
        {
            same = same && next[q] == flags[q];
            q += 1;
        }
        proof {
            assert forall|t: int| 0 <= t < n && flags@[t] implies next@[t] by {
                lemma_settled_monotone(specs@, outs@[t]@, k);
            }
            lemma_count_grows(flags@, next@);
            lemma_count_grows(flags@, flags@);
        }
        if same && positive {
            break;
        }
        proof {
            if k > 0 {
                let t = choose|t: int| 0 <= t < n && next@[t] != flags@[t];
                assert(next@[t] && !flags@[t]);
            }
        }
        flags = next;
        proof {
            k = k + 1;
        }
        positive = true;
    }
    proof {
        assert forall|o: Seq<char>| #[trigger] last_spec_index(specs@, o) >= 0 implies settled(specs@, o, k + 1)
            == settled(specs@, o, k) by {
            assert(distinct_outputs(specs@).contains(o));
            let t = choose|t: int| 0 <= t < distinct_outputs(specs@).len() && distinct_outputs(specs@)[t] == o;
            assert(outs@[t]@ == o);
        }
    }
    let mut names: Vec<String> = Vec::new();
    let mut q: usize = 0;
    while q < n
        invariant
            q <= n,
            n == outs.len(),
            k > 0,
            texts(outs@) == distinct_outputs(specs@),
            flags@.len() == n,
            forall|t: int| 0 <= t < n ==> flags@[t] == settled(specs@, #[trigger] outs@[t]@, k),
            forall|o: Seq<char>| #[trigger] last_spec_index(specs@, o) >= 0 ==> settled(specs@, o, k + 1) == settled(specs@, o, k),
            forall|o: Seq<char>| distinct_outputs(specs@).contains(o) <==> last_spec_index(specs@, o) >= 0,
            texts(names@) == unsettled_specs(specs@, texts(outs@).take(q as int)),
        decreases n - q,
    {
        let ghost o = outs@[q as int]@;
        proof {
            assert(texts(outs@).take(q + 1).drop_last() =~= texts(outs@).take(q as int));
            assert(texts(outs@).take(q + 1).last() == o);
            lemma_fixpoint_decides(specs@, k, o);
        }
        if !flags[q] {
            proof {
                assert(texts(outs@)[q as int] == o);
                assert(distinct_outputs(specs@).contains(o));
            }
            let si = last_spec_of(specs, outs[q].as_str());
            let ghost before = texts(names@);
            match si {
                Some(si) => {
                    names.push(specs[si].fqn.clone());
                },
                None => {
                    assert(false);
                },
            }
            assert(texts(names@) =~= before.push(specs@[last_spec_index(specs@, o)].fqn@));
        }
        q += 1;
    }
    assert(texts(outs@).take(n as int) =~= texts(outs@));
    let mut r: Vec<GateFailure> = Vec::new();
    if names.len() > 0 {
        let listed = join_with(&names, ", ");
        let msg = join2("Cycle detected in derivation graph involving: ", listed.as_str());
        r.push(GateFailure::error("derivation_cycle", "derivation_spec", msg));
        assert(failure_views(r@) =~= cycle_failures(specs@));
    } else {
        assert(failure_views(r@) =~= cycle_failures(specs@));
    }
    r
}

} // verus!
