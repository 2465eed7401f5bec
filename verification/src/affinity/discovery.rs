//! Chain discovery on the affinity graph: the verbs to run before a primary
//! verb, the questions to ask for its missing arguments, and the governance
//! posture of the proposed chain.

use vstd::prelude::*;
use vstd::string::*;

use crate::affinity::{
    adjacency_view, data_for_verb_spec, index_key_of, is_adjacency, verbs_for_key, AffinityGraph,
    AffinityKind, DataAffinity, DataRef,
};
use crate::assoc::{keys_of, map_of, put_ordered};
use crate::ontology::{VerbArgDef, VerbContractBody};
use crate::order::{is_stable_rank_order, sorted_unique, stable_order_by_rank, strictly_sorted};
use crate::text::{
    alphanumeric, char_is_alphanumeric, char_is_whitespace, chars_of, contains_text, decimal, decimal_text,
    first_index, flat, has_prefix, join2, join3, join4, join6, join_with, joined_with, lemma_flat_take, lowercase,
    owned, starts_with_text, string_of_chars, string_of_range, text_eq, texts, to_lowercase_text, white_space,
};

verus! {

broadcast use vstd::string::group_string_axioms;

/// A suggested step in a chain of verbs.
#[derive(Debug, Clone, PartialEq, Eq)]
pub struct VerbChainSuggestion {
    pub verb: String,
    pub rationale: String,
    /// Argument name → placeholder value, in ascending name order.
    pub args: Vec<(String, String)>,
    /// The index keys of the data the verb touches, ascending and each once.
    pub data_footprint: Vec<String>,
}

/// A question for missing user context.
#[derive(Debug, Clone, PartialEq, Eq)]
pub struct DisambiguationPrompt {
    pub question: String,
    pub lookup: Option<String>,
    pub options: Vec<String>,
}

/// Governance posture of a proposed chain.
#[derive(Debug, Clone, PartialEq, Eq)]
pub struct GovernanceContext {
    pub all_tables_governed: bool,
    pub required_mode: String,
    pub policy_check: Option<String>,
}

// ── Required-argument placeholders ──────────────────────────────

/// The placeholder of a required argument: its default as JSON, or
/// `<required>`.
pub open spec fn placeholder(a: VerbArgDef) -> Seq<char> {
    match a.default {
        Some(d) => d@,
        None => "<required>"@,
    }
}

/// Required argument name → placeholder; a later argument of the same name
/// replaces an earlier one.
pub open spec fn required_args(args: Seq<VerbArgDef>) -> Map<Seq<char>, Seq<char>>
    decreases args.len(),
{
    if args.len() == 0 {
        Map::empty()
    } else {
        let m = required_args(args.drop_last());
        if args.last().required {
            m.insert(args.last().name@, placeholder(args.last()))
        } else {
            m
        }
    }
}

/// An argument list as texts.
pub open spec fn text_map(m: Map<Seq<char>, String>) -> Map<Seq<char>, Seq<char>> {
    m.map_values(|v: String| v@)
}

proof fn lemma_text_map_insert(m: Map<Seq<char>, String>, k: Seq<char>, v: String)
    ensures
        text_map(m.insert(k, v)) == text_map(m).insert(k, v@),
{
    assert(text_map(m.insert(k, v)) =~= text_map(m).insert(k, v@));
}

fn required_arg_placeholders(args: &Vec<VerbArgDef>) -> (r: Vec<(String, String)>)
    ensures
        strictly_sorted(keys_of(r@)),
        text_map(map_of(r@)) == required_args(args@),
{
    let mut r: Vec<(String, String)> = Vec::new();
    let mut i: usize = 0;
    assert(text_map(map_of(r@)) =~= Map::<Seq<char>, Seq<char>>::empty());
    while i < args.len()
        invariant
            i <= args.len(),
            strictly_sorted(keys_of(r@)),
            text_map(map_of(r@)) == required_args(args@.take(i as int)),
        decreases args.len() - i,
    {
        let a = &args[i];
        assert(args@.take(i + 1).drop_last() =~= args@.take(i as int));
        if a.required {
            let value = match &a.default {
                Some(d) => d.clone(),
                None => owned("<required>"),
            };
            let ghost before = map_of(r@);
            let ghost v = value;
            put_ordered(&mut r, a.name.clone(), value);
            proof {
                lemma_text_map_insert(before, a.name@, v);
            }
        }
        i += 1;
    }
    assert(args@.take(args.len() as int) =~= args@);
    r
}

// ── Chain synthesis ─────────────────────────────────────────────

/// The first contract for verb `v`, if any.
pub open spec fn first_contract(cs: Seq<VerbContractBody>, v: Seq<char>) -> Option<int> {
    if exists|i: int| 0 <= i < cs.len() && cs[i].fqn@ == v {
        Some(choose|i: int| 0 <= i < cs.len() && cs[i].fqn@ == v && forall|j: int| 0 <= j < i ==> cs[j].fqn@ != v)
    } else {
        None
    }
}

/// The required arguments of verb `v` by its first contract, or none.
pub open spec fn contract_args(cs: Seq<VerbContractBody>, v: Seq<char>) -> Map<Seq<char>, Seq<char>> {
    match first_contract(cs, v) {
        Some(i) => required_args(cs[i].args@),
        None => Map::empty(),
    }
}

fn find_contract(cs: &Vec<VerbContractBody>, v: &str) -> (r: Option<usize>)
    ensures
        match r {
            Some(i) => i < cs@.len() && first_contract(cs@, v@) == Some(i as int),
            None => first_contract(cs@, v@) is None,
        },
{
    let mut i: usize = 0;
    while i < cs.len()
        invariant
            i <= cs.len(),
            forall|j: int| 0 <= j < i ==> cs@[j].fqn@ != v@,
        decreases cs.len() - i,
    {
        if text_eq(cs[i].fqn.as_str(), v) {
            proof {
                let c = choose|k: int| 0 <= k < cs@.len() && cs@[k].fqn@ == v@ && forall|j: int| 0 <= j < k ==> cs@[j].fqn@ != v@;
                if c < i {
                } else if c > i {
                    assert(cs@[i as int].fqn@ == v@);
                }
            }
            return Some(i);
        }
        i += 1;
    }
    None
}

/// The index keys a verb looks up through arguments.
pub open spec fn lookup_keys(g: AffinityGraph, verb: Seq<char>) -> Set<Seq<char>> {
    Set::new(
        |k: Seq<char>|
            exists|i: int|
                0 <= i < data_for_verb_spec(g, verb).len() && data_for_verb_spec(g, verb)[i].affinity_kind is ArgLookup
                    && index_key_of(#[trigger] data_for_verb_spec(g, verb)[i].data_ref) == k,
    )
}

/// Kinds by which a verb contributes data: produces, inserts, updates,
/// produces an attribute.
pub open spec fn contributes(k: AffinityKind) -> bool {
    k is Produces || k is CrudInsert || k is CrudUpdate || k is ProducesAttribute
}

/// How many of the data entries contribute data under one of the keys.
pub open spec fn hit_count(data: Seq<DataAffinity>, keys: Set<Seq<char>>) -> nat
    decreases data.len(),
{
    if data.len() == 0 {
        0
    } else {
        hit_count(data.drop_last(), keys) + if contributes(data.last().affinity_kind) && keys.contains(
            index_key_of(data.last().data_ref),
        ) {
            1nat
        } else {
            0nat
        }
    }
}

/// The neighbours that qualify as prerequisites of `primary`, in adjacency
/// order: another verb that contributes looked-up data or shares data; each
/// with its number of shared references and of lookup hits.
pub open spec fn prerequisites(
    g: AffinityGraph,
    primary: Seq<char>,
    a: Seq<(Seq<char>, Seq<crate::affinity::DataRef>)>,
) -> Seq<(Seq<char>, usize, usize)>
    decreases a.len(),
{
    if a.len() == 0 {
        Seq::empty()
    } else {
        let r = prerequisites(g, primary, a.drop_last());
        let e = a.last();
        let h = hit_count(data_for_verb_spec(g, e.0), lookup_keys(g, primary));
        if e.0 != primary && (h > 0 || e.1.len() > 0) {
            r.push((e.0, e.1.len() as usize, h as usize))
        } else {
            r
        }
    }
}

/// The rank of each prerequisite: lookup hits, then shared references.
pub open spec fn ranks(ps: Seq<(Seq<char>, usize, usize)>) -> Seq<(usize, usize)> {
    ps.map_values(|p: (Seq<char>, usize, usize)| (p.2, p.1))
}

/// Why a prerequisite is suggested.
pub open spec fn prerequisite_rationale(primary: Seq<char>, shared: usize, hits: usize) -> Seq<char> {
    if hits > 0 {
        "Produces data looked up by '"@ + primary + "' ("@ + decimal(hits as nat) + " lookup overlaps)"@
    } else {
        "Shares "@ + decimal(shared as nat) + " data dependencies with '"@ + primary + "'"@
    }
}

/// `s` suggests `verb` for the given reason, with the required arguments of
/// its contract and the keys of the data it touches.
pub open spec fn suggests(
    s: VerbChainSuggestion,
    g: AffinityGraph,
    cs: Seq<VerbContractBody>,
    verb: Seq<char>,
    rationale: Seq<char>,
) -> bool {
    &&& s.verb@ == verb
    &&& s.rationale@ == rationale
    &&& strictly_sorted(keys_of(s.args@))
    &&& text_map(map_of(s.args@)) == contract_args(cs, verb)
    &&& strictly_sorted(texts(s.data_footprint@))
    &&& texts(s.data_footprint@).to_set() == data_for_verb_spec(g, verb).map_values(
        |d: DataAffinity| index_key_of(d.data_ref),
    ).to_set()
}

/// Whether a chain can be proposed for `primary`: a positive length and a
/// contract or a declaration of the verb.
pub open spec fn chain_possible(
    g: AffinityGraph,
    cs: Seq<VerbContractBody>,
    primary: Seq<char>,
    max_chain_length: usize,
) -> bool {
    max_chain_length > 0 && (first_contract(cs, primary) is Some || texts(g.known_verbs@).contains(primary))
}

/// `r` is the chain for `primary` given the neighbours `a` and the stable
/// order `p` of its prerequisites: the first `max - 1` prerequisites by rank,
/// then the primary verb itself.
pub open spec fn is_chain(
    r: Seq<VerbChainSuggestion>,
    g: AffinityGraph,
    cs: Seq<VerbContractBody>,
    primary: Seq<char>,
    max_chain_length: usize,
    a: Seq<(Seq<char>, Seq<crate::affinity::DataRef>)>,
    p: Seq<usize>,
) -> bool {
    let ps = prerequisites(g, primary, a);
    let n = if ps.len() < max_chain_length - 1 {
        ps.len() as int
    } else {
        max_chain_length - 1
    };
    &&& is_adjacency(g, primary, a)
    &&& is_stable_rank_order(ranks(ps), p)
    &&& r.len() == n + 1
    &&& forall|k: int|
        0 <= k < n ==> suggests(
            #[trigger] r[k],
            g,
            cs,
            ps[p[k] as int].0,
            prerequisite_rationale(primary, ps[p[k] as int].1, ps[p[k] as int].2),
        )
    &&& suggests(r[n], g, cs, primary, "Primary intent match from utterance scoring"@)
}

proof fn lemma_hit_count_bound(data: Seq<DataAffinity>, keys: Set<Seq<char>>)
    ensures
        hit_count(data, keys) <= data.len(),
    decreases data.len(),
{
    if data.len() > 0 {
        lemma_hit_count_bound(data.drop_last(), keys);
    }
}

/// The keys of a verb's data, ascending and each once.
fn footprint_keys(data: &Vec<DataAffinity>) -> (r: Vec<String>)
    ensures
        strictly_sorted(texts(r@)),
        texts(r@).to_set() == data@.map_values(|d: DataAffinity| index_key_of(d.data_ref)).to_set(),
{
    let mut keys: Vec<String> = Vec::new();
    let mut i: usize = 0;
    while i < data.len()
        invariant
            i <= data.len(),
            texts(keys@) == data@.take(i as int).map_values(|d: DataAffinity| index_key_of(d.data_ref)),
        decreases data.len() - i,
    {
        let ghost before = texts(keys@);
        keys.push(data[i].data_ref.index_key());
        assert(texts(keys@) =~= before.push(index_key_of(data@[i as int].data_ref)));
        assert(texts(keys@) =~= data@.take(i + 1).map_values(|d: DataAffinity| index_key_of(d.data_ref)));
        i += 1;
    }
    assert(data@.take(data.len() as int) =~= data@);
    sorted_unique(&keys)
}

/// One suggestion for `verb`.
fn suggestion(
    g: &AffinityGraph,
    cs: &Vec<VerbContractBody>,
    verb: &str,
    rationale: String,
) -> (s: VerbChainSuggestion)
    ensures
        suggests(s, *g, cs@, verb@, rationale@),
{
    let args = match find_contract(cs, verb) {
        Some(i) => required_arg_placeholders(&cs[i].args),
        None => {
            let r: Vec<(String, String)> = Vec::new();
            assert(text_map(map_of(r@)) =~= Map::<Seq<char>, Seq<char>>::empty());
            r
        },
    };
    let data = g.data_for_verb(verb);
    let data_footprint = footprint_keys(&data);
    VerbChainSuggestion { verb: owned(verb), rationale, args, data_footprint }
}

/// Lookup hits of one verb's data against the primary's lookup keys.
fn count_hits(data: &Vec<DataAffinity>, lookups: &Vec<String>, Ghost(keys): Ghost<Set<Seq<char>>>) -> (n: usize)
    requires
        texts(lookups@).to_set() == keys,
    ensures
        n == hit_count(data@, keys),
{
    let mut n: usize = 0;
    let mut i: usize = 0;
    while i < data.len()
        invariant
            i <= data.len(),
            texts(lookups@).to_set() == keys,
            n == hit_count(data@.take(i as int), keys),
            n <= i,
        decreases data.len() - i,
    {
        assert(data@.take(i + 1).drop_last() =~= data@.take(i as int));
        let d = &data[i];
        let contributing = match &d.affinity_kind {
            AffinityKind::Produces => true,
            AffinityKind::CrudInsert => true,
            AffinityKind::CrudUpdate => true,
            AffinityKind::ProducesAttribute => true,
            _ => false,
        };
        if contributing {
            let key = d.data_ref.index_key();
            if contains_text(lookups, key.as_str()) {
                proof {
                    let t = choose|t: int| 0 <= t < texts(lookups@).len() && texts(lookups@)[t] == key@;
                    assert(texts(lookups@).to_set().contains(key@));
                }
                n += 1;
            } else {
                proof {
                    if keys.contains(key@) {
                        assert(texts(lookups@).contains(key@));
                    }
                }
            }
        }
        i += 1;
    }
    assert(data@.take(data.len() as int) =~= data@);
    n
}

/// Synthesize a chain for a primary verb: its prerequisites (neighbours that
/// produce data it looks up, or share data with it), ranked by lookup hits
/// and shared data, at most `max_chain_length - 1` of them, then the primary
/// verb itself. Nothing when the length is zero or the verb is unknown.
pub fn synthesize_chain(
    primary_verb: &str,
    graph: &AffinityGraph,
    verb_contracts: &Vec<VerbContractBody>,
    max_chain_length: usize,
) -> (r: Vec<VerbChainSuggestion>)
    ensures
        !chain_possible(*graph, verb_contracts@, primary_verb@, max_chain_length) ==> r@.len() == 0,
        chain_possible(*graph, verb_contracts@, primary_verb@, max_chain_length) ==> exists|
            a: Seq<(Seq<char>, Seq<crate::affinity::DataRef>)>,
            p: Seq<usize>,
        | is_chain(r@, *graph, verb_contracts@, primary_verb@, max_chain_length, a, p),
{
    if max_chain_length == 0 {
        return Vec::new();
    }
    let has_contract = find_contract(verb_contracts, primary_verb).is_some();
    if !has_contract && !contains_text(&graph.known_verbs, primary_verb) {
        return Vec::new();
    }
    // Keys the primary verb looks up.
    let primary_data = graph.data_for_verb(primary_verb);
    let ghost lk = lookup_keys(*graph, primary_verb@);
    let mut lookups: Vec<String> = Vec::new();
    let mut i: usize = 0;
    while i < primary_data.len()
        invariant
            i <= primary_data.len(),
            primary_data@ == data_for_verb_spec(*graph, primary_verb@),
            lk == lookup_keys(*graph, primary_verb@),
            forall|k: Seq<char>| texts(lookups@).contains(k) <==> exists|t: int|
                0 <= t < i && primary_data@[t].affinity_kind is ArgLookup && index_key_of(
                    #[trigger] primary_data@[t].data_ref,
                ) == k,
        decreases primary_data.len() - i,
    {
        let ghost before = texts(lookups@);
        let is_lookup = match &primary_data[i].affinity_kind {
            AffinityKind::ArgLookup { .. } => true,
            _ => false,
        };
        if is_lookup {
            lookups.push(primary_data[i].data_ref.index_key());
        }
        proof {
            if is_lookup {
                assert(texts(lookups@) =~= before.push(index_key_of(primary_data@[i as int].data_ref)));
            } else {
                assert(texts(lookups@) =~= before);
            }
            assert forall|k: Seq<char>| texts(lookups@).contains(k) <==> exists|t: int|
                0 <= t < i + 1 && primary_data@[t].affinity_kind is ArgLookup && index_key_of(
                    #[trigger] primary_data@[t].data_ref,
                ) == k by {
                if texts(lookups@).contains(k) && !before.contains(k) {
                    assert(index_key_of(primary_data@[i as int].data_ref) == k);
                }
                if before.contains(k) {
                    let q = choose|q: int| 0 <= q < before.len() && before[q] == k;
                    assert(texts(lookups@)[q] == k);
                }
                if exists|t: int| 0 <= t < i + 1 && primary_data@[t].affinity_kind is ArgLookup && index_key_of(
                    #[trigger] primary_data@[t].data_ref,
                ) == k {
                    let t = choose|t: int| 0 <= t < i + 1 && primary_data@[t].affinity_kind is ArgLookup && index_key_of(
                        #[trigger] primary_data@[t].data_ref,
                    ) == k;
                    if t == i {
                        assert(texts(lookups@)[texts(lookups@).len() - 1] == k);
                    }
                }
            }
        }
        i += 1;
    }
    assert(texts(lookups@).to_set() =~= lk);
    // Qualifying neighbours, in adjacency order.
    let adj = graph.adjacent_verbs(primary_verb);
    let ghost a = adjacency_view(adj@);
    let mut names: Vec<String> = Vec::new();
    let mut rank_keys: Vec<(usize, usize)> = Vec::new();
    let mut i: usize = 0;
    while i < adj.len()
        invariant
            i <= adj.len(),
            a == adjacency_view(adj@),
            texts(lookups@).to_set() == lk,
            lk == lookup_keys(*graph, primary_verb@),
            names@.len() == rank_keys@.len(),
            prerequisites(*graph, primary_verb@, a.take(i as int)).len() == names@.len(),
            forall|t: int| 0 <= t < names@.len() ==> {
                let q = #[trigger] prerequisites(*graph, primary_verb@, a.take(i as int))[t];
                names@[t]@ == q.0 && rank_keys@[t] == (q.2, q.1)
            },
        decreases adj.len() - i,
    {
        let ghost pre = a.take(i as int);
        assert(a.take(i + 1).drop_last() =~= pre);
        assert(a.take(i + 1).last() == a[i as int]);
        let verb = &adj[i].0;
        let shared = adj[i].1.len();
        let data = graph.data_for_verb(verb.as_str());
        proof {
            lemma_hit_count_bound(data@, lk);
        }
        let hits = count_hits(&data, &lookups, Ghost(lk));
        if !text_eq(verb.as_str(), primary_verb) && (hits > 0 || shared > 0) {
            names.push(verb.clone());
            rank_keys.push((hits, shared));
        }
        i += 1;
    }
    assert(a.take(adj.len() as int) =~= a);
    let ghost ps = prerequisites(*graph, primary_verb@, a);
    assert(rank_keys@ =~= ranks(ps));
    let order = stable_order_by_rank(&rank_keys);
    let limit = max_chain_length - 1;
    let n = if names.len() < limit {
        names.len()
    } else {
        limit
    };
    let mut chain: Vec<VerbChainSuggestion> = Vec::new();
    let mut k: usize = 0;
    while k < n
        invariant
            k <= n,
            n <= names@.len(),
            n == if ps.len() < max_chain_length - 1 {
                ps.len() as int
            } else {
                max_chain_length - 1
            },
            order@.len() == names@.len(),
            names@.len() == ps.len(),
            rank_keys@.len() == names@.len(),
            is_stable_rank_order(ranks(ps), order@),
            forall|t: int| 0 <= t < names@.len() ==> names@[t]@ == (#[trigger] ps[t]).0 && rank_keys@[t] == (
                ps[t].2,
                ps[t].1,
            ),
            chain@.len() == k,
            forall|t: int|
                0 <= t < k ==> suggests(
                    #[trigger] chain@[t],
                    *graph,
                    verb_contracts@,
                    ps[order@[t] as int].0,
                    prerequisite_rationale(primary_verb@, ps[order@[t] as int].1, ps[order@[t] as int].2),
                ),
        decreases n - k,
    {
        let idx = order[k];
        assert(order@[k as int] < ranks(ps).len());
        let (hits, shared) = rank_keys[idx];
        let rationale = if hits > 0 {
            let h = decimal_text(hits);
            let mut m = join3("Produces data looked up by '", primary_verb, "' (");
            m.append(h.as_str());
            m.append(" lookup overlaps)");
            m
        } else {
            let sh = decimal_text(shared);
            let mut m = join3("Shares ", sh.as_str(), " data dependencies with '");
            m.append(primary_verb);
            m.append("'");
            m
        };
        let s = suggestion(graph, verb_contracts, names[idx].as_str(), rationale);
        chain.push(s);
        k += 1;
    }
    let last = suggestion(graph, verb_contracts, primary_verb, owned("Primary intent match from utterance scoring"));
    chain.push(last);
    proof {
        assert(is_chain(chain@, *graph, verb_contracts@, primary_verb@, max_chain_length, a, order@));
    }
    chain
}

// ── Disambiguation ──────────────────────────────────────────────

/// A prompt as texts.
pub open spec fn prompt_is(p: DisambiguationPrompt, question: Seq<char>, lookup: Option<Seq<char>>, options: Seq<Seq<char>>) -> bool {
    &&& p.question@ == question
    &&& match (p.lookup, lookup) {
        (Some(a), Some(b)) => a@ == b,
        (None, None) => true,
        _ => false,
    }
    &&& texts(p.options@) == options
}

/// The prompt view of a list of prompts: question, lookup, options.
pub open spec fn prompt_views(ps: Seq<DisambiguationPrompt>) -> Seq<(Seq<char>, Option<Seq<char>>, Seq<Seq<char>>)> {
    ps.map_values(|p: DisambiguationPrompt| (p.question@, match p.lookup {
        Some(l) => Some(l@),
        None => None,
    }, texts(p.options@)))
}

/// The prompt for one argument: none when optional; else a lookup
/// question, a choice among valid values, or a plain request.
pub open spec fn arg_prompt(a: VerbArgDef) -> Seq<(Seq<char>, Option<Seq<char>>, Seq<Seq<char>>)> {
    if !a.required {
        Seq::empty()
    } else {
        match a.lookup {
            Some(l) => seq![
                (
                    "Which "@ + l.entity_type@ + " should be used for '"@ + a.name@ + "' ?"@,
                    Some(
                        match l.schema {
                            Some(sc) => sc@,
                            None => "public"@,
                        } + "."@ + l.table@,
                    ),
                    match a.valid_values {
                        Some(vs) => texts(vs@),
                        None => Seq::empty(),
                    },
                ),
            ],
            None => match a.valid_values {
                Some(vs) => seq![
                    ("Select a value for required argument '"@ + a.name@ + "'."@, None, texts(vs@)),
                ],
                None => seq![("Provide a value for required argument '"@ + a.name@ + "'."@, None, Seq::empty())],
            },
        }
    }
}

/// The prompts for a verb: its subject when it needs one and none is given,
/// then one per required argument.
pub open spec fn disambiguation_prompts(v: VerbContractBody, has_subject: bool) -> Seq<
    (Seq<char>, Option<Seq<char>>, Seq<Seq<char>>),
> {
    (if v.requires_subject && !has_subject {
        seq![("What subject entity should '"@ + v.fqn@ + "' run against?"@, Some("entities"@), Seq::empty())]
    } else {
        Seq::empty()
    }) + flat(Seq::new(v.args@.len(), |i: int| arg_prompt(v.args@[i])))
}

fn copy_texts(v: &Vec<String>) -> (r: Vec<String>)
    ensures
        texts(r@) == texts(v@),
{
    let r = crate::text::copy_strings(v);
    r
}

fn no_options() -> (r: Vec<String>)
    ensures
        texts(r@) == Seq::<Seq<char>>::empty(),
{
    let r: Vec<String> = Vec::new();
    assert(texts(r@) =~= Seq::<Seq<char>>::empty());
    r
}

fn push_prompt(prompts: &mut Vec<DisambiguationPrompt>, question: String, lookup: Option<String>, options: Vec<String>)
    ensures
        prompt_views(final(prompts)@) == prompt_views(old(prompts)@).push(
            (question@, match lookup {
                Some(l) => Some(l@),
                None => None,
            }, texts(options@)),
        ),
{
    let ghost view = (question@, match &lookup {
        Some(l) => Some(l@),
        None => None,
    }, texts(options@));
    prompts.push(DisambiguationPrompt { question, lookup, options });
    assert(prompt_views(prompts@) =~= prompt_views(old(prompts)@).push(view));
}

/// Follow-up prompts for a verb's missing subject and required arguments.
pub fn generate_disambiguation(verb: &VerbContractBody, subject_id: Option<u128>) -> (r: Vec<DisambiguationPrompt>)
    ensures
        prompt_views(r@) == disambiguation_prompts(*verb, subject_id is Some),
{
    let mut prompts: Vec<DisambiguationPrompt> = Vec::new();
    assert(prompt_views(prompts@) =~= Seq::<(Seq<char>, Option<Seq<char>>, Seq<Seq<char>>)>::empty());
    if verb.requires_subject && subject_id.is_none() {
        push_prompt(
            &mut prompts,
            join3("What subject entity should '", verb.fqn.as_str(), "' run against?"),
            Some(owned("entities")),
            no_options(),
        );
    }
    let ghost head = prompt_views(prompts@);
    assert(head =~= if verb.requires_subject && subject_id is None {
        seq![("What subject entity should '"@ + verb.fqn@ + "' run against?"@, Some("entities"@), Seq::<Seq<char>>::empty())]
    } else {
        Seq::empty()
    });
    let ghost parts = Seq::new(verb.args@.len(), |i: int| arg_prompt(verb.args@[i]));
    let mut i: usize = 0;
    while i < verb.args.len()
        invariant
            i <= verb.args.len(),
            parts == Seq::new(verb.args@.len(), |i: int| arg_prompt(verb.args@[i])),
            prompt_views(prompts@) == head + flat(parts.take(i as int)),
        decreases verb.args.len() - i,
    {
        let ghost before = prompt_views(prompts@);
        let arg = &verb.args[i];
        if arg.required {
            match &arg.lookup {
                Some(l) => {
                    let schema = match &l.schema {
                        Some(sc) => sc.clone(),
                        None => owned("public"),
                    };
                    let options = match &arg.valid_values {
                        Some(vs) => copy_texts(vs),
                        None => no_options(),
                    };
                    let mut q = join4("Which ", l.entity_type.as_str(), " should be used for '", arg.name.as_str());
                    q.append("' ?");
                    push_prompt(&mut prompts, q, Some(join3(schema.as_str(), ".", l.table.as_str())), options);
                },
                None => match &arg.valid_values {
                    Some(vs) => {
                        push_prompt(
                            &mut prompts,
                            join3("Select a value for required argument '", arg.name.as_str(), "'."),
                            None,
                            copy_texts(vs),
                        );
                    },
                    None => {
                        push_prompt(
                            &mut prompts,
                            join3("Provide a value for required argument '", arg.name.as_str(), "'."),
                            None,
                            no_options(),
                        );
                    },
                },
            }
        }
        proof {
            lemma_flat_take(parts, i as int);
            assert(prompt_views(prompts@) =~= before + parts[i as int]);
        }
        i += 1;
    }
    assert(parts.take(parts.len() as int) =~= parts);
    prompts
}

// ── Governance context ──────────────────────────────────────────

/// The number of colons in a text.
pub open spec fn colon_count(s: Seq<char>) -> nat
    decreases s.len(),
{
    if s.len() == 0 {
        0
    } else {
        colon_count(s.drop_last()) + if s.last() == ':' {
            1nat
        } else {
            0nat
        }
    }
}

/// A footprint item `table:schema:table` is governed when it names exactly
/// a schema and a table and some verb is recorded for that table.
pub open spec fn table_item_governed(g: AffinityGraph, item: Seq<char>) -> bool {
    colon_count(item.skip(6)) == 1 && verbs_for_key(g, item).len() > 0
}

/// Every table item of the chain's footprints is governed.
pub open spec fn chain_governed(g: AffinityGraph, items: Seq<Seq<char>>) -> bool {
    forall|i: int| 0 <= i < items.len() && has_prefix(#[trigger] items[i], "table:"@) ==> table_item_governed(g, items[i])
}

/// All footprint items of a chain, step by step.
pub open spec fn chain_items(chain: Seq<VerbChainSuggestion>) -> Seq<Seq<char>> {
    flat(Seq::new(chain.len(), |i: int| texts(chain[i].data_footprint@)))
}

proof fn lemma_colon_split(s: Seq<char>, c: int)
    requires
        0 <= c < s.len(),
        s[c] == ':',
        forall|j: int| 0 <= j < s.len() && j != c ==> s[j] != ':',
    ensures
        colon_count(s) == 1,
    decreases s.len(),
{
    if s.len() > 0 {
        if c < s.len() - 1 {
            assert forall|j: int| 0 <= j < s.drop_last().len() && j != c implies s.drop_last()[j] != ':' by {
                assert(s.drop_last()[j] == s[j]);
            }
            lemma_colon_split(s.drop_last(), c);
        } else {
            lemma_colon_free(s.drop_last());
        }
    }
}

proof fn lemma_colon_free(s: Seq<char>)
    requires
        forall|j: int| 0 <= j < s.len() ==> s[j] != ':',
    ensures
        colon_count(s) == 0,
    decreases s.len(),
{
    if s.len() > 0 {
        assert forall|j: int| 0 <= j < s.drop_last().len() implies s.drop_last()[j] != ':' by {
            assert(s.drop_last()[j] == s[j]);
        }
        lemma_colon_free(s.drop_last());
    }
}

proof fn lemma_colon_count_more(s: Seq<char>, a: int, b: int)
    requires
        0 <= a < b < s.len(),
        s[a] == ':',
        s[b] == ':',
    ensures
        colon_count(s) >= 2,
    decreases s.len(),
{
    if b < s.len() - 1 {
        assert(s.drop_last()[a] == s[a] && s.drop_last()[b] == s[b]);
        lemma_colon_count_more(s.drop_last(), a, b);
    } else {
        assert(s.drop_last()[a] == s[a]);
        lemma_colon_count_some(s.drop_last(), a);
    }
}

proof fn lemma_colon_count_some(s: Seq<char>, a: int)
    requires
        0 <= a < s.len(),
        s[a] == ':',
    ensures
        colon_count(s) >= 1,
    decreases s.len(),
{
    if a < s.len() - 1 {
        assert(s.drop_last()[a] == s[a]);
        lemma_colon_count_some(s.drop_last(), a);
    }
}

/// Whether one footprint item is either not a table item or a governed one.
fn item_governed(g: &AffinityGraph, item: &str) -> (r: bool)
    ensures
        r == (has_prefix(item@, "table:"@) ==> table_item_governed(*g, item@)),
{
    if !starts_with_text(item, "table:") {
        return true;
    }
    let cs = chars_of(item);
    proof {
        reveal_strlit("table:");
    }
    let ghost rest = item@.skip(6);
    assert(cs@.len() >= 6);
    {
        {
            let mut c: usize = 6;
            while c < cs.len() && cs[c] != ':'
                invariant
                    6 <= c <= cs.len(),
                    cs@ == item@,
                    forall|j: int| 6 <= j < c ==> cs@[j] != ':',
                decreases cs.len() - c,
            {
                c += 1;
            }
            if c == cs.len() {
                proof {
                    assert forall|j: int| 0 <= j < rest.len() implies rest[j] != ':' by {
                        assert(rest[j] == cs@[j + 6]);
                    }
                    lemma_colon_free(rest);
                }
                return false;
            }
            let mut d: usize = c + 1;
            while d < cs.len() && cs[d] != ':'
                invariant
                    c < d <= cs.len(),
                    cs@ == item@,
                    forall|j: int| c < j < d ==> cs@[j] != ':',
                decreases cs.len() - d,
            {
                d += 1;
            }
            if d < cs.len() {
                proof {
                    assert(rest[c - 6] == ':' && rest[d - 6] == ':');
                    lemma_colon_count_more(rest, c - 6, d - 6);
                }
                return false;
            }
            proof {
                assert forall|j: int| 0 <= j < rest.len() && j != c - 6 implies rest[j] != ':' by {
                    assert(rest[j] == cs@[j + 6]);
                }
                lemma_colon_split(rest, c - 6);
            }
            let schema = string_of_range(&cs, 6, c);
            let table = string_of_range(&cs, c + 1, cs.len());
            let verbs = g.verbs_for_table(schema.as_str(), table.as_str());
            proof {
                reveal_strlit(":");
                assert(item@.take(6) == "table:"@);
                assert(cs@[c as int] == ':');
                assert(item@ =~= item@.take(6) + cs@.subrange(6, c as int) + ":"@ + cs@.subrange(c + 1, cs@.len() as int));
                assert(crate::affinity::table_index_key(schema@, table@) =~= item@);
            }
            verbs.len() > 0
        }
    }
}

/// The governance posture of a chain: whether every table it touches is
/// governed, the mode (`subject-scoped` with a subject, else `global`), and
/// the policy check handed in.
pub fn governance_context_for(
    graph: &AffinityGraph,
    chain: &Vec<VerbChainSuggestion>,
    subject_id: Option<u128>,
    policy_check: Option<String>,
) -> (r: GovernanceContext)
    ensures
        r.all_tables_governed == chain_governed(*graph, chain_items(chain@)),
        r.required_mode@ == if subject_id is Some {
            "subject-scoped"@
        } else {
            "global"@
        },
        r.policy_check == policy_check,
{
    let ghost items = chain_items(chain@);
    let ghost parts = Seq::new(chain@.len(), |i: int| texts(chain@[i].data_footprint@));
    let mut governed = true;
    let mut i: usize = 0;
    while i < chain.len()
        invariant
            i <= chain.len(),
            parts == Seq::new(chain@.len(), |i: int| texts(chain@[i].data_footprint@)),
            governed == chain_governed(*graph, flat(parts.take(i as int))),
        decreases chain.len() - i,
    {
        let ghost before = flat(parts.take(i as int));
        proof {
            lemma_flat_take(parts, i as int);
        }
        let fp = &chain[i].data_footprint;
        let mut j: usize = 0;
        while j < fp.len()
            invariant
                j <= fp.len(),
                i < chain@.len(),
                *fp == chain@[i as int].data_footprint,
                parts == Seq::new(chain@.len(), |i: int| texts(chain@[i].data_footprint@)),
                governed == chain_governed(*graph, before + texts(fp@).take(j as int)),
            decreases fp.len() - j,
        {
            let ok = item_governed(graph, fp[j].as_str());
            proof {
                let prev = before + texts(fp@).take(j as int);
                let x = fp@[j as int]@;
                let next = before + texts(fp@).take(j + 1);
                assert(next =~= prev.push(x));
                if chain_governed(*graph, next) {
                    assert forall|t: int| 0 <= t < prev.len() && has_prefix(#[trigger] prev[t], "table:"@) implies table_item_governed(*graph, prev[t]) by {
                        assert(next[t] == prev[t]);
                    }
                    assert(next[prev.len() as int] == x);
                }
                if chain_governed(*graph, prev) && (has_prefix(x, "table:"@) ==> table_item_governed(*graph, x)) {
                    assert forall|t: int| 0 <= t < next.len() && has_prefix(#[trigger] next[t], "table:"@) implies table_item_governed(*graph, next[t]) by {
                        if t < prev.len() {
                            assert(next[t] == prev[t]);
                        }
                    }
                }
            }
            governed = governed && ok;
            j += 1;
        }
        assert(texts(fp@).take(fp.len() as int) =~= parts[i as int]);
        i += 1;
    }
    assert(parts.take(parts.len() as int) =~= parts);
    let required_mode = if subject_id.is_some() {
        owned("subject-scoped")
    } else {
        owned("global")
    };
    GovernanceContext { all_tables_governed: governed, required_mode, policy_check }
}

// ── Discovery plan ──────────────────────────────────────────────

/// The decisions of discovery given ranked intent matches: which matches
/// the allow-list keeps, the chain for the top kept verb, its prompts, and
/// the chain's governance posture.
#[derive(Debug, Clone, PartialEq, Eq)]
pub struct DiscoveryPlan {
    /// Positions of the intent matches that are kept, in rank order.
    pub kept_matches: Vec<usize>,
    pub suggested_sequence: Vec<VerbChainSuggestion>,
    pub disambiguation_needed: Vec<DisambiguationPrompt>,
    pub governance_context: GovernanceContext,
}

/// A verb passes the allow-list (no list allows everything).
pub open spec fn allowed_verb(allowed: Option<Seq<Seq<char>>>, v: Seq<char>) -> bool {
    match allowed {
        Some(a) => a.contains(v),
        None => true,
    }
}

/// The positions of the ranked verbs the allow-list keeps.
pub open spec fn kept_positions(ranked: Seq<Seq<char>>, allowed: Option<Seq<Seq<char>>>) -> Seq<usize>
    decreases ranked.len(),
{
    if ranked.len() == 0 {
        Seq::empty()
    } else {
        let r = kept_positions(ranked.drop_last(), allowed);
        if allowed_verb(allowed, ranked.last()) {
            r.push((ranked.len() - 1) as usize)
        } else {
            r
        }
    }
}

/// The steps of a chain the allow-list keeps, in order.
pub open spec fn retained(chain: Seq<VerbChainSuggestion>, allowed: Option<Seq<Seq<char>>>) -> Seq<VerbChainSuggestion>
    decreases chain.len(),
{
    if chain.len() == 0 {
        Seq::empty()
    } else {
        let r = retained(chain.drop_last(), allowed);
        if allowed_verb(allowed, chain.last().verb@) {
            r.push(chain.last())
        } else {
            r
        }
    }
}

pub open spec fn allow_view(allowed: Option<&Vec<String>>) -> Option<Seq<Seq<char>>> {
    match allowed {
        Some(a) => Some(texts(a@)),
        None => None,
    }
}

fn is_allowed(allowed: Option<&Vec<String>>, v: &str) -> (r: bool)
    ensures
        r == allowed_verb(allow_view(allowed), v@),
{
    match allowed {
        Some(a) => contains_text(a, v),
        None => true,
    }
}

/// `c` is a chain that `synthesize_chain` may give for `primary`.
pub open spec fn is_synthesized(
    c: Seq<VerbChainSuggestion>,
    g: AffinityGraph,
    cs: Seq<VerbContractBody>,
    primary: Seq<char>,
    max_chain_length: usize,
) -> bool {
    &&& !chain_possible(g, cs, primary, max_chain_length) ==> c.len() == 0
    &&& chain_possible(g, cs, primary, max_chain_length) ==> exists|
        a: Seq<(Seq<char>, Seq<crate::affinity::DataRef>)>,
        p: Seq<usize>,
    | is_chain(c, g, cs, primary, max_chain_length, a, p)
}

/// Plan discovery from intent matches ranked best first: keep the matches
/// the allow-list passes; for the best kept verb synthesize a chain, keep
/// its allowed steps, and ask for its missing context; then judge the
/// chain's governance.
pub fn plan_discovery(
    ranked_verbs: &Vec<String>,
    graph: &AffinityGraph,
    verb_contracts: &Vec<VerbContractBody>,
    subject_id: Option<u128>,
    max_chain_length: usize,
    allowed_verbs: Option<&Vec<String>>,
    policy_check: Option<String>,
) -> (r: DiscoveryPlan)
    ensures
        r.kept_matches@ == kept_positions(texts(ranked_verbs@), allow_view(allowed_verbs)),
        r.kept_matches@.len() == 0 ==> r.suggested_sequence@.len() == 0 && r.disambiguation_needed@.len() == 0,
        r.kept_matches@.len() > 0 ==> ({
            let primary = ranked_verbs@[r.kept_matches@[0] as int]@;
            &&& exists|c: Seq<VerbChainSuggestion>|
                is_synthesized(c, *graph, verb_contracts@, primary, max_chain_length) && r.suggested_sequence@
                    == retained(c, allow_view(allowed_verbs))
            &&& prompt_views(r.disambiguation_needed@) == match first_contract(verb_contracts@, primary) {
                Some(j) => disambiguation_prompts(verb_contracts@[j], subject_id is Some),
                None => Seq::empty(),
            }
        }),
        r.governance_context.all_tables_governed == chain_governed(*graph, chain_items(r.suggested_sequence@)),
        r.governance_context.required_mode@ == if subject_id is Some {
            "subject-scoped"@
        } else {
            "global"@
        },
        r.governance_context.policy_check == policy_check,
{
    let ghost allow = allow_view(allowed_verbs);
    let mut kept: Vec<usize> = Vec::new();
    let mut i: usize = 0;
    while i < ranked_verbs.len()
        invariant
            i <= ranked_verbs.len(),
            allow == allow_view(allowed_verbs),
            kept@ == kept_positions(texts(ranked_verbs@).take(i as int), allow),
            forall|t: int| 0 <= t < kept@.len() ==> kept@[t] < i,
        decreases ranked_verbs.len() - i,
    {
        assert(texts(ranked_verbs@).take(i + 1).drop_last() =~= texts(ranked_verbs@).take(i as int));
        if is_allowed(allowed_verbs, ranked_verbs[i].as_str()) {
            kept.push(i);
        }
        i += 1;
    }
    assert(texts(ranked_verbs@).take(ranked_verbs.len() as int) =~= texts(ranked_verbs@));
    let mut suggested: Vec<VerbChainSuggestion> = Vec::new();
    let mut prompts: Vec<DisambiguationPrompt> = Vec::new();
    if kept.len() > 0 {
        let primary = ranked_verbs[kept[0]].as_str();
        let mut rest = synthesize_chain(primary, graph, verb_contracts, max_chain_length);
        let ghost c = rest@;
        let mut k: usize = 0;
        while rest.len() > 0
            invariant
                k <= c.len(),
                c.len() <= usize::MAX,
                rest@ == c.skip(k as int),
                allow == allow_view(allowed_verbs),
                suggested@ == retained(c.take(k as int), allow),
            decreases rest.len(),
        {
            assert(c.take(k + 1).drop_last() =~= c.take(k as int));
            let item = rest.remove(0);
            assert(c.take(k + 1).last() == item);
            assert(rest@ =~= c.skip(k + 1));
            if is_allowed(allowed_verbs, item.verb.as_str()) {
                suggested.push(item);
            }
            k += 1;
        }
        assert(c.take(c.len() as int) =~= c);
        assert(is_synthesized(c, *graph, verb_contracts@, primary@, max_chain_length));
        match find_contract(verb_contracts, primary) {
            Some(j) => {
                prompts = generate_disambiguation(&verb_contracts[j], subject_id);
            },
            None => {
                assert(prompt_views(prompts@) =~= Seq::<(Seq<char>, Option<Seq<char>>, Seq<Seq<char>>)>::empty());
            },
        }
    }
    let governance_context = governance_context_for(graph, &suggested, subject_id, policy_check);
    DiscoveryPlan {
        kept_matches: kept,
        suggested_sequence: suggested,
        disambiguation_needed: prompts,
        governance_context,
    }
}

} // verus!

verus! {

// ── Utterance normalisation and the discovery map ───────────────

/// A character as normalisation keeps it: letters, digits and white space
/// stay, anything else becomes a space.
pub open spec fn scrubbed(c: char) -> char {
    if alphanumeric(c) || white_space(c) {
        c
    } else {
        ' '
    }
}

/// Reading `s` left to right: the words finished so far and the word being
/// read.
pub open spec fn word_state(s: Seq<char>) -> (Seq<Seq<char>>, Seq<char>)
    decreases s.len(),
{
    if s.len() == 0 {
        (Seq::empty(), Seq::empty())
    } else {
        let (done, cur) = word_state(s.drop_last());
        if white_space(s.last()) {
            if cur.len() > 0 {
                (done.push(cur), Seq::empty())
            } else {
                (done, cur)
            }
        } else {
            (done, cur.push(s.last()))
        }
    }
}

/// The words of `s`: its maximal runs of non-white-space characters
/// (`str::split_whitespace`).
pub open spec fn words(s: Seq<char>) -> Seq<Seq<char>> {
    let (done, cur) = word_state(s);
    if cur.len() > 0 {
        done.push(cur)
    } else {
        done
    }
}

/// `s` with every character but letters, digits and white space turned
/// into a space, then its words joined by single spaces.
pub open spec fn normalized_utterance(s: Seq<char>) -> Seq<char> {
    joined_with(words(s.map_values(|c: char| scrubbed(c))), " "@)
}

/// Normalises an utterance: lower-cased, punctuation turned into spaces,
/// runs of white space collapsed to one space, no space at either end.
pub fn normalize(text: &str) -> (r: String)
    ensures
        r@ == normalized_utterance(lowercase(text@)),
{
    let lower = to_lowercase_text(text);
    let cs = chars_of(lower.as_str());
    let ghost m = lower@.map_values(|c: char| scrubbed(c));
    let mut done: Vec<String> = Vec::new();
    let mut cur: Vec<char> = Vec::new();
    let mut i: usize = 0;
    while i < cs.len()
        invariant
            i <= cs.len(),
            cs@ == lower@,
            m == lower@.map_values(|c: char| scrubbed(c)),
            texts(done@) == word_state(m.take(i as int)).0,
            cur@ == word_state(m.take(i as int)).1,
        decreases cs.len() - i,
    {
        let c = cs[i];
        assert(m.take(i + 1).drop_last() =~= m.take(i as int));
        assert(m.take(i + 1).last() == scrubbed(c));
        let ws = char_is_whitespace(c);
        let alnum = char_is_alphanumeric(c);
        if ws || !alnum {
            proof {
                assert(white_space(' '));
            }
            if cur.len() > 0 {
                let w = string_of_chars(&cur);
                done.push(w);
                assert(texts(done@) =~= word_state(m.take(i as int)).0.push(cur@));
                cur = Vec::new();
                assert(cur@ =~= Seq::<char>::empty());
            }
        } else {
            cur.push(c);
        }
        i += 1;
    }
    assert(m.take(cs.len() as int) =~= m);
    if cur.len() > 0 {
        let w = string_of_chars(&cur);
        done.push(w);
        assert(texts(done@) =~= word_state(m).0.push(word_state(m).1));
    } else {
        assert(texts(done@) =~= words(m));
    }
    join_with(&done, " ")
}

/// The label of a data asset on the discovery map.
pub open spec fn discovery_label(d: DataRef) -> Seq<char> {
    match d {
        DataRef::Table(t) => t.schema@ + ":"@ + t.table@,
        DataRef::Column(c) => c.schema@ + ":"@ + c.table@ + "."@ + c.column@,
        DataRef::EntityType { fqn } => "entity:"@ + fqn@,
        DataRef::Attribute { fqn } => "attribute:"@ + fqn@,
    }
}

fn discovery_data_node(d: &DataRef) -> (r: String)
    ensures
        r@ == "data:"@ + discovery_label(*d),
{
    match d {
        DataRef::Table(t) => join4("data:", t.schema.as_str(), ":", t.table.as_str()),
        DataRef::Column(c) => join6("data:", c.schema.as_str(), ":", c.table.as_str(), ".", c.column.as_str()),
        DataRef::EntityType { fqn } => join3("data:", "entity:", fqn.as_str()),
        DataRef::Attribute { fqn } => join3("data:", "attribute:", fqn.as_str()),
    }
}

/// The map edges of one matched verb: utterance to verb, then verb to each
/// of its data assets in index order.
pub open spec fn verb_edges(g: AffinityGraph, u: Seq<char>, v: Seq<char>) -> Seq<(Seq<char>, Seq<char>)> {
    seq![(u, "verb:"@ + v)] + data_for_verb_spec(g, v).map_values(
        |d: DataAffinity| ("verb:"@ + v, "data:"@ + discovery_label(d.data_ref)),
    )
}

/// The map edges of the matched verbs, verb after verb.
pub open spec fn map_edges(g: AffinityGraph, u: Seq<char>, verbs: Seq<Seq<char>>) -> Seq<(Seq<char>, Seq<char>)>
    decreases verbs.len(),
{
    if verbs.len() == 0 {
        Seq::empty()
    } else {
        map_edges(g, u, verbs.drop_last()) + verb_edges(g, u, verbs.last())
    }
}

pub open spec fn edge_texts(r: Seq<(String, String)>) -> Seq<(Seq<char>, Seq<char>)> {
    r.map_values(|p: (String, String)| (p.0@, p.1@))
}

/// The edges of the discovery map (utterance → verb → data) for the
/// matched verbs, in match order.
pub fn discovery_edges(utterance: &str, graph: &AffinityGraph, matched_verbs: &Vec<String>) -> (r: Vec<(String, String)>)
    ensures
        edge_texts(r@) == map_edges(
            *graph,
            "utterance:"@ + normalized_utterance(lowercase(utterance@)),
            texts(matched_verbs@),
        ),
{
    let norm = normalize(utterance);
    let utter_node = join2("utterance:", norm.as_str());
    let ghost u = utter_node@;
    let mut edges: Vec<(String, String)> = Vec::new();
    let mut i: usize = 0;
    while i < matched_verbs.len()
        invariant
            i <= matched_verbs.len(),
            u == utter_node@,
            edge_texts(edges@) == map_edges(*graph, u, texts(matched_verbs@).take(i as int)),
        decreases matched_verbs.len() - i,
    {
        assert(texts(matched_verbs@).take(i + 1).drop_last() =~= texts(matched_verbs@).take(i as int));
        let v = matched_verbs[i].as_str();
        let verb_node = join2("verb:", v);
        let ghost before = edge_texts(edges@);
        edges.push((utter_node.clone(), verb_node.clone()));
        assert(edge_texts(edges@) =~= before.push((u, "verb:"@ + v@)));
        let data = graph.data_for_verb(v);
        let ghost ds = data@.map_values(
            |d: DataAffinity| ("verb:"@ + v@, "data:"@ + discovery_label(d.data_ref)),
        );
        let mut k: usize = 0;
        while k < data.len()
            invariant
                k <= data.len(),
                verb_node@ == "verb:"@ + v@,
                ds == data@.map_values(
                    |d: DataAffinity| ("verb:"@ + v@, "data:"@ + discovery_label(d.data_ref)),
                ),
                edge_texts(edges@) == before + seq![(u, "verb:"@ + v@)] + ds.take(k as int),
            decreases data.len() - k,
        {
            let node = discovery_data_node(&data[k].data_ref);
            let ghost prev = edge_texts(edges@);
            edges.push((verb_node.clone(), node));
            assert(ds.take(k + 1) =~= ds.take(k as int).push(ds[k as int]));
            assert(edge_texts(edges@) =~= prev.push(ds[k as int]));
            k += 1;
        }
        assert(ds.take(data.len() as int) =~= ds);
        assert(texts(matched_verbs@).take(i + 1).last() == v@);
        i += 1;
    }
    assert(texts(matched_verbs@).take(matched_verbs.len() as int) =~= texts(matched_verbs@));
    edges
}

} // verus!
