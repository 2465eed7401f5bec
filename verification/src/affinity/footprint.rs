//! The transitive data footprint of a verb: every data asset it touches,
//! following argument lookups to the verbs that write the looked-up asset.

use vstd::prelude::*;

use crate::affinity::{
    column_key, index_key_of, table_key, AffinityEdge, AffinityGraph, AffinityKind, ColumnRef,
    DataRef, TableRef,
};
use crate::assoc::{find_key, keys_of, map_of, put_ordered};
use crate::order::strictly_sorted;
use crate::text::{contains_text, join5, owned, text_eq, texts};

verus! {

broadcast use vstd::string::group_string_axioms;

/// Transitive data reach of a verb. Tables and columns are keyed by
/// `schema:table` and `schema:table:column` and kept in ascending key order;
/// attributes and entity types are sets of FQNs.
#[derive(Debug, Clone)]
pub struct DataFootprint {
    pub tables: Vec<(String, TableRef)>,
    pub columns: Vec<(String, ColumnRef)>,
    pub attributes: Vec<String>,
    pub entity_types: Vec<String>,
}

/// What a footprint holds: tables by key, columns by key, attribute FQNs and
/// entity type FQNs.
pub type FootprintView = (
    Map<Seq<char>, TableRef>,
    Map<Seq<char>, ColumnRef>,
    Set<Seq<char>>,
    Set<Seq<char>>,
);

impl View for DataFootprint {
    type V = FootprintView;

    open spec fn view(&self) -> FootprintView {
        (
            map_of(self.tables@),
            map_of(self.columns@),
            texts(self.attributes@).to_set(),
            texts(self.entity_types@).to_set(),
        )
    }
}

impl DataFootprint {
    /// Keys ascend and each key is the key of its reference; no FQN occurs twice.
    pub open spec fn wf(self) -> bool {
        &&& strictly_sorted(keys_of(self.tables@))
        &&& strictly_sorted(keys_of(self.columns@))
        &&& forall|i: int| 0 <= i < self.tables@.len() ==>
            (#[trigger] self.tables@[i]).0@ == table_key(self.tables@[i].1)
        &&& forall|i: int| 0 <= i < self.columns@.len() ==>
            (#[trigger] self.columns@[i]).0@ == column_key(self.columns@[i].1)
        &&& texts(self.attributes@).no_duplicates()
        &&& texts(self.entity_types@).no_duplicates()
    }
}

/// The empty footprint.
pub open spec fn empty_footprint() -> FootprintView {
    (Map::empty(), Map::empty(), Set::empty(), Set::empty())
}

impl Default for DataFootprint {
    fn default() -> (r: Self)
        ensures
            r.wf(),
            r@ == empty_footprint(),
            r.tables@.len() == 0,
            r.columns@.len() == 0,
            r.attributes@.len() == 0,
            r.entity_types@.len() == 0,
    {
        let r = DataFootprint {
            tables: Vec::new(),
            columns: Vec::new(),
            attributes: Vec::new(),
            entity_types: Vec::new(),
        };
        proof {
            assert(map_of(r.tables@) =~= Map::empty());
            assert(map_of(r.columns@) =~= Map::empty());
            assert(texts(r.attributes@).to_set() =~= Set::empty());
            assert(texts(r.entity_types@).to_set() =~= Set::empty());
        }
        r
    }
}

/// A footprint after taking in one data reference: a table or column under
/// its key, an attribute, or an entity type together with its mapped table.
pub open spec fn absorb(g: AffinityGraph, d: DataRef, fp: FootprintView) -> FootprintView {
    match d {
        DataRef::Table(t) => (fp.0.insert(table_key(t), t), fp.1, fp.2, fp.3),
        DataRef::Column(c) => (fp.0, fp.1.insert(column_key(c), c), fp.2, fp.3),
        DataRef::Attribute { fqn } => (fp.0, fp.1, fp.2.insert(fqn@), fp.3),
        DataRef::EntityType { fqn } => {
            let tables = if map_of(g.entity_to_table@).contains_key(fqn@) {
                let t = map_of(g.entity_to_table@)[fqn@];
                fp.0.insert(table_key(t), t)
            } else {
                fp.0
            };
            (tables, fp.1, fp.2, fp.3.insert(fqn@))
        },
    }
}

/// The state of a walk: the verbs visited so far and the footprint so far.
pub type WalkState = (Set<Seq<char>>, FootprintView);

/// The walk from `verb` with `depth` hops left. A verb is walked once: on a
/// second visit the state is unchanged. Otherwise each of its edges is taken
/// in the order the forward index lists them.
pub open spec fn walk(g: AffinityGraph, verb: Seq<char>, depth: nat, st: WalkState) -> WalkState
    decreases depth, 2nat, 0nat,
{
    if st.0.contains(verb) {
        st
    } else if !map_of(g.verb_to_data@).contains_key(verb) {
        (st.0.insert(verb), st.1)
    } else {
        walk_edges(g, verb, map_of(g.verb_to_data@)[verb]@, 0, depth, (st.0.insert(verb), st.1))
    }
}

/// Takes the edges at positions `idxs[i..]` of `verb`: each edge's data
/// reference is absorbed and, with more than one hop left, an argument lookup
/// is followed to the other verbs recorded under the same data key.
pub open spec fn walk_edges(
    g: AffinityGraph,
    verb: Seq<char>,
    idxs: Seq<usize>,
    i: nat,
    depth: nat,
    st: WalkState,
) -> WalkState
    decreases depth, 1nat, idxs.len() - i,
{
    if i >= idxs.len() {
        st
    } else if idxs[i as int] >= g.edges@.len() {
        walk_edges(g, verb, idxs, i + 1, depth, st)
    } else {
        let e = g.edges@[idxs[i as int] as int];
        let st1 = (st.0, absorb(g, e.data_ref, st.1));
        let key = index_key_of(e.data_ref);
        let st2 = if depth > 1 && e.affinity_kind is ArgLookup && map_of(g.data_to_verb@).contains_key(key) {
            walk_writers(g, verb, map_of(g.data_to_verb@)[key]@, 0, depth, st1)
        } else {
            st1
        };
        walk_edges(g, verb, idxs, i + 1, depth, st2)
    }
}

/// Walks, with one hop fewer, each verb other than `verb` whose edge sits at
/// the positions `ws[j..]`.
pub open spec fn walk_writers(
    g: AffinityGraph,
    verb: Seq<char>,
    ws: Seq<usize>,
    j: nat,
    depth: nat,
    st: WalkState,
) -> WalkState
    decreases depth, 0nat, ws.len() - j,
{
    if j >= ws.len() || depth <= 1 {
        st
    } else if ws[j as int] >= g.edges@.len() {
        walk_writers(g, verb, ws, j + 1, depth, st)
    } else {
        let w = g.edges@[ws[j as int] as int].verb_fqn@;
        let st1 = if w != verb {
            walk(g, w, (depth - 1) as nat, st)
        } else {
            st
        };
        walk_writers(g, verb, ws, j + 1, depth, st1)
    }
}

/// Adds a text to a list that holds each text once.
fn add_text(v: &mut Vec<String>, s: &str)
    requires
        texts(old(v)@).no_duplicates(),
    ensures
        texts(final(v)@).no_duplicates(),
        texts(final(v)@).to_set() == texts(old(v)@).to_set().insert(s@),
{
    if contains_text(v, s) {
        proof {
            assert(texts(v@).to_set() =~= texts(v@).to_set().insert(s@));
        }
    } else {
        let ghost before = texts(v@);
        v.push(owned(s));
        proof {
            assert(texts(v@) =~= before.push(s@));
            before.lemma_push_to_set_commute(s@);
            assert forall|a: int, b: int| 0 <= a < b < texts(v@).len() implies texts(v@)[a] != texts(v@)[b] by {
                if b == before.len() {
                    assert(before[a] == texts(v@)[a]);
                    assert(before.contains(before[a]));
                }
            }
        }
    }
}

fn put_table(fp: &mut DataFootprint, t: &TableRef)
    requires
        old(fp).wf(),
    ensures
        final(fp).wf(),
        final(fp)@ == (old(fp)@.0.insert(table_key(*t), *t), old(fp)@.1, old(fp)@.2, old(fp)@.3),
{
    let ghost old_tables = fp.tables@;
    let tr = t.duplicate();
    put_ordered(&mut fp.tables, t.key(), tr);
    proof {
        assert forall|i: int| 0 <= i < fp.tables@.len() implies (#[trigger] fp.tables@[i]).0@ == table_key(
            fp.tables@[i].1,
        ) by {
            if !(fp.tables@[i].1 == *t && fp.tables@[i].0@ == table_key(*t)) {
                let k = choose|k: int| 0 <= k < old_tables.len() && old_tables[k] == fp.tables@[i];
                assert(old_tables[k].0@ == table_key(old_tables[k].1));
            }
        }
    }
}

impl AffinityGraph {
    /// Takes one data reference into a footprint.
    fn absorb_ref(&self, d: &DataRef, fp: &mut DataFootprint)
        requires
            old(fp).wf(),
        ensures
            final(fp).wf(),
            final(fp)@ == absorb(*self, *d, old(fp)@),
    {
        match d {
            DataRef::Table(t) => {
                put_table(fp, t);
            },
            DataRef::Column(c) => {
                let ghost old_cols = fp.columns@;
                let key = join5(c.schema.as_str(), ":", c.table.as_str(), ":", c.column.as_str());
                proof {
                    assert(key@ =~= column_key(*c));
                }
                put_ordered(&mut fp.columns, key, c.duplicate());
                proof {
                    assert forall|i: int| 0 <= i < fp.columns@.len() implies (#[trigger] fp.columns@[i]).0@
                        == column_key(fp.columns@[i].1) by {
                        if !(fp.columns@[i].1 == *c && fp.columns@[i].0@ == column_key(*c)) {
                            let k = choose|k: int| 0 <= k < old_cols.len() && old_cols[k] == fp.columns@[i];
                            assert(old_cols[k].0@ == column_key(old_cols[k].1));
                        }
                    }
                }
            },
            DataRef::Attribute { fqn } => {
                add_text(&mut fp.attributes, fqn.as_str());
            },
            DataRef::EntityType { fqn } => {
                add_text(&mut fp.entity_types, fqn.as_str());
                match find_key(&self.entity_to_table, fqn.as_str()) {
                    Some(k) => {
                        put_table(fp, &self.entity_to_table[k].1);
                    },
                    None => {},
                }
            },
        }
    }

    /// Walks from `verb` with `remaining` hops left, recording visited verbs.
    fn collect_footprint(
        &self,
        verb: &str,
        remaining: u32,
        fp: &mut DataFootprint,
        visited: &mut Vec<String>,
    )
        requires
            old(fp).wf(),
        ensures
            final(fp).wf(),
            (texts(final(visited)@).to_set(), final(fp)@) == walk(
                *self,
                verb@,
                remaining as nat,
                (texts(old(visited)@).to_set(), old(fp)@),
            ),
        decreases remaining,
    {
        let ghost g = *self;
        let ghost st0: WalkState = (texts(visited@).to_set(), fp@);
        if contains_text(visited, verb) {
            return;
        }
        let ghost before = texts(visited@);
        visited.push(owned(verb));
        proof {
            assert(texts(visited@) =~= before.push(verb@));
            before.lemma_push_to_set_commute(verb@);
        }
        let found = find_key(&self.verb_to_data, verb);
        if found.is_none() {
            return;
        }
        let vi = found.unwrap();
        let idxs = &self.verb_to_data[vi].1;
        let ghost target = walk(g, verb@, remaining as nat, st0);
        proof {
            assert(map_of(g.verb_to_data@)[verb@] == *idxs);
        }
        let mut i: usize = 0;
        while i < idxs.len()
            invariant
                i <= idxs.len(),
                fp.wf(),
                g == *self,
                walk_edges(g, verb@, idxs@, i as nat, remaining as nat, (texts(visited@).to_set(), fp@))
                    == target,
            decreases idxs.len() - i,
        {
            let idx = idxs[i];
            if idx < self.edges.len() {
                let edge: &AffinityEdge = &self.edges[idx];
                let ghost st_i: WalkState = (texts(visited@).to_set(), fp@);
                self.absorb_ref(&edge.data_ref, fp);
                let ghost st1: WalkState = (texts(visited@).to_set(), fp@);
                assert(st1 == (st_i.0, absorb(g, edge.data_ref, st_i.1)));
                let is_lookup = match &edge.affinity_kind {
                    AffinityKind::ArgLookup { .. } => true,
                    _ => false,
                };
                if remaining > 1 && is_lookup {
                    let key = edge.data_ref.index_key();
                    match find_key(&self.data_to_verb, key.as_str()) {
                        Some(wi) => {
                            let ws = &self.data_to_verb[wi].1;
                            let ghost wtarget = walk_writers(g, verb@, ws@, 0, remaining as nat, st1);
                            let mut j: usize = 0;
                            while j < ws.len()
                                invariant
                                    j <= ws.len(),
                                    fp.wf(),
                                    g == *self,
                                    remaining > 1,
                                    walk_writers(
                                        g,
                                        verb@,
                                        ws@,
                                        j as nat,
                                        remaining as nat,
                                        (texts(visited@).to_set(), fp@),
                                    ) == wtarget,
                                decreases ws.len() - j,
                            {
                                let widx = ws[j];
                                if widx < self.edges.len() {
                                    let w = &self.edges[widx].verb_fqn;
                                    if !text_eq(w.as_str(), verb) {
                                        self.collect_footprint(w.as_str(), remaining - 1, fp, visited);
                                    }
                                }
                                j += 1;
                            }
                        },
                        None => {},
                    }
                }
            }
            i += 1;
        }
    }

    /// Transitive data footprint: every data asset the verb touches,
    /// following argument lookups up to `depth` hops.
    pub fn data_footprint(&self, verb_fqn: &str, depth: u32) -> (r: DataFootprint)
        ensures
            r.wf(),
            r@ == walk(*self, verb_fqn@, depth as nat, (Set::empty(), empty_footprint())).1,
    {
        let mut footprint = DataFootprint::default();
        let mut visited: Vec<String> = Vec::new();
        proof {
            assert(texts(visited@).to_set() =~= Set::<Seq<char>>::empty());
        }
        self.collect_footprint(verb_fqn, depth, &mut footprint, &mut visited);
        footprint
    }
}

} // verus!
