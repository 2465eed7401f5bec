//! The subject of a resolution: what it is, the relationship types it takes
//! part in, and the taxonomies it belongs to once conditional memberships
//! have been judged.

use vstd::prelude::*;
use vstd::string::*;

use crate::context_resolution::{SubjectMemberships, TaxonomyMembership};
use crate::ontology::{MembershipCondition, MembershipRuleBody, RelationshipTypeDefBody};
use crate::order::{sorted_unique, strictly_sorted};
use crate::text::{contains_text, join3, text_eq, texts};

verus! {

broadcast use vstd::string::group_string_axioms;

/// What a resolution is about; each variant carries the subject's id.
#[derive(Debug, Clone, Copy, PartialEq, Eq, Hash, Structural)]
pub enum SubjectRef {
    CaseId(u128),
    EntityId(u128),
    DocumentId(u128),
    TaskId(u128),
    ViewId(u128),
}

/// The id a subject reference carries.
pub open spec fn subject_id(s: SubjectRef) -> u128 {
    match s {
        SubjectRef::CaseId(id) => id,
        SubjectRef::EntityId(id) => id,
        SubjectRef::DocumentId(id) => id,
        SubjectRef::TaskId(id) => id,
        SubjectRef::ViewId(id) => id,
    }
}

impl SubjectRef {
    /// The id of the subject, whatever its kind.
    pub fn id(&self) -> (r: u128)
        ensures
            r == subject_id(*self),
    {
        match self {
            SubjectRef::CaseId(id) => *id,
            SubjectRef::EntityId(id) => *id,
            SubjectRef::DocumentId(id) => *id,
            SubjectRef::TaskId(id) => *id,
            SubjectRef::ViewId(id) => *id,
        }
    }
}

/// The relationship types in which the subject's entity type is the source
/// (outgoing) or the target (incoming).
#[derive(Debug, Clone, PartialEq, Eq)]
pub struct SubjectRelationships {
    pub outgoing: Vec<RelationshipTypeDefBody>,
    pub incoming: Vec<RelationshipTypeDefBody>,
}

impl Default for SubjectRelationships {
    fn default() -> (r: Self)
        ensures
            r.outgoing@.len() == 0,
            r.incoming@.len() == 0,
    {
        SubjectRelationships { outgoing: Vec::new(), incoming: Vec::new() }
    }
}

/// Outgoing then incoming relationship types.
pub open spec fn all_relationships(r: SubjectRelationships) -> Seq<RelationshipTypeDefBody> {
    r.outgoing@ + r.incoming@
}

/// A relationship type declares the edge class `c`.
pub open spec fn has_edge_class(rel: RelationshipTypeDefBody, c: Seq<char>) -> bool {
    match rel.edge_class {
        Some(e) => e@ == c,
        None => false,
    }
}

/// The edge classes the subject's relationships declare.
pub open spec fn edge_class_set(r: SubjectRelationships) -> Set<Seq<char>> {
    Set::new(
        |c: Seq<char>|
            exists|i: int|
                0 <= i < all_relationships(r).len() && has_edge_class(#[trigger] all_relationships(r)[i], c),
    )
}

/// The domains of the subject's relationships.
pub open spec fn domain_set(r: SubjectRelationships) -> Set<Seq<char>> {
    Set::new(
        |d: Seq<char>|
            exists|i: int|
                0 <= i < all_relationships(r).len() && (#[trigger] all_relationships(r)[i]).domain@ == d,
    )
}

proof fn lemma_push_contains(s: Seq<Seq<char>>, x: Seq<char>, c: Seq<char>)
    ensures
        s.push(x).contains(c) <==> (s.contains(c) || c == x),
{
    if s.contains(c) {
        let q = choose|q: int| 0 <= q < s.len() && s[q] == c;
        assert(s.push(x)[q] == c);
    }
    if c == x {
        assert(s.push(x)[s.len() as int] == c);
    }
    if s.push(x).contains(c) && c != x {
        let q = choose|q: int| 0 <= q < s.push(x).len() && s.push(x)[q] == c;
        assert(q < s.len());
        assert(s[q] == c);
    }
}

fn absorb_class(found: &mut Vec<String>, rel: &RelationshipTypeDefBody)
    ensures
        forall|c: Seq<char>|
            texts(final(found)@).contains(c) <==> (texts(old(found)@).contains(c) || has_edge_class(*rel, c)),
{
    let ghost before = texts(found@);
    match &rel.edge_class {
        Some(e) => {
            found.push(e.clone());
            proof {
                assert(texts(found@) =~= before.push(e@));
                assert forall|c: Seq<char>|
                    texts(found@).contains(c) <==> (before.contains(c) || has_edge_class(*rel, c)) by {
                    lemma_push_contains(before, e@, c);
                }
            }
        },
        None => {
            proof {
                assert(texts(found@) =~= before);
            }
        },
    }
}

fn absorb_domain(found: &mut Vec<String>, rel: &RelationshipTypeDefBody)
    ensures
        forall|d: Seq<char>|
            texts(final(found)@).contains(d) <==> (texts(old(found)@).contains(d) || rel.domain@ == d),
{
    let ghost before = texts(found@);
    found.push(rel.domain.clone());
    proof {
        assert(texts(found@) =~= before.push(rel.domain@));
        assert forall|d: Seq<char>| texts(found@).contains(d) <==> (before.contains(d) || rel.domain@ == d) by {
            lemma_push_contains(before, rel.domain@, d);
        }
    }
}

impl SubjectRelationships {
    /// The edge classes the subject takes part in; ascending, each once.
    pub fn edge_classes(&self) -> (r: Vec<String>)
        ensures
            strictly_sorted(texts(r@)),
            texts(r@).to_set() == edge_class_set(*self),
    {
        let ghost all = all_relationships(*self);
        let ghost n_out = self.outgoing@.len();
        let mut found: Vec<String> = Vec::new();
        let mut i: usize = 0;
        while i < self.outgoing.len()
            invariant
                all == all_relationships(*self),
                n_out == self.outgoing@.len(),
                i <= self.outgoing.len(),
                forall|c: Seq<char>|
                    texts(found@).contains(c) <==> exists|t: int| 0 <= t < i && has_edge_class(#[trigger] all[t], c),
            decreases self.outgoing.len() - i,
        {
            assert(self.outgoing@[i as int] == all[i as int]);
            absorb_class(&mut found, &self.outgoing[i]);
            assert forall|c: Seq<char>|
                texts(found@).contains(c) <==> exists|t: int| 0 <= t < i + 1 && has_edge_class(#[trigger] all[t], c) by {
                if has_edge_class(all[i as int], c) {
                }
            }
            i += 1;
        }
        let mut j: usize = 0;
        while j < self.incoming.len()
            invariant
                all == all_relationships(*self),
                n_out == self.outgoing@.len(),
                j <= self.incoming.len(),
                forall|c: Seq<char>|
                    texts(found@).contains(c) <==> exists|t: int|
                        0 <= t < n_out + j && has_edge_class(#[trigger] all[t], c),
            decreases self.incoming.len() - j,
        {
            assert(self.incoming@[j as int] == all[n_out + j]);
            absorb_class(&mut found, &self.incoming[j]);
            assert forall|c: Seq<char>|
                texts(found@).contains(c) <==> exists|t: int| 0 <= t < n_out + j + 1 && has_edge_class(#[trigger] all[t], c) by {
                if has_edge_class(all[n_out + j], c) {
                }
            }
            j += 1;
        }
        let r = sorted_unique(&found);
        proof {
            assert(texts(found@).to_set() =~= edge_class_set(*self));
        }
        r
    }

    /// The domains of the subject's relationships; ascending, each once.
    pub fn relationship_domains(&self) -> (r: Vec<String>)
        ensures
            strictly_sorted(texts(r@)),
            texts(r@).to_set() == domain_set(*self),
    {
        let ghost all = all_relationships(*self);
        let ghost n_out = self.outgoing@.len();
        let mut found: Vec<String> = Vec::new();
        let mut i: usize = 0;
        while i < self.outgoing.len()
            invariant
                all == all_relationships(*self),
                n_out == self.outgoing@.len(),
                i <= self.outgoing.len(),
                forall|d: Seq<char>|
                    texts(found@).contains(d) <==> exists|t: int| 0 <= t < i && (#[trigger] all[t]).domain@ == d,
            decreases self.outgoing.len() - i,
        {
            assert(self.outgoing@[i as int] == all[i as int]);
            absorb_domain(&mut found, &self.outgoing[i]);
            i += 1;
        }
        let mut j: usize = 0;
        while j < self.incoming.len()
            invariant
                all == all_relationships(*self),
                n_out == self.outgoing@.len(),
                j <= self.incoming.len(),
                forall|d: Seq<char>|
                    texts(found@).contains(d) <==> exists|t: int|
                        0 <= t < n_out + j && (#[trigger] all[t]).domain@ == d,
            decreases self.incoming.len() - j,
        {
            assert(self.incoming@[j as int] == all[n_out + j]);
            absorb_domain(&mut found, &self.incoming[j]);
            j += 1;
        }
        let r = sorted_unique(&found);
        proof {
            assert(texts(found@).to_set() =~= domain_set(*self));
        }
        r
    }

    /// The subject has at least one relationship type.
    pub fn has_relationships(&self) -> (r: bool)
        ensures
            r == (all_relationships(*self).len() > 0),
    {
        self.outgoing.len() > 0 || self.incoming.len() > 0
    }
}

// ── Conditional memberships ─────────────────────────────────────

/// A condition can be checked without the subject's runtime state, and
/// holds: only `always_true` is.
pub open spec fn condition_holds(kind: Seq<char>) -> bool {
    kind == "always_true"@
}

/// Judge a single membership condition: true only when it needs no
/// runtime entity state and holds.
pub fn evaluate_condition(condition: &MembershipCondition) -> (r: bool)
    ensures
        r == condition_holds(condition.kind@),
{
    text_eq(condition.kind.as_str(), "always_true")
}

/// The key of a taxonomy membership: `<taxonomy>::<target>`.
pub open spec fn membership_key(taxonomy: Seq<char>, target: Seq<char>) -> Seq<char> {
    taxonomy + "::"@ + target
}

/// A rule some of whose conditions cannot be confirmed.
pub open spec fn rule_excluded(rule: MembershipRuleBody) -> bool {
    rule.conditions@.len() > 0 && exists|k: int|
        0 <= k < rule.conditions@.len() && !condition_holds(#[trigger] rule.conditions@[k].kind@)
}

/// The keys of the memberships excluded by their rules.
pub open spec fn excluded_keys(rules: Seq<MembershipRuleBody>) -> Set<Seq<char>> {
    Set::new(
        |key: Seq<char>|
            exists|i: int|
                0 <= i < rules.len() && rule_excluded(#[trigger] rules[i]) && key == membership_key(
                    rules[i].taxonomy_fqn@,
                    rules[i].target_fqn@,
                ),
    )
}

fn rule_is_excluded(rule: &MembershipRuleBody) -> (r: bool)
    ensures
        r == rule_excluded(*rule),
{
    if rule.conditions.len() == 0 {
        return false;
    }
    let mut k: usize = 0;
    while k < rule.conditions.len()
        invariant
            k <= rule.conditions.len(),
            forall|j: int| 0 <= j < k ==> condition_holds(#[trigger] rule.conditions@[j].kind@),
        decreases rule.conditions.len() - k,
    {
        if !evaluate_condition(&rule.conditions[k]) {
            return true;
        }
        k += 1;
    }
    false
}

/// The conditional memberships to leave out, as `<taxonomy>::<target>`
/// keys: those of rules with a condition that needs runtime entity state
/// or fails. A rule without conditions counts as unconditional. Ascending,
/// each once.
pub fn evaluate_conditional_memberships(rules: &Vec<MembershipRuleBody>) -> (r: Vec<String>)
    ensures
        strictly_sorted(texts(r@)),
        texts(r@).to_set() == excluded_keys(rules@),
{
    let mut found: Vec<String> = Vec::new();
    let mut i: usize = 0;
    while i < rules.len()
        invariant
            i <= rules.len(),
            forall|key: Seq<char>|
                texts(found@).contains(key) <==> exists|j: int|
                    0 <= j < i && rule_excluded(#[trigger] rules@[j]) && key == membership_key(
                        rules@[j].taxonomy_fqn@,
                        rules@[j].target_fqn@,
                    ),
        decreases rules.len() - i,
    {
        let rule = &rules[i];
        let ghost before = texts(found@);
        if rule_is_excluded(rule) {
            let key = join3(rule.taxonomy_fqn.as_str(), "::", rule.target_fqn.as_str());
            let ghost kv = key@;
            found.push(key);
            proof {
                assert(texts(found@) =~= before.push(kv));
                assert forall|key2: Seq<char>|
                    texts(found@).contains(key2) <==> exists|j: int|
                        0 <= j < i + 1 && rule_excluded(#[trigger] rules@[j]) && key2 == membership_key(
                            rules@[j].taxonomy_fqn@,
                            rules@[j].target_fqn@,
                        ) by {
                    lemma_push_contains(before, kv, key2);
                }
            }
        } else {
            proof {
                assert(texts(found@) =~= before);
            }
        }
        i += 1;
    }
    let r = sorted_unique(&found);
    proof {
        assert(texts(found@).to_set() =~= excluded_keys(rules@));
    }
    r
}

/// A membership that puts the subject's entity type into its taxonomy:
/// on an entity type, for that type, not excluded, and, when conditional,
/// not left out by its rule.
pub open spec fn counts_for_subject(
    m: TaxonomyMembership,
    entity_type: Seq<char>,
    excluded: Set<Seq<char>>,
) -> bool {
    &&& m.target_type@ == "entity_type_def"@
    &&& m.target_fqn@ == entity_type
    &&& m.membership_kind@ != "excluded"@
    &&& m.membership_kind@ == "conditional"@ ==> !excluded.contains(
        membership_key(m.taxonomy_fqn@, m.target_fqn@),
    )
}

/// The taxonomies the subject belongs to.
pub open spec fn subject_taxonomies(
    ms: Seq<TaxonomyMembership>,
    entity_type: Option<Seq<char>>,
    rules: Seq<MembershipRuleBody>,
) -> Set<Seq<char>> {
    match entity_type {
        Some(et) => Set::new(
            |t: Seq<char>|
                exists|i: int|
                    0 <= i < ms.len() && counts_for_subject(#[trigger] ms[i], et, excluded_keys(rules))
                        && ms[i].taxonomy_fqn@ == t,
        ),
        None => Set::empty(),
    }
}

pub open spec fn opt_str_view(o: Option<&str>) -> Option<Seq<char>> {
    match o {
        Some(s) => Some(s@),
        None => None,
    }
}

/// Build the subject's memberships: every loaded membership is kept, and
/// the subject's taxonomies are those its entity type belongs to, leaving
/// out conditional memberships whose rules cannot be confirmed.
pub fn build_subject_memberships(
    all_memberships: Vec<TaxonomyMembership>,
    entity_type_fqn: Option<&str>,
    conditional_rules: &Vec<MembershipRuleBody>,
) -> (r: SubjectMemberships)
    ensures
        r.all_memberships@ == all_memberships@,
        strictly_sorted(texts(r.subject_taxonomy_fqns@)),
        texts(r.subject_taxonomy_fqns@).to_set() == subject_taxonomies(
            all_memberships@,
            opt_str_view(entity_type_fqn),
            conditional_rules@,
        ),
{
    let excluded = evaluate_conditional_memberships(conditional_rules);
    let ghost ex = excluded_keys(conditional_rules@);
    let mut found: Vec<String> = Vec::new();
    match entity_type_fqn {
        Some(et) => {
            let mut i: usize = 0;
            while i < all_memberships.len()
                invariant
                    i <= all_memberships.len(),
                    ex == excluded_keys(conditional_rules@),
                    texts(excluded@).to_set() == ex,
                    forall|t: Seq<char>|
                        texts(found@).contains(t) <==> exists|j: int|
                            0 <= j < i && counts_for_subject(#[trigger] all_memberships@[j], et@, ex)
                                && all_memberships@[j].taxonomy_fqn@ == t,
                decreases all_memberships.len() - i,
            {
                let m = &all_memberships[i];
                let ghost before = texts(found@);
                let mut counts = text_eq(m.target_type.as_str(), "entity_type_def") && text_eq(
                    m.target_fqn.as_str(),
                    et,
                ) && !text_eq(m.membership_kind.as_str(), "excluded");
                if counts && text_eq(m.membership_kind.as_str(), "conditional") {
                    let key = join3(m.taxonomy_fqn.as_str(), "::", m.target_fqn.as_str());
                    if contains_text(&excluded, key.as_str()) {
                        counts = false;
                    }
                    proof {
                        assert(texts(excluded@).contains(key@) <==> ex.contains(key@));
                    }
                }
                if counts {
                    found.push(m.taxonomy_fqn.clone());
                    proof {
                        assert(texts(found@) =~= before.push(m.taxonomy_fqn@));
                        assert forall|t: Seq<char>|
                            texts(found@).contains(t) <==> exists|j: int|
                                0 <= j < i + 1 && counts_for_subject(#[trigger] all_memberships@[j], et@, ex)
                                    && all_memberships@[j].taxonomy_fqn@ == t by {
                            lemma_push_contains(before, m.taxonomy_fqn@, t);
                        }
                    }
                } else {
                    proof {
                        assert(texts(found@) =~= before);
                    }
                }
                i += 1;
            }
            proof {
                assert(texts(found@).to_set() =~= subject_taxonomies(
                    all_memberships@,
                    opt_str_view(entity_type_fqn),
                    conditional_rules@,
                ));
            }
        },
        None => {
            proof {
                assert(texts(found@).to_set() =~= Set::<Seq<char>>::empty());
            }
        },
    }
    let subject_taxonomy_fqns = sorted_unique(&found);
    SubjectMemberships { subject_taxonomy_fqns, all_memberships }
}

} // verus!
