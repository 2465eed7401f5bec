//! Context resolution: the value types of a grounded action surface, the
//! subject's taxonomy memberships and the canonical names of entity kinds.

use vstd::prelude::*;
use vstd::string::*;

use crate::order::{sorted_unique, strictly_sorted};
use crate::text::{ascii_lower, ascii_lower_text, contains_text, text_eq, texts, trim, trim_text};

pub mod scoring;
pub mod subject;
pub mod verdicts;

verus! {

broadcast use vstd::string::group_string_axioms;

/// How trust-class and governance-tier filtering is applied.
#[derive(Debug, Clone, Copy, PartialEq, Eq, Hash, Structural)]
pub enum EvidenceMode {
    Strict,
    Normal,
    Exploratory,
    Governance,
}

impl Default for EvidenceMode {
    fn default() -> (r: Self)
        ensures
            r == EvidenceMode::Normal,
    {
        EvidenceMode::Normal
    }
}

/// Which stage a resolution answer is at.
#[derive(Debug, Clone, Copy, PartialEq, Eq, Hash, Structural)]
pub enum ResolutionStage {
    Discovery,
    Grounded,
}

impl Default for ResolutionStage {
    fn default() -> (r: Self)
        ensures
            r == ResolutionStage::Grounded,
    {
        ResolutionStage::Grounded
    }
}

/// How far grounding has progressed.
#[derive(Debug, Clone, Copy, PartialEq, Eq, Hash, Structural)]
pub enum GroundingReadiness {
    NotReady,
    FamilyReady,
    ConstellationReady,
    Grounded,
}

impl Default for GroundingReadiness {
    fn default() -> (r: Self)
        ensures
            r == GroundingReadiness::NotReady,
    {
        GroundingReadiness::NotReady
    }
}

/// Discovery selections made so far.
#[derive(Debug, Clone, PartialEq, Eq)]
pub struct DiscoveryContext {
    pub selected_domain_id: Option<String>,
    pub selected_family_id: Option<String>,
    pub selected_constellation_id: Option<String>,
    pub known_inputs: Vec<(String, String)>,
}

/// One step of a grounding walk.
#[derive(Debug, Clone, PartialEq, Eq)]
pub struct GroundedTraversalEdge {
    pub from_type: String,
    pub to_type: String,
    pub relationship: String,
    pub direction: String,
    pub from_instance: Option<String>,
    pub to_instance: Option<String>,
}

/// A constraint that shapes the action surface.
#[derive(Debug, Clone, PartialEq, Eq)]
pub struct GroundedConstraintSignal {
    pub kind: String,
    pub slot_path: String,
    pub related_slot: Option<String>,
    pub required_state: Option<String>,
    pub actual_state: Option<String>,
    pub message: String,
}

/// An action that is valid now.
#[derive(Debug, Clone, PartialEq, Eq)]
pub struct GroundedActionOption {
    pub action_id: String,
    pub action_kind: String,
    pub description: String,
    pub requires_subject: bool,
    pub rationale: Option<String>,
}

/// An action that is blocked, with its reasons.
#[derive(Debug, Clone, PartialEq, Eq)]
pub struct BlockedActionOption {
    pub action_id: String,
    pub action_kind: String,
    pub description: String,
    pub reasons: Vec<String>,
}

/// A DSL rendering of an action.
#[derive(Debug, Clone, PartialEq, Eq)]
pub struct DslCandidate {
    pub action_id: String,
    pub dsl: String,
    pub executable: bool,
}

/// One precondition check.
#[derive(Debug, Clone, PartialEq, Eq)]
pub struct PreconditionCheck {
    pub description: String,
    pub satisfied: bool,
    pub reason: Option<String>,
}

/// A verb pruned because its entity kinds do not match the subject.
#[derive(Debug, Clone, PartialEq, Eq)]
pub struct EntityKindPrunedVerb {
    pub fqn: String,
    pub verb_kinds: Vec<String>,
    pub subject_kind: String,
}

/// Kind of governance signal.
#[derive(Debug, Clone, Copy, PartialEq, Eq, Hash, Structural)]
pub enum GovernanceSignalKind {
    UnownedObject,
    UnclassifiedObject,
    StaleEvidence,
    RetentionApproaching,
    OrphanPolicy,
    OrphanAttribute,
    CoverageGap,
}

/// Severity of a governance signal.
#[derive(Debug, Clone, Copy, PartialEq, Eq, Hash, Structural)]
pub enum GovernanceSignalSeverity {
    Info,
    Warning,
    Error,
}

/// The resolved subject.
#[derive(Debug, Clone, PartialEq, Eq)]
pub struct ResolvedSubject {
    pub entity_type_fqn: Option<String>,
    pub jurisdiction: Option<String>,
    pub state: Option<String>,
}

/// A taxonomy membership record.
#[derive(Debug, Clone, PartialEq, Eq)]
pub struct TaxonomyMembership {
    pub taxonomy_fqn: String,
    pub node_fqn: String,
    pub target_type: String,
    pub target_fqn: String,
    pub membership_kind: String,
}

/// Membership context of the subject: the taxonomies its entity type
/// belongs to, and all loaded memberships.
#[derive(Debug, Clone)]
pub struct SubjectMemberships {
    pub subject_taxonomy_fqns: Vec<String>,
    pub all_memberships: Vec<TaxonomyMembership>,
}

impl Default for SubjectMemberships {
    fn default() -> (r: Self)
        ensures
            r.subject_taxonomy_fqns@.len() == 0,
            r.all_memberships@.len() == 0,
    {
        SubjectMemberships { subject_taxonomy_fqns: Vec::new(), all_memberships: Vec::new() }
    }
}

/// The taxonomies of the non-excluded memberships of a target.
pub open spec fn target_taxonomies(ms: Seq<TaxonomyMembership>, target: Seq<char>) -> Set<Seq<char>> {
    Set::new(
        |t: Seq<char>|
            exists|i: int|
                0 <= i < ms.len() && (#[trigger] ms[i]).target_fqn@ == target && ms[i].membership_kind@
                    != "excluded"@ && ms[i].taxonomy_fqn@ == t,
    )
}

impl SubjectMemberships {
    /// The taxonomies a target (verb or attribute) belongs to, ignoring
    /// excluded memberships; ascending, each once.
    pub fn taxonomy_fqns_for_target(&self, target_fqn: &str) -> (r: Vec<String>)
        ensures
            strictly_sorted(texts(r@)),
            texts(r@).to_set() == target_taxonomies(self.all_memberships@, target_fqn@),
    {
        let mut found: Vec<String> = Vec::new();
        let mut i: usize = 0;
        while i < self.all_memberships.len()
            invariant
                i <= self.all_memberships.len(),
                forall|t: Seq<char>|
                    texts(found@).contains(t) <==> exists|k: int|
                        0 <= k < i && (#[trigger] self.all_memberships@[k]).target_fqn@ == target_fqn@
                            && self.all_memberships@[k].membership_kind@ != "excluded"@
                            && self.all_memberships@[k].taxonomy_fqn@ == t,
            decreases self.all_memberships.len() - i,
        {
            let m = &self.all_memberships[i];
            let ghost before = texts(found@);
            if text_eq(m.target_fqn.as_str(), target_fqn) && !text_eq(
                m.membership_kind.as_str(),
                "excluded",
            ) {
                found.push(m.taxonomy_fqn.clone());
            }
            proof {
                let after = texts(found@);
                assert forall|t: Seq<char>|
                    after.contains(t) <==> exists|k: int|
                        0 <= k < i + 1 && (#[trigger] self.all_memberships@[k]).target_fqn@
                            == target_fqn@ && self.all_memberships@[k].membership_kind@
                            != "excluded"@ && self.all_memberships@[k].taxonomy_fqn@ == t by {
                    if after.len() > before.len() {
                        assert(after =~= before.push(m.taxonomy_fqn@));
                        if after.contains(t) && !before.contains(t) {
                            assert(t == m.taxonomy_fqn@);
                        }
                        if before.contains(t) {
                            let q = choose|q: int| 0 <= q < before.len() && before[q] == t;
                            assert(after[q] == t);
                        }
                        assert(after[after.len() - 1] == m.taxonomy_fqn@);
                    } else {
                        assert(after =~= before);
                    }
                }
            }
            i += 1;
        }
        let r = sorted_unique(&found);
        proof {
            assert(texts(r@).to_set() =~= target_taxonomies(self.all_memberships@, target_fqn@));
        }
        r
    }

    /// The subject has at least one taxonomy membership.
    pub fn has_memberships(&self) -> (r: bool)
        ensures
            r == (self.subject_taxonomy_fqns@.len() > 0),
    {
        self.subject_taxonomy_fqns.len() > 0
    }

    /// How many of the subject's taxonomies the target also belongs to.
    pub fn taxonomy_overlap_count(&self, target_fqn: &str) -> (r: usize)
        ensures
            r == texts(self.subject_taxonomy_fqns@).to_set().intersect(
                target_taxonomies(self.all_memberships@, target_fqn@),
            ).len(),
    {
        let target = self.taxonomy_fqns_for_target(target_fqn);
        let ghost subject = texts(self.subject_taxonomy_fqns@).to_set();
        let ghost tg = texts(target@);
        let mut common: Vec<String> = Vec::new();
        let mut i: usize = 0;
        while i < target.len()
            invariant
                i <= target.len(),
                tg == texts(target@),
                strictly_sorted(tg),
                subject == texts(self.subject_taxonomy_fqns@).to_set(),
                strictly_sorted(texts(common@)),
                forall|t: Seq<char>|
                    texts(common@).contains(t) <==> (exists|w: int|
                        0 <= w < i && #[trigger] tg[w] == t && subject.contains(t)),
                i < tg.len() ==> forall|k: int|
                    0 <= k < common@.len() ==> crate::order::text_lt(
                        #[trigger] texts(common@)[k],
                        tg[i as int],
                    ),
            decreases target.len() - i,
        {
            let t = target[i].as_str();
            let ghost before = texts(common@);
            if contains_text(&self.subject_taxonomy_fqns, t) {
                common.push(target[i].clone());
            }
            proof {
                let after = texts(common@);
                if after.len() > before.len() {
                    assert(after =~= before.push(t@));
                } else {
                    assert(after =~= before);
                }
                assert forall|t2: Seq<char>|
                    after.contains(t2) <==> (exists|w: int|
                        0 <= w < i + 1 && #[trigger] tg[w] == t2 && subject.contains(t2)) by {
                    if after.contains(t2) {
                        let q = choose|q: int| 0 <= q < after.len() && after[q] == t2;
                        if q < before.len() {
                            assert(before[q] == t2);
                            assert(before.contains(t2));
                        } else {
                            assert(tg[i as int] == t2);
                        }
                    }
                    if exists|w: int| 0 <= w < i + 1 && #[trigger] tg[w] == t2 && subject.contains(t2) {
                        let w = choose|w: int| 0 <= w < i + 1 && #[trigger] tg[w] == t2 && subject.contains(t2);
                        if w < i {
                            assert(before.contains(t2));
                            let q = choose|q: int| 0 <= q < before.len() && before[q] == t2;
                            assert(after[q] == t2);
                        } else {
                            assert(after[after.len() - 1] == t2);
                        }
                    }
                }
                assert forall|a: int, b: int| 0 <= a < b < after.len() implies crate::order::text_lt(
                    #[trigger] after[a],
                    #[trigger] after[b],
                ) by {
                    if b == after.len() - 1 && after.len() > before.len() {
                        assert(crate::order::text_lt(before[a], tg[i as int]));
                    } else {
                        assert(after[a] == before[a] && after[b] == before[b]);
                    }
                }
                if i + 1 < tg.len() {
                    assert forall|k: int| 0 <= k < after.len() implies crate::order::text_lt(
                        #[trigger] after[k],
                        tg[i + 1],
                    ) by {
                        assert(crate::order::text_lt(tg[i as int], tg[i + 1]));
                        if k < before.len() {
                            assert(after[k] == before[k]);
                            crate::order::lemma_text_lt_transitive(before[k], tg[i as int], tg[i + 1]);
                        }
                    }
                }
            }
            i += 1;
        }
        proof {
            let c = texts(common@);
            assert forall|a: int, b: int| 0 <= a < b < c.len() implies c[a] != c[b] by {
                crate::order::lemma_text_lt_irreflexive(c[a]);
            }
            c.unique_seq_to_set();
            let tt = target_taxonomies(self.all_memberships@, target_fqn@);
            assert forall|t: Seq<char>| c.to_set().contains(t) <==> subject.intersect(tt).contains(t) by {
                if c.to_set().contains(t) {
                    assert(c.contains(t));
                    let w = choose|w: int| 0 <= w < i && #[trigger] tg[w] == t && subject.contains(t);
                    assert(tg.to_set().contains(t));
                }
                if subject.intersect(tt).contains(t) {
                    assert(tg.to_set().contains(t));
                    let w = choose|w: int| 0 <= w < tg.len() && tg[w] == t;
                    assert(c.contains(t));
                }
            }
            assert(c.to_set() =~= subject.intersect(tt));
        }
        common.len()
    }
}

/// The canonical entity kind for a (trimmed, lower-cased) kind name.
pub open spec fn canonical_kind(k: Seq<char>) -> Seq<char> {
    if k == "kyc_case"@ || k == "case"@ {
        "kyc-case"@
    } else if k == "client_group"@ {
        "client-group"@
    } else if k == "legal-entity"@ || k == "legal_entity"@ || k == "organization"@ || k == "org"@ {
        "company"@
    } else if k == "individual"@ || k == "natural_person"@ {
        "person"@
    } else if k == "client-book"@ || k == "client_book"@ {
        "client-group"@
    } else if k == "investor-register"@ || k == "investor_register"@ {
        "investor"@
    } else if k == "investment-fund"@ || k == "umbrella"@ || k == "sub-fund"@ || k
        == "compartment"@ {
        "fund"@
    } else if k == "doc"@ || k == "evidence-document"@ {
        "document"@
    } else if k == "legal-contract"@ || k == "agreement"@ || k == "msa"@ {
        "contract"@
    } else if k == "mandate"@ || k == "trading-mandate"@ {
        "trading-profile"@
    } else if k == "deal-record"@ || k == "sales-deal"@ {
        "deal"@
    } else if k == "client-business-unit"@ || k == "structure"@ || k == "trading-unit"@ {
        "cbu"@
    } else {
        k
    }
}

/// The canonical entity kind of a kind name: trimmed, ASCII lower-cased,
/// and mapped through the table of aliases.
pub fn canonicalize_entity_kind(kind: &str) -> (r: String)
    ensures
        r@ == canonical_kind(ascii_lower(trim(kind@))),
{
    let t = trim_text(kind);
    let n = ascii_lower_text(t.as_str());
    let k = n.as_str();
    if text_eq(k, "kyc_case") || text_eq(k, "case") {
        "kyc-case".to_owned()
    } else if text_eq(k, "client_group") {
        "client-group".to_owned()
    } else if text_eq(k, "legal-entity") || text_eq(k, "legal_entity") || text_eq(k, "organization")
        || text_eq(k, "org") {
        "company".to_owned()
    } else if text_eq(k, "individual") || text_eq(k, "natural_person") {
        "person".to_owned()
    } else if text_eq(k, "client-book") || text_eq(k, "client_book") {
        "client-group".to_owned()
    } else if text_eq(k, "investor-register") || text_eq(k, "investor_register") {
        "investor".to_owned()
    } else if text_eq(k, "investment-fund") || text_eq(k, "umbrella") || text_eq(k, "sub-fund")
        || text_eq(k, "compartment") {
        "fund".to_owned()
    } else if text_eq(k, "doc") || text_eq(k, "evidence-document") {
        "document".to_owned()
    } else if text_eq(k, "legal-contract") || text_eq(k, "agreement") || text_eq(k, "msa") {
        "contract".to_owned()
    } else if text_eq(k, "mandate") || text_eq(k, "trading-mandate") {
        "trading-profile".to_owned()
    } else if text_eq(k, "deal-record") || text_eq(k, "sales-deal") {
        "deal".to_owned()
    } else if text_eq(k, "client-business-unit") || text_eq(k, "structure") || text_eq(
        k,
        "trading-unit",
    ) {
        "cbu".to_owned()
    } else {
        n.clone()
    }
}

} // verus!

verus! {

/// A valid action as texts.
pub struct ActionView {
    pub action_id: Seq<char>,
    pub action_kind: Seq<char>,
    pub description: Seq<char>,
    pub requires_subject: bool,
    pub rationale: Option<Seq<char>>,
}

/// A blocked action as texts.
pub struct BlockedView {
    pub action_id: Seq<char>,
    pub action_kind: Seq<char>,
    pub description: Seq<char>,
    pub reasons: Seq<Seq<char>>,
}

/// A constraint signal as texts.
pub struct SignalView {
    pub kind: Seq<char>,
    pub slot_path: Seq<char>,
    pub related_slot: Option<Seq<char>>,
    pub required_state: Option<Seq<char>>,
    pub actual_state: Option<Seq<char>>,
    pub message: Seq<char>,
}

pub open spec fn opt_text_view(o: Option<String>) -> Option<Seq<char>> {
    match o {
        Some(s) => Some(s@),
        None => None,
    }
}

impl View for GroundedActionOption {
    type V = ActionView;

    open spec fn view(&self) -> ActionView {
        ActionView {
            action_id: self.action_id@,
            action_kind: self.action_kind@,
            description: self.description@,
            requires_subject: self.requires_subject,
            rationale: opt_text_view(self.rationale),
        }
    }
}

impl View for BlockedActionOption {
    type V = BlockedView;

    open spec fn view(&self) -> BlockedView {
        BlockedView {
            action_id: self.action_id@,
            action_kind: self.action_kind@,
            description: self.description@,
            reasons: texts(self.reasons@),
        }
    }
}

impl View for GroundedConstraintSignal {
    type V = SignalView;

    open spec fn view(&self) -> SignalView {
        SignalView {
            kind: self.kind@,
            slot_path: self.slot_path@,
            related_slot: opt_text_view(self.related_slot),
            required_state: opt_text_view(self.required_state),
            actual_state: opt_text_view(self.actual_state),
            message: self.message@,
        }
    }
}

} // verus!
