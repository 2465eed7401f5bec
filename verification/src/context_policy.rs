//! Context-policy enforcement for prompt assembly: which discovery
//! observations may enter a prompt, which are redacted and why, and whether
//! an external LLM may see the result.

use vstd::prelude::*;
use vstd::string::*;

use crate::authoring::canonical_hash::{hex_encode, hex_text, sha256, sha256_digest};
use crate::domain_pack::{ClassificationLimit, ContextClassificationPolicy};
use crate::order::{is_stable_order, single_keys, stable_order_by_text};
use crate::text::{join2, ascii_lower, ascii_lower_text, contains_infix, flat, has_infix, lemma_flat_take, texts};

verus! {

broadcast use vstd::string::group_string_axioms;

/// Numeric rank of a classification limit.
pub open spec fn limit_rank(c: ClassificationLimit) -> nat {
    match c {
        ClassificationLimit::Public => 0,
        ClassificationLimit::Internal => 1,
        ClassificationLimit::Confidential => 2,
        ClassificationLimit::Restricted => 3,
    }
}

/// The rank of a classification limit, from public (0) to restricted (3).
pub fn classification_rank(classification: ClassificationLimit) -> (r: u8)
    ensures
        r == limit_rank(classification),
{
    match classification {
        ClassificationLimit::Public => 0,
        ClassificationLimit::Internal => 1,
        ClassificationLimit::Confidential => 2,
        ClassificationLimit::Restricted => 3,
    }
}

/// Why an observation was kept out of a prompt.
#[derive(Debug, Clone, Copy, PartialEq, Eq, Structural)]
pub enum PromptContextRedactionReason {
    ClassificationLimitExceeded,
    RequiredRedaction,
}

/// A redacted observation.
#[derive(Debug, Clone, PartialEq, Eq)]
pub struct PromptContextRedaction {
    pub key: String,
    pub reason: PromptContextRedactionReason,
}

/// What the policy reads of a discovery observation.
#[derive(Debug, Clone, PartialEq, Eq)]
pub struct ObservationHeader {
    pub key: String,
    pub classification: Option<ClassificationLimit>,
}

/// An observation admitted to the prompt: its position among the
/// observations, its key and its effective classification.
#[derive(Debug, Clone, PartialEq, Eq)]
pub struct PromptContextEntry {
    pub index: usize,
    pub key: String,
    pub classification: ClassificationLimit,
}

/// The decisions of prompt assembly.
#[derive(Debug, Clone, PartialEq, Eq)]
pub struct PromptContextPlan {
    pub included: Vec<PromptContextEntry>,
    pub redacted: Vec<PromptContextRedaction>,
    pub external_llm_allowed: bool,
}

/// The classification of an observation, internal when unstated.
pub open spec fn effective_class(o: ObservationHeader) -> ClassificationLimit {
    match o.classification {
        Some(c) => c,
        None => ClassificationLimit::Internal,
    }
}

/// The observation is classified above the policy's ceiling.
pub open spec fn over_limit(p: ContextClassificationPolicy, o: ObservationHeader) -> bool {
    limit_rank(effective_class(o)) > limit_rank(p.max_prompt_classification)
}

/// The observation's key contains a required redaction term (compared in
/// ASCII lower case; empty terms match nothing).
pub open spec fn needs_redaction(p: ContextClassificationPolicy, o: ObservationHeader) -> bool {
    exists|i: int|
        0 <= i < p.required_redactions@.len() && ascii_lower(
            (#[trigger] p.required_redactions@[i])@,
        ).len() > 0 && has_infix(ascii_lower(o.key@), ascii_lower(p.required_redactions@[i]@))
}

/// The positions of the admitted observations, in input order.
pub open spec fn admitted(p: ContextClassificationPolicy, obs: Seq<ObservationHeader>) -> Seq<usize> {
    flat(
        Seq::new(
            obs.len(),
            |i: int|
                if !over_limit(p, obs[i]) && !needs_redaction(p, obs[i]) {
                    seq![i as usize]
                } else {
                    Seq::empty()
                },
        ),
    )
}

/// The redactions, in input order.
pub open spec fn redactions(p: ContextClassificationPolicy, obs: Seq<ObservationHeader>) -> Seq<(Seq<char>, PromptContextRedactionReason)> {
    flat(
        Seq::new(
            obs.len(),
            |i: int|
                if over_limit(p, obs[i]) {
                    seq![(obs[i].key@, PromptContextRedactionReason::ClassificationLimitExceeded)]
                } else if needs_redaction(p, obs[i]) {
                    seq![(obs[i].key@, PromptContextRedactionReason::RequiredRedaction)]
                } else {
                    Seq::empty()
                },
        ),
    )
}

/// The keys of the admitted observations, in input order.
pub open spec fn admitted_keys(p: ContextClassificationPolicy, obs: Seq<ObservationHeader>) -> Seq<Seq<char>> {
    admitted(p, obs).map_values(|i: usize| obs[i as int].key@)
}

/// The keys of the redactions, in input order.
pub open spec fn redaction_keys(p: ContextClassificationPolicy, obs: Seq<ObservationHeader>) -> Seq<Seq<char>> {
    redactions(p, obs).map_values(|x: (Seq<char>, PromptContextRedactionReason)| x.0)
}

fn requires_redaction(policy: &ContextClassificationPolicy, observation: &ObservationHeader) -> (r: bool)
    ensures
        r == needs_redaction(*policy, *observation),
{
    let key = ascii_lower_text(observation.key.as_str());
    let mut i: usize = 0;
    while i < policy.required_redactions.len()
        invariant
            i <= policy.required_redactions.len(),
            key@ == ascii_lower(observation.key@),
            forall|j: int|
                0 <= j < i ==> !(ascii_lower((#[trigger] policy.required_redactions@[j])@).len() > 0
                    && has_infix(ascii_lower(observation.key@), ascii_lower(policy.required_redactions@[j]@))),
        decreases policy.required_redactions.len() - i,
    {
        let needle = ascii_lower_text(policy.required_redactions[i].as_str());
        if needle.as_str().is_empty() == false && contains_infix(key.as_str(), needle.as_str()) {
            return true;
        }
        i += 1;
    }
    false
}

/// Decide which observations enter a prompt: those above the policy's
/// classification ceiling, and those whose key holds a required redaction
/// term, are redacted; the rest are admitted. Both lists are sorted stably by
/// key. An external LLM is allowed when the policy allows it, the ceiling is
/// at most internal, and nothing was redacted for its classification.
pub fn plan_prompt_context(policy: &ContextClassificationPolicy, observations: &Vec<ObservationHeader>) -> (r: PromptContextPlan)
    ensures
        ({
            let adm = admitted(*policy, observations@);
            let red = redactions(*policy, observations@);
            &&& r.included@.len() == adm.len()
            &&& exists|q: Seq<usize>|
                #[trigger] is_stable_order(single_keys(admitted_keys(*policy, observations@)), q)
                    && forall|k: int|
                    0 <= k < adm.len() ==> {
                        let i = adm[q[k] as int];
                        &&& (#[trigger] r.included@[k]).index == i
                        &&& r.included@[k].key@ == observations@[i as int].key@
                        &&& r.included@[k].classification == effective_class(observations@[i as int])
                    }
            &&& r.redacted@.len() == red.len()
            &&& exists|q: Seq<usize>|
                #[trigger] is_stable_order(single_keys(redaction_keys(*policy, observations@)), q)
                    && forall|k: int|
                    0 <= k < red.len() ==> (#[trigger] r.redacted@[k]).key@ == red[q[k] as int].0
                        && r.redacted@[k].reason == red[q[k] as int].1
            &&& r.external_llm_allowed == (policy.allow_external_llm && limit_rank(
                policy.max_prompt_classification,
            ) <= 1 && !exists|i: int| 0 <= i < observations@.len() && over_limit(*policy, #[trigger] observations@[i]))
        }),
{
    let ghost aparts = Seq::new(
        observations@.len(),
        |i: int|
            if !over_limit(*policy, observations@[i]) && !needs_redaction(*policy, observations@[i]) {
                seq![i as usize]
            } else {
                Seq::<usize>::empty()
            },
    );
    let ghost rparts = Seq::new(
        observations@.len(),
        |i: int|
            if over_limit(*policy, observations@[i]) {
                seq![(observations@[i].key@, PromptContextRedactionReason::ClassificationLimitExceeded)]
            } else if needs_redaction(*policy, observations@[i]) {
                seq![(observations@[i].key@, PromptContextRedactionReason::RequiredRedaction)]
            } else {
                Seq::<(Seq<char>, PromptContextRedactionReason)>::empty()
            },
    );
    let limit = classification_rank(policy.max_prompt_classification);
    let mut adm: Vec<usize> = Vec::new();
    let mut adm_keys: Vec<String> = Vec::new();
    let mut red_keys: Vec<String> = Vec::new();
    let mut red_reasons: Vec<PromptContextRedactionReason> = Vec::new();
    let mut any_over = false;
    let mut i: usize = 0;
    while i < observations.len()
        invariant
            i <= observations.len(),
            limit == limit_rank(policy.max_prompt_classification),
            aparts == Seq::new(
                observations@.len(),
                |i: int|
                    if !over_limit(*policy, observations@[i]) && !needs_redaction(*policy, observations@[i]) {
                        seq![i as usize]
                    } else {
                        Seq::<usize>::empty()
                    },
            ),
            rparts == Seq::new(
                observations@.len(),
                |i: int|
                    if over_limit(*policy, observations@[i]) {
                        seq![(observations@[i].key@, PromptContextRedactionReason::ClassificationLimitExceeded)]
                    } else if needs_redaction(*policy, observations@[i]) {
                        seq![(observations@[i].key@, PromptContextRedactionReason::RequiredRedaction)]
                    } else {
                        Seq::<(Seq<char>, PromptContextRedactionReason)>::empty()
                    },
            ),
            adm@ == flat(aparts.take(i as int)),
            forall|k: int| 0 <= k < adm@.len() ==> #[trigger] adm@[k] < observations@.len(),
            adm_keys@.len() == adm@.len(),
            forall|k: int| 0 <= k < adm@.len() ==> (#[trigger] adm_keys@[k])@ == observations@[adm@[k] as int].key@,
            red_keys@.len() == red_reasons@.len(),
            flat(rparts.take(i as int)) == texts(red_keys@).zip_with(red_reasons@),
            any_over == exists|j: int| 0 <= j < i && over_limit(*policy, #[trigger] observations@[j]),
        decreases observations.len() - i,
    {
        let o = &observations[i];
        let class = match o.classification {
            Some(c) => c,
            None => ClassificationLimit::Internal,
        };
        let ghost a0 = adm@;
        let ghost rk0 = texts(red_keys@);
        let ghost rr0 = red_reasons@;
        if classification_rank(class) > limit {
            red_keys.push(o.key.clone());
            red_reasons.push(PromptContextRedactionReason::ClassificationLimitExceeded);
            any_over = true;
        } else if requires_redaction(policy, o) {
            red_keys.push(o.key.clone());
            red_reasons.push(PromptContextRedactionReason::RequiredRedaction);
        } else {
            adm.push(i);
            adm_keys.push(o.key.clone());
        }
        proof {
            lemma_flat_take(aparts, i as int);
            lemma_flat_take(rparts, i as int);
            assert(adm@ =~= flat(aparts.take(i + 1)));
            assert(texts(red_keys@).zip_with(red_reasons@) =~= flat(rparts.take(i + 1)));
        }
        i += 1;
    }
    assert(aparts.take(aparts.len() as int) =~= aparts);
    assert(rparts.take(rparts.len() as int) =~= rparts);
    let ghost a = admitted(*policy, observations@);
    let ghost rd = redactions(*policy, observations@);
    assert(a == adm@);
    assert(texts(adm_keys@) =~= adm@.map_values(|j: usize| observations@[j as int].key@));
    let p = stable_order_by_text(&adm_keys);
    let mut included: Vec<PromptContextEntry> = Vec::new();
    let mut k: usize = 0;
    while k < p.len()
        invariant
            k <= p.len(),
            a == adm@,
            texts(adm_keys@) == adm@.map_values(|j: usize| observations@[j as int].key@),
            is_stable_order(single_keys(texts(adm_keys@)), p@),
            forall|m: int| 0 <= m < adm@.len() ==> #[trigger] adm@[m] < observations@.len(),
            included@.len() == k,
            forall|m: int|
                0 <= m < k ==> {
                    let i = a[p@[m] as int];
                    &&& (#[trigger] included@[m]).index == i
                    &&& included@[m].key@ == observations@[i as int].key@
                    &&& included@[m].classification == effective_class(observations@[i as int])
                },
        decreases p.len() - k,
    {
        let j = adm[p[k]];
        let o = &observations[j];
        let class = match o.classification {
            Some(c) => c,
            None => ClassificationLimit::Internal,
        };
        included.push(PromptContextEntry { index: j, key: o.key.clone(), classification: class });
        k += 1;
    }
    let q = stable_order_by_text(&red_keys);
    let mut redacted: Vec<PromptContextRedaction> = Vec::new();
    let mut m: usize = 0;
    while m < q.len()
        invariant
            m <= q.len(),
            red_keys@.len() == red_reasons@.len(),
            rd == texts(red_keys@).zip_with(red_reasons@),
            is_stable_order(single_keys(texts(red_keys@)), q@),
            redacted@.len() == m,
            forall|n: int|
                0 <= n < m ==> (#[trigger] redacted@[n]).key@ == rd[q@[n] as int].0
                    && redacted@[n].reason == rd[q@[n] as int].1,
        decreases q.len() - m,
    {
        let j = q[m];
        redacted.push(PromptContextRedaction { key: red_keys[j].clone(), reason: red_reasons[j] });
        m += 1;
    }
    proof {
        assert(redaction_keys(*policy, observations@) =~= texts(red_keys@));
        assert(admitted_keys(*policy, observations@) == texts(adm_keys@));
    }
    let external_llm_allowed = policy.allow_external_llm && limit <= 1 && !any_over;
    PromptContextPlan { included, redacted, external_llm_allowed }
}

/// The hash of an assembled prompt context: `sha256:` and the lower-case
/// hex SHA-256 digest of the included observations as serialized.
pub fn prompt_context_hash(serialized: &Vec<u8>) -> (r: String)
    ensures
        r@ == "sha256:"@ + hex_text(sha256(serialized@)),
{
    let digest = sha256_digest(serialized.as_slice());
    let hex = hex_encode(&digest);
    join2("sha256:", hex.as_str())
}

} // verus!
