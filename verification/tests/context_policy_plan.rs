use sem_os_policy::context_policy::{
    plan_prompt_context, prompt_context_hash, ObservationHeader, PromptContextPlan,
    PromptContextRedactionReason,
};
use sem_os_policy::domain_pack::{ClassificationLimit, ContextClassificationPolicy};

fn policy() -> ContextClassificationPolicy {
    ContextClassificationPolicy {
        max_prompt_classification: ClassificationLimit::Internal,
        allow_external_llm: true,
        required_redactions: vec!["pii".to_string(), "date_of_birth".to_string()],
    }
}

fn observations() -> Vec<ObservationHeader> {
    vec![
        ObservationHeader {
            key: "case.status".to_string(),
            classification: Some(ClassificationLimit::Internal),
        },
        ObservationHeader {
            key: "case.sanctions_summary".to_string(),
            classification: Some(ClassificationLimit::Confidential),
        },
        ObservationHeader {
            key: "customer.pii.date_of_birth".to_string(),
            classification: Some(ClassificationLimit::Internal),
        },
    ]
}

/// The included observations, serialized the way the assembly hashes them
/// (keys and classifications stand in for the full records here).
fn serialized(plan: &PromptContextPlan) -> Vec<u8> {
    let mut text = String::from("[");
    for (i, e) in plan.included.iter().enumerate() {
        if i > 0 {
            text.push(',');
        }
        text.push_str(&format!("{{\"key\":\"{}\",\"classification\":\"{:?}\"}}", e.key, e.classification));
    }
    text.push(']');
    text.into_bytes()
}

#[test]
fn prompt_context_redacts_by_classification_and_required_terms() {
    let plan = plan_prompt_context(&policy(), &observations());

    assert_eq!(plan.included.len(), 1);
    assert_eq!(plan.included[0].key, "case.status");
    assert_eq!(plan.redacted.len(), 2);
    assert!(plan.redacted.iter().any(|r| {
        r.key == "case.sanctions_summary"
            && r.reason == PromptContextRedactionReason::ClassificationLimitExceeded
    }));
    assert!(plan.redacted.iter().any(|r| {
        r.key == "customer.pii.date_of_birth"
            && r.reason == PromptContextRedactionReason::RequiredRedaction
    }));
}

#[test]
fn prompt_context_hash_is_deterministic_after_sorting() {
    let first = observations();
    let mut second = observations();
    second.reverse();

    let first = plan_prompt_context(&policy(), &first);
    let second = plan_prompt_context(&policy(), &second);

    assert_eq!(
        prompt_context_hash(&serialized(&first)),
        prompt_context_hash(&serialized(&second))
    );
}

#[test]
fn external_llm_is_refused_when_prompt_limit_is_too_high() {
    let mut policy = policy();
    policy.max_prompt_classification = ClassificationLimit::Confidential;

    let plan = plan_prompt_context(&policy, &observations());

    assert!(!plan.external_llm_allowed);
}

#[test]
fn external_llm_is_refused_when_something_exceeds_the_limit() {
    let plan = plan_prompt_context(&policy(), &observations());
    assert!(!plan.external_llm_allowed);
    let clean = vec![ObservationHeader { key: "case.status".to_string(), classification: None }];
    let plan = plan_prompt_context(&policy(), &clean);
    assert!(plan.external_llm_allowed);
    assert_eq!(plan.included[0].classification, ClassificationLimit::Internal);
}

#[test]
fn included_and_redacted_are_sorted_by_key() {
    let obs = vec![
        ObservationHeader { key: "b".to_string(), classification: Some(ClassificationLimit::Public) },
        ObservationHeader { key: "zz.pii".to_string(), classification: None },
        ObservationHeader { key: "a".to_string(), classification: Some(ClassificationLimit::Public) },
        ObservationHeader { key: "x".to_string(), classification: Some(ClassificationLimit::Restricted) },
    ];
    let plan = plan_prompt_context(&policy(), &obs);
    let keys: Vec<&str> = plan.included.iter().map(|e| e.key.as_str()).collect();
    assert_eq!(keys, vec!["a", "b"]);
    assert_eq!(plan.included[0].index, 2);
    let red: Vec<&str> = plan.redacted.iter().map(|r| r.key.as_str()).collect();
    assert_eq!(red, vec!["x", "zz.pii"]);
}

#[test]
fn prompt_context_hash_of_known_bytes() {
    assert_eq!(
        prompt_context_hash(&Vec::new()),
        "sha256:e3b0c44298fc1c149afbf4c8996fb92427ae41e4649b934ca495991b7852b855"
    );
    assert_eq!(
        prompt_context_hash(&b"[]".to_vec()),
        "sha256:4f53cda18c2baa0c0354bb5f9a3ecbe5ed12ab4d8e11ba873c2f11161202b945"
    );
}
