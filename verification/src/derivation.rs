//! Derivation evaluation: the errors it can end in, and the checks made
//! before a derivation function is called.

use vstd::prelude::*;

use crate::json::{is_null_or_absent, null_or_absent, JsonValue};
use crate::text::{contains_text, decimal, join3, texts, u64_text};

verus! {

/// Why a derivation could not be evaluated.
#[derive(Debug, Clone, PartialEq, Eq)]
pub enum DerivationError {
    FunctionNotFound { ref_name: String },
    NullRequiredInput { attribute_fqn: String },
    ExecutionFailed { message: String },
    StalenessViolation { max_age_seconds: u64 },
}

/// How a derivation error is written.
pub open spec fn derivation_error_text(e: DerivationError) -> Seq<char> {
    match e {
        DerivationError::FunctionNotFound { ref_name } => "Derivation function '"@ + ref_name@
            + "' not found in registry"@,
        DerivationError::NullRequiredInput { attribute_fqn } => "Required input '"@ + attribute_fqn@ + "' is null"@,
        DerivationError::ExecutionFailed { message } => "Derivation execution failed: "@ + message@,
        DerivationError::StalenessViolation { max_age_seconds } => "Input data exceeds freshness rule ("@ + decimal(
            max_age_seconds as nat,
        ) + " seconds)"@,
    }
}

impl DerivationError {
    /// The error's text.
    pub fn message(&self) -> (r: String)
        ensures
            r@ == derivation_error_text(*self),
    {
        match self {
            DerivationError::FunctionNotFound { ref_name } => join3(
                "Derivation function '",
                ref_name.as_str(),
                "' not found in registry",
            ),
            DerivationError::NullRequiredInput { attribute_fqn } => join3(
                "Required input '",
                attribute_fqn.as_str(),
                "' is null",
            ),
            DerivationError::ExecutionFailed { message } => crate::text::join2(
                "Derivation execution failed: ",
                message.as_str(),
            ),
            DerivationError::StalenessViolation { max_age_seconds } => {
                let n = u64_text(*max_age_seconds);
                join3("Input data exceeds freshness rule (", n.as_str(), " seconds)")
            },
        }
    }
}

/// What a derivation does when a required input is null or absent.
#[derive(Debug)]
pub enum NullSemantics {
    /// Refuse with `NullRequiredInput`.
    Error,
    /// The result is null.
    Propagate,
    /// The result is null.
    Skip,
    /// Go on; the function sees the input as it is.
    Default(JsonValue),
}

/// An input of a derivation.
#[derive(Debug, Clone, PartialEq, Eq)]
pub struct DerivationInputDef {
    pub attribute_fqn: String,
    pub role: String,
    pub required: bool,
}

/// What evaluation reads of a derivation spec: its inputs, its null
/// semantics, and the name of the function it calls.
#[derive(Debug)]
pub struct DerivationEvaluationSpec {
    pub inputs: Vec<DerivationInputDef>,
    pub null_semantics: NullSemantics,
    pub function_ref: String,
}

/// How an evaluation goes on after the checks.
#[derive(Debug, Clone, Copy, PartialEq, Eq, Structural)]
pub enum GateOutcome {
    /// The result is null without calling the function.
    NullResult,
    /// The registered function is to be called.
    Call,
}

/// Why the checks refuse an evaluation, as texts.
pub enum GateRefusal {
    NullRequiredInput(Seq<char>),
    FunctionNotFound(Seq<char>),
}

/// The checks from input `k` on: the first required input that is null or
/// absent decides by the null semantics (refuse, a null result, or go on);
/// then the function must be registered.
pub open spec fn gate_from(
    spec: DerivationEvaluationSpec,
    null_or_absent: Seq<bool>,
    registered: Seq<Seq<char>>,
    k: int,
) -> Result<GateOutcome, GateRefusal>
    decreases spec.inputs@.len() - k,
{
    if k < 0 || k >= spec.inputs@.len() {
        if registered.contains(spec.function_ref@) {
            Ok(GateOutcome::Call)
        } else {
            Err(GateRefusal::FunctionNotFound(spec.function_ref@))
        }
    } else if spec.inputs@[k].required && null_or_absent[k] {
        match spec.null_semantics {
            NullSemantics::Error => Err(GateRefusal::NullRequiredInput(spec.inputs@[k].attribute_fqn@)),
            NullSemantics::Propagate => Ok(GateOutcome::NullResult),
            NullSemantics::Skip => Ok(GateOutcome::NullResult),
            NullSemantics::Default(_) => gate_from(spec, null_or_absent, registered, k + 1),
        }
    } else {
        gate_from(spec, null_or_absent, registered, k + 1)
    }
}

/// The checks of an evaluation, from the first input on.
pub open spec fn derivation_gate_spec(
    spec: DerivationEvaluationSpec,
    null_or_absent: Seq<bool>,
    registered: Seq<Seq<char>>,
) -> Result<GateOutcome, GateRefusal> {
    gate_from(spec, null_or_absent, registered, 0)
}

/// The error a refusal is.
pub open spec fn refusal_matches(e: DerivationError, g: GateRefusal) -> bool {
    match g {
        GateRefusal::NullRequiredInput(f) => e matches DerivationError::NullRequiredInput { attribute_fqn }
            && attribute_fqn@ == f,
        GateRefusal::FunctionNotFound(n) => e matches DerivationError::FunctionNotFound { ref_name } && ref_name@
            == n,
    }
}

/// The checks made before a derivation function is called, given for each
/// input whether it is null or absent and the names of the registered
/// functions.
pub fn derivation_gate(
    spec: &DerivationEvaluationSpec,
    null_or_absent: &Vec<bool>,
    registered: &Vec<String>,
) -> (r: Result<GateOutcome, DerivationError>)
    requires
        null_or_absent@.len() == spec.inputs@.len(),
    ensures
        match derivation_gate_spec(*spec, null_or_absent@, texts(registered@)) {
            Ok(o) => r == Ok::<GateOutcome, DerivationError>(o),
            Err(g) => r matches Err(e) && refusal_matches(e, g),
        },
{
    let mut k: usize = 0;
    while k < spec.inputs.len()
        invariant
            k <= spec.inputs@.len(),
            null_or_absent@.len() == spec.inputs@.len(),
            derivation_gate_spec(*spec, null_or_absent@, texts(registered@)) == gate_from(
                *spec,
                null_or_absent@,
                texts(registered@),
                k as int,
            ),
        decreases spec.inputs.len() - k,
    {
        if spec.inputs[k].required && null_or_absent[k] {
            match &spec.null_semantics {
                NullSemantics::Error => {
                    return Err(DerivationError::NullRequiredInput { attribute_fqn: spec.inputs[k].attribute_fqn.clone() });
                },
                NullSemantics::Propagate => {
                    return Ok(GateOutcome::NullResult);
                },
                NullSemantics::Skip => {
                    return Ok(GateOutcome::NullResult);
                },
                NullSemantics::Default(_) => {},
            }
        }
        k += 1;
    }
    if contains_text(registered, spec.function_ref.as_str()) {
        Ok(GateOutcome::Call)
    } else {
        Err(DerivationError::FunctionNotFound { ref_name: spec.function_ref.clone() })
    }
}

/// The checks of an evaluation on a JSON object of inputs: each input is
/// looked up in it (absent or null, or not), and the checks are made on
/// what was found.
pub fn check_derivation_inputs(
    spec: &DerivationEvaluationSpec,
    inputs: &JsonValue,
    registered: &Vec<String>,
) -> (r: Result<GateOutcome, DerivationError>)
    ensures
        ({
            let flags = Seq::new(
                spec.inputs@.len(),
                |i: int| null_or_absent(inputs@, spec.inputs@[i].attribute_fqn@),
            );
            match derivation_gate_spec(*spec, flags, texts(registered@)) {
                Ok(o) => r == Ok::<GateOutcome, DerivationError>(o),
                Err(g) => r matches Err(e) && refusal_matches(e, g),
            }
        }),
{
    let ghost want = Seq::new(
        spec.inputs@.len(),
        |i: int| null_or_absent(inputs@, spec.inputs@[i].attribute_fqn@),
    );
    let mut flags: Vec<bool> = Vec::new();
    let mut i: usize = 0;
    while i < spec.inputs.len()
        invariant
            i <= spec.inputs@.len(),
            want == Seq::new(
                spec.inputs@.len(),
                |i: int| null_or_absent(inputs@, spec.inputs@[i].attribute_fqn@),
            ),
            flags@ == want.take(i as int),
        decreases spec.inputs.len() - i,
    {
        flags.push(is_null_or_absent(inputs, spec.inputs[i].attribute_fqn.as_str()));
        assert(want.take(i + 1) =~= want.take(i as int).push(want[i as int]));
        i += 1;
    }
    assert(want.take(spec.inputs@.len() as int) =~= want);
    derivation_gate(spec, &flags, registered)
}

} // verus!
