//! Enforcement of access control on registry reads: whether an actor may
//! read a snapshot, the stub that stands for a denied one, and the split of
//! a list of snapshots into readable rows and stubs.

use vstd::prelude::*;
use vstd::string::*;

use crate::abac::{
    abac_decision, evaluate_abac, evaluate_abac_with_evidence_grade, graded_decision, AccessDecision,
    AccessPurpose, ActorContext, DecisionView,
};
use crate::gates::{LabelParse, SnapshotRow};
use crate::text::{owned, text_eq};

verus! {

broadcast use vstd::string::group_string_axioms;

/// The outcome of an enforcement check on one snapshot.
#[derive(Debug, Clone, PartialEq, Eq)]
pub enum EnforceResult {
    /// Return the full data.
    Allow,
    /// Return the data with these fields masked.
    AllowWithMasking { masked_fields: Vec<String> },
    /// Return a redacted stub.
    Deny { reason: String },
}

impl View for EnforceResult {
    type V = DecisionView;

    open spec fn view(&self) -> DecisionView {
        match self {
            EnforceResult::Allow => DecisionView::Allow,
            EnforceResult::Deny { reason } => DecisionView::Deny(reason@),
            EnforceResult::AllowWithMasking { masked_fields } => DecisionView::AllowWithMasking(
                crate::text::texts(masked_fields@),
            ),
        }
    }
}

fn from_decision(d: AccessDecision) -> (r: EnforceResult)
    ensures
        r@ == d@,
{
    match d {
        AccessDecision::Allow => EnforceResult::Allow,
        AccessDecision::AllowWithMasking { masked_fields } => EnforceResult::AllowWithMasking { masked_fields },
        AccessDecision::Deny { reason } => EnforceResult::Deny { reason },
    }
}

/// The denial for a label that does not parse.
pub open spec fn unparseable_label() -> DecisionView {
    DecisionView::Deny("Security label unparseable — access denied by default"@)
}

/// The decision on reading an object with the given label for operations;
/// a label that does not parse is denied.
pub open spec fn label_read(actor: ActorContext, label: LabelParse) -> DecisionView {
    match label {
        LabelParse::Valid(l) => abac_decision(actor, l, AccessPurpose::Operations),
        LabelParse::Invalid { .. } => unparseable_label(),
    }
}

/// The decision on reading an attribute definition: by its label and its
/// evidence grade; denied when either does not parse.
pub open spec fn attribute_read(actor: ActorContext, row: SnapshotRow) -> DecisionView {
    match row.security_label {
        LabelParse::Invalid { .. } => unparseable_label(),
        LabelParse::Valid(l) => match row.definition.attribute_evidence_grade {
            None => DecisionView::Deny("Attribute definition unparseable — access denied by default"@),
            Some(g) => graded_decision(actor, l, AccessPurpose::Operations, g),
        },
    }
}

/// The decision on reading a snapshot: attribute definitions as
/// `attribute_read`, everything else by its label.
pub open spec fn row_read(actor: ActorContext, row: SnapshotRow) -> DecisionView {
    if row.object_type@ == "attribute_def"@ {
        attribute_read(actor, row)
    } else {
        label_read(actor, row.security_label)
    }
}

fn unparseable() -> (r: EnforceResult)
    ensures
        r@ == unparseable_label(),
{
    EnforceResult::Deny { reason: owned("Security label unparseable — access denied by default") }
}

/// Whether the actor may read an object with the given label; a label that
/// does not parse is denied.
pub fn enforce_read_label(actor: &ActorContext, security_label: &LabelParse) -> (r: EnforceResult)
    ensures
        r@ == label_read(*actor, *security_label),
{
    match security_label {
        LabelParse::Valid(l) => from_decision(evaluate_abac(actor, l, AccessPurpose::Operations)),
        LabelParse::Invalid { .. } => unparseable(),
    }
}

/// Whether the actor may read an attribute definition, with the
/// restrictions of its evidence grade.
pub fn enforce_attribute_read(actor: &ActorContext, row: &SnapshotRow) -> (r: EnforceResult)
    ensures
        r@ == attribute_read(*actor, *row),
{
    match &row.security_label {
        LabelParse::Invalid { .. } => unparseable(),
        LabelParse::Valid(l) => match row.definition.attribute_evidence_grade {
            None => EnforceResult::Deny {
                reason: owned("Attribute definition unparseable — access denied by default"),
            },
            Some(g) => from_decision(evaluate_abac_with_evidence_grade(actor, l, AccessPurpose::Operations, g)),
        },
    }
}

/// Whether the actor may read a snapshot.
pub fn enforce_read(actor: &ActorContext, row: &SnapshotRow) -> (r: EnforceResult)
    ensures
        r@ == row_read(*actor, *row),
{
    if text_eq(row.object_type.as_str(), "attribute_def") {
        return enforce_attribute_read(actor, row);
    }
    enforce_read_label(actor, &row.security_label)
}

/// What stands in for a denied snapshot.
#[derive(Debug, Clone, PartialEq, Eq)]
pub struct RedactedStub {
    pub snapshot_id: u128,
    pub object_type: String,
    pub fqn: String,
    pub redacted: bool,
    pub reason: String,
}

/// Build the stub of a denied snapshot: its id, type, fqn (`unknown` when
/// its definition names none) and the reason.
pub fn redacted_stub(row: &SnapshotRow, reason: &str) -> (r: RedactedStub)
    ensures
        r.snapshot_id == row.snapshot_id,
        r.object_type@ == row.object_type@,
        r.fqn@ == match row.definition.fqn {
            Some(f) => f@,
            None => "unknown"@,
        },
        r.redacted,
        r.reason@ == reason@,
{
    let fqn = match &row.definition.fqn {
        Some(f) => f.clone(),
        None => owned("unknown"),
    };
    RedactedStub {
        snapshot_id: row.snapshot_id,
        object_type: row.object_type.clone(),
        fqn,
        redacted: true,
        reason: owned(reason),
    }
}

/// The rows the actor may read, in order.
pub open spec fn readable(actor: ActorContext, rows: Seq<SnapshotRow>) -> Seq<SnapshotRow>
    decreases rows.len(),
{
    if rows.len() == 0 {
        Seq::empty()
    } else {
        let rest = readable(actor, rows.drop_last());
        if row_read(actor, rows.last()) is Deny {
            rest
        } else {
            rest.push(rows.last())
        }
    }
}

/// The denied rows with their reasons, in order.
pub open spec fn denied(actor: ActorContext, rows: Seq<SnapshotRow>) -> Seq<(SnapshotRow, Seq<char>)>
    decreases rows.len(),
{
    if rows.len() == 0 {
        Seq::empty()
    } else {
        let rest = denied(actor, rows.drop_last());
        match row_read(actor, rows.last()) {
            DecisionView::Deny(reason) => rest.push((rows.last(), reason)),
            _ => rest,
        }
    }
}

/// Whether a stub stands for a denied row with its reason.
pub open spec fn stub_of(s: RedactedStub, d: (SnapshotRow, Seq<char>)) -> bool {
    &&& s.snapshot_id == d.0.snapshot_id
    &&& s.object_type@ == d.0.object_type@
    &&& s.fqn@ == match d.0.definition.fqn {
        Some(f) => f@,
        None => "unknown"@,
    }
    &&& s.redacted
    &&& s.reason@ == d.1
}

/// Split snapshots into those the actor may read (with or without
/// masking) and stubs for the denied ones, each in order.
pub fn filter_by_abac<'a>(actor: &ActorContext, rows: &'a Vec<SnapshotRow>) -> (r: (
    Vec<&'a SnapshotRow>,
    Vec<RedactedStub>,
))
    ensures
        r.0@.len() == readable(*actor, rows@).len(),
        forall|k: int| 0 <= k < r.0@.len() ==> *(#[trigger] r.0@[k]) == readable(*actor, rows@)[k],
        r.1@.len() == denied(*actor, rows@).len(),
        forall|k: int| 0 <= k < r.1@.len() ==> stub_of(#[trigger] r.1@[k], denied(*actor, rows@)[k]),
{
    let mut allowed: Vec<&'a SnapshotRow> = Vec::new();
    let mut redacted: Vec<RedactedStub> = Vec::new();
    let mut i: usize = 0;
    while i < rows.len()
        invariant
            i <= rows.len(),
            allowed@.len() == readable(*actor, rows@.take(i as int)).len(),
            forall|k: int|
                0 <= k < allowed@.len() ==> *(#[trigger] allowed@[k]) == readable(*actor, rows@.take(i as int))[k],
            redacted@.len() == denied(*actor, rows@.take(i as int)).len(),
            forall|k: int|
                0 <= k < redacted@.len() ==> stub_of(#[trigger] redacted@[k], denied(*actor, rows@.take(i as int))[k]),
        decreases rows.len() - i,
    {
        assert(rows@.take(i + 1).drop_last() =~= rows@.take(i as int));
        assert(rows@.take(i + 1).last() == rows@[i as int]);
        let row = &rows[i];
        match enforce_read(actor, row) {
            EnforceResult::Deny { reason } => {
                let stub = redacted_stub(row, reason.as_str());
                redacted.push(stub);
            },
            _ => {
                allowed.push(row);
            },
        }
        i += 1;
    }
    assert(rows@.take(rows.len() as int) =~= rows@);
    (allowed, redacted)
}

} // verus!
