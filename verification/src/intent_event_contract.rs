//! The contracts of the events of an intent stack.

use vstd::prelude::*;

use crate::intent::{
    IntentCriterionEvidenceLevel, IntentCriterionEvidenceV1, IntentCriterionEvidenceV1View,
    IntentEventV1, IntentEventV1View, IntentOperationResolution, MAX_INTENT_REASON_BYTES,
};
use crate::intent_contract::{
    binding_verdict, bounded_identity_verdict, bounded_text_verdict, plan_verdict, ref_verdict,
    schema_verdict, validate_bounded_identity, validate_bounded_text, validate_execution_binding,
    validate_schema_version,
};
use crate::intent_layer_contract::{
    artifact_manifest_verdict, identity_list_verdicts, layer_manifest_verdict, preview_verdict,
    validate_identity_list,
};
use crate::value::{
    chain, check, first_failure, lemma_failures_begin, lemma_failures_end, lemma_failures_step,
    reject, verdict, KernelError, Value, Verdict,
};

verus! {

/// The name of the durable event that carries a payload.
pub open spec fn event_name(e: IntentEventV1View) -> Seq<char> {
    match e {
        IntentEventV1View::StackCreated { .. } => "intent_stack_created"@,
        IntentEventV1View::PlanRecorded { .. } => "intent_plan_recorded"@,
        IntentEventV1View::PlanAccepted { .. } => "intent_plan_accepted"@,
        IntentEventV1View::ExecutionBound { .. } => "intent_execution_bound"@,
        IntentEventV1View::ChangeSetBound { .. } => "intent_change_set_bound"@,
        IntentEventV1View::LayerManifestRecorded { .. } => "intent_layer_manifest_recorded"@,
        IntentEventV1View::ArtifactBindingsRecorded { .. } => "intent_artifact_bindings_recorded"@,
        IntentEventV1View::VerificationLinked { .. } => "intent_verification_linked"@,
        IntentEventV1View::OperationRequested { .. } => "intent_operation_requested"@,
        IntentEventV1View::OperationPrepared { .. } => "intent_operation_prepared"@,
        IntentEventV1View::OperationResolved { .. } => "intent_operation_resolved"@,
        IntentEventV1View::ConflictRecorded { .. } => "intent_conflict_recorded"@,
        IntentEventV1View::VersionSuperseded { .. } => "intent_version_superseded"@,
    }
}

/// The schema version that an event carries.
pub open spec fn event_schema(e: IntentEventV1View) -> u16 {
    match e {
        IntentEventV1View::StackCreated { schema_version, .. } => schema_version,
        IntentEventV1View::PlanRecorded { schema_version, .. } => schema_version,
        IntentEventV1View::PlanAccepted { schema_version, .. } => schema_version,
        IntentEventV1View::ExecutionBound { schema_version, .. } => schema_version,
        IntentEventV1View::ChangeSetBound { schema_version, .. } => schema_version,
        IntentEventV1View::LayerManifestRecorded { schema_version, .. } => schema_version,
        IntentEventV1View::ArtifactBindingsRecorded { schema_version, .. } => schema_version,
        IntentEventV1View::VerificationLinked { schema_version, .. } => schema_version,
        IntentEventV1View::OperationRequested { schema_version, .. } => schema_version,
        IntentEventV1View::OperationPrepared { schema_version, .. } => schema_version,
        IntentEventV1View::OperationResolved { schema_version, .. } => schema_version,
        IntentEventV1View::ConflictRecorded { schema_version, .. } => schema_version,
        IntentEventV1View::VersionSuperseded { schema_version, .. } => schema_version,
    }
}

/// The checks of a list of change set identities.
pub open spec fn changeset_id_verdicts(ids: Seq<Seq<char>>) -> Seq<Verdict> {
    Seq::new(ids.len(), |i: int| bounded_identity_verdict("intent change set id"@, ids[i]))
}

/// The check of one piece of evidence.
pub open spec fn evidence_verdict(e: IntentCriterionEvidenceV1View) -> Verdict {
    chain(
        ref_verdict(e.intent_ref),
        chain(
            bounded_identity_verdict("intent verification source event id"@, e.source_event_id),
            chain(
                bounded_identity_verdict("intent verification receipt id"@, e.receipt_id),
                chain(
                    bounded_identity_verdict(
                        "intent verification parent snapshot id"@,
                        e.parent_snapshot_id,
                    ),
                    chain(
                        check(
                            e.level != IntentCriterionEvidenceLevel::SystemVerified
                                || e.changeset_ids.len() > 0,
                            "system-verified intent criterion requires change set lineage"@,
                        ),
                        first_failure(
                            identity_list_verdicts(
                                "intent verification change set id"@,
                                "intent verification evidence repeats a change set"@,
                                e.changeset_ids,
                            ),
                        ),
                    ),
                ),
            ),
        ),
    )
}

/// The checks of a list of evidence.
pub open spec fn evidence_verdicts(items: Seq<IntentCriterionEvidenceV1View>) -> Seq<Verdict> {
    Seq::new(items.len(), |i: int| evidence_verdict(items[i]))
}

/// The check of how an operation ended.
pub open spec fn resolution_verdict(
    resolution: IntentOperationResolution,
    has_batch: bool,
    has_result: bool,
    has_error: bool,
) -> Verdict {
    match resolution {
        IntentOperationResolution::Committed => check(
            has_batch && has_result && !has_error,
            "committed intent operation requires batch and result without error"@,
        ),
        IntentOperationResolution::Rejected => check(
            !has_result,
            "rejected or cancelled intent operation cannot have result snapshot"@,
        ),
        IntentOperationResolution::Cancelled => check(
            !has_result,
            "rejected or cancelled intent operation cannot have result snapshot"@,
        ),
        _ => check(has_error, "non-success intent operation resolution requires typed error"@),
    }
}

/// The checks of the payload of an event.
#[verifier::opaque]
pub open spec fn event_payload_verdict(e: IntentEventV1View) -> Verdict {
    match e {
        IntentEventV1View::StackCreated { workspace_id, source_session_id, .. } => chain(
            bounded_identity_verdict("intent workspace id"@, workspace_id),
            bounded_identity_verdict("intent source session id"@, source_session_id),
        ),
        IntentEventV1View::PlanRecorded { plan, .. } => plan_verdict(plan),
        IntentEventV1View::PlanAccepted {
            source_turn_id,
            acceptance_authority_id,
            task_plan_binding,
            ..
        } => chain(
            bounded_identity_verdict("intent acceptance source turn id"@, source_turn_id),
            chain(
                bounded_identity_verdict(
                    "intent acceptance authority id"@,
                    acceptance_authority_id,
                ),
                match task_plan_binding {
                    Some(b) => chain(
                        bounded_identity_verdict("intent acceptance task id"@, b.task_id),
                        check(
                            b.task_plan_version != 0,
                            "intent acceptance task plan version must be non-zero"@,
                        ),
                    ),
                    None => Ok(()),
                },
            ),
        ),
        IntentEventV1View::ExecutionBound { binding, .. } => binding_verdict(binding),
        IntentEventV1View::ChangeSetBound { intent_ref, changeset_ids, .. } => chain(
            ref_verdict(intent_ref),
            chain(
                check(
                    changeset_ids.len() > 0,
                    "intent change set binding requires at least one change set"@,
                ),
                first_failure(changeset_id_verdicts(changeset_ids)),
            ),
        ),
        IntentEventV1View::LayerManifestRecorded { manifest, .. } => layer_manifest_verdict(
            manifest,
        ),
        IntentEventV1View::ArtifactBindingsRecorded { manifest, .. } => artifact_manifest_verdict(
            manifest,
        ),
        IntentEventV1View::VerificationLinked { evidence, .. } => chain(
            check(evidence.len() > 0, "intent verification link requires evidence"@),
            first_failure(evidence_verdicts(evidence)),
        ),
        IntentEventV1View::OperationRequested { preview, safe_reason, .. } => chain(
            preview_verdict(preview),
            bounded_text_verdict(
                "intent operation reason"@,
                safe_reason,
                MAX_INTENT_REASON_BYTES as nat,
            ),
        ),
        IntentEventV1View::OperationPrepared {
            approval_authority_id,
            expires_at_ms,
            mutation_batch_id,
            ..
        } => chain(
            bounded_identity_verdict(
                "intent operation approval authority id"@,
                approval_authority_id,
            ),
            chain(
                check(
                    expires_at_ms != Some(0u64),
                    "intent operation prepared expiry must be non-zero"@,
                ),
                bounded_identity_verdict(
                    "intent operation mutation batch id"@,
                    mutation_batch_id,
                ),
            ),
        ),
        IntentEventV1View::OperationResolved {
            resolution,
            mutation_batch_id,
            result_snapshot_id,
            error_code,
            ..
        } => resolution_verdict(
            resolution,
            mutation_batch_id is Some,
            result_snapshot_id is Some,
            error_code is Some,
        ),
        IntentEventV1View::ConflictRecorded { conflict, .. } => bounded_text_verdict(
            "intent conflict reason"@,
            conflict.safe_reason,
            MAX_INTENT_REASON_BYTES as nat,
        ),
        IntentEventV1View::VersionSuperseded { previous, replacement, safe_reason, .. } => chain(
            ref_verdict(previous),
            chain(
                ref_verdict(replacement),
                chain(
                    check(
                        previous.intent_id == replacement.intent_id && replacement.version
                            > previous.version,
                        "intent supersede must advance the same intent lineage"@,
                    ),
                    bounded_text_verdict(
                        "intent supersede reason"@,
                        safe_reason,
                        MAX_INTENT_REASON_BYTES as nat,
                    ),
                ),
            ),
        ),
    }
}

/// The checks of an event.
pub open spec fn event_verdict(e: IntentEventV1View) -> Verdict {
    chain(schema_verdict(event_schema(e)), event_payload_verdict(e))
}

fn validate_changeset_ids(ids: &Vec<String>) -> (r: Result<(), KernelError>)
    ensures
        verdict(r) == first_failure(changeset_id_verdicts(ids.deep_view())),
{
    let ghost all = changeset_id_verdicts(ids.deep_view());
    let mut i: usize = 0;
    proof {
        lemma_failures_begin(all);
    }
    while i < ids.len()
        invariant
            i <= ids.len(),
            all == changeset_id_verdicts(ids.deep_view()),
            first_failure(all) == first_failure(all.skip(i as int)),
        decreases ids.len() - i,
    {
        proof {
            lemma_failures_step(all, i as int);
        }
        assert(ids.deep_view()[i as int] == ids@[i as int]@);
        validate_bounded_identity("intent change set id", ids[i].as_str())?;
        i = i + 1;
    }
    proof {
        lemma_failures_end(all);
    }
    Ok(())
}

fn validate_evidence_item(item: &IntentCriterionEvidenceV1) -> (r: Result<(), KernelError>)
    ensures
        verdict(r) == evidence_verdict(item.deep_view()),
{
    item.intent_ref.validate()?;
    validate_bounded_identity("intent verification source event id", item.source_event_id.as_str())?;
    validate_bounded_identity("intent verification receipt id", item.receipt_id.as_str())?;
    validate_bounded_identity(
        "intent verification parent snapshot id",
        item.parent_snapshot_id.as_str(),
    )?;
    if item.level == IntentCriterionEvidenceLevel::SystemVerified && item.changeset_ids.len() == 0 {
        return reject("system-verified intent criterion requires change set lineage");
    }
    validate_identity_list(
        "intent verification change set id",
        "intent verification evidence repeats a change set",
        &item.changeset_ids,
    )
}

fn validate_evidence(items: &Vec<IntentCriterionEvidenceV1>) -> (r: Result<(), KernelError>)
    ensures
        verdict(r) == first_failure(evidence_verdicts(items.deep_view())),
{
    let ghost all = evidence_verdicts(items.deep_view());
    let mut i: usize = 0;
    proof {
        lemma_failures_begin(all);
    }
    while i < items.len()
        invariant
            i <= items.len(),
            all == evidence_verdicts(items.deep_view()),
            first_failure(all) == first_failure(all.skip(i as int)),
        decreases items.len() - i,
    {
        proof {
            lemma_failures_step(all, i as int);
        }
        assert(items.deep_view()[i as int] == items@[i as int].deep_view());
        validate_evidence_item(&items[i])?;
        i = i + 1;
    }
    proof {
        lemma_failures_end(all);
    }
    Ok(())
}

fn validate_resolution(
    resolution: IntentOperationResolution,
    has_batch: bool,
    has_result: bool,
    has_error: bool,
) -> (r: Result<(), KernelError>)
    ensures
        verdict(r) == resolution_verdict(resolution, has_batch, has_result, has_error),
{
    match resolution {
        IntentOperationResolution::Committed => {
            if !has_batch || !has_result || has_error {
                return reject("committed intent operation requires batch and result without error");
            }
            Ok(())
        },
        IntentOperationResolution::Rejected | IntentOperationResolution::Cancelled => {
            if has_result {
                return reject("rejected or cancelled intent operation cannot have result snapshot");
            }
            Ok(())
        },
        IntentOperationResolution::Conflicted
        | IntentOperationResolution::PartiallyApplied
        | IntentOperationResolution::Interrupted => {
            if !has_error {
                return reject("non-success intent operation resolution requires typed error");
            }
            Ok(())
        },
    }
}

impl IntentEventV1 {
    /// The name of the durable event that carries this payload.
    pub fn event_type(&self) -> (r: &'static str)
        ensures
            r@ == event_name(self.deep_view()),
    {
        match self {
            IntentEventV1::StackCreated { .. } => "intent_stack_created",
            IntentEventV1::PlanRecorded { .. } => "intent_plan_recorded",
            IntentEventV1::PlanAccepted { .. } => "intent_plan_accepted",
            IntentEventV1::ExecutionBound { .. } => "intent_execution_bound",
            IntentEventV1::ChangeSetBound { .. } => "intent_change_set_bound",
            IntentEventV1::LayerManifestRecorded { .. } => "intent_layer_manifest_recorded",
            IntentEventV1::ArtifactBindingsRecorded { .. } => "intent_artifact_bindings_recorded",
            IntentEventV1::VerificationLinked { .. } => "intent_verification_linked",
            IntentEventV1::OperationRequested { .. } => "intent_operation_requested",
            IntentEventV1::OperationPrepared { .. } => "intent_operation_prepared",
            IntentEventV1::OperationResolved { .. } => "intent_operation_resolved",
            IntentEventV1::ConflictRecorded { .. } => "intent_conflict_recorded",
            IntentEventV1::VersionSuperseded { .. } => "intent_version_superseded",
        }
    }

    /// Checks the schema version of the event.
    pub fn validate_schema(&self) -> (r: Result<(), KernelError>)
        ensures
            verdict(r) == schema_verdict(event_schema(self.deep_view())),
    {
        let version: u16 = match self {
            IntentEventV1::StackCreated { schema_version, .. } => *schema_version,
            IntentEventV1::PlanRecorded { schema_version, .. } => *schema_version,
            IntentEventV1::PlanAccepted { schema_version, .. } => *schema_version,
            IntentEventV1::ExecutionBound { schema_version, .. } => *schema_version,
            IntentEventV1::ChangeSetBound { schema_version, .. } => *schema_version,
            IntentEventV1::LayerManifestRecorded { schema_version, .. } => *schema_version,
            IntentEventV1::ArtifactBindingsRecorded { schema_version, .. } => *schema_version,
            IntentEventV1::VerificationLinked { schema_version, .. } => *schema_version,
            IntentEventV1::OperationRequested { schema_version, .. } => *schema_version,
            IntentEventV1::OperationPrepared { schema_version, .. } => *schema_version,
            IntentEventV1::OperationResolved { schema_version, .. } => *schema_version,
            IntentEventV1::ConflictRecorded { schema_version, .. } => *schema_version,
            IntentEventV1::VersionSuperseded { schema_version, .. } => *schema_version,
        };
        validate_schema_version(version)
    }

    /// Checks the schema version and the payload of the event.
    #[verifier::rlimit(80)]
    #[verifier::spinoff_prover]
    pub fn validate_contract(&self) -> (r: Result<(), KernelError>)
        ensures
            verdict(r) == event_verdict(self.deep_view()),
    {
        proof {
            reveal(event_payload_verdict);
        }
        self.validate_schema()?;
        match self {
            IntentEventV1::StackCreated { workspace_id, source_session_id, .. } => {
                validate_bounded_identity("intent workspace id", workspace_id.as_str())?;
                validate_bounded_identity("intent source session id", source_session_id.as_str())
            },
            IntentEventV1::PlanRecorded { plan, .. } => plan.validate_contract(),
            IntentEventV1::PlanAccepted {
                source_turn_id,
                acceptance_authority_id,
                task_plan_binding,
                ..
            } => {
                validate_bounded_identity(
                    "intent acceptance source turn id",
                    source_turn_id.as_str(),
                )?;
                validate_bounded_identity(
                    "intent acceptance authority id",
                    acceptance_authority_id.as_str(),
                )?;
                if let Some(b) = task_plan_binding {
                    validate_bounded_identity("intent acceptance task id", b.task_id.as_str())?;
                    if b.task_plan_version == 0 {
                        return reject("intent acceptance task plan version must be non-zero");
                    }
                }
                Ok(())
            },
            IntentEventV1::ExecutionBound { binding, .. } => validate_execution_binding(binding),
            IntentEventV1::ChangeSetBound { intent_ref, changeset_ids, .. } => {
                intent_ref.validate()?;
                if changeset_ids.len() == 0 {
                    return reject("intent change set binding requires at least one change set");
                }
                validate_changeset_ids(changeset_ids)
            },
            IntentEventV1::LayerManifestRecorded { manifest, .. } => manifest.validate_contract(),
            IntentEventV1::ArtifactBindingsRecorded { manifest, .. } => {
                manifest.validate_contract()
            },
            IntentEventV1::VerificationLinked { evidence, .. } => {
                if evidence.len() == 0 {
                    return reject("intent verification link requires evidence");
                }
                validate_evidence(evidence)
            },
            IntentEventV1::OperationRequested { preview, safe_reason, .. } => {
                preview.validate_contract()?;
                validate_bounded_text(
                    "intent operation reason",
                    safe_reason.as_str(),
                    MAX_INTENT_REASON_BYTES,
                )
            },
            IntentEventV1::OperationPrepared {
                approval_authority_id,
                expires_at_ms,
                mutation_batch_id,
                ..
            } => {
                validate_bounded_identity(
                    "intent operation approval authority id",
                    approval_authority_id.as_str(),
                )?;
                if let Some(expiry) = expires_at_ms {
                    if *expiry == 0 {
                        return reject("intent operation prepared expiry must be non-zero");
                    }
                }
                validate_bounded_identity(
                    "intent operation mutation batch id",
                    mutation_batch_id.as_str(),
                )
            },
            IntentEventV1::OperationResolved {
                resolution,
                mutation_batch_id,
                result_snapshot_id,
                error_code,
                ..
            } => validate_resolution(
                *resolution,
                mutation_batch_id.is_some(),
                result_snapshot_id.is_some(),
                error_code.is_some(),
            ),
            IntentEventV1::ConflictRecorded { conflict, .. } => validate_bounded_text(
                "intent conflict reason",
                conflict.safe_reason.as_str(),
                MAX_INTENT_REASON_BYTES,
            ),
            IntentEventV1::VersionSuperseded { previous, replacement, safe_reason, .. } => {
                previous.validate()?;
                replacement.validate()?;
                if !previous.intent_id.same(&replacement.intent_id) || replacement.version
                    <= previous.version {
                    return reject("intent supersede must advance the same intent lineage");
                }
                validate_bounded_text(
                    "intent supersede reason",
                    safe_reason.as_str(),
                    MAX_INTENT_REASON_BYTES,
                )
            },
        }
    }
}

} // verus!
