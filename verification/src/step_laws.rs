//! What single steps of an append, an adoption or a text depend on.

use vstd::prelude::*;

use crate::intent::{IntentCriterionEvidenceV1View, IntentVersionRefView};
use crate::intent_admission::{
    alias_target, alias_verdict, IntentPlanAdmissionV1View,
};
use crate::intent_impact::next_ref;
use crate::intent_patch::MaterializedIntentFileView;
use crate::intent_revision::{is_retry, successor_task_verdict};
use crate::intent_stack::{all_accepted, latest_accepted, IntentStackProjectionV1View};
use crate::intent_state::TaskStepIntentAliasBindingV1View;
use crate::json::escape_of;
use crate::layer_materialization::names_exactly;
use crate::lineage_append::{direct_action, is_exact_attempt, is_mutation_pair};
use crate::lineage_facts::{is_parent_success, is_sound_plan, parent_speaks_for};
use crate::records::{
    ChangeSetFileAction, ChangeSetFileView, ControlEntryView, MutationCommittedView,
    MutationPreparedView, ReceiptStatus, RecordBodyView, SessionStreamRecordView,
    TaskParentVerificationRecordedView, TaskParticipantAttemptStatus, TaskPlanEntryView,
    TaskPlanStatus, VerificationReceiptView, VerificationVerdict,
};

verus! {

/// A step may name an alias if and only if the admission has it and the step did not name it
/// before.
pub proof fn law_aliases_are_named_once(
    a: IntentPlanAdmissionV1View,
    b: TaskStepIntentAliasBindingV1View,
    k: int,
)
    requires
        0 <= k < b.intent_aliases.len(),
    ensures
        alias_verdict(a, b, k) is Ok <==> alias_target(a, b.intent_aliases[k]) is Some && forall|j: int|
            0 <= j < k ==> #[trigger] b.intent_aliases[j] != b.intent_aliases[k],
{
}

/// A plan that follows another takes no task, or one that was accepted.
pub proof fn law_following_tasks_are_accepted(
    a: IntentPlanAdmissionV1View,
    task_plan: Option<TaskPlanEntryView>,
)
    ensures
        task_plan is None ==> successor_task_verdict(a, task_plan) is Ok,
        task_plan matches Some(t) ==> (t.status != TaskPlanStatus::Accepted ==> successor_task_verdict(
            a,
            task_plan,
        ) is Err),
{
}

/// An admission was made before if and only if the last accepted plan is its plan, accepted in the
/// same way, in the same turn and by the same authority.
pub proof fn law_admissions_made_before_are_known(
    p: IntentStackProjectionV1View,
    a: IntentPlanAdmissionV1View,
)
    ensures
        is_retry(p, a) <==> {
            &&& latest_accepted(p) matches Some(x)
            &&& x.plan == a.plan
            &&& x.acceptance_kind == a.acceptance_kind
            &&& x.source_turn_id == a.source_turn_id
            &&& x.acceptance_authority_id == a.acceptance_authority_id
        },
{
}

/// The version behind another is of the same intent and one higher.
pub proof fn law_versions_go_up_by_one(target: IntentVersionRefView)
    requires
        target.version < u64::MAX,
    ensures
        next_ref(target).intent_id == target.intent_id,
        next_ref(target).version == target.version + 1,
{
}

/// Every recorded plan was accepted if and only if nothing is recorded and nothing accepted, or the
/// last of both have the same version.
pub proof fn law_all_plans_are_accepted_or_some_wait(p: IntentStackProjectionV1View)
    ensures
        p.recorded_plans.len() == 0 ==> (all_accepted(p) <==> p.accepted_plans.len() == 0),
        p.accepted_plans.len() == 0 ==> (all_accepted(p) <==> p.recorded_plans.len() == 0),
        p.recorded_plans.len() > 0 && p.accepted_plans.len() > 0 ==> (all_accepted(p) <==> p.recorded_plans[
        p.recorded_plans.len() - 1].stack_version == p.accepted_plans[p.accepted_plans.len()
            - 1].plan.stack_version),
{
}

/// A change set names a change exactly if and only if every hash that it tells is that of the
/// contents, and it tells no hash of contents before a file was created.
pub proof fn law_changes_are_named_exactly(file: ChangeSetFileView, f: MaterializedIntentFileView)
    ensures
        names_exactly(file, f) <==> {
            &&& file.before_hash is None || file.before_hash == Some(f.before_digest)
            &&& file.after_hash is None || file.after_hash == Some(f.after_digest)
            &&& !(file.action == ChangeSetFileAction::Create && file.before_hash is Some)
        },
{
}

/// What a direct change did to its file: it created it where there was nothing, deleted it where
/// nothing is left, and updated it where there was something and is.
pub proof fn law_direct_changes_tell_what_they_did(before: Option<Seq<char>>, after: Option<Seq<char>>)
    ensures
        direct_action(before, after) == Some(ChangeSetFileAction::Create) <==> before is None
            && after is Some,
        direct_action(before, after) == Some(ChangeSetFileAction::Update) <==> before is Some
            && after is Some,
        direct_action(before, after) == Some(ChangeSetFileAction::Delete) <==> before is Some
            && after is None,
        direct_action(before, after) is None <==> before is None && after is None,
        direct_action(before, after) != Some(ChangeSetFileAction::Rename),
{
}

/// A mutation was prepared and committed as one if and only if both are of the same operation,
/// batch, subject and workspace, the commit follows the prepare and the prepare follows the
/// execution, both in front of its end, the workspace moved on, and what was found afterwards is
/// what was meant.
pub proof fn law_mutations_are_pairs(
    prepared: MutationPreparedView,
    prepared_sequence: u64,
    committed: MutationCommittedView,
    committed_sequence: u64,
    workspace_id: Seq<char>,
    execution_sequence: u64,
    end: Option<u64>,
)
    ensures
        is_mutation_pair(
            prepared,
            prepared_sequence,
            committed,
            committed_sequence,
            workspace_id,
            execution_sequence,
            end,
        ) <==> {
            &&& execution_sequence < prepared_sequence < committed_sequence
            &&& end matches Some(e) ==> committed_sequence < e
            &&& prepared.operation_id == committed.operation_id
            &&& prepared.batch_id == committed.batch_id
            &&& prepared.subject == committed.committed_subject
            &&& prepared.workspace_id == workspace_id
            &&& committed.workspace_id == Some(workspace_id)
            &&& prepared.base_workspace_revision < committed.workspace_revision
            &&& prepared.intended_after_hash == committed.observed_after_hash
        },
{
}

/// An attempt is the one that an execution names if and only if it started and is of that identity,
/// task, version and step.
pub proof fn law_attempts_are_exact(
    task_id: Seq<char>,
    version: u32,
    step_id: Seq<char>,
    attempt_id: Seq<char>,
    r: SessionStreamRecordView,
)
    ensures
        is_exact_attempt(task_id, version, step_id, attempt_id)(r) <==> {
            &&& r.body matches RecordBodyView::Control(ControlEntryView::TaskParticipantAttempt(a))
            &&& a.status == TaskParticipantAttemptStatus::Started
            &&& a.attempt_id == attempt_id
            &&& a.task_id == task_id
            &&& a.plan_version == Some(version)
            &&& a.step_id == Some(step_id)
        },
{
}

/// A receipt of the parent workspace succeeded for a piece of evidence if and only if check and run
/// succeeded without changing what they verify, on a backend that is told, on the snapshot and
/// under the policy of the evidence. A verification of the parent speaks for it if and only if it
/// passed there too, for a sound plan.
pub proof fn law_parent_successes_are_exact(
    records: Seq<SessionStreamRecordView>,
    r: VerificationReceiptView,
    v: TaskParentVerificationRecordedView,
    e: IntentCriterionEvidenceV1View,
)
    ensures
        is_parent_success(r, e) <==> {
            &&& r.check_status == ReceiptStatus::Succeeded
            &&& r.status == ReceiptStatus::Succeeded
            &&& !r.mutates_verification_scope
            &&& r.execution_backend is Some
            &&& r.workspace_snapshot_id == e.parent_snapshot_id
            &&& r.policy_hash == Some(e.verification_policy_digest)
        },
        parent_speaks_for(records, v, e) <==> {
            &&& v.verdict == VerificationVerdict::Passed
            &&& v.promoted_snapshot_id == e.parent_snapshot_id
            &&& v.policy_digest == e.verification_policy_digest
            &&& is_sound_plan(records, v.plan_id)
        },
{
}

/// A character in a JSON text: control characters, quotation marks and backslashes are escaped, in
/// two signs where there is a short form and in six otherwise; every other character stands for
/// itself.
pub proof fn law_escapes_are_exact(c: char)
    ensures
        c == '"' ==> escape_of(c) == seq!['\\', '"'],
        c == '\\' ==> escape_of(c) == seq!['\\', '\\'],
        c == '\u{8}' ==> escape_of(c) == seq!['\\', 'b'],
        c == '\t' ==> escape_of(c) == seq!['\\', 't'],
        c == '\n' ==> escape_of(c) == seq!['\\', 'n'],
        c == '\u{c}' ==> escape_of(c) == seq!['\\', 'f'],
        c == '\r' ==> escape_of(c) == seq!['\\', 'r'],
        c as int >= 32 && c != '"' && c != '\\' ==> escape_of(c) == seq![c],
        (c as int) < 32 ==> escape_of(c)[0] == '\\' && (escape_of(c).len() == 2 || escape_of(c).len()
            == 6),
        (c as int) < 32 && escape_of(c).len() == 6 ==> escape_of(c).take(4) == seq![
            '\\',
            'u',
            '0',
            '0',
        ],
{
    if (c as int) < 32 && escape_of(c).len() == 6 {
        assert(escape_of(c).take(4) =~= seq!['\\', 'u', '0', '0']);
    }
}

} // verus!
