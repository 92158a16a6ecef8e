//! What a durable stream proves of a layer: how the attempt behind it ended, what the workspace was
//! before it, and which mutation changed each of its files.

use vstd::prelude::*;

use crate::integration::{
    IntegrationPromotionEffect, IntegrationPromotionEffectView, IntegrationPromotionRecordedView,
    IntegrationPromotionStatus, IntegrationPromotionTarget, IntegrationPromotionTargetView,
};
use crate::intent::{
    text_digest_of, IntentDigest, IntentExecutionOriginV1, IntentExecutionOriginV1View,
};
use crate::intent_state::{IntentExecutionLineageV1, IntentExecutionLineageV1View};
use crate::json::{add_member, close_object, comma_separated, member, object, Encode};
use crate::lineage_append::json_array;
use crate::lineage_facts::{before_end, fact_verdict, find_proposal, proposal, validate_fact};
use crate::records::{
    ChangeSetFile, ChangeSetFileView, ControlEntry, ControlEntryView, FileType, MutationBatchStatus,
    MutationPrepared, MutationPreparedView, MutationSubject, MutationSubjectView, RecordBody,
    RecordBodyView, SessionStreamRecord, SessionStreamRecordView, TaskParticipantAttemptStatus,
};
use crate::search::{find_first, first_where, lemma_first_where};
use crate::stream::{
    attempt_in, attempt_of, batch_end_in, batch_end_of, committed_in, committed_of, prepared_in,
    prepared_of, promotion_in, promotion_of,
};
use crate::text::{
    lemma_precedes_irreflexive, lemma_precedes_total, lemma_precedes_transitive, precedes,
    same_text, text_precedes,
};
use crate::value::{
    first_failure, lemma_failures_begin, lemma_failures_end, lemma_failures_step, lemma_push_view,
    outcome, verdict, KernelError, Value, Verdict,
};

verus! {

/// What a file was before a chat touched it.
#[derive(Debug, Clone, PartialEq, Eq)]
pub struct TouchedFileBaseV1 {
    pub path: String,
    pub before_hash: Option<String>,
    pub workspace_revision: u64,
}

/// What a [`TouchedFileBaseV1`] holds.
#[verifier::ext_equal]
pub struct TouchedFileBaseV1View {
    pub path: Seq<char>,
    pub before_hash: Option<Seq<char>>,
    pub workspace_revision: u64,
}

impl DeepView for TouchedFileBaseV1 {
    type V = TouchedFileBaseV1View;

    open spec fn deep_view(&self) -> TouchedFileBaseV1View {
        TouchedFileBaseV1View {
            path: self.path.deep_view(),
            before_hash: self.before_hash.deep_view(),
            workspace_revision: self.workspace_revision.deep_view(),
        }
    }
}

impl Value for TouchedFileBaseV1 {
    fn same(&self, other: &Self) -> (r: bool) {
        self.path.same(&other.path)
            && self.before_hash.same(&other.before_hash)
            && self.workspace_revision.same(&other.workspace_revision)
    }

    fn duplicate(&self) -> (r: Self) {
        TouchedFileBaseV1 {
            path: self.path.duplicate(),
            before_hash: self.before_hash.duplicate(),
            workspace_revision: self.workspace_revision.duplicate(),
        }
    }
}

/// The check of the record at `i`: it proposes no change set, and settles none, for the second time.
pub open spec fn change_fact_verdict(records: Seq<SessionStreamRecordView>, i: int) -> Verdict {
    match records[i].body {
        RecordBodyView::Control(ControlEntryView::ChangeSetProposed(_)) => fact_verdict(records, i),
        RecordBodyView::Control(ControlEntryView::ChangeSetApplied(_)) => fact_verdict(records, i),
        _ => Ok(()),
    }
}

/// The checks of all records.
pub open spec fn change_fact_verdicts(records: Seq<SessionStreamRecordView>) -> Seq<Verdict> {
    Seq::new(records.len(), |i: int| change_fact_verdict(records, i))
}

/// The check of a stream as a source of facts on layers.
pub open spec fn layer_facts_verdict(records: Seq<SessionStreamRecordView>) -> Verdict {
    first_failure(change_fact_verdicts(records))
}

/// Checks a stream as a source of facts on layers.
pub(crate) fn validate_layer_facts(records: &Vec<SessionStreamRecord>) -> (r: Result<(), KernelError>)
    ensures
        verdict(r) == layer_facts_verdict(records.deep_view()),
{
    let ghost all = change_fact_verdicts(records.deep_view());
    let mut i: usize = 0;
    proof {
        lemma_failures_begin(all);
    }
    while i < records.len()
        invariant
            i <= records.len(),
            all == change_fact_verdicts(records.deep_view()),
            first_failure(all) == first_failure(all.skip(i as int)),
        decreases records.len() - i,
    {
        proof {
            lemma_failures_step(all, i as int);
        }
        assert(records.deep_view()[i as int] == records@[i as int].deep_view());
        match &records[i].body {
            RecordBody::Control(ControlEntry::ChangeSetProposed(_))
            | RecordBody::Control(ControlEntry::ChangeSetApplied(_)) => {
                validate_fact(records, i)?;
            },
            _ => {},
        }
        i = i + 1;
    }
    proof {
        lemma_failures_end(all);
    }
    Ok(())
}

// The end of an attempt.

/// The record ends the attempt at a step well, after an execution was bound.
pub open spec fn completes_attempt(
    after: u64,
    attempt_id: Seq<char>,
    task_id: Seq<char>,
    version: u32,
    step_id: Seq<char>,
) -> spec_fn(SessionStreamRecordView) -> bool {
    |r: SessionStreamRecordView|
        attempt_in(r) matches Some(a) && r.stream_sequence > after && a.attempt_id == attempt_id
            && a.task_id == task_id && a.plan_version == Some(version) && a.step_id == Some(step_id)
            && a.status == TaskParticipantAttemptStatus::Completed
}

/// The record ends a run well, after an execution was bound.
pub open spec fn completes_run(after: u64, run_id: Seq<char>) -> spec_fn(SessionStreamRecordView) -> bool {
    |r: SessionStreamRecordView|
        r.body matches RecordBodyView::RunFinalized { run_id: id, succeeded } && succeeded
            && r.stream_sequence > after && id == run_id
}

/// Where the stream tells that the attempt behind an execution ended well.
pub open spec fn terminal_sequence(
    records: Seq<SessionStreamRecordView>,
    x: IntentExecutionLineageV1View,
) -> Result<u64, Seq<char>> {
    match x.binding.origin {
        IntentExecutionOriginV1View::Task { task_id, task_plan_version, step_id, attempt_id } => {
            match attempt_id {
                None => Err("Intent layer requires a concrete Task attempt"@),
                Some(attempt_id) => match first_where(
                    records,
                    completes_attempt(
                        x.binding_stream_sequence,
                        attempt_id,
                        task_id,
                        task_plan_version,
                        step_id,
                    ),
                ) {
                    None => Err("Intent layer requires a completed Task participant attempt"@),
                    Some(i) => Ok(records[i].stream_sequence),
                },
            }
        },
        IntentExecutionOriginV1View::Chat { root_logical_run_id, attempt_id, .. } => {
            match attempt_id {
                None => Err("Intent layer requires a concrete Chat attempt"@),
                Some(_) => match first_where(
                    records,
                    completes_run(x.binding_stream_sequence, root_logical_run_id),
                ) {
                    None => Err("Intent layer requires a successful Chat run terminal"@),
                    Some(i) => Ok(records[i].stream_sequence),
                },
            }
        },
    }
}

fn equals(a: &Option<String>, b: &str) -> (r: bool)
    ensures
        r == (a.deep_view() == Some(b@)),
{
    match a {
        Some(x) => same_text(x.as_str(), b),
        None => false,
    }
}

/// Finds where the stream tells that the attempt behind an execution ended well.
pub(crate) fn terminal_attempt_sequence(
    records: &Vec<SessionStreamRecord>,
    x: &IntentExecutionLineageV1,
) -> (r: Result<u64, KernelError>)
    ensures
        outcome(r) == terminal_sequence(records.deep_view(), x.deep_view()),
{
    let after = x.binding_stream_sequence;
    match &x.binding.origin {
        IntentExecutionOriginV1::Task { task_id, task_plan_version, step_id, attempt_id } => {
            let attempt_id = match attempt_id {
                None => {
                    return Err(KernelError::new("Intent layer requires a concrete Task attempt"));
                },
                Some(attempt_id) => attempt_id,
            };
            let version = *task_plan_version;
            let ghost p = completes_attempt(after, attempt_id@, task_id@, version, step_id@);
            let found = find_first(
                records,
                |r: &SessionStreamRecord| -> (b: bool)
                    ensures
                        b == p(r.deep_view())
                    {
                        match attempt_of(r) {
                            Some(a) => r.stream_sequence > after && same_text(
                                a.attempt_id.as_str(),
                                attempt_id.as_str(),
                            ) && same_text(a.task_id.as_str(), task_id.as_str())
                                && a.plan_version.same(&Some(version)) && equals(
                                &a.step_id,
                                step_id.as_str(),
                            ) && a.status == TaskParticipantAttemptStatus::Completed,
                            None => false,
                        }
                    },
                Ghost(p),
            );
            match found {
                None => Err(
                    KernelError::new("Intent layer requires a completed Task participant attempt"),
                ),
                Some(i) => {
                    assert(records.deep_view()[i as int] == records@[i as int].deep_view());
                    Ok(records[i].stream_sequence)
                },
            }
        },
        IntentExecutionOriginV1::Chat { root_logical_run_id, attempt_id, .. } => {
            if attempt_id.is_none() {
                return Err(KernelError::new("Intent layer requires a concrete Chat attempt"));
            }
            let ghost p = completes_run(after, root_logical_run_id@);
            let found = find_first(
                records,
                |r: &SessionStreamRecord| -> (b: bool)
                    ensures
                        b == p(r.deep_view())
                    {
                        match &r.body {
                            RecordBody::RunFinalized { run_id, succeeded } => *succeeded
                                && r.stream_sequence > after && same_text(
                                run_id.as_str(),
                                root_logical_run_id.as_str(),
                            ),
                            _ => false,
                        }
                    },
                Ghost(p),
            );
            match found {
                None => Err(
                    KernelError::new("Intent layer requires a successful Chat run terminal"),
                ),
                Some(i) => {
                    assert(records.deep_view()[i as int] == records@[i as int].deep_view());
                    Ok(records[i].stream_sequence)
                },
            }
        },
    }
}

// The mutation of a file.

/// A mutation changes the plain file at a path.
pub open spec fn changes_plain_path(subject: MutationSubjectView, path: Seq<char>) -> bool {
    subject matches MutationSubjectView::File { portable_path, file_type, .. } && file_type
        == FileType::File && portable_path == Some(path)
}

/// Tells whether a mutation changes the plain file at `path`.
pub(crate) fn subject_is_plain_path(subject: &MutationSubject, path: &str) -> (r: bool)
    ensures
        r == changes_plain_path(subject.deep_view(), path@),
{
    match subject {
        MutationSubject::File { portable_path, file_type, .. } => *file_type == FileType::File
            && equals(portable_path, path),
        _ => false,
    }
}

/// The record is the event `id` and ends a batch.
pub open spec fn is_batch_end_event(id: Seq<char>) -> spec_fn(SessionStreamRecordView) -> bool {
    |r: SessionStreamRecordView| r.event_id == id && batch_end_in(r) is Some
}

/// The batch that brought a task execution into the parent workspace, and where it ended.
pub open spec fn task_batch(
    records: Seq<SessionStreamRecordView>,
    x: IntentExecutionLineageV1View,
) -> Option<(Seq<char>, u64)> {
    match (x.binding.origin, x.parent_mutation_event_id) {
        (IntentExecutionOriginV1View::Task { .. }, Some(id)) => match first_where(
            records,
            is_batch_end_event(id),
        ) {
            Some(i) => Some((batch_end_in(records[i])->0.batch_id, records[i].stream_sequence)),
            None => None,
        },
        _ => None,
    }
}

/// The record commits the prepared change of a file for an execution.
pub open spec fn commits_for(
    x: IntentExecutionLineageV1View,
    batch: Option<(Seq<char>, u64)>,
    prepared: MutationPreparedView,
    prepared_sequence: u64,
    workspace_id: Seq<char>,
    file: ChangeSetFileView,
) -> spec_fn(SessionStreamRecordView) -> bool {
    |r: SessionStreamRecordView|
        committed_in(r) matches Some(c) && r.stream_sequence > prepared_sequence && c.operation_id
            == prepared.operation_id && c.batch_id == prepared.batch_id && c.workspace_id == Some(
            workspace_id,
        ) && c.observed_after_hash == file.after_hash && changes_plain_path(
            c.committed_subject,
            file.path,
        ) && (batch matches Some(b) ==> r.stream_sequence < b.1) && (x.binding.origin is Chat
            ==> x.parent_mutation_event_id == Some(r.event_id))
}

/// The record prepares the change of a file for an execution, and the change is then committed.
pub open spec fn prepares_for(
    records: Seq<SessionStreamRecordView>,
    x: IntentExecutionLineageV1View,
    batch: Option<(Seq<char>, u64)>,
    workspace_id: Seq<char>,
    file: ChangeSetFileView,
) -> spec_fn(SessionStreamRecordView) -> bool {
    |r: SessionStreamRecordView|
        prepared_in(r) matches Some(p) && r.stream_sequence > x.binding_stream_sequence
            && p.workspace_id == workspace_id && p.before_hash == file.before_hash
            && p.intended_after_hash == file.after_hash && changes_plain_path(p.subject, file.path)
            && (batch matches Some(b) ==> p.batch_id == Some(b.0) && r.stream_sequence < b.1)
            && first_where(
            records,
            commits_for(x, batch, p, r.stream_sequence, workspace_id, file),
        ) is Some
}

/// Where the change of a file was prepared and where it was committed.
pub open spec fn mutation_pair(
    records: Seq<SessionStreamRecordView>,
    x: IntentExecutionLineageV1View,
    workspace_id: Seq<char>,
    file: ChangeSetFileView,
) -> Option<(int, int)> {
    let batch = task_batch(records, x);
    match first_where(records, prepares_for(records, x, batch, workspace_id, file)) {
        None => None,
        Some(i) => match first_where(
            records,
            commits_for(
                x,
                batch,
                prepared_in(records[i])->0,
                records[i].stream_sequence,
                workspace_id,
                file,
            ),
        ) {
            None => None,
            Some(k) => Some((i, k)),
        },
    }
}

/// What the places of a mutation tell.
pub proof fn lemma_mutation_pair(
    records: Seq<SessionStreamRecordView>,
    x: IntentExecutionLineageV1View,
    workspace_id: Seq<char>,
    file: ChangeSetFileView,
)
    ensures
        mutation_pair(records, x, workspace_id, file) matches Some(pair) ==> {
            &&& 0 <= pair.0 < records.len()
            &&& 0 <= pair.1 < records.len()
            &&& prepared_in(records[pair.0]) is Some
            &&& committed_in(records[pair.1]) is Some
        },
{
    let batch = task_batch(records, x);
    let p = prepares_for(records, x, batch, workspace_id, file);
    lemma_first_where(records, p);
    if let Some(i) = first_where(records, p) {
        lemma_first_where(
            records,
            commits_for(
                x,
                batch,
                prepared_in(records[i])->0,
                records[i].stream_sequence,
                workspace_id,
                file,
            ),
        );
    }
}

fn find_task_batch<'a>(records: &'a Vec<SessionStreamRecord>, x: &IntentExecutionLineageV1) -> (r: Option<
    (&'a String, u64),
>)
    ensures
        match task_batch(records.deep_view(), x.deep_view()) {
            Some(b) => r matches Some(c) && c.0@ == b.0 && c.1 == b.1,
            None => r is None,
        },
{
    match (&x.binding.origin, &x.parent_mutation_event_id) {
        (IntentExecutionOriginV1::Task { .. }, Some(id)) => {
            let ghost p = is_batch_end_event(id@);
            let found = find_first(
                records,
                |r: &SessionStreamRecord| -> (b: bool)
                    ensures
                        b == p(r.deep_view())
                    { same_text(r.event_id.as_str(), id.as_str()) && batch_end_of(r).is_some() },
                Ghost(p),
            );
            match found {
                Some(i) => {
                    assert(records.deep_view()[i as int] == records@[i as int].deep_view());
                    match batch_end_of(&records[i]) {
                        Some(b) => Some((&b.batch_id, records[i].stream_sequence)),
                        None => None,
                    }
                },
                None => None,
            }
        },
        _ => None,
    }
}

/// A batch as ghost code sees it.
spec fn batch_view(batch: Option<(&String, u64)>) -> Option<(Seq<char>, u64)> {
    match batch {
        Some(b) => Some((b.0@, b.1)),
        None => None,
    }
}

fn find_commit_for(
    records: &Vec<SessionStreamRecord>,
    x: &IntentExecutionLineageV1,
    batch: Option<(&String, u64)>,
    prepared: &MutationPrepared,
    prepared_sequence: u64,
    workspace_id: &str,
    file: &ChangeSetFile,
) -> (r: Option<usize>)
    ensures
        match r {
            Some(k) => k < records.len() && first_where(
                records.deep_view(),
                commits_for(
                    x.deep_view(),
                    batch_view(batch),
                    prepared.deep_view(),
                    prepared_sequence,
                    workspace_id@,
                    file.deep_view(),
                ),
            ) == Some(k as int),
            None => first_where(
                records.deep_view(),
                commits_for(
                    x.deep_view(),
                    batch_view(batch),
                    prepared.deep_view(),
                    prepared_sequence,
                    workspace_id@,
                    file.deep_view(),
                ),
            ) is None,
        },
{
    let is_chat = match &x.binding.origin {
        IntentExecutionOriginV1::Chat { .. } => true,
        _ => false,
    };
    let ghost p = commits_for(
        x.deep_view(),
        batch_view(batch),
        prepared.deep_view(),
        prepared_sequence,
        workspace_id@,
        file.deep_view(),
    );
    find_first(
        records,
        |r: &SessionStreamRecord| -> (b: bool)
            ensures
                b == p(r.deep_view())
            {
                match committed_of(r) {
                    Some(c) => r.stream_sequence > prepared_sequence && c.operation_id
                        == prepared.operation_id && c.batch_id.same(&prepared.batch_id) && equals(
                        &c.workspace_id,
                        workspace_id,
                    ) && c.observed_after_hash.same(&file.after_hash) && subject_is_plain_path(
                        &c.committed_subject,
                        file.path.as_str(),
                    ) && (match batch {
                        Some(b) => r.stream_sequence < b.1,
                        None => true,
                    }) && (!is_chat || equals(&x.parent_mutation_event_id, r.event_id.as_str())),
                    None => false,
                }
            },
        Ghost(p),
    )
}

/// Finds where the change of a file was prepared and where it was committed.
pub(crate) fn mutation_pair_for_file(
    records: &Vec<SessionStreamRecord>,
    x: &IntentExecutionLineageV1,
    workspace_id: &str,
    file: &ChangeSetFile,
) -> (r: Option<(usize, usize)>)
    ensures
        match mutation_pair(records.deep_view(), x.deep_view(), workspace_id@, file.deep_view()) {
            Some(pair) => r matches Some(found) && found.0 == pair.0 && found.1 == pair.1
                && found.0 < records.len() && found.1 < records.len(),
            None => r is None,
        },
{
    let batch = find_task_batch(records, x);
    let ghost p = prepares_for(
        records.deep_view(),
        x.deep_view(),
        batch_view(batch),
        workspace_id@,
        file.deep_view(),
    );
    let found = find_first(
        records,
        |r: &SessionStreamRecord| -> (b: bool)
            ensures
                b == p(r.deep_view())
            {
                match prepared_of(r) {
                    Some(m) => r.stream_sequence > x.binding_stream_sequence && same_text(
                        m.workspace_id.as_str(),
                        workspace_id,
                    ) && m.before_hash.same(&file.before_hash) && m.intended_after_hash.same(
                        &file.after_hash,
                    ) && subject_is_plain_path(&m.subject, file.path.as_str()) && (match batch {
                        Some(b) => equals(&m.batch_id, b.0.as_str()) && r.stream_sequence < b.1,
                        None => true,
                    }) && find_commit_for(
                        records,
                        x,
                        batch,
                        m,
                        r.stream_sequence,
                        workspace_id,
                        file,
                    ).is_some(),
                    None => false,
                }
            },
        Ghost(p),
    );
    match found {
        None => None,
        Some(i) => {
            assert(records.deep_view()[i as int] == records@[i as int].deep_view());
            match prepared_of(&records[i]) {
                None => None,
                Some(m) => match find_commit_for(
                    records,
                    x,
                    batch,
                    m,
                    records[i].stream_sequence,
                    workspace_id,
                    file,
                ) {
                    None => None,
                    Some(k) => Some((i, k)),
                },
            }
        },
    }
}

// What the workspace was before.

/// The record is the event `id` and ends a batch that was applied.
pub open spec fn is_applied_batch(id: Seq<char>) -> spec_fn(SessionStreamRecordView) -> bool {
    |r: SessionStreamRecordView|
        r.event_id == id && (batch_end_in(r) matches Some(b) && b.status
            == MutationBatchStatus::Applied)
}

/// The record promotes, between two places of the stream, a plan into the workspace with a snapshot.
pub open spec fn promotes_into(after: u64, before: Option<u64>, snapshot: Option<Seq<char>>) -> spec_fn(
    SessionStreamRecordView,
) -> bool {
    |r: SessionStreamRecordView|
        promotion_in(r) matches Some(p) && r.stream_sequence > after && before_end(
            r.stream_sequence,
            before,
        ) && p.status == IntegrationPromotionStatus::Promoted
            && p.target is WorkspaceApply && (p.effect matches Some(
            IntegrationPromotionEffectView::WorkspaceApplied { promoted_snapshot_id, .. },
        ) && Some(promoted_snapshot_id) == snapshot)
}

/// The snapshot that a promotion expected.
pub open spec fn expected_snapshot(p: IntegrationPromotionRecordedView) -> Seq<char> {
    match p.target {
        IntegrationPromotionTargetView::WorkspaceApply { expected_snapshot_id, .. } => {
            expected_snapshot_id
        },
        _ => Seq::empty(),
    }
}

/// The snapshot before a task execution.
pub open spec fn task_base(
    records: Seq<SessionStreamRecordView>,
    x: IntentExecutionLineageV1View,
    before: Option<u64>,
) -> Result<Seq<char>, Seq<char>> {
    match x.parent_mutation_event_id {
        None => Err("Task Intent layer has no parent mutation batch"@),
        Some(id) => match first_where(records, is_applied_batch(id)) {
            None => Err("Task Intent layer parent mutation batch is not applied"@),
            Some(i) => match first_where(
                records,
                promotes_into(records[i].stream_sequence, before, x.parent_snapshot_id),
            ) {
                None => Err("Task Intent layer has no matching WorkspaceApply promotion"@),
                Some(k) => Ok(expected_snapshot(promotion_in(records[k])->0)),
            },
        },
    }
}

/// What a file was before a chat touched it.
pub open spec fn touched_base(
    records: Seq<SessionStreamRecordView>,
    x: IntentExecutionLineageV1View,
    workspace_id: Seq<char>,
    before: Option<u64>,
    file: ChangeSetFileView,
) -> Result<TouchedFileBaseV1View, Seq<char>> {
    match mutation_pair(records, x, workspace_id, file) {
        None => Err("Chat Intent layer has no exact mutation pair"@),
        Some(pair) => if !before_end(records[pair.0].stream_sequence, before) || !before_end(
            records[pair.1].stream_sequence,
            before,
        ) {
            Err("Chat Intent layer precedes its mutation evidence"@)
        } else {
            let p = prepared_in(records[pair.0])->0;
            Ok(
                TouchedFileBaseV1View {
                    path: file.path,
                    before_hash: p.before_hash,
                    workspace_revision: p.base_workspace_revision,
                },
            )
        },
    }
}

/// What the first `n` files of a change set were before, behind the files of others.
pub open spec fn touched_files(
    records: Seq<SessionStreamRecordView>,
    x: IntentExecutionLineageV1View,
    workspace_id: Seq<char>,
    before: Option<u64>,
    files: Seq<ChangeSetFileView>,
    n: int,
    others: Seq<TouchedFileBaseV1View>,
) -> Result<Seq<TouchedFileBaseV1View>, Seq<char>>
    decreases n,
{
    if n <= 0 {
        Ok(others)
    } else {
        match touched_files(records, x, workspace_id, before, files, n - 1, others) {
            Err(m) => Err(m),
            Ok(list) => match touched_base(records, x, workspace_id, before, files[n - 1]) {
                Err(m) => Err(m),
                Ok(e) => Ok(list.push(e)),
            },
        }
    }
}

/// What the files of the first `n` change sets of an execution were before.
pub open spec fn touched_sets(
    records: Seq<SessionStreamRecordView>,
    x: IntentExecutionLineageV1View,
    workspace_id: Seq<char>,
    before: Option<u64>,
    n: int,
) -> Result<Seq<TouchedFileBaseV1View>, Seq<char>>
    decreases n,
{
    if n <= 0 {
        Ok(Seq::empty())
    } else {
        match touched_sets(records, x, workspace_id, before, n - 1) {
            Err(m) => Err(m),
            Ok(list) => match proposal(records, x.changeset_ids[n - 1]) {
                None => Err("Chat Intent layer ChangeSet is unavailable"@),
                Some(c) => touched_files(
                    records,
                    x,
                    workspace_id,
                    before,
                    c.files,
                    c.files.len() as int,
                    list,
                ),
            },
        }
    }
}

/// One optional text stands before another: none stands first.
pub open spec fn optional_precedes(a: Option<Seq<char>>, b: Option<Seq<char>>) -> bool {
    match (a, b) {
        (None, Some(_)) => true,
        (Some(x), Some(y)) => precedes(x, y),
        _ => false,
    }
}

/// One entry stands before another: by path, then by hash, then by revision.
pub open spec fn base_precedes(a: TouchedFileBaseV1View, b: TouchedFileBaseV1View) -> bool {
    precedes(a.path, b.path) || (a.path == b.path && (optional_precedes(
        a.before_hash,
        b.before_hash,
    ) || (a.before_hash == b.before_hash && a.workspace_revision < b.workspace_revision)))
}

/// A sorted list with one more entry at its place.
pub open spec fn insert_base(s: Seq<TouchedFileBaseV1View>, e: TouchedFileBaseV1View) -> Seq<
    TouchedFileBaseV1View,
>
    decreases s.len(),
{
    if s.len() > 0 && base_precedes(e, s.last()) {
        insert_base(s.drop_last(), e).push(s.last())
    } else {
        s.push(e)
    }
}

/// The entries in their order.
pub open spec fn sorted_bases(s: Seq<TouchedFileBaseV1View>) -> Seq<TouchedFileBaseV1View>
    decreases s.len(),
{
    if s.len() == 0 {
        s
    } else {
        insert_base(sorted_bases(s.drop_last()), s.last())
    }
}

/// The JSON text of an entry.
pub open spec fn base_json(e: TouchedFileBaseV1View) -> Seq<char> {
    json_array(
        seq![
            String::json(e.path),
            Option::<String>::json(e.before_hash),
            u64::json(e.workspace_revision),
        ],
    )
}

/// The JSON text of what a chat touched in a workspace.
pub open spec fn touched_json(entries: Seq<TouchedFileBaseV1View>, workspace_id: Seq<char>) -> Seq<char> {
    object(
        member(
            member(
                Seq::empty(),
                "touched_file_base"@,
                json_array(Seq::new(entries.len(), |i: int| base_json(entries[i]))),
            ),
            "workspace_id"@,
            String::json(workspace_id),
        ),
    )
}

/// The snapshot before a chat execution: the digest of what its files were before it touched them.
pub open spec fn chat_base(
    records: Seq<SessionStreamRecordView>,
    x: IntentExecutionLineageV1View,
    workspace_id: Seq<char>,
    before: Option<u64>,
) -> Result<Seq<char>, Seq<char>> {
    match touched_sets(records, x, workspace_id, before, x.changeset_ids.len() as int) {
        Err(m) => Err(m),
        Ok(list) => Ok(text_digest_of(touched_json(sorted_bases(list), workspace_id))),
    }
}

/// The snapshot before an execution, from evidence that precedes a place of the stream.
pub open spec fn base_snapshot(
    records: Seq<SessionStreamRecordView>,
    x: IntentExecutionLineageV1View,
    workspace_id: Seq<char>,
    before: Option<u64>,
) -> Result<Seq<char>, Seq<char>> {
    match x.binding.origin {
        IntentExecutionOriginV1View::Task { .. } => task_base(records, x, before),
        IntentExecutionOriginV1View::Chat { .. } => chat_base(records, x, workspace_id, before),
    }
}

fn precedes_end(sequence: u64, end: Option<u64>) -> (r: bool)
    ensures
        r == before_end(sequence, end),
{
    match end {
        Some(n) => sequence < n,
        None => true,
    }
}

fn find_task_base(
    records: &Vec<SessionStreamRecord>,
    x: &IntentExecutionLineageV1,
    before: Option<u64>,
) -> (r: Result<String, KernelError>)
    ensures
        outcome(r) == task_base(records.deep_view(), x.deep_view(), before),
{
    let id = match &x.parent_mutation_event_id {
        None => {
            return Err(KernelError::new("Task Intent layer has no parent mutation batch"));
        },
        Some(id) => id,
    };
    let ghost p = is_applied_batch(id@);
    let batch = find_first(
        records,
        |r: &SessionStreamRecord| -> (b: bool)
            ensures
                b == p(r.deep_view())
            {
                same_text(r.event_id.as_str(), id.as_str()) && match batch_end_of(r) {
                    Some(e) => e.status == MutationBatchStatus::Applied,
                    None => false,
                }
            },
        Ghost(p),
    );
    let i = match batch {
        None => {
            return Err(KernelError::new("Task Intent layer parent mutation batch is not applied"));
        },
        Some(i) => i,
    };
    assert(records.deep_view()[i as int] == records@[i as int].deep_view());
    let after = records[i].stream_sequence;
    let ghost q = promotes_into(after, before, x.deep_view().parent_snapshot_id);
    let promotion = find_first(
        records,
        |r: &SessionStreamRecord| -> (b: bool)
            ensures
                b == q(r.deep_view())
            {
                match promotion_of(r) {
                    Some(m) => r.stream_sequence > after && precedes_end(r.stream_sequence, before)
                        && m.status == IntegrationPromotionStatus::Promoted && (match &m.target {
                        IntegrationPromotionTarget::WorkspaceApply { .. } => true,
                        _ => false,
                    }) && (match &m.effect {
                        Some(
                            IntegrationPromotionEffect::WorkspaceApplied {
                                promoted_snapshot_id,
                                ..
                            },
                        ) => equals(&x.parent_snapshot_id, promoted_snapshot_id.as_str()),
                        _ => false,
                    }),
                    None => false,
                }
            },
        Ghost(q),
    );
    match promotion {
        None => Err(
            KernelError::new("Task Intent layer has no matching WorkspaceApply promotion"),
        ),
        Some(k) => {
            assert(records.deep_view()[k as int] == records@[k as int].deep_view());
            match promotion_of(&records[k]) {
                Some(m) => match &m.target {
                    IntegrationPromotionTarget::WorkspaceApply { expected_snapshot_id, .. } => Ok(
                        expected_snapshot_id.duplicate(),
                    ),
                    _ => Ok(String::new()),
                },
                None => Ok(String::new()),
            }
        },
    }
}

fn find_touched_base(
    records: &Vec<SessionStreamRecord>,
    x: &IntentExecutionLineageV1,
    workspace_id: &str,
    before: Option<u64>,
    file: &ChangeSetFile,
) -> (r: Result<TouchedFileBaseV1, KernelError>)
    ensures
        outcome(r) == touched_base(
            records.deep_view(),
            x.deep_view(),
            workspace_id@,
            before,
            file.deep_view(),
        ),
{
    proof {
        lemma_mutation_pair(records.deep_view(), x.deep_view(), workspace_id@, file.deep_view());
    }
    let (i, k) = match mutation_pair_for_file(records, x, workspace_id, file) {
        None => {
            return Err(KernelError::new("Chat Intent layer has no exact mutation pair"));
        },
        Some(pair) => pair,
    };
    assert(records.deep_view()[i as int] == records@[i as int].deep_view());
    assert(records.deep_view()[k as int] == records@[k as int].deep_view());
    if !precedes_end(records[i].stream_sequence, before) || !precedes_end(
        records[k].stream_sequence,
        before,
    ) {
        return Err(KernelError::new("Chat Intent layer precedes its mutation evidence"));
    }
    match prepared_of(&records[i]) {
        Some(p) => Ok(
            TouchedFileBaseV1 {
                path: file.path.duplicate(),
                before_hash: p.before_hash.duplicate(),
                workspace_revision: p.base_workspace_revision,
            },
        ),
        None => {
            assert(false);
            vstd::pervasive::unreached()
        },
    }
}

proof fn lemma_touched_files_fail(
    records: Seq<SessionStreamRecordView>,
    x: IntentExecutionLineageV1View,
    workspace_id: Seq<char>,
    before: Option<u64>,
    files: Seq<ChangeSetFileView>,
    n: int,
    end: int,
    others: Seq<TouchedFileBaseV1View>,
)
    requires
        0 <= n <= end,
        touched_files(records, x, workspace_id, before, files, n, others) is Err,
    ensures
        touched_files(records, x, workspace_id, before, files, end, others) == touched_files(
            records,
            x,
            workspace_id,
            before,
            files,
            n,
            others,
        ),
    decreases end - n,
{
    if n < end {
        lemma_touched_files_fail(records, x, workspace_id, before, files, n, end - 1, others);
    }
}

fn add_touched_files(
    records: &Vec<SessionStreamRecord>,
    x: &IntentExecutionLineageV1,
    workspace_id: &str,
    before: Option<u64>,
    files: &Vec<ChangeSetFile>,
    others: Vec<TouchedFileBaseV1>,
) -> (r: Result<Vec<TouchedFileBaseV1>, KernelError>)
    ensures
        outcome(r) == touched_files(
            records.deep_view(),
            x.deep_view(),
            workspace_id@,
            before,
            files.deep_view(),
            files.len() as int,
            others.deep_view(),
        ),
{
    let ghost rv = records.deep_view();
    let ghost xv = x.deep_view();
    let ghost fv = files.deep_view();
    let ghost ov = others.deep_view();
    let mut list = others;
    let mut i: usize = 0;
    while i < files.len()
        invariant
            i <= files.len(),
            rv == records.deep_view(),
            xv == x.deep_view(),
            fv == files.deep_view(),
            ov == others.deep_view(),
            touched_files(rv, xv, workspace_id@, before, fv, i as int, ov) == Ok::<
                Seq<TouchedFileBaseV1View>,
                Seq<char>,
            >(list.deep_view()),
        decreases files.len() - i,
    {
        assert(fv[i as int] == files@[i as int].deep_view());
        match find_touched_base(records, x, workspace_id, before, &files[i]) {
            Ok(e) => {
                let ghost had = list;
                list.push(e);
                proof {
                    lemma_push_view(had, e, list);
                }
            },
            Err(e) => {
                proof {
                    lemma_touched_files_fail(
                        rv,
                        xv,
                        workspace_id@,
                        before,
                        fv,
                        i + 1,
                        fv.len() as int,
                        ov,
                    );
                }
                return Err(e);
            },
        }
        i = i + 1;
    }
    Ok(list)
}

proof fn lemma_touched_sets_fail(
    records: Seq<SessionStreamRecordView>,
    x: IntentExecutionLineageV1View,
    workspace_id: Seq<char>,
    before: Option<u64>,
    n: int,
    end: int,
)
    requires
        0 <= n <= end,
        touched_sets(records, x, workspace_id, before, n) is Err,
    ensures
        touched_sets(records, x, workspace_id, before, end) == touched_sets(
            records,
            x,
            workspace_id,
            before,
            n,
        ),
    decreases end - n,
{
    if n < end {
        lemma_touched_sets_fail(records, x, workspace_id, before, n, end - 1);
    }
}

fn collect_touched(
    records: &Vec<SessionStreamRecord>,
    x: &IntentExecutionLineageV1,
    workspace_id: &str,
    before: Option<u64>,
) -> (r: Result<Vec<TouchedFileBaseV1>, KernelError>)
    ensures
        outcome(r) == touched_sets(
            records.deep_view(),
            x.deep_view(),
            workspace_id@,
            before,
            x.deep_view().changeset_ids.len() as int,
        ),
{
    let ghost rv = records.deep_view();
    let ghost xv = x.deep_view();
    let mut list: Vec<TouchedFileBaseV1> = Vec::new();
    assert(list.deep_view() =~= Seq::empty());
    let mut i: usize = 0;
    while i < x.changeset_ids.len()
        invariant
            i <= x.changeset_ids.len(),
            rv == records.deep_view(),
            xv == x.deep_view(),
            touched_sets(rv, xv, workspace_id@, before, i as int) == Ok::<
                Seq<TouchedFileBaseV1View>,
                Seq<char>,
            >(list.deep_view()),
        decreases x.changeset_ids.len() - i,
    {
        assert(xv.changeset_ids[i as int] == x.changeset_ids@[i as int]@);
        let c = match find_proposal(records, x.changeset_ids[i].as_str()) {
            None => {
                proof {
                    lemma_touched_sets_fail(
                        rv,
                        xv,
                        workspace_id@,
                        before,
                        i + 1,
                        xv.changeset_ids.len() as int,
                    );
                }
                return Err(KernelError::new("Chat Intent layer ChangeSet is unavailable"));
            },
            Some(c) => c,
        };
        match add_touched_files(records, x, workspace_id, before, &c.files, list) {
            Ok(more) => {
                list = more;
            },
            Err(e) => {
                proof {
                    lemma_touched_sets_fail(
                        rv,
                        xv,
                        workspace_id@,
                        before,
                        i + 1,
                        xv.changeset_ids.len() as int,
                    );
                }
                return Err(e);
            },
        }
        i = i + 1;
    }
    Ok(list)
}

fn stands_before(a: &TouchedFileBaseV1, b: &TouchedFileBaseV1) -> (r: bool)
    ensures
        r == base_precedes(a.deep_view(), b.deep_view()),
{
    if text_precedes(a.path.as_str(), b.path.as_str()) {
        return true;
    }
    if a.path != b.path {
        return false;
    }
    match (&a.before_hash, &b.before_hash) {
        (None, Some(_)) => true,
        (Some(x), Some(y)) => {
            if text_precedes(x.as_str(), y.as_str()) {
                return true;
            }
            *x == *y && a.workspace_revision < b.workspace_revision
        },
        (None, None) => a.workspace_revision < b.workspace_revision,
        (Some(_), None) => false,
    }
}

fn insert_sorted(list: &mut Vec<TouchedFileBaseV1>, e: TouchedFileBaseV1)
    ensures
        final(list).deep_view() == insert_base(old(list).deep_view(), e.deep_view()),
{
    let ghost v = list.deep_view();
    let ghost ev = e.deep_view();
    let mut n: usize = list.len();
    assert(v.take(n as int) =~= v);
    assert(v.skip(n as int) =~= Seq::empty());
    assert(insert_base(v, ev) =~= insert_base(v.take(n as int), ev) + v.skip(n as int));
    while n > 0 && stands_before(&e, &list[n - 1])
        invariant
            n <= list.len(),
            v == list.deep_view(),
            ev == e.deep_view(),
            insert_base(v, ev) == insert_base(v.take(n as int), ev) + v.skip(n as int),
        decreases n,
    {
        proof {
            assert(v[n - 1] == list@[n - 1].deep_view());
            assert(v.take(n as int).last() == v[n - 1]);
            assert(v.take(n as int).drop_last() =~= v.take(n - 1));
            assert(insert_base(v.take(n as int), ev) == insert_base(v.take(n - 1), ev).push(
                v[n - 1],
            ));
            assert(insert_base(v.take(n - 1), ev).push(v[n - 1]) + v.skip(n as int) =~= insert_base(
                v.take(n - 1),
                ev,
            ) + v.skip(n - 1));
        }
        n = n - 1;
    }
    proof {
        if n > 0 {
            assert(v[n - 1] == list@[n - 1].deep_view());
            assert(v.take(n as int).last() == v[n - 1]);
        }
        assert(insert_base(v.take(n as int), ev) == v.take(n as int).push(ev));
    }
    list.insert(n, e);
    assert(list.deep_view() =~= v.take(n as int).push(ev) + v.skip(n as int));
}

fn sort_touched(list: &Vec<TouchedFileBaseV1>) -> (r: Vec<TouchedFileBaseV1>)
    ensures
        r.deep_view() == sorted_bases(list.deep_view()),
{
    let ghost v = list.deep_view();
    let mut r: Vec<TouchedFileBaseV1> = Vec::new();
    let mut i: usize = 0;
    assert(v.take(0) =~= Seq::empty());
    assert(r.deep_view() =~= v.take(0));
    while i < list.len()
        invariant
            i <= list.len(),
            v == list.deep_view(),
            r.deep_view() == sorted_bases(v.take(i as int)),
        decreases list.len() - i,
    {
        assert(v.take(i + 1).drop_last() =~= v.take(i as int));
        assert(v.take(i + 1).last() == list@[i as int].deep_view());
        insert_sorted(&mut r, list[i].duplicate());
        i = i + 1;
    }
    assert(v.take(i as int) =~= v);
    r
}

proof fn lemma_three_separated(items: Seq<Seq<char>>)
    requires
        items.len() == 3,
    ensures
        comma_separated(items) == ((items[0].push(',') + items[1]).push(',') + items[2]),
{
    reveal_with_fuel(comma_separated, 4);
    assert(items.drop_last().last() == items[1]);
    assert(items.drop_last().drop_last()[0] == items[0]);
}

fn write_base(e: &TouchedFileBaseV1) -> (r: String)
    ensures
        r@ == base_json(e.deep_view()),
{
    let mut r = String::new();
    r.push('[');
    r.append(e.path.to_json().as_str());
    r.push(',');
    r.append(e.before_hash.to_json().as_str());
    r.push(',');
    r.append(e.workspace_revision.to_json().as_str());
    r.push(']');
    proof {
        let items = seq![
            String::json(e.path@),
            Option::<String>::json(e.before_hash.deep_view()),
            u64::json(e.workspace_revision),
        ];
        lemma_three_separated(items);
        assert(r@ =~= json_array(items));
    }
    r
}

fn write_touched(entries: &Vec<TouchedFileBaseV1>, workspace_id: &str) -> (r: String)
    ensures
        r@ == touched_json(entries.deep_view(), workspace_id@),
{
    let ghost v = entries.deep_view();
    let ghost all = Seq::new(v.len(), |i: int| base_json(v[i]));
    let mut list = String::new();
    list.push('[');
    let mut i: usize = 0;
    assert(all.take(0) =~= Seq::empty());
    assert(list@ =~= seq!['['] + comma_separated(all.take(0)));
    while i < entries.len()
        invariant
            i <= entries.len(),
            v == entries.deep_view(),
            all == Seq::new(v.len(), |k: int| base_json(v[k])),
            list@ == seq!['['] + comma_separated(all.take(i as int)),
        decreases entries.len() - i,
    {
        if i > 0 {
            list.push(',');
        }
        assert(v[i as int] == entries@[i as int].deep_view());
        list.append(write_base(&entries[i]).as_str());
        assert(all.take(i + 1).drop_last() =~= all.take(i as int));
        assert(all.take(i + 1).last() == all[i as int]);
        if i == 0 {
            assert(all.take(1)[0] == all[0]);
            assert(all.take(0) =~= Seq::empty());
        }
        assert(list@ =~= seq!['['] + comma_separated(all.take(i + 1)));
        i = i + 1;
    }
    assert(all.take(i as int) =~= all);
    list.push(']');
    let mut r = String::new();
    assert(r@ =~= Seq::empty());
    add_member(&mut r, "touched_file_base", &list);
    let id = workspace_id.to_owned();
    add_member(&mut r, "workspace_id", &id.to_json());
    close_object(&mut r);
    r
}

/// Finds the snapshot before an execution.
pub(crate) fn base_snapshot_id(
    records: &Vec<SessionStreamRecord>,
    x: &IntentExecutionLineageV1,
    workspace_id: &str,
    before: Option<u64>,
) -> (r: Result<String, KernelError>)
    ensures
        outcome(r) == base_snapshot(records.deep_view(), x.deep_view(), workspace_id@, before),
{
    match &x.binding.origin {
        IntentExecutionOriginV1::Task { .. } => find_task_base(records, x, before),
        IntentExecutionOriginV1::Chat { .. } => {
            let list = collect_touched(records, x, workspace_id, before)?;
            let entries = sort_touched(&list);
            let text = write_touched(&entries, workspace_id);
            let digest = IntentDigest::of_text(text.as_str());
            Ok(digest.as_str().to_owned())
        },
    }
}

// Laws.

/// Entries in ascending order, where none stands before one that it follows.
pub open spec fn in_order(s: Seq<TouchedFileBaseV1View>) -> bool {
    forall|i: int, j: int|
        0 <= i < j < s.len() ==> !base_precedes(#[trigger] s[j], #[trigger] s[i])
}

proof fn lemma_base_order(
    a: TouchedFileBaseV1View,
    b: TouchedFileBaseV1View,
    c: TouchedFileBaseV1View,
)
    ensures
        base_precedes(a, b) && base_precedes(b, c) ==> base_precedes(a, c),
        base_precedes(a, b) ==> !base_precedes(b, a),
        base_precedes(a, b) && !base_precedes(c, b) ==> !base_precedes(c, a),
{
    lemma_precedes_irreflexive(a.path);
    lemma_precedes_irreflexive(b.path);
    if precedes(a.path, b.path) && precedes(b.path, a.path) {
        lemma_precedes_transitive(a.path, b.path, a.path);
    }
    if precedes(a.path, b.path) && precedes(b.path, c.path) {
        lemma_precedes_transitive(a.path, b.path, c.path);
    }
    if precedes(c.path, a.path) && precedes(a.path, b.path) {
        lemma_precedes_transitive(c.path, a.path, b.path);
    }
    lemma_optional_order(a.before_hash, b.before_hash, c.before_hash);
    lemma_optional_order(c.before_hash, a.before_hash, b.before_hash);
}

proof fn lemma_optional_order(a: Option<Seq<char>>, b: Option<Seq<char>>, c: Option<Seq<char>>)
    ensures
        optional_precedes(a, b) && optional_precedes(b, c) ==> optional_precedes(a, c),
        optional_precedes(a, b) ==> !optional_precedes(b, a),
{
    match (a, b) {
        (Some(x), Some(y)) => {
            lemma_precedes_irreflexive(x);
            if precedes(x, y) && precedes(y, x) {
                lemma_precedes_transitive(x, y, x);
            }
            if let Some(z) = c {
                if precedes(x, y) && precedes(y, z) {
                    lemma_precedes_transitive(x, y, z);
                }
            }
        },
        _ => {},
    }
}

proof fn lemma_insert_keeps_order(s: Seq<TouchedFileBaseV1View>, e: TouchedFileBaseV1View)
    requires
        in_order(s),
    ensures
        in_order(insert_base(s, e)),
        insert_base(s, e).to_multiset() == s.to_multiset().insert(e),
        insert_base(s, e).len() == s.len() + 1,
    decreases s.len(),
{
    let r = insert_base(s, e);
    s.to_multiset_ensures();
    if s.len() > 0 && base_precedes(e, s.last()) {
        let front = s.drop_last();
        lemma_insert_keeps_order(front, e);
        let inner = insert_base(front, e);
        inner.to_multiset_ensures();
        front.to_multiset_ensures();
        assert(s =~= front.push(s.last()));
        assert(r.to_multiset() =~= s.to_multiset().insert(e));
        assert forall|i: int, j: int| 0 <= i < j < r.len() implies !base_precedes(
            #[trigger] r[j],
            #[trigger] r[i],
        ) by {
            if j < inner.len() {
                assert(r[j] == inner[j]);
                assert(r[i] == inner[i]);
            } else {
                assert(r[j] == s.last());
                assert(r[i] == inner[i]);
                lemma_insert_members(front, e, i);
                if inner[i] == e {
                    lemma_base_order(e, s.last(), e);
                } else {
                    let k = choose|k: int| 0 <= k < front.len() && front[k] == inner[i];
                    assert(s[k] == front[k]);
                    assert(s[s.len() - 1] == s.last());
                }
            }
        }
    } else {
        assert forall|i: int, j: int| 0 <= i < j < r.len() implies !base_precedes(
            #[trigger] r[j],
            #[trigger] r[i],
        ) by {
            if j < s.len() {
                assert(r[j] == s[j]);
                assert(r[i] == s[i]);
            } else {
                assert(r[j] == e);
                assert(r[i] == s[i]);
                if i < s.len() - 1 {
                    assert(!base_precedes(s[s.len() - 1], s[i]));
                    if base_precedes(e, s[i]) {
                        lemma_base_order(e, s[i], s[s.len() - 1]);
                        lemma_not_before(e, s[i], s.last());
                    }
                }
            }
        }
    }
}

proof fn lemma_not_before(
    e: TouchedFileBaseV1View,
    a: TouchedFileBaseV1View,
    b: TouchedFileBaseV1View,
)
    requires
        base_precedes(e, a),
        !base_precedes(b, a),
    ensures
        base_precedes(e, b),
{
    lemma_precedes_total(a.path, b.path);
    lemma_precedes_total(e.path, b.path);
    if precedes(e.path, a.path) && precedes(a.path, b.path) {
        lemma_precedes_transitive(e.path, a.path, b.path);
    }
    match (a.before_hash, b.before_hash) {
        (Some(x), Some(y)) => {
            lemma_precedes_total(x, y);
            if let Some(z) = e.before_hash {
                if precedes(z, x) && precedes(x, y) {
                    lemma_precedes_transitive(z, x, y);
                }
            }
        },
        _ => {},
    }
}

proof fn lemma_insert_members(s: Seq<TouchedFileBaseV1View>, e: TouchedFileBaseV1View, i: int)
    requires
        0 <= i < insert_base(s, e).len(),
    ensures
        insert_base(s, e)[i] == e || s.contains(insert_base(s, e)[i]),
    decreases s.len(),
{
    let r = insert_base(s, e);
    if s.len() > 0 && base_precedes(e, s.last()) {
        let inner = insert_base(s.drop_last(), e);
        if i < inner.len() {
            lemma_insert_members(s.drop_last(), e, i);
            if s.drop_last().contains(r[i]) {
                let k = choose|k: int| 0 <= k < s.drop_last().len() && s.drop_last()[k] == r[i];
                assert(s[k] == r[i]);
            }
        } else {
            assert(s[s.len() - 1] == r[i]);
        }
    } else if i < s.len() {
        assert(s[i] == r[i]);
    }
}

/// The base of a chat does not depend on the order of its files: the entries are sorted, and each stays
/// as often as it was.
pub proof fn law_touched_files_are_sorted(s: Seq<TouchedFileBaseV1View>)
    ensures
        in_order(sorted_bases(s)),
        sorted_bases(s).to_multiset() == s.to_multiset(),
    decreases s.len(),
{
    if s.len() > 0 {
        let front = s.drop_last();
        law_touched_files_are_sorted(front);
        lemma_insert_keeps_order(sorted_bases(front), s.last());
        front.to_multiset_ensures();
        assert(s =~= front.push(s.last()));
    }
}

} // verus!
