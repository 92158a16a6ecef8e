//! What the durable stream proves of a batch of mutations that an operation was prepared for.

use vstd::prelude::*;

use crate::intent::{IntentOperationFileSummaryV1, IntentOperationFileSummaryV1View};
use crate::intent_lineage::with_new;
use crate::intent_state::{
    BatchOutcome, BatchOutcomeView, OperationRecord, OperationRecordView, PreparedOperation,
    PreparedOperationView,
};
use crate::lineage_facts::{member_of, same_texts};
use crate::order::{items_in_order, sorted_texts, text_order};
use crate::records::{
    MutationBatchFinished, MutationBatchFinishedView, MutationBatchStarted,
    MutationBatchStartedView, MutationBatchStatus, MutationObservedState, MutationReconciled,
    MutationReconciledView, MutationResolution, MutationSubject, MutationSubjectView, RecordBody,
    RecordBodyView, SessionStreamRecord, SessionStreamRecordView,
};
use crate::search::{
    any_where, check_each, find_first, first_where, has_all, has_any, lemma_first_where,
    lemma_selected, same_items, select, selected,
};
use crate::stream::{
    batch_end_in, batch_end_of, batch_start_in, batch_start_of, committed_in, committed_of,
    prepared_in, prepared_of, reconciled_in, reconciled_of,
};
use crate::text::{precedes, same_text, text_precedes};
use crate::value::{
    chain, check, first_failure, holds, lemma_failures_begin, lemma_failures_end,
    lemma_failures_step, lemma_push_view, outcome, reject, verdict, KernelError, Value, Verdict,
};

verus! {

/// The record begins a batch.
pub open spec fn starts_batch(id: Seq<char>) -> spec_fn(SessionStreamRecordView) -> bool {
    |r: SessionStreamRecordView| batch_start_in(r) matches Some(b) && b.batch_id == id
}

/// The record ends a batch.
pub open spec fn ends_batch(id: Seq<char>) -> spec_fn(SessionStreamRecordView) -> bool {
    |r: SessionStreamRecordView| batch_end_in(r) matches Some(b) && b.batch_id == id
}

/// The record prepares a mutation of a batch.
pub open spec fn prepares_within(id: Seq<char>) -> spec_fn(SessionStreamRecordView) -> bool {
    |r: SessionStreamRecordView| prepared_in(r) matches Some(p) && p.batch_id == Some(id)
}

/// The record commits a mutation of a batch.
pub open spec fn commits_within(id: Seq<char>) -> spec_fn(SessionStreamRecordView) -> bool {
    |r: SessionStreamRecordView| committed_in(r) matches Some(c) && c.batch_id == Some(id)
}

/// The record reconciles a mutation of a batch.
pub open spec fn reconciles_within(id: Seq<char>) -> spec_fn(SessionStreamRecordView) -> bool {
    |r: SessionStreamRecordView| reconciled_in(r) matches Some(c) && c.batch_id == Some(id)
}

/// The check of the record at `i`: no batch begins twice, and none ends twice.
pub open spec fn batch_fact_verdict(records: Seq<SessionStreamRecordView>, i: int) -> Verdict {
    match records[i].body {
        RecordBodyView::MutationBatchStarted(b) => check(
            first_where(records, starts_batch(b.batch_id)) == Some(i),
            "Intent operation mutation batch started more than once"@,
        ),
        RecordBodyView::MutationBatchFinished(b) => check(
            first_where(records, ends_batch(b.batch_id)) == Some(i),
            "Intent operation mutation batch finished more than once"@,
        ),
        _ => Ok(()),
    }
}

/// The checks of all records.
pub open spec fn batch_fact_verdicts(records: Seq<SessionStreamRecordView>) -> Seq<Verdict> {
    Seq::new(records.len(), |i: int| batch_fact_verdict(records, i))
}

/// The check of a stream as a source of facts on batches.
pub open spec fn batch_facts_verdict(records: Seq<SessionStreamRecordView>) -> Verdict {
    first_failure(batch_fact_verdicts(records))
}

/// Finds the record that begins a batch.
pub(crate) fn find_batch_start(records: &Vec<SessionStreamRecord>, id: &str) -> (r: Option<usize>)
    ensures
        match r {
            Some(i) => i < records.len() && first_where(records.deep_view(), starts_batch(id@))
                == Some(i as int) && batch_start_in(records@[i as int].deep_view()) is Some,
            None => first_where(records.deep_view(), starts_batch(id@)) is None,
        },
{
    let ghost p = starts_batch(id@);
    find_first(
        records,
        |r: &SessionStreamRecord| -> (b: bool)
            ensures
                b == p(r.deep_view())
            {
                match batch_start_of(r) {
                    Some(s) => same_text(s.batch_id.as_str(), id),
                    None => false,
                }
            },
        Ghost(p),
    )
}

/// Finds the record that ends a batch.
pub(crate) fn find_batch_end(records: &Vec<SessionStreamRecord>, id: &str) -> (r: Option<usize>)
    ensures
        match r {
            Some(i) => i < records.len() && first_where(records.deep_view(), ends_batch(id@)) == Some(
                i as int,
            ) && batch_end_in(records@[i as int].deep_view()) is Some,
            None => first_where(records.deep_view(), ends_batch(id@)) is None,
        },
{
    let ghost p = ends_batch(id@);
    find_first(
        records,
        |r: &SessionStreamRecord| -> (b: bool)
            ensures
                b == p(r.deep_view())
            {
                match batch_end_of(r) {
                    Some(s) => same_text(s.batch_id.as_str(), id),
                    None => false,
                }
            },
        Ghost(p),
    )
}

/// Checks a stream as a source of facts on batches.
pub(crate) fn validate_batch_facts(records: &Vec<SessionStreamRecord>) -> (r: Result<(), KernelError>)
    ensures
        verdict(r) == batch_facts_verdict(records.deep_view()),
{
    let ghost rv = records.deep_view();
    let ghost all = batch_fact_verdicts(rv);
    let mut i: usize = 0;
    proof {
        lemma_failures_begin(all);
    }
    while i < records.len()
        invariant
            i <= records.len(),
            rv == records.deep_view(),
            all == batch_fact_verdicts(rv),
            first_failure(all) == first_failure(all.skip(i as int)),
        decreases records.len() - i,
    {
        proof {
            lemma_failures_step(all, i as int);
        }
        assert(rv[i as int] == records@[i as int].deep_view());
        match &records[i].body {
            RecordBody::MutationBatchStarted(b) => {
                let own = match find_batch_start(records, b.batch_id.as_str()) {
                    Some(k) => k == i,
                    None => false,
                };
                if !own {
                    return reject("Intent operation mutation batch started more than once");
                }
            },
            RecordBody::MutationBatchFinished(b) => {
                let own = match find_batch_end(records, b.batch_id.as_str()) {
                    Some(k) => k == i,
                    None => false,
                };
                if !own {
                    return reject("Intent operation mutation batch finished more than once");
                }
            },
            _ => {},
        }
        i = i + 1;
    }
    proof {
        lemma_failures_end(all);
    }
    Ok(())
}

/// The record prepares, commits or reconciles a mutation of a batch.
pub open spec fn is_file_evidence(id: Seq<char>) -> spec_fn(SessionStreamRecordView) -> bool {
    |r: SessionStreamRecordView|
        prepares_within(id)(r) || commits_within(id)(r) || reconciles_within(id)(r)
}

/// There is evidence that files of a batch were touched.
pub open spec fn has_evidence(records: Seq<SessionStreamRecordView>, id: Seq<char>) -> bool {
    any_where(records, is_file_evidence(id))
}

fn is_within(batch_id: &Option<String>, id: &str) -> (r: bool)
    ensures
        r == (batch_id.deep_view() == Some(id@)),
{
    match batch_id {
        Some(b) => same_text(b.as_str(), id),
        None => false,
    }
}

/// Tells whether there is evidence that files of a batch were touched.
pub(crate) fn has_file_evidence(records: &Vec<SessionStreamRecord>, id: &str) -> (r: bool)
    ensures
        r == has_evidence(records.deep_view(), id@),
{
    let ghost p = is_file_evidence(id@);
    has_any(
        records,
        |r: &SessionStreamRecord| -> (b: bool)
            ensures
                b == p(r.deep_view())
            {
                match &r.body {
                    RecordBody::MutationPrepared(m) => is_within(&m.batch_id, id),
                    RecordBody::MutationCommitted(m) => is_within(&m.batch_id, id),
                    RecordBody::MutationReconciled(m) => is_within(&m.batch_id, id),
                    _ => false,
                }
            },
        Ghost(p),
    )
}

// The outcome of a batch.

/// The path of the file that a mutation changes.
pub open spec fn file_path_in(s: MutationSubjectView) -> Option<Seq<char>> {
    match s {
        MutationSubjectView::File { path, .. } => Some(path),
        MutationSubjectView::Other { .. } => None,
    }
}

/// The paths of the files among subjects, in their order.
pub open spec fn subject_paths(subjects: Seq<MutationSubjectView>) -> Seq<Seq<char>>
    decreases subjects.len(),
{
    if subjects.len() == 0 {
        Seq::empty()
    } else {
        let before = subject_paths(subjects.drop_last());
        match file_path_in(subjects.last()) {
            Some(path) => before.push(path),
            None => before,
        }
    }
}

/// The paths that an operation is to change, each once.
pub open spec fn effect_paths(files: Seq<IntentOperationFileSummaryV1View>) -> Seq<Seq<char>> {
    with_new(
        Seq::empty(),
        Seq::new(files.len(), |i: int| files[i].normalized_relative_path),
    )
}

/// The check that a batch begins under the authority that an operation was prepared with.
pub open spec fn batch_start_verdict(
    record: SessionStreamRecordView,
    b: MutationBatchStartedView,
    op: OperationRecordView,
    prepared: PreparedOperationView,
    paths: Seq<Seq<char>>,
) -> Verdict {
    chain(
        check(
            op.prepared_sequence matches Some(s) && record.stream_sequence > s,
            "Intent operation mutation batch started before operation prepare"@,
        ),
        check(
            b.operation_id == op.preview.operation_id && b.prepared_digest == Some(
                prepared.preview_digest,
            ) && b.approval_identity == Some(prepared.approval_authority_id)
                && b.policy_fingerprint == Some(prepared.permission_policy_digest) && same_items(
                subject_paths(b.expected_subjects),
                paths,
            ) && b.expected_subjects.len() == paths.len(),
            "Intent operation batch start does not match its prepared authority"@,
        ),
    )
}

/// The record prepares the mutation with an identity.
pub open spec fn prepares_operation(id: Seq<char>) -> spec_fn(SessionStreamRecordView) -> bool {
    |r: SessionStreamRecordView| prepared_in(r) matches Some(p) && p.operation_id == id
}

/// The check of the mutation prepared at `i` among those of a batch.
pub open spec fn prepare_verdict(
    prepares: Seq<SessionStreamRecordView>,
    i: int,
    started: u64,
    operation_id: Seq<char>,
    paths: Seq<Seq<char>>,
) -> Verdict {
    let p = prepared_in(prepares[i])->0;
    match file_path_in(p.subject) {
        None => Err("Intent operation prepared a non-file mutation"@),
        Some(path) => check(
            prepares[i].stream_sequence > started && p.tool_call_id == Some(operation_id)
                && paths.contains(path) && first_where(prepares, prepares_operation(p.operation_id))
                == Some(i),
            "Intent operation contains invalid per-file prepare evidence"@,
        ),
    }
}

/// The checks of all mutations prepared in a batch.
pub open spec fn prepare_verdicts(
    prepares: Seq<SessionStreamRecordView>,
    started: u64,
    operation_id: Seq<char>,
    paths: Seq<Seq<char>>,
) -> Seq<Verdict> {
    Seq::new(
        prepares.len(),
        |i: int| prepare_verdict(prepares, i, started, operation_id, paths),
    )
}

/// The check of a mutation committed in a batch.
pub open spec fn commit_verdict(prepares: Seq<SessionStreamRecordView>) -> spec_fn(
    SessionStreamRecordView,
) -> Verdict {
    |r: SessionStreamRecordView|
        {
            let c = committed_in(r)->0;
            match first_where(prepares, prepares_operation(c.operation_id)) {
                None => Err("Intent operation commit has no matching prepare"@),
                Some(k) => check(
                    r.stream_sequence > prepares[k].stream_sequence && file_path_in(
                        c.committed_subject,
                    ) is Some && file_path_in(c.committed_subject) == file_path_in(
                        prepared_in(prepares[k])->0.subject,
                    ),
                    "Intent operation commit does not match its prepare"@,
                ),
            }
        }
}

/// How a reconciled mutation ended.
pub open spec fn was_applied(c: MutationReconciledView) -> bool {
    c.observed_state == MutationObservedState::AppliedAsIntended && c.resolution
        == MutationResolution::MarkCommitted
}

/// A reconciled mutation is in conflict with the workspace.
pub open spec fn was_conflicted(c: MutationReconciledView) -> bool {
    (c.observed_state == MutationObservedState::AppliedDifferently && c.resolution
        == MutationResolution::MarkConflict) || (c.observed_state == MutationObservedState::Unknown
        && c.resolution == MutationResolution::MarkUnknownDirty)
}

/// A reconciled mutation left nothing behind.
pub open spec fn was_not_applied(c: MutationReconciledView) -> bool {
    c.observed_state == MutationObservedState::NotApplied && c.resolution
        == MutationResolution::MarkNotApplied
}

/// The check of a mutation reconciled in a batch.
pub open spec fn reconcile_verdict(prepares: Seq<SessionStreamRecordView>) -> spec_fn(
    SessionStreamRecordView,
) -> Verdict {
    |r: SessionStreamRecordView|
        {
            let c = reconciled_in(r)->0;
            match first_where(prepares, prepares_operation(c.operation_id)) {
                None => Err("Intent operation reconciliation has no matching prepare"@),
                Some(k) => chain(
                    check(
                        r.stream_sequence > prepares[k].stream_sequence,
                        "Intent operation reconciliation precedes its prepare"@,
                    ),
                    check(
                        was_applied(c) || was_conflicted(c) || was_not_applied(c),
                        "Intent operation reconciliation has an invalid state/resolution pair"@,
                    ),
                ),
            }
        }
}

/// The record reconciles a mutation that was applied.
pub open spec fn tells_applied_mutation() -> spec_fn(SessionStreamRecordView) -> bool {
    |r: SessionStreamRecordView| reconciled_in(r) matches Some(c) && was_applied(c)
}

/// The record reconciles a mutation that is in conflict.
pub open spec fn tells_conflicted_mutation() -> spec_fn(SessionStreamRecordView) -> bool {
    |r: SessionStreamRecordView| reconciled_in(r) matches Some(c) && was_conflicted(c)
}

/// The identity of the mutation that a record commits or reconciles.
pub open spec fn settled_operation(r: SessionStreamRecordView) -> Seq<char> {
    match r.body {
        RecordBodyView::MutationCommitted(c) => c.operation_id,
        RecordBodyView::MutationReconciled(c) => c.operation_id,
        _ => Seq::empty(),
    }
}

/// The identities of the mutations that records commit or reconcile.
pub open spec fn settled_operations(records: Seq<SessionStreamRecordView>) -> Seq<Seq<char>> {
    Seq::new(records.len(), |i: int| settled_operation(records[i]))
}

/// The identities of the mutations of a batch that were applied, each once and in order.
pub open spec fn applied_operations(
    commits: Seq<SessionStreamRecordView>,
    reconciles: Seq<SessionStreamRecordView>,
) -> Seq<Seq<char>> {
    items_in_order(
        with_new(
            with_new(Seq::empty(), settled_operations(commits)),
            settled_operations(selected(reconciles, tells_applied_mutation())),
        ),
        text_order(),
    )
}

/// The snapshot that a record names after a mutation was applied.
pub open spec fn named_snapshot(r: SessionStreamRecordView) -> Option<Seq<char>> {
    match r.body {
        RecordBodyView::MutationCommitted(c) => Some(c.workspace_snapshot_id),
        RecordBodyView::MutationReconciled(c) => if was_applied(c) {
            c.workspace_snapshot_id
        } else {
            None
        },
        _ => None,
    }
}

/// One snapshot is later than another: by its place in the stream, then by its identity.
pub open spec fn later_snapshot(a: (u64, Seq<char>), b: (u64, Seq<char>)) -> bool {
    a.0 > b.0 || (a.0 == b.0 && precedes(b.1, a.1))
}

/// The latest snapshot that records name, if it is later than one found before.
pub open spec fn latest_snapshot(
    records: Seq<SessionStreamRecordView>,
    found: Option<(u64, Seq<char>)>,
) -> Option<(u64, Seq<char>)>
    decreases records.len(),
{
    if records.len() == 0 {
        found
    } else {
        let before = latest_snapshot(records.drop_last(), found);
        match named_snapshot(records.last()) {
            None => before,
            Some(id) => {
                let own = (records.last().stream_sequence, id);
                match before {
                    None => Some(own),
                    Some(b) => if later_snapshot(own, b) {
                        Some(own)
                    } else {
                        before
                    },
                }
            },
        }
    }
}

/// The snapshot after a batch.
pub open spec fn batch_snapshot(
    commits: Seq<SessionStreamRecordView>,
    reconciles: Seq<SessionStreamRecordView>,
) -> Option<Seq<char>> {
    match latest_snapshot(reconciles, latest_snapshot(commits, None)) {
        Some(s) => Some(s.1),
        None => None,
    }
}

/// The check that a batch ended under the authority that an operation was prepared with, and that it
/// claims no more than was applied.
pub open spec fn batch_end_verdict(
    record: SessionStreamRecordView,
    b: MutationBatchFinishedView,
    started: u64,
    prepared: PreparedOperationView,
    applied: Seq<Seq<char>>,
) -> Verdict {
    chain(
        check(
            record.stream_sequence > started && b.prepared_digest == Some(prepared.preview_digest)
                && b.approval_identity == Some(prepared.approval_authority_id)
                && b.policy_fingerprint == Some(prepared.permission_policy_digest),
            "Intent operation batch terminal does not match prepared authority"@,
        ),
        check(
            forall|i: int|
                0 <= i < b.committed_operations.len() ==> applied.contains(
                    #[trigger] b.committed_operations[i],
                ),
            "Intent operation batch claims commits without terminal file evidence"@,
        ),
    )
}

/// The batch ended as fully applied.
pub open spec fn ended_applied(b: MutationBatchFinishedView, files: nat) -> bool {
    b.status == MutationBatchStatus::Applied && b.committed_operations.len() == files
        && b.failed_operations.len() == 0
}

/// What a sound batch came to.
pub open spec fn batch_result(
    prepares: nat,
    applied: Seq<Seq<char>>,
    conflicted: bool,
    snapshot: Option<Seq<char>>,
    end: Option<MutationBatchFinishedView>,
    files: nat,
) -> Result<BatchOutcomeView, Seq<char>> {
    let complete = !conflicted && prepares == files && applied.len() == files;
    if complete && snapshot is None {
        Err("applied Intent operation has no result snapshot"@)
    } else if complete && end is None {
        Ok(
            BatchOutcomeView::FullyAppliedUnfinished {
                operation_ids: applied,
                result_snapshot_id: snapshot->0,
            },
        )
    } else if complete && ended_applied(end->0, files) {
        Ok(
            BatchOutcomeView::Applied {
                operation_ids: applied,
                result_snapshot_id: snapshot->0,
            },
        )
    } else if conflicted {
        Ok(BatchOutcomeView::Conflicted { applied, result_snapshot_id: snapshot })
    } else if applied.len() == 0 {
        Ok(BatchOutcomeView::Interrupted { result_snapshot_id: snapshot })
    } else {
        Ok(BatchOutcomeView::Partial { applied, result_snapshot_id: snapshot })
    }
}

/// The end of a batch, where there is one.
pub open spec fn batch_end(records: Seq<SessionStreamRecordView>, id: Seq<char>) -> Option<
    MutationBatchFinishedView,
> {
    match first_where(records, ends_batch(id)) {
        Some(k) => batch_end_in(records[k]),
        None => None,
    }
}

/// The checks of the evidence of a batch that has begun.
pub open spec fn evidence_batch_verdict(
    records: Seq<SessionStreamRecordView>,
    started: u64,
    op: OperationRecordView,
    prepared: PreparedOperationView,
    paths: Seq<Seq<char>>,
) -> Verdict {
    let id = prepared.mutation_batch_id;
    let prepares = selected(records, prepares_within(id));
    let commits = selected(records, commits_within(id));
    let reconciles = selected(records, reconciles_within(id));
    chain(
        first_failure(prepare_verdicts(prepares, started, op.preview.operation_id, paths)),
        chain(
            check_each(commits, commit_verdict(prepares)),
            chain(
                check_each(reconciles, reconcile_verdict(prepares)),
                match first_where(records, ends_batch(id)) {
                    None => Ok(()),
                    Some(k) => batch_end_verdict(
                        records[k],
                        batch_end_in(records[k])->0,
                        started,
                        prepared,
                        applied_operations(commits, reconciles),
                    ),
                },
            ),
        ),
    )
}

/// What the stream proves of the batch of a prepared operation.
#[verifier::opaque]
pub open spec fn batch_outcome(
    records: Seq<SessionStreamRecordView>,
    op: OperationRecordView,
    prepared: PreparedOperationView,
) -> Result<BatchOutcomeView, Seq<char>> {
    let id = prepared.mutation_batch_id;
    let paths = effect_paths(op.preview.file_effects);
    match first_where(records, starts_batch(id)) {
        None => Ok(BatchOutcomeView::NoBatch),
        Some(k) => {
            let started = records[k].stream_sequence;
            let prepares = selected(records, prepares_within(id));
            let commits = selected(records, commits_within(id));
            let reconciles = selected(records, reconciles_within(id));
            match chain(
                batch_start_verdict(
                    records[k],
                    batch_start_in(records[k])->0,
                    op,
                    prepared,
                    paths,
                ),
                evidence_batch_verdict(records, started, op, prepared, paths),
            ) {
                Err(m) => Err(m),
                Ok(_) => batch_result(
                    prepares.len(),
                    applied_operations(commits, reconciles),
                    any_where(reconciles, tells_conflicted_mutation()),
                    batch_snapshot(commits, reconciles),
                    batch_end(records, id),
                    paths.len(),
                ),
            }
        },
    }
}

/// The path of the file that a mutation changes.
pub(crate) fn mutation_file_path(s: &MutationSubject) -> (r: Option<String>)
    ensures
        r.deep_view() == file_path_in(s.deep_view()),
{
    match s {
        MutationSubject::File { path, .. } => Some(path.duplicate()),
        MutationSubject::Other { .. } => None,
    }
}

fn paths_of_subjects(subjects: &Vec<MutationSubject>) -> (r: Vec<String>)
    ensures
        r.deep_view() == subject_paths(subjects.deep_view()),
{
    let ghost v = subjects.deep_view();
    let mut r: Vec<String> = Vec::new();
    let mut i: usize = 0;
    assert(v.take(0) =~= Seq::empty());
    assert(r.deep_view() =~= Seq::empty());
    while i < subjects.len()
        invariant
            i <= subjects.len(),
            v == subjects.deep_view(),
            r.deep_view() == subject_paths(v.take(i as int)),
        decreases subjects.len() - i,
    {
        proof {
            assert(v.take(i + 1).drop_last() =~= v.take(i as int));
            assert(v.take(i + 1).last() == subjects@[i as int].deep_view());
        }
        if let Some(path) = mutation_file_path(&subjects[i]) {
            let ghost had = r;
            r.push(path);
            proof {
                lemma_push_view(had, path, r);
            }
        }
        i = i + 1;
    }
    assert(v.take(i as int) =~= v);
    r
}

/// Adds the items of a list that another does not hold yet.
pub(crate) fn add_new<T: Value>(have: Vec<T>, items: &Vec<T>) -> (r: Vec<T>)
    ensures
        r.deep_view() == with_new(have.deep_view(), items.deep_view()),
{
    let ghost v = items.deep_view();
    let ghost start = have.deep_view();
    let mut r = have;
    let mut i: usize = 0;
    assert(v.take(0) =~= Seq::empty());
    while i < items.len()
        invariant
            i <= items.len(),
            v == items.deep_view(),
            start == have.deep_view(),
            r.deep_view() == with_new(start, v.take(i as int)),
        decreases items.len() - i,
    {
        proof {
            assert(v.take(i + 1).drop_last() =~= v.take(i as int));
            assert(v.take(i + 1).last() == items@[i as int].deep_view());
        }
        if !holds(&r, &items[i]) {
            let ghost had = r;
            let item = items[i].duplicate();
            r.push(item);
            proof {
                lemma_push_view(had, item, r);
            }
        }
        i = i + 1;
    }
    assert(v.take(i as int) =~= v);
    r
}

/// The paths that an operation is to change, each once.
pub(crate) fn paths_of_effects(files: &Vec<IntentOperationFileSummaryV1>) -> (r: Vec<String>)
    ensures
        r.deep_view() == effect_paths(files.deep_view()),
{
    let ghost all = Seq::new(
        files.deep_view().len(),
        |i: int| files.deep_view()[i].normalized_relative_path,
    );
    let mut list: Vec<String> = Vec::new();
    let mut i: usize = 0;
    while i < files.len()
        invariant
            i <= files.len(),
            all == Seq::new(
                files.deep_view().len(),
                |i: int| files.deep_view()[i].normalized_relative_path,
            ),
            list.deep_view() =~= all.take(i as int),
        decreases files.len() - i,
    {
        let ghost had = list;
        let path = files[i].normalized_relative_path.duplicate();
        assert(all[i as int] == path@);
        list.push(path);
        proof {
            lemma_push_view(had, path, list);
        }
        i = i + 1;
    }
    assert(list.deep_view() =~= all);
    let none: Vec<String> = Vec::new();
    assert(none.deep_view() =~= Seq::empty());
    add_new(none, &list)
}

fn is_text_of(a: &Option<String>, b: &str) -> (r: bool)
    ensures
        r == (a.deep_view() == Some(b@)),
{
    match a {
        Some(x) => same_text(x.as_str(), b),
        None => false,
    }
}

fn validate_batch_start(
    record: &SessionStreamRecord,
    b: &MutationBatchStarted,
    op: &OperationRecord,
    prepared: &PreparedOperation,
    paths: &Vec<String>,
) -> (r: Result<(), KernelError>)
    ensures
        verdict(r) == batch_start_verdict(
            record.deep_view(),
            b.deep_view(),
            op.deep_view(),
            prepared.deep_view(),
            paths.deep_view(),
        ),
{
    let later = match op.prepared_sequence {
        Some(s) => record.stream_sequence > s,
        None => false,
    };
    if !later {
        return reject("Intent operation mutation batch started before operation prepare");
    }
    let own = paths_of_subjects(&b.expected_subjects);
    if !same_text(b.operation_id.as_str(), op.preview.operation_id.as_str()) || !is_text_of(
        &b.prepared_digest,
        prepared.preview_digest.as_str(),
    ) || !is_text_of(&b.approval_identity, prepared.approval_authority_id.as_str()) || !is_text_of(
        &b.policy_fingerprint,
        prepared.permission_policy_digest.as_str(),
    ) || !same_texts(&own, paths) || b.expected_subjects.len() != paths.len() {
        return reject("Intent operation batch start does not match its prepared authority");
    }
    Ok(())
}

fn find_prepare(prepares: &Vec<&SessionStreamRecord>, id: &str) -> (r: Option<usize>)
    ensures
        match r {
            Some(i) => i < prepares.len() && first_where(
                prepares.deep_view(),
                prepares_operation(id@),
            ) == Some(i as int) && prepared_in(prepares@[i as int].deep_view()) is Some,
            None => first_where(prepares.deep_view(), prepares_operation(id@)) is None,
        },
{
    let ghost p = prepares_operation(id@);
    find_first(
        prepares,
        |r: &&SessionStreamRecord| -> (b: bool)
            ensures
                b == p(r.deep_view())
            {
                match prepared_of(*r) {
                    Some(m) => same_text(m.operation_id.as_str(), id),
                    None => false,
                }
            },
        Ghost(p),
    )
}

fn validate_prepares(
    prepares: &Vec<&SessionStreamRecord>,
    started: u64,
    operation_id: &str,
    paths: &Vec<String>,
) -> (r: Result<(), KernelError>)
    requires
        forall|i: int|
            0 <= i < prepares.deep_view().len() ==> prepared_in(
                #[trigger] prepares.deep_view()[i],
            ) is Some,
    ensures
        verdict(r) == first_failure(
            prepare_verdicts(prepares.deep_view(), started, operation_id@, paths.deep_view()),
        ),
{
    let ghost v = prepares.deep_view();
    let ghost all = prepare_verdicts(v, started, operation_id@, paths.deep_view());
    let mut i: usize = 0;
    proof {
        lemma_failures_begin(all);
    }
    while i < prepares.len()
        invariant
            i <= prepares.len(),
            v == prepares.deep_view(),
            forall|i: int| 0 <= i < v.len() ==> prepared_in(#[trigger] v[i]) is Some,
            all == prepare_verdicts(v, started, operation_id@, paths.deep_view()),
            first_failure(all) == first_failure(all.skip(i as int)),
        decreases prepares.len() - i,
    {
        proof {
            lemma_failures_step(all, i as int);
        }
        assert(v[i as int] == prepares@[i as int].deep_view());
        let p = match prepared_of(prepares[i]) {
            Some(p) => p,
            None => {
                assert(false);
                return Ok(());
            },
        };
        let path = match mutation_file_path(&p.subject) {
            None => {
                return reject("Intent operation prepared a non-file mutation");
            },
            Some(path) => path,
        };
        let own = match find_prepare(prepares, p.operation_id.as_str()) {
            Some(k) => k == i,
            None => false,
        };
        if prepares[i].stream_sequence <= started || !is_text_of(&p.tool_call_id, operation_id)
            || !holds(paths, &path) || !own {
            return reject("Intent operation contains invalid per-file prepare evidence");
        }
        i = i + 1;
    }
    proof {
        lemma_failures_end(all);
    }
    Ok(())
}

fn validate_commit(prepares: &Vec<&SessionStreamRecord>, record: &SessionStreamRecord) -> (r: Result<
    (),
    KernelError,
>)
    requires
        committed_in(record.deep_view()) is Some,
    ensures
        verdict(r) == commit_verdict(prepares.deep_view())(record.deep_view()),
{
    let c = match committed_of(record) {
        Some(c) => c,
        None => {
            assert(false);
            return Ok(());
        },
    };
    let k = match find_prepare(prepares, c.operation_id.as_str()) {
        None => {
            return reject("Intent operation commit has no matching prepare");
        },
        Some(k) => k,
    };
    assert(prepares.deep_view()[k as int] == prepares@[k as int].deep_view());
    let path = mutation_file_path(&c.committed_subject);
    let expected = match prepared_of(prepares[k]) {
        Some(p) => mutation_file_path(&p.subject),
        None => {
            assert(false);
            None
        },
    };
    if record.stream_sequence <= prepares[k].stream_sequence || path.is_none() || !path.same(
        &expected,
    ) {
        return reject("Intent operation commit does not match its prepare");
    }
    Ok(())
}

fn applied_as_intended(c: &MutationReconciled) -> (r: bool)
    ensures
        r == was_applied(c.deep_view()),
{
    c.observed_state == MutationObservedState::AppliedAsIntended && c.resolution
        == MutationResolution::MarkCommitted
}

fn in_conflict(c: &MutationReconciled) -> (r: bool)
    ensures
        r == was_conflicted(c.deep_view()),
{
    (c.observed_state == MutationObservedState::AppliedDifferently && c.resolution
        == MutationResolution::MarkConflict) || (c.observed_state == MutationObservedState::Unknown
        && c.resolution == MutationResolution::MarkUnknownDirty)
}

fn validate_reconcile(prepares: &Vec<&SessionStreamRecord>, record: &SessionStreamRecord) -> (r: Result<
    (),
    KernelError,
>)
    requires
        reconciled_in(record.deep_view()) is Some,
    ensures
        verdict(r) == reconcile_verdict(prepares.deep_view())(record.deep_view()),
{
    let c = match reconciled_of(record) {
        Some(c) => c,
        None => {
            assert(false);
            return Ok(());
        },
    };
    let k = match find_prepare(prepares, c.operation_id.as_str()) {
        None => {
            return reject("Intent operation reconciliation has no matching prepare");
        },
        Some(k) => k,
    };
    assert(prepares.deep_view()[k as int] == prepares@[k as int].deep_view());
    if record.stream_sequence <= prepares[k].stream_sequence {
        return reject("Intent operation reconciliation precedes its prepare");
    }
    if !applied_as_intended(c) && !in_conflict(c) && !(c.observed_state
        == MutationObservedState::NotApplied && c.resolution == MutationResolution::MarkNotApplied) {
        return reject("Intent operation reconciliation has an invalid state/resolution pair");
    }
    Ok(())
}

fn validate_commits(prepares: &Vec<&SessionStreamRecord>, commits: &Vec<&SessionStreamRecord>) -> (r:
    Result<(), KernelError>)
    requires
        forall|i: int|
            0 <= i < commits.deep_view().len() ==> committed_in(
                #[trigger] commits.deep_view()[i],
            ) is Some,
    ensures
        verdict(r) == check_each(commits.deep_view(), commit_verdict(prepares.deep_view())),
{
    let ghost v = commits.deep_view();
    let ghost all = v.map_values(commit_verdict(prepares.deep_view()));
    let mut i: usize = 0;
    proof {
        lemma_failures_begin(all);
    }
    while i < commits.len()
        invariant
            i <= commits.len(),
            v == commits.deep_view(),
            forall|i: int| 0 <= i < v.len() ==> committed_in(#[trigger] v[i]) is Some,
            all == v.map_values(commit_verdict(prepares.deep_view())),
            first_failure(all) == first_failure(all.skip(i as int)),
        decreases commits.len() - i,
    {
        proof {
            lemma_failures_step(all, i as int);
        }
        assert(v[i as int] == commits@[i as int].deep_view());
        validate_commit(prepares, commits[i])?;
        i = i + 1;
    }
    proof {
        lemma_failures_end(all);
    }
    Ok(())
}

fn validate_reconciles(prepares: &Vec<&SessionStreamRecord>, reconciles: &Vec<&SessionStreamRecord>) -> (r:
    Result<(), KernelError>)
    requires
        forall|i: int|
            0 <= i < reconciles.deep_view().len() ==> reconciled_in(
                #[trigger] reconciles.deep_view()[i],
            ) is Some,
    ensures
        verdict(r) == check_each(reconciles.deep_view(), reconcile_verdict(prepares.deep_view())),
{
    let ghost v = reconciles.deep_view();
    let ghost all = v.map_values(reconcile_verdict(prepares.deep_view()));
    let mut i: usize = 0;
    proof {
        lemma_failures_begin(all);
    }
    while i < reconciles.len()
        invariant
            i <= reconciles.len(),
            v == reconciles.deep_view(),
            forall|i: int| 0 <= i < v.len() ==> reconciled_in(#[trigger] v[i]) is Some,
            all == v.map_values(reconcile_verdict(prepares.deep_view())),
            first_failure(all) == first_failure(all.skip(i as int)),
        decreases reconciles.len() - i,
    {
        proof {
            lemma_failures_step(all, i as int);
        }
        assert(v[i as int] == reconciles@[i as int].deep_view());
        validate_reconcile(prepares, reconciles[i])?;
        i = i + 1;
    }
    proof {
        lemma_failures_end(all);
    }
    Ok(())
}

fn ids_of_settled(records: &Vec<&SessionStreamRecord>) -> (r: Vec<String>)
    ensures
        r.deep_view() == settled_operations(records.deep_view()),
{
    let ghost all = settled_operations(records.deep_view());
    let mut r: Vec<String> = Vec::new();
    let mut i: usize = 0;
    while i < records.len()
        invariant
            i <= records.len(),
            all == settled_operations(records.deep_view()),
            r.deep_view() =~= all.take(i as int),
        decreases records.len() - i,
    {
        assert(records.deep_view()[i as int] == records@[i as int].deep_view());
        let id = match &records[i].body {
            RecordBody::MutationCommitted(c) => c.operation_id.duplicate(),
            RecordBody::MutationReconciled(c) => c.operation_id.duplicate(),
            _ => {
                let none = String::new();
                assert(none@ =~= Seq::empty());
                none
            },
        };
        let ghost had = r;
        r.push(id);
        proof {
            lemma_push_view(had, id, r);
        }
        i = i + 1;
    }
    assert(r.deep_view() =~= all);
    r
}

fn select_applied<'a>(reconciles: &Vec<&'a SessionStreamRecord>) -> (r: Vec<&'a SessionStreamRecord>)
    ensures
        r.deep_view() == selected(reconciles.deep_view(), tells_applied_mutation()),
{
    let ghost v = reconciles.deep_view();
    let ghost p = tells_applied_mutation();
    let mut r: Vec<&'a SessionStreamRecord> = Vec::new();
    let mut i: usize = 0;
    assert(v.take(0) =~= Seq::empty());
    assert(r.deep_view() =~= Seq::empty());
    while i < reconciles.len()
        invariant
            i <= reconciles.len(),
            v == reconciles.deep_view(),
            p == tells_applied_mutation(),
            r.deep_view() == selected(v.take(i as int), p),
        decreases reconciles.len() - i,
    {
        proof {
            assert(v.take(i + 1).drop_last() =~= v.take(i as int));
            assert(v.take(i + 1).last() == reconciles@[i as int].deep_view());
        }
        let applied = match reconciled_of(reconciles[i]) {
            Some(c) => applied_as_intended(c),
            None => false,
        };
        if applied {
            let ghost had = r.deep_view();
            r.push(reconciles[i]);
            assert(r.deep_view() =~= had.push(reconciles@[i as int].deep_view()));
        }
        i = i + 1;
    }
    assert(v.take(i as int) =~= v);
    r
}

fn find_applied(commits: &Vec<&SessionStreamRecord>, reconciles: &Vec<&SessionStreamRecord>) -> (r: Vec<
    String,
>)
    ensures
        r.deep_view() == applied_operations(commits.deep_view(), reconciles.deep_view()),
{
    let none: Vec<String> = Vec::new();
    assert(none.deep_view() =~= Seq::empty());
    let first = add_new(none, &ids_of_settled(commits));
    let more = select_applied(reconciles);
    let all = add_new(first, &ids_of_settled(&more));
    sorted_texts(&all)
}

spec fn snapshot_view(s: Option<(u64, String)>) -> Option<(u64, Seq<char>)> {
    match s {
        Some(x) => Some((x.0, x.1@)),
        None => None,
    }
}

fn find_latest_snapshot(records: &Vec<&SessionStreamRecord>, found: Option<(u64, String)>) -> (r: Option<
    (u64, String),
>)
    ensures
        snapshot_view(r) == latest_snapshot(records.deep_view(), snapshot_view(found)),
{
    let ghost v = records.deep_view();
    let ghost start = snapshot_view(found);
    let mut best = found;
    let mut i: usize = 0;
    assert(v.take(0) =~= Seq::empty());
    while i < records.len()
        invariant
            i <= records.len(),
            v == records.deep_view(),
            start == snapshot_view(found),
            snapshot_view(best) == latest_snapshot(v.take(i as int), start),
        decreases records.len() - i,
    {
        proof {
            assert(v.take(i + 1).drop_last() =~= v.take(i as int));
            assert(v.take(i + 1).last() == records@[i as int].deep_view());
        }
        let named = match &records[i].body {
            RecordBody::MutationCommitted(c) => Some(c.workspace_snapshot_id.duplicate()),
            RecordBody::MutationReconciled(c) => if applied_as_intended(c) {
                c.workspace_snapshot_id.duplicate()
            } else {
                None
            },
            _ => None,
        };
        if let Some(id) = named {
            let later = match &best {
                None => true,
                Some(b) => records[i].stream_sequence > b.0 || (records[i].stream_sequence == b.0
                    && text_precedes(b.1.as_str(), id.as_str())),
            };
            if later {
                best = Some((records[i].stream_sequence, id));
            }
        }
        i = i + 1;
    }
    assert(v.take(i as int) =~= v);
    best
}

fn find_batch_snapshot(commits: &Vec<&SessionStreamRecord>, reconciles: &Vec<&SessionStreamRecord>) -> (r:
    Option<String>)
    ensures
        r.deep_view() == batch_snapshot(commits.deep_view(), reconciles.deep_view()),
{
    let first = find_latest_snapshot(commits, None);
    match find_latest_snapshot(reconciles, first) {
        Some(s) => Some(s.1),
        None => None,
    }
}

fn validate_batch_end(
    record: &SessionStreamRecord,
    b: &MutationBatchFinished,
    started: u64,
    prepared: &PreparedOperation,
    applied: &Vec<String>,
) -> (r: Result<(), KernelError>)
    ensures
        verdict(r) == batch_end_verdict(
            record.deep_view(),
            b.deep_view(),
            started,
            prepared.deep_view(),
            applied.deep_view(),
        ),
{
    if record.stream_sequence <= started || !is_text_of(
        &b.prepared_digest,
        prepared.preview_digest.as_str(),
    ) || !is_text_of(&b.approval_identity, prepared.approval_authority_id.as_str()) || !is_text_of(
        &b.policy_fingerprint,
        prepared.permission_policy_digest.as_str(),
    ) {
        return reject("Intent operation batch terminal does not match prepared authority");
    }
    let ghost p = member_of(applied.deep_view());
    let claimed = has_all(
        &b.committed_operations,
        |x: &String| -> (o: bool)
            ensures
                o == p(x.deep_view())
            { holds(applied, x) },
        Ghost(p),
    );
    if !claimed {
        return reject("Intent operation batch claims commits without terminal file evidence");
    }
    Ok(())
}

fn settle_batch(
    prepares: usize,
    applied: Vec<String>,
    conflicted: bool,
    snapshot: Option<String>,
    end: Option<&MutationBatchFinished>,
    files: usize,
) -> (r: Result<BatchOutcome, KernelError>)
    ensures
        outcome(r) == batch_result(
            prepares as nat,
            applied.deep_view(),
            conflicted,
            snapshot.deep_view(),
            end.deep_view(),
            files as nat,
        ),
{
    if !conflicted && prepares == files && applied.len() == files {
        match snapshot {
            None => {
                return Err(KernelError::new("applied Intent operation has no result snapshot"));
            },
            Some(id) => match end {
                None => {
                    return Ok(
                        BatchOutcome::FullyAppliedUnfinished {
                            operation_ids: applied,
                            result_snapshot_id: id,
                        },
                    );
                },
                Some(b) => {
                    if b.status == MutationBatchStatus::Applied && b.committed_operations.len()
                        == files && b.failed_operations.len() == 0 {
                        return Ok(
                            BatchOutcome::Applied { operation_ids: applied, result_snapshot_id: id },
                        );
                    }
                    return Ok(
                        if applied.len() == 0 {
                            BatchOutcome::Interrupted { result_snapshot_id: Some(id) }
                        } else {
                            BatchOutcome::Partial { applied, result_snapshot_id: Some(id) }
                        },
                    );
                },
            },
        }
    }
    if conflicted {
        return Ok(BatchOutcome::Conflicted { applied, result_snapshot_id: snapshot });
    }
    if applied.len() == 0 {
        Ok(BatchOutcome::Interrupted { result_snapshot_id: snapshot })
    } else {
        Ok(BatchOutcome::Partial { applied, result_snapshot_id: snapshot })
    }
}

/// Finds what the stream proves of the batch of a prepared operation.
#[verifier::rlimit(60)]
pub(crate) fn find_batch_outcome(
    records: &Vec<SessionStreamRecord>,
    op: &OperationRecord,
    prepared: &PreparedOperation,
) -> (r: Result<BatchOutcome, KernelError>)
    ensures
        outcome(r) == batch_outcome(records.deep_view(), op.deep_view(), prepared.deep_view()),
{
    proof {
        reveal(batch_outcome);
    }
    let id = prepared.mutation_batch_id.as_str();
    let paths = paths_of_effects(&op.preview.file_effects);
    let k = match find_batch_start(records, id) {
        None => {
            return Ok(BatchOutcome::NoBatch);
        },
        Some(k) => k,
    };
    assert(records.deep_view()[k as int] == records@[k as int].deep_view());
    let start = match batch_start_of(&records[k]) {
        Some(b) => b,
        None => {
            assert(false);
            return Ok(BatchOutcome::NoBatch);
        },
    };
    validate_batch_start(&records[k], start, op, prepared, &paths)?;
    let started = records[k].stream_sequence;
    let ghost p1 = prepares_within(id@);
    let ghost p2 = commits_within(id@);
    let ghost p3 = reconciles_within(id@);
    let prepares = select(
        records,
        |r: &SessionStreamRecord| -> (b: bool)
            ensures
                b == p1(r.deep_view())
            {
                match prepared_of(r) {
                    Some(m) => is_within(&m.batch_id, id),
                    None => false,
                }
            },
        Ghost(p1),
    );
    let commits = select(
        records,
        |r: &SessionStreamRecord| -> (b: bool)
            ensures
                b == p2(r.deep_view())
            {
                match committed_of(r) {
                    Some(m) => is_within(&m.batch_id, id),
                    None => false,
                }
            },
        Ghost(p2),
    );
    let reconciles = select(
        records,
        |r: &SessionStreamRecord| -> (b: bool)
            ensures
                b == p3(r.deep_view())
            {
                match reconciled_of(r) {
                    Some(m) => is_within(&m.batch_id, id),
                    None => false,
                }
            },
        Ghost(p3),
    );
    proof {
        lemma_selected(records.deep_view(), p1);
        lemma_selected(records.deep_view(), p2);
        lemma_selected(records.deep_view(), p3);
        assert forall|i: int| 0 <= i < prepares.deep_view().len() implies prepared_in(
            #[trigger] prepares.deep_view()[i],
        ) is Some by {
            assert(p1(selected(records.deep_view(), p1)[i]));
        }
        assert forall|i: int| 0 <= i < commits.deep_view().len() implies committed_in(
            #[trigger] commits.deep_view()[i],
        ) is Some by {
            assert(p2(selected(records.deep_view(), p2)[i]));
        }
        assert forall|i: int| 0 <= i < reconciles.deep_view().len() implies reconciled_in(
            #[trigger] reconciles.deep_view()[i],
        ) is Some by {
            assert(p3(selected(records.deep_view(), p3)[i]));
        }
    }
    validate_prepares(&prepares, started, op.preview.operation_id.as_str(), &paths)?;
    validate_commits(&prepares, &commits)?;
    validate_reconciles(&prepares, &reconciles)?;
    let applied = find_applied(&commits, &reconciles);
    let ghost pc = tells_conflicted_mutation();
    let conflicted = has_any(
        &reconciles,
        |r: &&SessionStreamRecord| -> (b: bool)
            ensures
                b == pc(r.deep_view())
            {
                match reconciled_of(*r) {
                    Some(c) => in_conflict(c),
                    None => false,
                }
            },
        Ghost(pc),
    );
    let snapshot = find_batch_snapshot(&commits, &reconciles);
    let end = match find_batch_end(records, id) {
        None => None,
        Some(e) => {
            assert(records.deep_view()[e as int] == records@[e as int].deep_view());
            match batch_end_of(&records[e]) {
                Some(b) => {
                    validate_batch_end(&records[e], b, started, prepared, &applied)?;
                    Some(b)
                },
                None => {
                    assert(false);
                    None
                },
            }
        },
    };
    settle_batch(prepares.len(), applied, conflicted, snapshot, end, paths.len())
}

// Laws.

/// A batch counts as applied only where every file that the operation is to change was changed under
/// its authority, none is in conflict, and the end of the batch says so.
pub proof fn law_applied_batches_are_complete(
    records: Seq<SessionStreamRecordView>,
    op: OperationRecordView,
    prepared: PreparedOperationView,
    operation_ids: Seq<Seq<char>>,
    result_snapshot_id: Seq<char>,
)
    requires
        batch_outcome(records, op, prepared) == Ok::<BatchOutcomeView, Seq<char>>(
            BatchOutcomeView::Applied { operation_ids, result_snapshot_id },
        ),
    ensures
        operation_ids.len() == effect_paths(op.preview.file_effects).len(),
        !any_where(
            selected(records, reconciles_within(prepared.mutation_batch_id)),
            tells_conflicted_mutation(),
        ),
        batch_end(records, prepared.mutation_batch_id) matches Some(b) && b.status
            == MutationBatchStatus::Applied && b.approval_identity == Some(
            prepared.approval_authority_id,
        ) && b.prepared_digest == Some(prepared.preview_digest),
{
    reveal(batch_outcome);
    lemma_first_where(records, ends_batch(prepared.mutation_batch_id));
}

/// Nothing is applied of a batch that never began.
pub proof fn law_batches_that_never_began_did_nothing(
    records: Seq<SessionStreamRecordView>,
    op: OperationRecordView,
    prepared: PreparedOperationView,
)
    requires
        !any_where(records, starts_batch(prepared.mutation_batch_id)),
    ensures
        batch_outcome(records, op, prepared) == Ok::<BatchOutcomeView, Seq<char>>(
            BatchOutcomeView::NoBatch,
        ),
{
    reveal(batch_outcome);
    let p = starts_batch(prepared.mutation_batch_id);
    lemma_first_where(records, p);
    if let Some(i) = first_where(records, p) {
        assert(p(records[i]));
    }
}

} // verus!
