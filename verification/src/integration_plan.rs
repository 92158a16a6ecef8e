//! Planning of integration: which proposals conflict, which lanes they form, and what the log of a
//! session says of plans, lanes and promotions.

use vstd::prelude::*;

use crate::dag::{lemma_count_bound, lemma_place_one, placed_count};
use crate::integration::{
    path_safe_id_verdict, IntegrationConflictEdge, IntegrationConflictEdgeView,
    IntegrationConflictReason, IntegrationEffect, IntegrationLaneChanged,
    IntegrationLaneChangedView, IntegrationLaneId, IntegrationLaneSpec, IntegrationLaneSpecView,
    IntegrationLaneStatus, IntegrationPlan, IntegrationPlanId, IntegrationPlanRecorded,
    IntegrationPlanRecordedView, IntegrationPlanState, IntegrationPlanStateView,
    IntegrationPlanView, IntegrationProjection, IntegrationProjectionView,
    IntegrationPromotionEffect, IntegrationPromotionRecorded, IntegrationPromotionRecordedView,
    IntegrationPromotionStatus, IntegrationPromotionTarget, IntegrationProposalSpec,
    IntegrationProposalSpecView,
};
use crate::order::{
    lemma_insert_ascending, lemma_insert_ordered, lemma_put_place, put, put_item,
};
use crate::records::{ChangeSet, ChangeSetFile, ChangeSetFileView, ControlEntry, ControlEntryView};
use crate::text::{
    ascending, ascending_texts, blank, byte_len, byte_length, characters, decimal, decimal_text,
    is_blank, joined, lemma_precedes_total, precedes, same_text, split, split_text, text_precedes,
};
use crate::value::{
    all_distinct, distinct, find_key, holds, lemma_find_key, lemma_find_key_is, lemma_push_view,
    lemma_update_view, outcome, position_by_key, KernelError, Keyed, Value,
};

verus! {

impl IntegrationEffect {
    /// The name of the effect.
    pub fn as_str(self) -> (r: &'static str)
        ensures
            r@ == match self {
                IntegrationEffect::Files => "files"@,
                IntegrationEffect::GeneratedArtifacts => "generated_artifacts"@,
                IntegrationEffect::Global => "global"@,
            },
    {
        match self {
            IntegrationEffect::Files => "files",
            IntegrationEffect::GeneratedArtifacts => "generated_artifacts",
            IntegrationEffect::Global => "global",
        }
    }
}

impl Default for IntegrationEffect {
    fn default() -> (r: Self)
        ensures
            r == IntegrationEffect::Files,
    {
        IntegrationEffect::Files
    }
}

impl IntegrationConflictReason {
    /// The name of the reason.
    pub fn as_str(self) -> (r: &'static str)
        ensures
            r@ == match self {
                IntegrationConflictReason::BaseSnapshotMismatch => "base_snapshot_mismatch"@,
                IntegrationConflictReason::ChangedPathOverlap => "changed_path_overlap"@,
                IntegrationConflictReason::TaskDependency => "task_dependency"@,
                IntegrationConflictReason::GeneratedArtifactOverlap => "generated_artifact_overlap"@,
                IntegrationConflictReason::GlobalEffect => "global_effect"@,
            },
    {
        match self {
            IntegrationConflictReason::BaseSnapshotMismatch => "base_snapshot_mismatch",
            IntegrationConflictReason::ChangedPathOverlap => "changed_path_overlap",
            IntegrationConflictReason::TaskDependency => "task_dependency",
            IntegrationConflictReason::GeneratedArtifactOverlap => "generated_artifact_overlap",
            IntegrationConflictReason::GlobalEffect => "global_effect",
        }
    }
}

impl IntegrationLaneStatus {
    /// The name of the status.
    pub fn as_str(self) -> (r: &'static str)
        ensures
            r@ == match self {
                IntegrationLaneStatus::Pending => "pending"@,
                IntegrationLaneStatus::Integrating => "integrating"@,
                IntegrationLaneStatus::Verifying => "verifying"@,
                IntegrationLaneStatus::Ready => "ready"@,
                IntegrationLaneStatus::Conflict => "conflict"@,
                IntegrationLaneStatus::Stale => "stale"@,
                IntegrationLaneStatus::Failed => "failed"@,
                IntegrationLaneStatus::Promoted => "promoted"@,
                IntegrationLaneStatus::Cancelled => "cancelled"@,
            },
    {
        match self {
            IntegrationLaneStatus::Pending => "pending",
            IntegrationLaneStatus::Integrating => "integrating",
            IntegrationLaneStatus::Verifying => "verifying",
            IntegrationLaneStatus::Ready => "ready",
            IntegrationLaneStatus::Conflict => "conflict",
            IntegrationLaneStatus::Stale => "stale",
            IntegrationLaneStatus::Failed => "failed",
            IntegrationLaneStatus::Promoted => "promoted",
            IntegrationLaneStatus::Cancelled => "cancelled",
        }
    }

    /// Tells whether the lane has come to an end: it is none of pending, integrating and verifying.
    pub fn is_terminal(self) -> (r: bool)
        ensures
            r == !(self == IntegrationLaneStatus::Pending || self
                == IntegrationLaneStatus::Integrating || self == IntegrationLaneStatus::Verifying),
    {
        match self {
            IntegrationLaneStatus::Ready
            | IntegrationLaneStatus::Conflict
            | IntegrationLaneStatus::Stale
            | IntegrationLaneStatus::Failed
            | IntegrationLaneStatus::Promoted
            | IntegrationLaneStatus::Cancelled => true,
            _ => false,
        }
    }
}

impl IntegrationPromotionStatus {
    /// The name of the status.
    pub fn as_str(self) -> (r: &'static str)
        ensures
            r@ == match self {
                IntegrationPromotionStatus::Prepared => "prepared"@,
                IntegrationPromotionStatus::Promoted => "promoted"@,
                IntegrationPromotionStatus::Conflict => "conflict"@,
                IntegrationPromotionStatus::Stale => "stale"@,
                IntegrationPromotionStatus::Failed => "failed"@,
                IntegrationPromotionStatus::Cancelled => "cancelled"@,
            },
    {
        match self {
            IntegrationPromotionStatus::Prepared => "prepared",
            IntegrationPromotionStatus::Promoted => "promoted",
            IntegrationPromotionStatus::Conflict => "conflict",
            IntegrationPromotionStatus::Stale => "stale",
            IntegrationPromotionStatus::Failed => "failed",
            IntegrationPromotionStatus::Cancelled => "cancelled",
        }
    }
}

// Paths of proposals.

/// A relative path of normal components: it does not begin with `/` or with the component `.`, and
/// no component is `..`. Empty components, and `.` further on, count for nothing.
pub open spec fn is_normal_path(s: Seq<char>) -> bool {
    &&& s.len() > 0
    &&& s[0] != '/'
    &&& split(s, '/')[0] != "."@
    &&& forall|i: int| 0 <= i < split(s, '/').len() ==> #[trigger] split(s, '/')[i] != ".."@
}

fn normal_path(s: &str) -> (r: bool)
    ensures
        r == is_normal_path(s@),
{
    let v = characters(s);
    if v.len() == 0 || v[0] == '/' {
        return false;
    }
    let parts = split_text(s, '/');
    proof {
        lemma_split_nonempty(s@, '/');
    }
    assert(split(s@, '/')[0] == parts@[0]@);
    if same_text(parts[0].as_str(), ".") {
        return false;
    }
    let mut i: usize = 0;
    while i < parts.len()
        invariant
            i <= parts.len(),
            parts.deep_view() == split(s@, '/'),
            forall|j: int| 0 <= j < i ==> #[trigger] split(s@, '/')[j] != ".."@,
        decreases parts.len() - i,
    {
        assert(split(s@, '/')[i as int] == parts@[i as int]@);
        if same_text(parts[i].as_str(), "..") {
            return false;
        }
        i = i + 1;
    }
    true
}

proof fn lemma_split_nonempty(s: Seq<char>, separator: char)
    ensures
        split(s, separator).len() > 0,
    decreases s.len(),
{
    if s.len() > 0 {
        lemma_split_nonempty(s.drop_last(), separator);
    }
}

/// A text with slashes in place of backslashes.
pub open spec fn slashed(s: Seq<char>) -> Seq<char> {
    s.map_values(
        |c: char|
            if c == '\\' {
                '/'
            } else {
                c
            },
    )
}

/// The path that a proposal keeps of a text, or why it keeps none.
pub open spec fn proposal_path(s: Seq<char>) -> Result<Seq<char>, Seq<char>> {
    if is_blank(s) {
        Err("integration path must not be empty"@)
    } else if !is_normal_path(s) {
        Err("integration path must be a normalized relative path: "@ + s)
    } else if byte_len(slashed(s)) > 4096 {
        Err("integration path exceeds the 4096 byte limit"@)
    } else {
        Ok(slashed(s))
    }
}

fn normalized_relative_path(value: &str) -> (r: Result<String, KernelError>)
    ensures
        outcome(r) == proposal_path(value@),
{
    if blank(value) {
        return Err(KernelError::new("integration path must not be empty"));
    }
    if !normal_path(value) {
        return Err(
            KernelError {
                message: joined("integration path must be a normalized relative path: ", value),
            },
        );
    }
    let v = characters(value);
    let mut text = String::new();
    let mut i: usize = 0;
    while i < v.len()
        invariant
            i <= v.len(),
            v@ == value@,
            text@ =~= slashed(value@).take(i as int),
        decreases v.len() - i,
    {
        if v[i] == '\\' {
            text.push('/');
        } else {
            text.push(v[i]);
        }
        i = i + 1;
    }
    assert(text@ =~= slashed(value@));
    if byte_length(text.as_str()) > 4096 {
        return Err(KernelError::new("integration path exceeds the 4096 byte limit"));
    }
    Ok(text)
}

/// The paths that a proposal keeps of texts: all of them, or the first failure.
pub open spec fn proposal_paths(texts: Seq<Seq<char>>) -> Result<Seq<Seq<char>>, Seq<char>>
    decreases texts.len(),
{
    if texts.len() == 0 {
        Ok(Seq::empty())
    } else {
        match proposal_paths(texts.drop_last()) {
            Err(e) => Err(e),
            Ok(s) => match proposal_path(texts.last()) {
                Ok(p) => Ok(s.push(p)),
                Err(e) => Err(e),
            },
        }
    }
}

/// A failure among the first texts is the failure of all.
proof fn lemma_paths_fail(texts: Seq<Seq<char>>, n: int)
    requires
        0 <= n <= texts.len(),
        proposal_paths(texts.take(n)) is Err,
    ensures
        proposal_paths(texts) == proposal_paths(texts.take(n)),
    decreases texts.len() - n,
{
    if n < texts.len() {
        assert(texts.take(n + 1).drop_last() =~= texts.take(n));
        lemma_paths_fail(texts, n + 1);
    } else {
        assert(texts.take(n) =~= texts);
    }
}

fn normalize_paths(texts: &Vec<String>) -> (r: Result<Vec<String>, KernelError>)
    ensures
        outcome(r) == proposal_paths(texts.deep_view()),
{
    let ghost all = texts.deep_view();
    let mut out: Vec<String> = Vec::new();
    let mut i: usize = 0;
    assert(all.take(0) =~= Seq::empty());
    assert(out.deep_view() =~= Seq::empty());
    while i < texts.len()
        invariant
            i <= texts.len(),
            all == texts.deep_view(),
            proposal_paths(all.take(i as int)) == Ok::<Seq<Seq<char>>, Seq<char>>(
                out.deep_view(),
            ),
        decreases texts.len() - i,
    {
        assert(all.take(i + 1).drop_last() =~= all.take(i as int));
        assert(all.take(i + 1).last() == texts@[i as int]@);
        match normalized_relative_path(texts[i].as_str()) {
            Ok(p) => {
                let ghost before = out;
                out.push(p);
                proof {
                    lemma_push_view(before, p, out);
                }
            },
            Err(e) => {
                proof {
                    lemma_paths_fail(all, i + 1);
                }
                return Err(e);
            },
        }
        i = i + 1;
    }
    assert(all.take(i as int) =~= all);
    Ok(out)
}

/// The paths that the files of a change set mention: of each file its path, and the path it had
/// before where it had another.
pub open spec fn mentioned_paths(files: Seq<ChangeSetFileView>) -> Seq<Seq<char>>
    decreases files.len(),
{
    if files.len() == 0 {
        Seq::empty()
    } else {
        let s = mentioned_paths(files.drop_last()).push(files.last().path);
        match files.last().previous_path {
            Some(p) => s.push(p),
            None => s,
        }
    }
}

fn collect_paths(files: &Vec<ChangeSetFile>) -> (r: Vec<String>)
    ensures
        r.deep_view() == mentioned_paths(files.deep_view()),
{
    let ghost v = files.deep_view();
    let mut out: Vec<String> = Vec::new();
    let mut i: usize = 0;
    assert(v.take(0) =~= Seq::empty());
    assert(out.deep_view() =~= Seq::empty());
    while i < files.len()
        invariant
            i <= files.len(),
            v == files.deep_view(),
            out.deep_view() == mentioned_paths(v.take(i as int)),
        decreases files.len() - i,
    {
        assert(v.take(i + 1).drop_last() =~= v.take(i as int));
        assert(v.take(i + 1).last() == files@[i as int].deep_view());
        let p = files[i].path.duplicate();
        let ghost before = out;
        out.push(p);
        proof {
            lemma_push_view(before, p, out);
        }
        if let Some(q) = &files[i].previous_path {
            let q = q.duplicate();
            let ghost between = out;
            out.push(q);
            proof {
                lemma_push_view(between, q, out);
            }
        }
        i = i + 1;
    }
    assert(v.take(i as int) =~= v);
    out
}

/// `list` holds the members of `items`, each once, in ascending order.
pub open spec fn is_ordered_set_of(list: Seq<Seq<char>>, items: Seq<Seq<char>>) -> bool {
    ascending(list) && list.to_set() == items.to_set()
}

impl IntegrationProposalSpec {
    /// Makes a proposal of a change set: its paths in normal form, its lists in ascending order with
    /// nothing twice. A path that is named twice, in whatever form, is refused.
    pub fn from_changeset(
        change_set: &ChangeSet,
        step_id: String,
        base_snapshot_id: String,
        depends_on: Vec<String>,
        generated_artifacts: Vec<String>,
        effect: IntegrationEffect,
        verification_scope_hash: String,
    ) -> (r: Result<Self, KernelError>)
        ensures
            ({
                let changed = proposal_paths(mentioned_paths(change_set.files.deep_view()));
                let generated = proposal_paths(generated_artifacts.deep_view());
                if is_blank(base_snapshot_id@) {
                    outcome(r) == Err::<IntegrationProposalSpecView, Seq<char>>(
                        "integration proposal base snapshot id must not be empty"@,
                    )
                } else if is_blank(verification_scope_hash@) {
                    outcome(r) == Err::<IntegrationProposalSpecView, Seq<char>>(
                        "integration proposal verification scope hash must not be empty"@,
                    )
                } else if changed is Err {
                    outcome(r) == Err::<IntegrationProposalSpecView, Seq<char>>(changed->Err_0)
                } else if !distinct(changed->Ok_0) {
                    outcome(r) == Err::<IntegrationProposalSpecView, Seq<char>>(
                        "integration proposal "@ + change_set.id@ + " names a changed path twice"@,
                    )
                } else if changed->Ok_0.len() == 0 {
                    outcome(r) == Err::<IntegrationProposalSpecView, Seq<char>>(
                        "integration proposal "@ + change_set.id@ + " has no changed paths"@,
                    )
                } else if generated is Err {
                    outcome(r) == Err::<IntegrationProposalSpecView, Seq<char>>(generated->Err_0)
                } else if !distinct(generated->Ok_0) {
                    outcome(r) == Err::<IntegrationProposalSpecView, Seq<char>>(
                        "integration proposal "@ + change_set.id@
                            + " names a generated artifact twice"@,
                    )
                } else if depends_on.deep_view().contains(change_set.id@) {
                    outcome(r) == Err::<IntegrationProposalSpecView, Seq<char>>(
                        "integration proposal "@ + change_set.id@ + " cannot depend on itself"@,
                    )
                } else {
                    r matches Ok(p) && {
                        let v = p.deep_view();
                        &&& v.change_set_id == change_set.id@
                        &&& v.step_id == step_id@
                        &&& v.base_snapshot_id == base_snapshot_id@
                        &&& is_ordered_set_of(v.changed_paths, changed->Ok_0)
                        &&& is_ordered_set_of(v.depends_on, depends_on.deep_view())
                        &&& is_ordered_set_of(v.generated_artifacts, generated->Ok_0)
                        &&& v.effect == effect
                        &&& v.verification_scope_hash == verification_scope_hash@
                    }
                }
            }),
    {
        if blank(base_snapshot_id.as_str()) {
            return Err(
                KernelError::new("integration proposal base snapshot id must not be empty"),
            );
        }
        if blank(verification_scope_hash.as_str()) {
            return Err(
                KernelError::new("integration proposal verification scope hash must not be empty"),
            );
        }
        let mentioned = collect_paths(&change_set.files);
        let changed = normalize_paths(&mentioned)?;
        if !all_distinct(&changed) {
            let mut message = joined("integration proposal ", change_set.id.as_str());
            message.append(" names a changed path twice");
            return Err(KernelError { message });
        }
        if changed.len() == 0 {
            let mut message = joined("integration proposal ", change_set.id.as_str());
            message.append(" has no changed paths");
            return Err(KernelError { message });
        }
        let generated = normalize_paths(&generated_artifacts)?;
        if !all_distinct(&generated) {
            let mut message = joined("integration proposal ", change_set.id.as_str());
            message.append(" names a generated artifact twice");
            return Err(KernelError { message });
        }
        if holds(&depends_on, &change_set.id) {
            let mut message = joined("integration proposal ", change_set.id.as_str());
            message.append(" cannot depend on itself");
            return Err(KernelError { message });
        }
        Ok(
            IntegrationProposalSpec {
                change_set_id: change_set.id.duplicate(),
                step_id,
                base_snapshot_id,
                changed_paths: ascending_texts(&changed),
                depends_on: ascending_texts(&depends_on),
                generated_artifacts: ascending_texts(&generated),
                effect,
                verification_scope_hash,
            },
        )
    }
}

// Conflicts.

/// Two lists have a member in common.
pub open spec fn overlap(a: Seq<Seq<char>>, b: Seq<Seq<char>>) -> bool {
    exists|i: int| 0 <= i < b.len() && a.contains(#[trigger] b[i])
}

/// Why two proposals conflict, in a fixed order.
pub open spec fn reasons(
    l: IntegrationProposalSpecView,
    r: IntegrationProposalSpecView,
) -> Seq<IntegrationConflictReason> {
    let s = Seq::empty();
    let s = if l.base_snapshot_id != r.base_snapshot_id {
        s.push(IntegrationConflictReason::BaseSnapshotMismatch)
    } else {
        s
    };
    let s = if overlap(l.changed_paths, r.changed_paths) {
        s.push(IntegrationConflictReason::ChangedPathOverlap)
    } else {
        s
    };
    let s = if l.depends_on.contains(r.change_set_id) || r.depends_on.contains(l.change_set_id) {
        s.push(IntegrationConflictReason::TaskDependency)
    } else {
        s
    };
    let s = if overlap(l.generated_artifacts, r.generated_artifacts) {
        s.push(IntegrationConflictReason::GeneratedArtifactOverlap)
    } else {
        s
    };
    if l.effect == IntegrationEffect::Global || r.effect == IntegrationEffect::Global {
        s.push(IntegrationConflictReason::GlobalEffect)
    } else {
        s
    }
}

fn sets_overlap(left: &Vec<String>, right: &Vec<String>) -> (r: bool)
    ensures
        r == overlap(left.deep_view(), right.deep_view()),
{
    let mut i: usize = 0;
    while i < right.len()
        invariant
            i <= right.len(),
            forall|j: int| 0 <= j < i ==> !left.deep_view().contains(#[trigger] right.deep_view()[j]),
        decreases right.len() - i,
    {
        assert(right.deep_view()[i as int] == right@[i as int]@);
        if holds(left, &right[i]) {
            return true;
        }
        i = i + 1;
    }
    false
}

fn conflict_reasons(left: &IntegrationProposalSpec, right: &IntegrationProposalSpec) -> (r: Vec<
    IntegrationConflictReason,
>)
    ensures
        r.deep_view() == reasons(left.deep_view(), right.deep_view()),
        r.len() == reasons(left.deep_view(), right.deep_view()).len(),
{
    let mut found: Vec<IntegrationConflictReason> = Vec::new();
    if left.base_snapshot_id != right.base_snapshot_id {
        found.push(IntegrationConflictReason::BaseSnapshotMismatch);
    }
    if sets_overlap(&left.changed_paths, &right.changed_paths) {
        found.push(IntegrationConflictReason::ChangedPathOverlap);
    }
    if holds(&left.depends_on, &right.change_set_id) || holds(
        &right.depends_on,
        &left.change_set_id,
    ) {
        found.push(IntegrationConflictReason::TaskDependency);
    }
    if sets_overlap(&left.generated_artifacts, &right.generated_artifacts) {
        found.push(IntegrationConflictReason::GeneratedArtifactOverlap);
    }
    if left.effect == IntegrationEffect::Global || right.effect == IntegrationEffect::Global {
        found.push(IntegrationConflictReason::GlobalEffect);
    }
    assert(found@ =~= reasons(left.deep_view(), right.deep_view()));
    assert(found.deep_view() =~= found@);
    found
}

/// The conflicts of the proposal at `i` with those from `i + 1` up to `end`.
pub open spec fn edges_of(o: Seq<IntegrationProposalSpecView>, i: int, end: int) -> Seq<
    IntegrationConflictEdgeView,
>
    decreases end - i,
{
    if end <= i + 1 {
        Seq::empty()
    } else {
        let s = edges_of(o, i, end - 1);
        let found = reasons(o[i], o[end - 1]);
        if found.len() == 0 {
            s
        } else {
            s.push(
                IntegrationConflictEdgeView {
                    left: o[i].change_set_id,
                    right: o[end - 1].change_set_id,
                    reasons: found,
                },
            )
        }
    }
}

/// The conflicts of the first `n` proposals with those behind them.
pub open spec fn edges(o: Seq<IntegrationProposalSpecView>, n: int) -> Seq<
    IntegrationConflictEdgeView,
>
    decreases n,
{
    if n <= 0 {
        Seq::empty()
    } else {
        edges(o, n - 1) + edges_of(o, n - 1, o.len() as int)
    }
}

fn conflict_edges(o: &Vec<IntegrationProposalSpec>) -> (r: Vec<IntegrationConflictEdge>)
    ensures
        r.deep_view() == edges(o.deep_view(), o.len() as int),
{
    let ghost v = o.deep_view();
    let mut out: Vec<IntegrationConflictEdge> = Vec::new();
    let mut i: usize = 0;
    assert(out.deep_view() =~= Seq::empty());
    while i < o.len()
        invariant
            i <= o.len(),
            v == o.deep_view(),
            out.deep_view() == edges(v, i as int),
        decreases o.len() - i,
    {
        let mut j: usize = i + 1;
        assert(edges(v, i as int) + edges_of(v, i as int, j as int) =~= edges(v, i as int));
        while j < o.len()
            invariant
                i < j <= o.len(),
                v == o.deep_view(),
                out.deep_view() == edges(v, i as int) + edges_of(v, i as int, j as int),
            decreases o.len() - j,
        {
            assert(v[i as int] == o@[i as int].deep_view());
            assert(v[j as int] == o@[j as int].deep_view());
            let found = conflict_reasons(&o[i], &o[j]);
            if found.len() > 0 {
                let edge = IntegrationConflictEdge {
                    left: o[i].change_set_id.duplicate(),
                    right: o[j].change_set_id.duplicate(),
                    reasons: found,
                };
                let ghost before = out;
                out.push(edge);
                proof {
                    lemma_push_view(before, edge, out);
                }
                assert(out.deep_view() =~= edges(v, i as int) + edges_of(
                    v,
                    i as int,
                    j + 1,
                ));
            }
            j = j + 1;
        }
        i = i + 1;
    }
    out
}

/// The proposals at `a` and `b` conflict.
pub open spec fn linked(o: Seq<IntegrationProposalSpecView>, a: int, b: int) -> bool {
    if a < b {
        reasons(o[a], o[b]).len() > 0
    } else if b < a {
        reasons(o[b], o[a]).len() > 0
    } else {
        false
    }
}

fn are_linked(o: &Vec<IntegrationProposalSpec>, a: usize, b: usize) -> (r: bool)
    requires
        a < o.len(),
        b < o.len(),
    ensures
        r == linked(o.deep_view(), a as int, b as int),
{
    assert(o.deep_view()[a as int] == o@[a as int].deep_view());
    assert(o.deep_view()[b as int] == o@[b as int].deep_view());
    if a < b {
        conflict_reasons(&o[a], &o[b]).len() > 0
    } else if b < a {
        conflict_reasons(&o[b], &o[a]).len() > 0
    } else {
        false
    }
}

/// A chain of `k` conflicts leads from the proposal at `a` to that at `b`.
pub open spec fn reach(o: Seq<IntegrationProposalSpecView>, a: int, b: int, k: nat) -> bool
    decreases k,
{
    if k == 0 {
        a == b
    } else {
        exists|c: int|
            0 <= c < o.len() && reach(o, a, c, (k - 1) as nat) && #[trigger] linked(o, c, b)
    }
}

/// A chain of conflicts leads from the proposal at `a` to that at `b`.
pub open spec fn connected(o: Seq<IntegrationProposalSpecView>, a: int, b: int) -> bool {
    exists|k: nat| #[trigger] reach(o, a, b, k)
}

/// Two chains make one.
pub proof fn lemma_reach_transitive(
    o: Seq<IntegrationProposalSpecView>,
    a: int,
    b: int,
    c: int,
    k: nat,
    m: nat,
)
    requires
        reach(o, a, b, k),
        reach(o, b, c, m),
    ensures
        reach(o, a, c, k + m),
    decreases m,
{
    if m > 0 {
        let d = choose|d: int|
            0 <= d < o.len() && reach(o, b, d, (m - 1) as nat) && #[trigger] linked(o, d, c);
        lemma_reach_transitive(o, a, b, d, k, (m - 1) as nat);
        assert(reach(o, a, d, (k + m - 1) as nat));
    }
}

/// A chain can be walked backwards.
pub proof fn lemma_reach_symmetric(
    o: Seq<IntegrationProposalSpecView>,
    a: int,
    b: int,
    k: nat,
)
    requires
        0 <= a < o.len(),
        0 <= b < o.len(),
        reach(o, a, b, k),
    ensures
        reach(o, b, a, k),
    decreases k,
{
    if k > 0 {
        let c = choose|c: int|
            0 <= c < o.len() && reach(o, a, c, (k - 1) as nat) && #[trigger] linked(o, c, b);
        lemma_reach_symmetric(o, a, c, (k - 1) as nat);
        assert(reach(o, b, b, 0));
        assert(linked(o, b, c));
        assert(reach(o, b, c, 1));
        lemma_reach_transitive(o, b, c, a, 1, (k - 1) as nat);
    }
}

/// The relation is transitive.
pub proof fn lemma_connected_transitive(
    o: Seq<IntegrationProposalSpecView>,
    a: int,
    b: int,
    c: int,
)
    requires
        connected(o, a, b),
        connected(o, b, c),
    ensures
        connected(o, a, c),
{
    let k = choose|k: nat| #[trigger] reach(o, a, b, k);
    let m = choose|m: nat| #[trigger] reach(o, b, c, m);
    lemma_reach_transitive(o, a, b, c, k, m);
}

/// What holds every neighbour of its members holds everything a chain leads to.
proof fn lemma_closed_holds_reached(
    o: Seq<IntegrationProposalSpecView>,
    seen: Seq<bool>,
    a: int,
    b: int,
    k: nat,
)
    requires
        seen.len() == o.len(),
        0 <= a < o.len(),
        0 <= b < o.len(),
        seen[a],
        forall|c: int, d: int|
            0 <= c < o.len() && 0 <= d < o.len() && seen[c] && #[trigger] linked(o, c, d)
                ==> seen[d],
        reach(o, a, b, k),
    ensures
        seen[b],
    decreases k,
{
    if k > 0 {
        let c = choose|c: int|
            0 <= c < o.len() && reach(o, a, c, (k - 1) as nat) && #[trigger] linked(o, c, b);
        lemma_closed_holds_reached(o, seen, a, c, (k - 1) as nat);
    }
}

/// Marks every proposal that a chain of conflicts leads to from the proposal at `start`.
fn component_flags(o: &Vec<IntegrationProposalSpec>, start: usize) -> (seen: Vec<bool>)
    requires
        start < o.len(),
    ensures
        seen.len() == o.len(),
        forall|i: int|
            0 <= i < o.len() ==> #[trigger] seen@[i] == connected(o.deep_view(), start as int, i),
{
    let ghost v = o.deep_view();
    let mut seen: Vec<bool> = Vec::new();
    while seen.len() < o.len()
        invariant
            seen.len() <= o.len(),
            forall|i: int| 0 <= i < seen.len() ==> !#[trigger] seen@[i],
        decreases o.len() - seen.len(),
    {
        seen.push(false);
    }
    seen.set(start, true);
    assert(reach(v, start as int, start as int, 0));
    let mut changed = true;
    proof {
        lemma_count_bound(seen@);
    }
    while changed
        invariant
            start < o.len(),
            v == o.deep_view(),
            seen.len() == o.len(),
            seen@[start as int],
            placed_count(seen@) <= o.len(),
            forall|i: int|
                0 <= i < o.len() && #[trigger] seen@[i] ==> connected(v, start as int, i),
            !changed ==> forall|c: int, d: int|
                0 <= c < o.len() && 0 <= d < o.len() && seen@[c] && #[trigger] linked(v, c, d)
                    ==> seen@[d],
        decreases
            o.len() - placed_count(seen@),
            if changed {
                1int
            } else {
                0int
            },
    {
        let ghost before = seen@;
        changed = false;
        let mut c: usize = 0;
        while c < o.len()
            invariant
                c <= o.len(),
                start < o.len(),
                v == o.deep_view(),
                seen.len() == o.len(),
                seen@[start as int],
                forall|i: int|
                    0 <= i < o.len() && #[trigger] seen@[i] ==> connected(v, start as int, i),
                changed ==> placed_count(seen@) > placed_count(before),
                !changed ==> seen@ == before,
                !changed ==> forall|p: int, q: int|
                    0 <= p < c && 0 <= q < o.len() && seen@[p] && #[trigger] linked(v, p, q)
                        ==> seen@[q],
            decreases o.len() - c,
        {
            let mut d: usize = 0;
            while d < o.len()
                invariant
                    c < o.len(),
                    d <= o.len(),
                    start < o.len(),
                    v == o.deep_view(),
                    seen.len() == o.len(),
                    seen@[start as int],
                    forall|i: int|
                        0 <= i < o.len() && #[trigger] seen@[i] ==> connected(v, start as int, i),
                    changed ==> placed_count(seen@) > placed_count(before),
                    !changed ==> seen@ == before,
                    !changed ==> forall|p: int, q: int|
                        0 <= p < c && 0 <= q < o.len() && seen@[p] && #[trigger] linked(v, p, q)
                            ==> seen@[q],
                    !changed && seen@[c as int] ==> forall|q: int|
                        0 <= q < d && #[trigger] linked(v, c as int, q) ==> seen@[q],
                decreases o.len() - d,
            {
                if seen[c] && !seen[d] && are_linked(o, c, d) {
                    proof {
                        lemma_place_one(seen@, d as int);
                        let k = choose|k: nat| #[trigger] reach(v, start as int, c as int, k);
                        assert(reach(v, start as int, d as int, k + 1));
                    }
                    seen.set(d, true);
                    changed = true;
                }
                d = d + 1;
            }
            c = c + 1;
        }
        proof {
            lemma_count_bound(seen@);
        }
    }
    proof {
        assert forall|i: int| 0 <= i < o.len() implies #[trigger] seen@[i] == connected(
            v,
            start as int,
            i,
        ) by {
            if connected(v, start as int, i) {
                let k = choose|k: nat| #[trigger] reach(v, start as int, i, k);
                lemma_closed_holds_reached(v, seen@, start as int, i, k);
            }
        }
    }
    seen
}

/// The places among the first `n` that a chain of conflicts leads to from `h`, in order.
pub open spec fn component(o: Seq<IntegrationProposalSpecView>, h: int, n: int) -> Seq<int>
    decreases n,
{
    if n <= 0 {
        Seq::empty()
    } else if connected(o, h, n - 1) {
        component(o, h, n - 1).push(n - 1)
    } else {
        component(o, h, n - 1)
    }
}

/// No chain of conflicts leads to `h` from a place before it: `h` begins a lane.
pub open spec fn is_head(o: Seq<IntegrationProposalSpecView>, h: int) -> bool {
    forall|b: int| 0 <= b < h ==> !#[trigger] connected(o, b, h)
}

/// The places among the first `n` that begin lanes, in order.
pub open spec fn heads(o: Seq<IntegrationProposalSpecView>, n: int) -> Seq<int>
    decreases n,
{
    if n <= 0 {
        Seq::empty()
    } else if is_head(o, n - 1) {
        heads(o, n - 1).push(n - 1)
    } else {
        heads(o, n - 1)
    }
}

// The order inside a lane.

/// The identities of the proposals at some places.
pub open spec fn ids_at(o: Seq<IntegrationProposalSpecView>, places: Seq<int>) -> Seq<Seq<char>> {
    places.map_values(|i: int| o[i].change_set_id)
}

/// Whatever the proposal at `c` depends on inside `lane` is among those that are done.
pub open spec fn is_ready(
    o: Seq<IntegrationProposalSpecView>,
    lane: Seq<int>,
    done: Seq<int>,
    c: int,
) -> bool {
    forall|k: int|
        0 <= k < o[c].depends_on.len() && ids_at(o, lane).contains(#[trigger] o[c].depends_on[k])
            ==> ids_at(o, done).contains(o[c].depends_on[k])
}

/// The first place of `lane`, from its position `p` on, that is not done and, where `wait` is set, is
/// ready.
pub open spec fn first_open(
    o: Seq<IntegrationProposalSpecView>,
    lane: Seq<int>,
    done: Seq<int>,
    wait: bool,
    p: int,
) -> Option<int>
    decreases lane.len() - p,
{
    if p >= lane.len() {
        None
    } else if !done.contains(lane[p]) && (!wait || is_ready(o, lane, done, lane[p])) {
        Some(lane[p])
    } else {
        first_open(o, lane, done, wait, p + 1)
    }
}

/// The place that comes next: the first that is ready or, where a cycle blocks all, the first.
pub open spec fn next_place(
    o: Seq<IntegrationProposalSpecView>,
    lane: Seq<int>,
    done: Seq<int>,
) -> Option<int> {
    match first_open(o, lane, done, true, 0) {
        Some(c) => Some(c),
        None => first_open(o, lane, done, false, 0),
    }
}

/// The places of a lane in the order in which they are integrated.
pub open spec fn lane_order(
    o: Seq<IntegrationProposalSpecView>,
    lane: Seq<int>,
    done: Seq<int>,
    steps: nat,
) -> Seq<int>
    decreases steps,
{
    if steps == 0 {
        done
    } else {
        match next_place(o, lane, done) {
            Some(c) => lane_order(o, lane, done.push(c), (steps - 1) as nat),
            None => done,
        }
    }
}

/// Places as mathematical integers.
pub open spec fn places(s: Seq<usize>) -> Seq<int> {
    s.map_values(|i: usize| i as int)
}

proof fn lemma_places_push(s: Seq<usize>, i: usize)
    ensures
        places(s.push(i)) == places(s).push(i as int),
{
    assert(places(s.push(i)) =~= places(s).push(i as int));
}

fn place_done(done: &Vec<usize>, c: usize) -> (r: bool)
    ensures
        r == places(done@).contains(c as int),
{
    let mut i: usize = 0;
    while i < done.len()
        invariant
            i <= done.len(),
            forall|j: int| 0 <= j < i ==> places(done@)[j] != c as int,
        decreases done.len() - i,
    {
        if done[i] == c {
            assert(places(done@)[i as int] == c as int);
            return true;
        }
        i = i + 1;
    }
    false
}

fn id_among(o: &Vec<IntegrationProposalSpec>, list: &Vec<usize>, id: &String) -> (r: bool)
    requires
        forall|i: int| 0 <= i < list.len() ==> (#[trigger] list@[i]) < o.len(),
    ensures
        r == ids_at(o.deep_view(), places(list@)).contains(id@),
{
    let ghost ids = ids_at(o.deep_view(), places(list@));
    let mut i: usize = 0;
    while i < list.len()
        invariant
            i <= list.len(),
            forall|i: int| 0 <= i < list.len() ==> (#[trigger] list@[i]) < o.len(),
            ids == ids_at(o.deep_view(), places(list@)),
            forall|j: int| 0 <= j < i ==> ids[j] != id@,
        decreases list.len() - i,
    {
        assert(list@[i as int] < o.len());
        assert(ids[i as int] == o@[list@[i as int] as int].change_set_id@);
        if o[list[i]].change_set_id == *id {
            return true;
        }
        i = i + 1;
    }
    false
}

fn ready(o: &Vec<IntegrationProposalSpec>, lane: &Vec<usize>, done: &Vec<usize>, c: usize) -> (r:
    bool)
    requires
        c < o.len(),
        forall|i: int| 0 <= i < lane.len() ==> (#[trigger] lane@[i]) < o.len(),
        forall|i: int| 0 <= i < done.len() ==> (#[trigger] done@[i]) < o.len(),
    ensures
        r == is_ready(o.deep_view(), places(lane@), places(done@), c as int),
{
    let ghost v = o.deep_view();
    assert(v[c as int] == o@[c as int].deep_view());
    let own = &o[c].depends_on;
    let mut k: usize = 0;
    while k < own.len()
        invariant
            k <= own.len(),
            v == o.deep_view(),
            v[c as int].depends_on == own.deep_view(),
            forall|i: int| 0 <= i < lane.len() ==> (#[trigger] lane@[i]) < o.len(),
            forall|i: int| 0 <= i < done.len() ==> (#[trigger] done@[i]) < o.len(),
            forall|j: int|
                0 <= j < k && ids_at(v, places(lane@)).contains(
                    #[trigger] v[c as int].depends_on[j],
                ) ==> ids_at(v, places(done@)).contains(v[c as int].depends_on[j]),
        decreases own.len() - k,
    {
        assert(v[c as int].depends_on[k as int] == own@[k as int]@);
        if id_among(o, lane, &own[k]) && !id_among(o, done, &own[k]) {
            return false;
        }
        k = k + 1;
    }
    true
}

fn find_open(
    o: &Vec<IntegrationProposalSpec>,
    lane: &Vec<usize>,
    done: &Vec<usize>,
    wait: bool,
) -> (r: Option<usize>)
    requires
        forall|i: int| 0 <= i < lane.len() ==> (#[trigger] lane@[i]) < o.len(),
        forall|i: int| 0 <= i < done.len() ==> (#[trigger] done@[i]) < o.len(),
    ensures
        match r {
            Some(c) => c < o.len() && first_open(
                o.deep_view(),
                places(lane@),
                places(done@),
                wait,
                0,
            ) == Some(c as int),
            None => first_open(o.deep_view(), places(lane@), places(done@), wait, 0) is None,
        },
{
    let ghost v = o.deep_view();
    let mut p: usize = 0;
    while p < lane.len()
        invariant
            p <= lane.len(),
            v == o.deep_view(),
            forall|i: int| 0 <= i < lane.len() ==> (#[trigger] lane@[i]) < o.len(),
            forall|i: int| 0 <= i < done.len() ==> (#[trigger] done@[i]) < o.len(),
            first_open(v, places(lane@), places(done@), wait, 0) == first_open(
                v,
                places(lane@),
                places(done@),
                wait,
                p as int,
            ),
        decreases lane.len() - p,
    {
        assert(lane@[p as int] < o.len());
        assert(places(lane@)[p as int] == lane@[p as int] as int);
        if !place_done(done, lane[p]) && (!wait || ready(o, lane, done, lane[p])) {
            return Some(lane[p]);
        }
        p = p + 1;
    }
    None
}

fn dependency_stable_order(o: &Vec<IntegrationProposalSpec>, lane: &Vec<usize>) -> (done: Vec<
    usize,
>)
    requires
        forall|i: int| 0 <= i < lane.len() ==> (#[trigger] lane@[i]) < o.len(),
    ensures
        places(done@) == lane_order(
            o.deep_view(),
            places(lane@),
            Seq::empty(),
            lane.len() as nat,
        ),
        forall|i: int| 0 <= i < done.len() ==> (#[trigger] done@[i]) < o.len(),
{
    let ghost v = o.deep_view();
    let ghost l = places(lane@);
    let ghost whole = lane_order(v, l, Seq::empty(), lane.len() as nat);
    let mut done: Vec<usize> = Vec::new();
    let mut steps: usize = lane.len();
    assert(places(done@) =~= Seq::empty());
    while steps > 0
        invariant
            v == o.deep_view(),
            l == places(lane@),
            whole == lane_order(v, l, places(done@), steps as nat),
            forall|i: int| 0 <= i < lane.len() ==> (#[trigger] lane@[i]) < o.len(),
            forall|i: int| 0 <= i < done.len() ==> (#[trigger] done@[i]) < o.len(),
        ensures
            whole == places(done@),
            forall|i: int| 0 <= i < done.len() ==> (#[trigger] done@[i]) < o.len(),
        decreases steps,
    {
        let next = match find_open(o, lane, &done, true) {
            Some(c) => Some(c),
            None => find_open(o, lane, &done, false),
        };
        match next {
            Some(c) => {
                proof {
                    lemma_places_push(done@, c);
                }
                done.push(c);
            },
            None => {
                break ;
            },
        }
        steps = steps - 1;
    }
    done
}

// Lanes.

/// The lane that begins at `h`, as the lane number `k`: the proposals that chains of conflicts
/// connect with `h`, in the order in which they are integrated.
pub open spec fn is_lane(
    o: Seq<IntegrationProposalSpecView>,
    h: int,
    k: int,
    lane: IntegrationLaneSpecView,
) -> bool {
    let members = component(o, h, o.len() as int);
    let order = lane_order(o, members, Seq::empty(), members.len());
    &&& lane.lane_id == "lane-"@ + decimal((k + 1) as nat)
    &&& lane.proposals == ids_at(o, order)
    &&& is_ordered_set_of(
        lane.verification_scope_hashes,
        order.map_values(|i: int| o[i].verification_scope_hash),
    )
}

/// The lanes of ordered proposals: one for each place that begins one.
pub open spec fn are_lanes(
    o: Seq<IntegrationProposalSpecView>,
    n: int,
    lanes: Seq<IntegrationLaneSpecView>,
) -> bool {
    &&& lanes.len() == heads(o, n).len()
    &&& forall|k: int| 0 <= k < lanes.len() ==> is_lane(o, heads(o, n)[k], k, #[trigger] lanes[k])
}

/// The identities of proposals.
pub open spec fn change_set_ids(o: Seq<IntegrationProposalSpecView>) -> Seq<Seq<char>> {
    o.map_values(|p: IntegrationProposalSpecView| p.change_set_id)
}

fn component_places(o: &Vec<IntegrationProposalSpec>, seen: &Vec<bool>, h: usize) -> (r: Vec<usize>)
    requires
        h < o.len(),
        seen.len() == o.len(),
        forall|i: int|
            0 <= i < o.len() ==> #[trigger] seen@[i] == connected(o.deep_view(), h as int, i),
    ensures
        places(r@) == component(o.deep_view(), h as int, o.len() as int),
        forall|i: int| 0 <= i < r.len() ==> (#[trigger] r@[i]) < o.len(),
{
    let ghost v = o.deep_view();
    let mut r: Vec<usize> = Vec::new();
    let mut i: usize = 0;
    assert(places(r@) =~= Seq::empty());
    while i < o.len()
        invariant
            i <= o.len(),
            v == o.deep_view(),
            seen.len() == o.len(),
            forall|i: int| 0 <= i < o.len() ==> #[trigger] seen@[i] == connected(v, h as int, i),
            places(r@) == component(v, h as int, i as int),
            forall|j: int| 0 <= j < r.len() ==> (#[trigger] r@[j]) < o.len(),
        decreases o.len() - i,
    {
        assert(seen@[i as int] == connected(v, h as int, i as int));
        if seen[i] {
            proof {
                lemma_places_push(r@, i);
            }
            r.push(i);
        }
        i = i + 1;
    }
    r
}

fn ids_and_hashes(o: &Vec<IntegrationProposalSpec>, order: &Vec<usize>) -> (r: (
    Vec<String>,
    Vec<String>,
))
    requires
        forall|i: int| 0 <= i < order.len() ==> (#[trigger] order@[i]) < o.len(),
    ensures
        r.0.deep_view() == ids_at(o.deep_view(), places(order@)),
        r.1.deep_view() == places(order@).map_values(
            |i: int| o.deep_view()[i].verification_scope_hash,
        ),
{
    let ghost v = o.deep_view();
    let ghost all_ids = ids_at(v, places(order@));
    let ghost all_hashes = places(order@).map_values(|i: int| v[i].verification_scope_hash);
    let mut ids: Vec<String> = Vec::new();
    let mut hashes: Vec<String> = Vec::new();
    let mut i: usize = 0;
    while i < order.len()
        invariant
            i <= order.len(),
            v == o.deep_view(),
            all_ids == ids_at(v, places(order@)),
            all_hashes == places(order@).map_values(|i: int| v[i].verification_scope_hash),
            forall|i: int| 0 <= i < order.len() ==> (#[trigger] order@[i]) < o.len(),
            ids.deep_view() =~= all_ids.take(i as int),
            hashes.deep_view() =~= all_hashes.take(i as int),
        decreases order.len() - i,
    {
        assert(order@[i as int] < o.len());
        assert(v[order@[i as int] as int] == o@[order@[i as int] as int].deep_view());
        let a = o[order[i]].change_set_id.duplicate();
        let b = o[order[i]].verification_scope_hash.duplicate();
        let ghost before = ids;
        let ghost before_hashes = hashes;
        ids.push(a);
        hashes.push(b);
        proof {
            lemma_push_view(before, a, ids);
            lemma_push_view(before_hashes, b, hashes);
        }
        i = i + 1;
    }
    assert(ids.deep_view() =~= all_ids);
    assert(hashes.deep_view() =~= all_hashes);
    (ids, hashes)
}

/// The name of a lane is one that a lane can have.
proof fn lemma_lane_name(k: nat)
    requires
        k <= u64::MAX,
    ensures
        path_safe_id_verdict("integration lane id"@, "lane-"@ + decimal(k)) is Ok,
{
    let name = "lane-"@ + decimal(k);
    reveal_strlit("lane-");
    reveal_strlit(".");
    reveal_strlit("..");
    crate::text::lemma_decimal_digits(k);
    assert(name[0] == 'l');
    assert(crate::text::ten_to(20) == 100000000000000000000) by {
        reveal_with_fuel(crate::text::ten_to, 21);
    }
    crate::text::lemma_decimal_length(k, 20);
    assert(name.len() <= 25);
    assert forall|i: int| 0 <= i < name.len() implies #[trigger] crate::text::in_class(
        crate::text::CharClass::DottedName,
        name[i],
    ) by {
        if i >= 5 {
            assert(name[i] == decimal(k)[i - 5]);
        }
    }
    crate::text::lemma_ascii_byte_len(name);
}

fn build_lane(o: &Vec<IntegrationProposalSpec>, seen: &Vec<bool>, h: usize, k: usize) -> (lane:
    IntegrationLaneSpec)
    requires
        h < o.len(),
        k < o.len(),
        seen.len() == o.len(),
        forall|i: int|
            0 <= i < o.len() ==> #[trigger] seen@[i] == connected(o.deep_view(), h as int, i),
    ensures
        is_lane(o.deep_view(), h as int, k as int, lane.deep_view()),
{
    let members = component_places(o, seen, h);
    let order = dependency_stable_order(o, &members);
    let (proposals, hashes) = ids_and_hashes(o, &order);
    let number = decimal_text(k as u64 + 1);
    let name = joined("lane-", number.as_str());
    proof {
        lemma_lane_name((k + 1) as nat);
    }
    let lane_id = match IntegrationLaneId::new(name) {
        Ok(id) => id,
        Err(_) => {
            assert(false);
            vstd::pervasive::unreached()
        },
    };
    assert(places(members@).len() == members.len());
    IntegrationLaneSpec {
        lane_id,
        proposals,
        verification_scope_hashes: ascending_texts(&hashes),
    }
}

proof fn lemma_heads_bound(o: Seq<IntegrationProposalSpecView>, n: int)
    requires
        0 <= n,
    ensures
        heads(o, n).len() <= n,
    decreases n,
{
    if n > 0 {
        lemma_heads_bound(o, n - 1);
    }
}

fn build_lanes(o: &Vec<IntegrationProposalSpec>) -> (lanes: Vec<IntegrationLaneSpec>)
    ensures
        are_lanes(o.deep_view(), o.len() as int, lanes.deep_view()),
{
    let ghost v = o.deep_view();
    let mut lanes: Vec<IntegrationLaneSpec> = Vec::new();
    let mut visited: Vec<bool> = Vec::new();
    while visited.len() < o.len()
        invariant
            visited.len() <= o.len(),
            forall|i: int| 0 <= i < visited.len() ==> !#[trigger] visited@[i],
        decreases o.len() - visited.len(),
    {
        visited.push(false);
    }
    let mut h: usize = 0;
    while h < o.len()
        invariant
            h <= o.len(),
            v == o.deep_view(),
            visited.len() == o.len(),
            forall|i: int|
                0 <= i < o.len() ==> #[trigger] visited@[i] == (exists|b: int|
                    0 <= b < h && #[trigger] connected(v, b, i)),
            are_lanes(v, h as int, lanes.deep_view()),
        decreases o.len() - h,
    {
        let ghost done = visited@;
        let ghost before = lanes;
        assert(visited@[h as int] == (exists|b: int|
            0 <= b < h && #[trigger] connected(v, b, h as int)));
        if visited[h] {
            assert(!is_head(v, h as int));
            let ghost g = choose|b: int| 0 <= b < h && #[trigger] connected(v, b, h as int);
            assert forall|i: int| 0 <= i < o.len() implies #[trigger] visited@[i] == (exists|b: int|
                0 <= b < h + 1 && #[trigger] connected(v, b, i)) by {
                assert(done[i] == (exists|b: int| 0 <= b < h && #[trigger] connected(v, b, i)));
                if connected(v, h as int, i) {
                    lemma_connected_transitive(v, g, h as int, i);
                }
            }
        } else {
            assert(is_head(v, h as int));
            proof {
                lemma_heads_bound(v, h as int);
            }
            let seen = component_flags(o, h);
            let lane = build_lane(o, &seen, h, lanes.len());
            lanes.push(lane);
            proof {
                lemma_push_view(before, lane, lanes);
                let all = heads(v, h + 1);
                assert(all == heads(v, h as int).push(h as int));
                assert forall|k: int| 0 <= k < lanes.deep_view().len() implies is_lane(
                    v,
                    all[k],
                    k,
                    #[trigger] lanes.deep_view()[k],
                ) by {
                    if k < before.deep_view().len() {
                        assert(lanes.deep_view()[k] == before.deep_view()[k]);
                    }
                }
            }
            let mut i: usize = 0;
            while i < o.len()
                invariant
                    i <= o.len(),
                    h < o.len(),
                    v == o.deep_view(),
                    visited.len() == o.len(),
                    seen.len() == o.len(),
                    done.len() == o.len(),
                    forall|j: int|
                        0 <= j < o.len() ==> #[trigger] seen@[j] == connected(v, h as int, j),
                    forall|j: int| 0 <= j < i ==> #[trigger] visited@[j] == (done[j] || seen@[j]),
                    forall|j: int| i <= j < o.len() ==> #[trigger] visited@[j] == done[j],
                decreases o.len() - i,
            {
                if seen[i] {
                    visited.set(i, true);
                }
                i = i + 1;
            }
            assert forall|i: int| 0 <= i < o.len() implies #[trigger] visited@[i] == (exists|b: int|
                0 <= b < h + 1 && #[trigger] connected(v, b, i)) by {
                assert(done[i] == (exists|b: int| 0 <= b < h && #[trigger] connected(v, b, i)));
                assert(seen@[i] == connected(v, h as int, i));
            }
        }
        h = h + 1;
    }
    lanes
}

/// Puts proposals in ascending order of their identities.
fn sort_proposals(proposals: Vec<IntegrationProposalSpec>) -> (r: Vec<IntegrationProposalSpec>)
    requires
        distinct(change_set_ids(proposals.deep_view())),
    ensures
        ascending(change_set_ids(r.deep_view())),
        r.deep_view().to_multiset() == proposals.deep_view().to_multiset(),
        r.len() == proposals.len(),
{
    let ghost all = proposals.deep_view();
    let mut r: Vec<IntegrationProposalSpec> = Vec::new();
    let mut i: usize = 0;
    assert(all.take(0) =~= Seq::empty());
    assert(r.deep_view() =~= Seq::empty());
    while i < proposals.len()
        invariant
            i <= proposals.len(),
            all == proposals.deep_view(),
            distinct(change_set_ids(all)),
            r.len() == i,
            ascending(change_set_ids(r.deep_view())),
            r.deep_view().to_multiset() == all.take(i as int).to_multiset(),
        decreases proposals.len() - i,
    {
        let item = proposals[i].duplicate();
        let ghost before = r.deep_view();
        let ghost ids = change_set_ids(before);
        let ghost id = item.deep_view().change_set_id;
        assert(all[i as int] == item.deep_view());
        proof {
            broadcast use vstd::seq_lib::group_to_multiset_ensures;

            assert forall|j: int| 0 <= j < before.len() implies #[trigger] ids[j] != id by {
                assert(before.contains(before[j]));
                assert(before.to_multiset().count(before[j]) > 0);
                assert(all.take(i as int).contains(before[j]));
                let p = choose|p: int|
                    0 <= p < all.take(i as int).len() && all.take(i as int)[p] == before[j];
                assert(change_set_ids(all)[p] == ids[j]);
                assert(change_set_ids(all)[i as int] == id);
            }
        }
        let mut at: usize = 0;
        while at < r.len() && text_precedes(
            r[at].change_set_id.as_str(),
            item.change_set_id.as_str(),
        )
            invariant
                at <= r.len(),
                r.deep_view() == before,
                ids == change_set_ids(before),
                id == item.deep_view().change_set_id,
                forall|j: int| 0 <= j < at ==> precedes(#[trigger] ids[j], id),
            decreases r.len() - at,
        {
            assert(ids[at as int] == r@[at as int].change_set_id@);
            at = at + 1;
        }
        proof {
            if at < r.len() {
                assert(ids[at as int] == r@[at as int].change_set_id@);
                lemma_precedes_total(ids[at as int], id);
            }
        }
        let ghost view = item.deep_view();
        r.insert(at, item);
        let ghost after = r.deep_view();
        assert(after =~= before.insert(at as int, view));
        let ghost new_ids = change_set_ids(after);
        assert(new_ids =~= ids.insert(at as int, id));
        proof {
            lemma_insert_ascending(ids, at as int, id);
            broadcast use vstd::seq_lib::group_to_multiset_ensures;

            assert(after.to_multiset() =~= before.to_multiset().insert(view));
            assert(all.take(i + 1) =~= all.take(i as int).push(view));
        }
        i = i + 1;
    }
    assert(all.take(i as int) =~= all);
    r
}

/// The plan of some proposals: the proposals in ascending order of their identities, their conflicts
/// and their lanes.
pub open spec fn is_plan_of(
    plan: IntegrationPlanView,
    plan_id: Seq<char>,
    task_id: Seq<char>,
    plan_version: u32,
    proposals: Seq<IntegrationProposalSpecView>,
) -> bool {
    &&& plan.plan_id == plan_id
    &&& plan.task_id == task_id
    &&& plan.plan_version == plan_version
    &&& ascending(change_set_ids(plan.proposals))
    &&& plan.proposals.to_multiset() == proposals.to_multiset()
    &&& plan.proposals.len() == proposals.len()
    &&& plan.base_snapshot_id == plan.proposals[0].base_snapshot_id
    &&& plan.conflicts == edges(plan.proposals, plan.proposals.len() as int)
    &&& are_lanes(plan.proposals, plan.proposals.len() as int, plan.lanes)
}

fn ids_distinct(proposals: &Vec<IntegrationProposalSpec>) -> (r: bool)
    ensures
        r == distinct(change_set_ids(proposals.deep_view())),
{
    let ghost ids = change_set_ids(proposals.deep_view());
    let mut i: usize = 0;
    while i < proposals.len()
        invariant
            i <= proposals.len(),
            ids == change_set_ids(proposals.deep_view()),
            forall|j: int, k: int| 0 <= j < k < i ==> #[trigger] ids[j] != #[trigger] ids[k],
        decreases proposals.len() - i,
    {
        let mut j: usize = 0;
        while j < i
            invariant
                j <= i < proposals.len(),
                ids == change_set_ids(proposals.deep_view()),
                forall|k: int| 0 <= k < j ==> #[trigger] ids[k] != ids[i as int],
            decreases i - j,
        {
            assert(ids[i as int] == proposals@[i as int].change_set_id@);
            assert(ids[j as int] == proposals@[j as int].change_set_id@);
            if proposals[j].change_set_id == proposals[i].change_set_id {
                return false;
            }
            j = j + 1;
        }
        i = i + 1;
    }
    true
}

/// Plans the integration of proposals of one task. Every set of proposals that chains of conflicts
/// connect becomes one serial lane; proposals without conflicts get lanes of their own.
pub fn build_integration_plan(
    plan_id: IntegrationPlanId,
    task_id: String,
    plan_version: u32,
    proposals: Vec<IntegrationProposalSpec>,
) -> (r: Result<IntegrationPlan, KernelError>)
    ensures
        if proposals.len() == 0 {
            outcome(r) == Err::<IntegrationPlanView, Seq<char>>(
                "integration plan requires at least one proposal"@,
            )
        } else if !distinct(change_set_ids(proposals.deep_view())) {
            outcome(r) == Err::<IntegrationPlanView, Seq<char>>(
                "integration plan contains a duplicate changeset id"@,
            )
        } else {
            r matches Ok(plan) && is_plan_of(
                plan.deep_view(),
                plan_id.deep_view(),
                task_id@,
                plan_version,
                proposals.deep_view(),
            )
        },
{
    if proposals.len() == 0 {
        return Err(KernelError::new("integration plan requires at least one proposal"));
    }
    if !ids_distinct(&proposals) {
        return Err(KernelError::new("integration plan contains a duplicate changeset id"));
    }
    let ordered = sort_proposals(proposals);
    assert(ordered.deep_view()[0] == ordered@[0].deep_view());
    let base_snapshot_id = ordered[0].base_snapshot_id.duplicate();
    let conflicts = conflict_edges(&ordered);
    let lanes = build_lanes(&ordered);
    Ok(
        IntegrationPlan {
            plan_id,
            task_id,
            plan_version,
            base_snapshot_id,
            proposals: ordered,
            conflicts,
            lanes,
        },
    )
}

/// Every proposal belongs to exactly one lane: chains of conflicts lead to it from exactly one of the
/// places that begin lanes.
pub proof fn law_every_proposal_has_one_lane(o: Seq<IntegrationProposalSpecView>, i: int)
    requires
        0 <= i < o.len(),
    ensures
        exists|h: int| 0 <= h <= i && is_head(o, h) && #[trigger] connected(o, h, i),
        forall|g: int, h: int|
            0 <= g < o.len() && 0 <= h < o.len() && is_head(o, g) && is_head(o, h)
                && #[trigger] connected(o, g, i) && #[trigger] connected(o, h, i) ==> g == h,
{
    lemma_has_head(o, i);
    assert forall|g: int, h: int|
        0 <= g < o.len() && 0 <= h < o.len() && is_head(o, g) && is_head(o, h)
            && #[trigger] connected(o, g, i) && #[trigger] connected(o, h, i) implies g == h by {
        let k = choose|k: nat| #[trigger] reach(o, g, i, k);
        let m = choose|m: nat| #[trigger] reach(o, h, i, m);
        lemma_reach_symmetric(o, g, i, k);
        lemma_reach_symmetric(o, h, i, m);
        lemma_reach_transitive(o, g, i, h, k, m);
        lemma_reach_transitive(o, h, i, g, m, k);
        assert(connected(o, g, h));
        assert(connected(o, h, g));
    }
}

proof fn lemma_has_head(o: Seq<IntegrationProposalSpecView>, i: int)
    requires
        0 <= i < o.len(),
    ensures
        exists|h: int| 0 <= h <= i && is_head(o, h) && #[trigger] connected(o, h, i),
    decreases i,
{
    assert(reach(o, i, i, 0));
    assert(connected(o, i, i));
    if !is_head(o, i) {
        let b = choose|b: int| 0 <= b < i && #[trigger] connected(o, b, i);
        lemma_has_head(o, b);
        let h = choose|h: int| 0 <= h <= b && is_head(o, h) && #[trigger] connected(o, h, b);
        lemma_connected_transitive(o, h, b, i);
    }
}

/// Proposals that conflict share their lane: wherever a chain of conflicts leads to one of them, it
/// leads to the other.
pub proof fn law_conflicting_proposals_share_a_lane(
    o: Seq<IntegrationProposalSpecView>,
    h: int,
    a: int,
    b: int,
)
    requires
        0 <= h < o.len(),
        0 <= a < o.len(),
        0 <= b < o.len(),
        linked(o, a, b),
    ensures
        connected(o, h, a) == connected(o, h, b),
{
    assert(linked(o, b, a));
    if connected(o, h, a) {
        let k = choose|k: nat| #[trigger] reach(o, h, a, k);
        assert(reach(o, h, b, k + 1));
    }
    if connected(o, h, b) {
        let k = choose|k: nat| #[trigger] reach(o, h, b, k);
        assert(reach(o, h, a, k + 1));
    }
}

// The log.

/// A promotion's effect fits its target and its status.
pub open spec fn effect_fits(e: IntegrationPromotionRecordedView) -> bool {
    match e.effect {
        Some(effect) => e.status == IntegrationPromotionStatus::Promoted && (e.target
            is WorkspaceApply == effect is WorkspaceApplied),
        None => e.status != IntegrationPromotionStatus::Promoted,
    }
}

fn promotion_effect_matches_target(entry: &IntegrationPromotionRecorded) -> (r: bool)
    ensures
        r == effect_fits(entry.deep_view()),
{
    match (&entry.target, &entry.effect) {
        (
            IntegrationPromotionTarget::WorkspaceApply { .. },
            Some(IntegrationPromotionEffect::WorkspaceApplied { .. }),
        ) => entry.status == IntegrationPromotionStatus::Promoted,
        (
            IntegrationPromotionTarget::GitRefAdvance { .. },
            Some(IntegrationPromotionEffect::GitRefAdvanced { .. }),
        ) => entry.status == IntegrationPromotionStatus::Promoted,
        (_, None) => entry.status != IntegrationPromotionStatus::Promoted,
        _ => false,
    }
}

/// Lanes are ordered by their identities.
pub open spec fn lane_id_order() -> spec_fn(
    IntegrationLaneChangedView,
    IntegrationLaneChangedView,
) -> bool {
    |a: IntegrationLaneChangedView, b: IntegrationLaneChangedView| precedes(a.lane_id, b.lane_id)
}

/// The states of plans are ordered by the identities of the plans.
pub open spec fn plan_id_order() -> spec_fn(
    IntegrationPlanStateView,
    IntegrationPlanStateView,
) -> bool {
    |a: IntegrationPlanStateView, b: IntegrationPlanStateView|
        precedes(a.recorded.plan.plan_id, b.recorded.plan.plan_id)
}

/// The lanes of a plan's state after one of them has changed.
pub open spec fn put_lane(
    lanes: Seq<IntegrationLaneChangedView>,
    entry: IntegrationLaneChangedView,
) -> Seq<IntegrationLaneChangedView> {
    match find_key::<IntegrationLaneChanged>(lanes, entry.lane_id) {
        Some(i) => lanes.update(i, entry),
        None => put(lanes, entry, lane_id_order()),
    }
}

/// The state of a plan after an entry on one of its lanes.
pub open spec fn with_lane(
    s: IntegrationPlanStateView,
    entry: IntegrationLaneChangedView,
) -> IntegrationPlanStateView {
    if find_key::<IntegrationLaneSpec>(s.recorded.plan.lanes, entry.lane_id) is None {
        IntegrationPlanStateView { inconsistent: true, ..s }
    } else {
        IntegrationPlanStateView { lanes: put_lane(s.lanes, entry), ..s }
    }
}

/// The state of a plan after an entry on its promotion.
pub open spec fn with_promotion(
    s: IntegrationPlanStateView,
    entry: IntegrationPromotionRecordedView,
) -> IntegrationPlanStateView {
    IntegrationPlanStateView {
        promotions: s.promotions.push(entry),
        inconsistent: s.inconsistent || is_blank(entry.preview_digest) || !effect_fits(entry),
        ..s
    }
}

/// The state of a plan that has just been recorded.
pub open spec fn fresh_state(entry: IntegrationPlanRecordedView) -> IntegrationPlanStateView {
    IntegrationPlanStateView {
        recorded: entry,
        lanes: Seq::empty(),
        promotions: Seq::empty(),
        inconsistent: false,
    }
}

/// The projection after one more entry of the log.
pub open spec fn after_control(
    p: IntegrationProjectionView,
    c: ControlEntryView,
) -> IntegrationProjectionView {
    match c {
        ControlEntryView::IntegrationPlanRecorded(entry) => {
            let id = entry.plan.plan_id;
            IntegrationProjectionView {
                plans: match find_key::<IntegrationPlanState>(p.plans, id) {
                    Some(i) => if p.plans[i].recorded != entry {
                        p.plans.update(
                            i,
                            (IntegrationPlanStateView { inconsistent: true, ..p.plans[i] }),
                        )
                    } else {
                        p.plans
                    },
                    None => put(p.plans, fresh_state(entry), plan_id_order()),
                },
                latest_plan_id: Some(id),
            }
        },
        ControlEntryView::IntegrationLaneChanged(entry) => match find_key::<IntegrationPlanState>(
            p.plans,
            entry.plan_id,
        ) {
            Some(i) => IntegrationProjectionView {
                plans: p.plans.update(i, with_lane(p.plans[i], entry)),
                ..p
            },
            None => p,
        },
        ControlEntryView::IntegrationPromotionRecorded(entry) => match find_key::<
            IntegrationPlanState,
        >(p.plans, entry.plan_id) {
            Some(i) => IntegrationProjectionView {
                plans: p.plans.update(i, with_promotion(p.plans[i], entry)),
                ..p
            },
            None => p,
        },
        _ => p,
    }
}

/// The projection of a log: its entries one after the other.
pub open spec fn projection_of(entries: Seq<ControlEntryView>) -> IntegrationProjectionView
    decreases entries.len(),
{
    if entries.len() == 0 {
        IntegrationProjectionView { plans: Seq::empty(), latest_plan_id: None }
    } else {
        after_control(projection_of(entries.drop_last()), entries.last())
    }
}

impl Default for IntegrationProjection {
    fn default() -> (r: Self)
        ensures
            r.deep_view() == projection_of(Seq::empty()),
    {
        let r = IntegrationProjection { plans: Vec::new(), latest_plan_id: None };
        assert(r.deep_view().plans =~= Seq::empty());
        r
    }
}

impl IntegrationPlanState {
    fn apply_lane(&mut self, entry: &IntegrationLaneChanged)
        ensures
            final(self).deep_view() == with_lane(old(self).deep_view(), entry.deep_view()),
    {
        if position_by_key(&self.recorded.plan.lanes, entry.lane_id.as_str()).is_none() {
            self.inconsistent = true;
            return ;
        }
        let ghost before = self.lanes;
        let copy = entry.duplicate();
        match position_by_key(&self.lanes, entry.lane_id.as_str()) {
            Some(i) => {
                self.lanes.set(i, copy);
                proof {
                    lemma_update_view(before, i as int, copy, self.lanes);
                }
            },
            None => {
                let ghost p = lane_id_order();
                put_item(
                    &mut self.lanes,
                    copy,
                    &|a: &IntegrationLaneChanged, b: &IntegrationLaneChanged| -> (o: bool)
                        ensures
                            o == p(a.deep_view(), b.deep_view())
                        { text_precedes(a.lane_id.as_str(), b.lane_id.as_str()) },
                    Ghost(p),
                );
            },
        }
    }

    fn apply_promotion(&mut self, entry: &IntegrationPromotionRecorded)
        ensures
            final(self).deep_view() == with_promotion(old(self).deep_view(), entry.deep_view()),
    {
        if blank(entry.preview_digest.as_str()) || !promotion_effect_matches_target(entry) {
            self.inconsistent = true;
        }
        let ghost before = self.promotions;
        let copy = entry.duplicate();
        self.promotions.push(copy);
        proof {
            lemma_push_view(before, copy, self.promotions);
        }
    }
}

impl IntegrationProjection {
    /// Takes in one more entry of the log.
    pub fn apply_control_entry(&mut self, control: &ControlEntry)
        ensures
            final(self).deep_view() == after_control(old(self).deep_view(), control.deep_view()),
    {
        let ghost before = self.plans;
        match control {
            ControlEntry::IntegrationPlanRecorded(entry) => {
                self.latest_plan_id = Some(entry.plan.plan_id.duplicate());
                match position_by_key(&self.plans, entry.plan.plan_id.as_str()) {
                    Some(i) => {
                        if !self.plans[i].recorded.same(entry) {
                            let mut state = self.plans[i].duplicate();
                            state.inconsistent = true;
                            self.plans.set(i, state);
                            proof {
                                lemma_update_view(before, i as int, state, self.plans);
                            }
                        }
                    },
                    None => {
                        let state = IntegrationPlanState {
                            recorded: entry.duplicate(),
                            lanes: Vec::new(),
                            promotions: Vec::new(),
                            inconsistent: false,
                        };
                        assert(state.deep_view().lanes =~= Seq::empty());
                        assert(state.deep_view().promotions =~= Seq::empty());
                        let ghost p = plan_id_order();
                        put_item(
                            &mut self.plans,
                            state,
                            &|a: &IntegrationPlanState, b: &IntegrationPlanState| -> (o: bool)
                                ensures
                                    o == p(a.deep_view(), b.deep_view())
                                {
                                    text_precedes(
                                        a.recorded.plan.plan_id.as_str(),
                                        b.recorded.plan.plan_id.as_str(),
                                    )
                                },
                            Ghost(p),
                        );
                    },
                }
            },
            ControlEntry::IntegrationLaneChanged(entry) => {
                match position_by_key(&self.plans, entry.plan_id.as_str()) {
                    Some(i) => {
                        let mut state = self.plans[i].duplicate();
                        state.apply_lane(entry);
                        self.plans.set(i, state);
                        proof {
                            lemma_update_view(before, i as int, state, self.plans);
                        }
                    },
                    None => {},
                }
            },
            ControlEntry::IntegrationPromotionRecorded(entry) => {
                match position_by_key(&self.plans, entry.plan_id.as_str()) {
                    Some(i) => {
                        let mut state = self.plans[i].duplicate();
                        state.apply_promotion(entry);
                        self.plans.set(i, state);
                        proof {
                            lemma_update_view(before, i as int, state, self.plans);
                        }
                    },
                    None => {},
                }
            },
            _ => {},
        }
    }

    /// Replays the control entries of a log.
    pub fn from_entries(entries: &Vec<ControlEntry>) -> (r: Self)
        ensures
            r.deep_view() == projection_of(entries.deep_view()),
    {
        let ghost all = entries.deep_view();
        let mut r = IntegrationProjection::default();
        let mut i: usize = 0;
        assert(all.take(0) =~= Seq::empty());
        while i < entries.len()
            invariant
                i <= entries.len(),
                all == entries.deep_view(),
                r.deep_view() == projection_of(all.take(i as int)),
            decreases entries.len() - i,
        {
            assert(all.take(i + 1).drop_last() =~= all.take(i as int));
            assert(all.take(i + 1).last() == entries@[i as int].deep_view());
            r.apply_control_entry(&entries[i]);
            i = i + 1;
        }
        assert(all.take(i as int) =~= all);
        r
    }

    /// The state of the plan that was recorded last.
    pub fn latest(&self) -> (r: Option<&IntegrationPlanState>)
        ensures
            r.deep_view() == latest_plan(self.deep_view()),
    {
        match &self.latest_plan_id {
            Some(id) => match position_by_key(&self.plans, id.as_str()) {
                Some(i) => Some(&self.plans[i]),
                None => None,
            },
            None => None,
        }
    }
}

/// The state of the plan that was recorded last.
pub open spec fn latest_plan(p: IntegrationProjectionView) -> Option<IntegrationPlanStateView> {
    match p.latest_plan_id {
        Some(id) => match find_key::<IntegrationPlanState>(p.plans, id) {
            Some(i) => Some(p.plans[i]),
            None => None,
        },
        None => None,
    }
}

/// Once a plan's state is inconsistent, no later entry makes it consistent again.
pub proof fn law_inconsistency_stays(
    p: IntegrationProjectionView,
    c: ControlEntryView,
    id: Seq<char>,
)
    requires
        find_key::<IntegrationPlanState>(p.plans, id) matches Some(i) && p.plans[i].inconsistent,
    ensures
        find_key::<IntegrationPlanState>(after_control(p, c).plans, id) matches Some(j) && {
            let i = find_key::<IntegrationPlanState>(p.plans, id)->0;
            after_control(p, c).plans[j].inconsistent && after_control(p, c).plans[j].recorded
                == p.plans[i].recorded
        },
{
    let after = after_control(p, c).plans;
    let i = find_key::<IntegrationPlanState>(p.plans, id)->0;
    lemma_find_key::<IntegrationPlanState>(p.plans, id);
    let key = match c {
        ControlEntryView::IntegrationPlanRecorded(entry) => entry.plan.plan_id,
        ControlEntryView::IntegrationLaneChanged(entry) => entry.plan_id,
        ControlEntryView::IntegrationPromotionRecorded(entry) => entry.plan_id,
        _ => Seq::empty(),
    };
    lemma_find_key::<IntegrationPlanState>(p.plans, key);
    let fresh = c is IntegrationPlanRecorded && find_key::<IntegrationPlanState>(
        p.plans,
        key,
    ) is None;
    if !fresh {
        assert forall|j: int| 0 <= j < after.len() implies IntegrationPlanState::key(
            #[trigger] after[j],
        ) == IntegrationPlanState::key(p.plans[j]) by {}
        lemma_find_key_is::<IntegrationPlanState>(after, id, i);
    } else {
        let entry = c->IntegrationPlanRecorded_0;
        let k = lemma_put_place(p.plans, fresh_state(entry), plan_id_order());
        let at = if k <= i {
            i + 1
        } else {
            i
        };
        assert forall|j: int| 0 <= j < at implies IntegrationPlanState::key(#[trigger] after[j])
            != id by {
            if j < k {
                assert(after[j] == p.plans[j]);
            } else if j > k {
                assert(after[j] == p.plans[j - 1]);
            } else {
                assert(IntegrationPlanState::key(p.plans[i]) != key);
            }
        }
        lemma_find_key_is::<IntegrationPlanState>(after, id, at);
    }
}

/// The identities of the plans that have states.
pub open spec fn state_ids(plans: Seq<IntegrationPlanStateView>) -> Seq<Seq<char>> {
    Seq::new(plans.len(), |i: int| plans[i].recorded.plan.plan_id)
}

/// The identities of the lanes that have changed.
pub open spec fn changed_lane_ids(lanes: Seq<IntegrationLaneChangedView>) -> Seq<Seq<char>> {
    Seq::new(lanes.len(), |i: int| lanes[i].lane_id)
}

/// States and lanes stand in the order of their identities, each identity once.
pub open spec fn is_ordered(p: IntegrationProjectionView) -> bool {
    &&& ascending(state_ids(p.plans))
    &&& forall|i: int|
        0 <= i < p.plans.len() ==> ascending(changed_lane_ids(#[trigger] p.plans[i].lanes))
}

proof fn lemma_put_lane_keeps_order(
    lanes: Seq<IntegrationLaneChangedView>,
    entry: IntegrationLaneChangedView,
)
    requires
        ascending(changed_lane_ids(lanes)),
    ensures
        ascending(changed_lane_ids(put_lane(lanes, entry))),
{
    let ids = changed_lane_ids(lanes);
    let after = put_lane(lanes, entry);
    lemma_find_key::<IntegrationLaneChanged>(lanes, entry.lane_id);
    match find_key::<IntegrationLaneChanged>(lanes, entry.lane_id) {
        Some(i) => {
            assert(changed_lane_ids(after) =~= ids);
        },
        None => {
            let k = lemma_put_place(lanes, entry, lane_id_order());
            lemma_insert_ordered(ids, k, entry.lane_id);
            assert(changed_lane_ids(after) =~= ids.insert(k, entry.lane_id));
        },
    }
}

/// Every entry of a log keeps the order.
pub proof fn law_entries_keep_the_order(p: IntegrationProjectionView, c: ControlEntryView)
    requires
        is_ordered(p),
    ensures
        is_ordered(after_control(p, c)),
{
    let ids = state_ids(p.plans);
    let after = after_control(p, c);
    let key = match c {
        ControlEntryView::IntegrationPlanRecorded(entry) => entry.plan.plan_id,
        ControlEntryView::IntegrationLaneChanged(entry) => entry.plan_id,
        ControlEntryView::IntegrationPromotionRecorded(entry) => entry.plan_id,
        _ => Seq::empty(),
    };
    lemma_find_key::<IntegrationPlanState>(p.plans, key);
    let fresh = c is IntegrationPlanRecorded && find_key::<IntegrationPlanState>(
        p.plans,
        key,
    ) is None;
    if !fresh {
        assert(state_ids(after.plans) =~= ids);
        assert forall|i: int| 0 <= i < after.plans.len() implies ascending(
            changed_lane_ids(#[trigger] after.plans[i].lanes),
        ) by {
            assert(ascending(changed_lane_ids(p.plans[i].lanes)));
            if let ControlEntryView::IntegrationLaneChanged(entry) = c {
                lemma_put_lane_keeps_order(p.plans[i].lanes, entry);
            }
        }
    } else {
        let state = fresh_state(c->IntegrationPlanRecorded_0);
        let k = lemma_put_place(p.plans, state, plan_id_order());
        assert forall|j: int| 0 <= j < ids.len() implies #[trigger] ids[j] != key by {
            assert(IntegrationPlanState::key(p.plans[j]) != key);
        }
        lemma_insert_ordered(ids, k, key);
        assert(state_ids(after.plans) =~= ids.insert(k, key));
        assert forall|i: int| 0 <= i < after.plans.len() implies ascending(
            changed_lane_ids(#[trigger] after.plans[i].lanes),
        ) by {
            if i < k {
                assert(after.plans[i] == p.plans[i]);
            } else if i > k {
                assert(after.plans[i] == p.plans[i - 1]);
            }
        }
    }
}

/// Whatever the log holds, the projection has one state for each plan, in the order of their
/// identities, each state has the lanes in the order of theirs, and the plan that was recorded last
/// has a state.
pub proof fn law_projection_keeps_one_state_per_plan(entries: Seq<ControlEntryView>)
    ensures
        is_ordered(projection_of(entries)),
        projection_of(entries).latest_plan_id is Some ==> latest_plan(
            projection_of(entries),
        ) is Some,
    decreases entries.len(),
{
    if entries.len() > 0 {
        let before = projection_of(entries.drop_last());
        let after = projection_of(entries);
        law_projection_keeps_one_state_per_plan(entries.drop_last());
        law_entries_keep_the_order(before, entries.last());
        if after.latest_plan_id is Some {
            let id = after.latest_plan_id->0;
            lemma_find_key::<IntegrationPlanState>(before.plans, id);
            lemma_find_key::<IntegrationPlanState>(after.plans, id);
            match entries.last() {
                ControlEntryView::IntegrationPlanRecorded(entry) => {
                    if find_key::<IntegrationPlanState>(before.plans, id) is None {
                        let k = lemma_put_place(before.plans, fresh_state(entry), plan_id_order());
                        assert(IntegrationPlanState::key(after.plans[k]) == id);
                    } else {
                        let i = find_key::<IntegrationPlanState>(before.plans, id)->0;
                        assert(IntegrationPlanState::key(after.plans[i]) == id);
                    }
                },
                ControlEntryView::IntegrationLaneChanged(entry) => {
                    lemma_find_key::<IntegrationPlanState>(before.plans, entry.plan_id);
                    let i = find_key::<IntegrationPlanState>(before.plans, id)->0;
                    assert(IntegrationPlanState::key(after.plans[i]) == id);
                },
                ControlEntryView::IntegrationPromotionRecorded(entry) => {
                    lemma_find_key::<IntegrationPlanState>(before.plans, entry.plan_id);
                    let i = find_key::<IntegrationPlanState>(before.plans, id)->0;
                    assert(IntegrationPlanState::key(after.plans[i]) == id);
                },
                _ => {},
            }
        }
    }
}

} // verus!
