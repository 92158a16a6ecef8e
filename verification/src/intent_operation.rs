//! Operations on intents: what the durable stream says of requested, prepared and resolved
//! operations, and which intents were dropped.

use vstd::prelude::*;

use crate::batch_evidence::{
    add_new, batch_facts_verdict, batch_outcome, ends_batch, find_batch_end, find_batch_outcome,
    has_evidence, has_file_evidence, validate_batch_facts,
};
use crate::intent::{
    is_stable_identity, labelled, reject_labelled, BoundedIntentArtifactSubjectV1, IntentArtifactId,
    IntentConflictV1, IntentConflictV1View, IntentDefinitionV1, IntentDefinitionV1View,
    IntentDigest, IntentEventV1, IntentEventV1View, IntentOperationFileSummaryV1,
    IntentOperationFileSummaryV1View, IntentOperationId, IntentOperationKind,
    IntentOperationPreviewV1, IntentOperationPreviewV1View, IntentOperationResolution, IntentPlanV1,
    IntentPlanV1View, IntentStackId, IntentStackVersion, IntentVersionRef, IntentVersionRefView,
};
use crate::intent_admission::{plan_refs, refs_of_plan};
use crate::intent_layer::{
    artifact_path, artifact_path_of, is_hunk_at, latest_layer, session_layers, ArtifactContentV1,
    ArtifactContentV1View,
};
use crate::intent_lineage::with_new;
use crate::intent_stack::{
    accepted_version, latest_accepted, plan_holds, stack_of, IntentStackProjectionV1,
    IntentStackProjectionV1View,
};
use crate::intent_state::{
    BatchOutcome, BatchOutcomeView, EffectiveIntentArtifactV1, EffectiveIntentArtifactV1View,
    IntentLayerProjectionV1, IntentLayerProjectionV1View, IntentLayerStateV1,
    IntentLayerStateV1View, IntentOperationStateV1, IntentOperationSummaryV1,
    IntentOperationSummaryV1View, OperationRecord, OperationRecordView, PreparedOperation,
    PreparedOperationView, ResolvedOperation, ResolvedOperationView,
};
use crate::lineage_facts::member_of;
use crate::order::{items_in_order, lemma_in_order, sort_items};
use crate::records::{Session, SessionStreamRecord, SessionStreamRecordView, SessionView};
use crate::search::{
    all_where, any_where, check_each, find_last, first_where, has_all, has_any, last_where,
    same_items, selected, validate_each,
};
use crate::stream::{intent_event_in, intent_event_of};
use crate::text::{
    all_of, blank, byte_len, byte_length, decimal, decimal_text, every, in_class, is_blank,
    is_lower_hex_digit, joined, lemma_ascii_byte_len, precedes, same_text, text_precedes, CharClass,
};
use crate::value::{
    all_distinct, chain, check, distinct, find_key, following, holds, lemma_all_pass,
    lemma_find_key, lemma_push_view, lemma_update_view, next_number, outcome, position_by_key,
    reject, verdict, yields, KernelError, Value, Verdict,
};

verus! {

/// Version of the schema of the operation projection.
pub const INTENT_OPERATION_PROJECTION_SCHEMA_VERSION: u16 = 1;

/// Runtime-only approval authority for an exact intent operation.  It intentionally has no serde
/// implementation: renderer, provider output and restored JSON cannot manufacture approval
/// authority.
#[derive(Debug, Clone, PartialEq, Eq)]
pub struct IntentOperationAuthorityV1 {
    permission_policy_digest: IntentDigest,
    approval_authority_id: String,
    expires_at_ms: Option<u64>,
}

/// What a [`IntentOperationAuthorityV1`] holds.
#[verifier::ext_equal]
pub struct IntentOperationAuthorityV1View {
    pub permission_policy_digest: Seq<char>,
    pub approval_authority_id: Seq<char>,
    pub expires_at_ms: Option<u64>,
}

impl DeepView for IntentOperationAuthorityV1 {
    type V = IntentOperationAuthorityV1View;

    closed spec fn deep_view(&self) -> IntentOperationAuthorityV1View {
        IntentOperationAuthorityV1View {
            permission_policy_digest: self.permission_policy_digest.deep_view(),
            approval_authority_id: self.approval_authority_id.deep_view(),
            expires_at_ms: self.expires_at_ms.deep_view(),
        }
    }
}

impl Value for IntentOperationAuthorityV1 {
    fn same(&self, other: &Self) -> (r: bool) {
        self.permission_policy_digest.same(&other.permission_policy_digest)
            && self.approval_authority_id.same(&other.approval_authority_id)
            && self.expires_at_ms.same(&other.expires_at_ms)
    }

    fn duplicate(&self) -> (r: Self) {
        IntentOperationAuthorityV1 {
            permission_policy_digest: self.permission_policy_digest.duplicate(),
            approval_authority_id: self.approval_authority_id.duplicate(),
            expires_at_ms: self.expires_at_ms.duplicate(),
        }
    }
}

/// What the durable stream says of operations.
#[derive(Debug, Clone, PartialEq, Eq)]
pub struct IntentOperationProjectionV1 {
    pub operations: Vec<IntentOperationSummaryV1>,
    pub conflicts: Vec<IntentConflictV1>,
    dropped_intents: Vec<IntentVersionRef>,
}

/// What a [`IntentOperationProjectionV1`] holds.
#[verifier::ext_equal]
pub struct IntentOperationProjectionV1View {
    pub operations: Seq<IntentOperationSummaryV1View>,
    pub conflicts: Seq<IntentConflictV1View>,
    pub dropped_intents: Seq<IntentVersionRefView>,
}

impl DeepView for IntentOperationProjectionV1 {
    type V = IntentOperationProjectionV1View;

    closed spec fn deep_view(&self) -> IntentOperationProjectionV1View {
        IntentOperationProjectionV1View {
            operations: self.operations.deep_view(),
            conflicts: self.conflicts.deep_view(),
            dropped_intents: self.dropped_intents.deep_view(),
        }
    }
}

impl Default for IntentOperationProjectionV1 {
    fn default() -> (r: Self)
        ensures
            r.deep_view() == (IntentOperationProjectionV1View {
                operations: Seq::empty(),
                conflicts: Seq::empty(),
                dropped_intents: Seq::empty(),
            }),
    {
        let r = IntentOperationProjectionV1 {
            operations: Vec::new(),
            conflicts: Vec::new(),
            dropped_intents: Vec::new(),
        };
        assert(r.deep_view().operations =~= Seq::empty());
        assert(r.deep_view().conflicts =~= Seq::empty());
        assert(r.deep_view().dropped_intents =~= Seq::empty());
        r
    }
}

impl Value for IntentOperationProjectionV1 {
    fn same(&self, other: &Self) -> (r: bool) {
        self.operations.same(&other.operations)
            && self.conflicts.same(&other.conflicts)
            && self.dropped_intents.same(&other.dropped_intents)
    }

    fn duplicate(&self) -> (r: Self) {
        IntentOperationProjectionV1 {
            operations: self.operations.duplicate(),
            conflicts: self.conflicts.duplicate(),
            dropped_intents: self.dropped_intents.duplicate(),
        }
    }
}

/// What a replay knows of operations: the operations, the recorded conflicts, and the intents that
/// were dropped.
#[derive(Debug, Clone, PartialEq, Eq)]
pub struct OperationReplay {
    pub operations: Vec<OperationRecord>,
    pub conflicts: Vec<IntentConflictV1>,
    pub dropped: Vec<IntentVersionRef>,
}

/// What a [`OperationReplay`] holds.
#[verifier::ext_equal]
pub struct OperationReplayView {
    pub operations: Seq<OperationRecordView>,
    pub conflicts: Seq<IntentConflictV1View>,
    pub dropped: Seq<IntentVersionRefView>,
}

impl DeepView for OperationReplay {
    type V = OperationReplayView;

    open spec fn deep_view(&self) -> OperationReplayView {
        OperationReplayView {
            operations: self.operations.deep_view(),
            conflicts: self.conflicts.deep_view(),
            dropped: self.dropped.deep_view(),
        }
    }
}

impl Value for OperationReplay {
    fn same(&self, other: &Self) -> (r: bool) {
        self.operations.same(&other.operations)
            && self.conflicts.same(&other.conflicts)
            && self.dropped.same(&other.dropped)
    }

    fn duplicate(&self) -> (r: Self) {
        OperationReplay {
            operations: self.operations.duplicate(),
            conflicts: self.conflicts.duplicate(),
            dropped: self.dropped.duplicate(),
        }
    }
}

/// The check of an identity that the running host gives.
pub open spec fn runtime_identity_verdict(label: Seq<char>, value: Seq<char>) -> Verdict {
    check(
        !is_blank(value) && byte_len(value) <= 256 && every(CharClass::Printable, value),
        labelled(label, " is empty, too long, or contains control characters"@),
    )
}

/// Checks an identity that the running host gives.
pub(crate) fn validate_runtime_identity(label: &str, value: &str) -> (r: Result<(), KernelError>)
    ensures
        verdict(r) == runtime_identity_verdict(label@, value@),
{
    if blank(value) || byte_length(value) > 256 || !all_of(CharClass::Printable, value) {
        return reject_labelled(label, " is empty, too long, or contains control characters");
    }
    Ok(())
}

/// An authority has not run out.
pub open spec fn authority_holds(a: IntentOperationAuthorityV1View, now_ms: u64) -> bool {
    a.expires_at_ms matches Some(end) ==> now_ms <= end
}

/// An authority from its parts, where they are sound.
pub open spec fn authority_of(
    permission_policy_digest: Seq<char>,
    approval_authority_id: Seq<char>,
    expires_at_ms: Option<u64>,
) -> Result<IntentOperationAuthorityV1View, Seq<char>> {
    yields(
        chain(
            runtime_identity_verdict("intent approval authority"@, approval_authority_id),
            check(
                expires_at_ms != Some(0u64),
                "intent approval authority expiry must be non-zero"@,
            ),
        ),
        IntentOperationAuthorityV1View {
            permission_policy_digest,
            approval_authority_id,
            expires_at_ms,
        },
    )
}

impl IntentOperationAuthorityV1 {
    /// Makes an authority that is bound to one permission policy.
    pub fn new(
        permission_policy_digest: IntentDigest,
        approval_authority_id: String,
        expires_at_ms: Option<u64>,
    ) -> (r: Result<Self, KernelError>)
        ensures
            outcome(r) == authority_of(
                permission_policy_digest.deep_view(),
                approval_authority_id@,
                expires_at_ms,
            ),
    {
        validate_runtime_identity("intent approval authority", approval_authority_id.as_str())?;
        let ends_at_once = match expires_at_ms {
            Some(end) => end == 0,
            None => false,
        };
        if ends_at_once {
            return Err(KernelError::new("intent approval authority expiry must be non-zero"));
        }
        Ok(
            IntentOperationAuthorityV1 {
                permission_policy_digest,
                approval_authority_id,
                expires_at_ms,
            },
        )
    }

    /// Tells whether the authority has not run out.
    pub fn is_current(&self, now_ms: u64) -> (r: bool)
        ensures
            r == authority_holds(self.deep_view(), now_ms),
    {
        match self.expires_at_ms {
            Some(end) => now_ms <= end,
            None => true,
        }
    }

    /// The digest of the permission policy.
    pub fn permission_policy_digest(&self) -> (r: &IntentDigest)
        ensures
            r.deep_view() == self.deep_view().permission_policy_digest,
    {
        &self.permission_policy_digest
    }

    /// The identity of the authority.
    pub fn approval_authority_id(&self) -> (r: &String)
        ensures
            r@ == self.deep_view().approval_authority_id,
    {
        &self.approval_authority_id
    }

    /// When the authority runs out.
    pub fn expires_at_ms(&self) -> (r: Option<u64>)
        ensures
            r == self.deep_view().expires_at_ms,
    {
        self.expires_at_ms
    }
}

// Identities.

/// The identifier that `uuid` derives from a name.
pub uninterp spec fn uuid_of_name(name: Seq<char>) -> Seq<char>;

/// Derives a stable identifier from a name: calls `uuid::Uuid::new_v5` in the namespace of object
/// identifiers, and writes it in its hyphenated form, which is 36 lowercase hexadecimal digits and
/// hyphens.
#[verifier::external_body]
pub(crate) fn name_uuid(name: &str) -> (r: String)
    ensures
        r@ == uuid_of_name(name@),
        r@.len() == 36,
        forall|i: int| 0 <= i < 36 ==> is_lower_hex_digit(#[trigger] r@[i]) || r@[i] == '-',
{
    uuid::Uuid::new_v5(&uuid::Uuid::NAMESPACE_OID, name.as_bytes()).to_string()
}

/// Two parts of a name.
pub open spec fn with_part(a: Seq<char>, b: Seq<char>) -> Seq<char> {
    a + ":"@ + b
}

fn add_part(a: &str, b: &str) -> (r: String)
    ensures
        r@ == with_part(a@, b@),
{
    let start = joined(a, ":");
    joined(start.as_str(), b)
}

/// The stable identifier of a text within a namespace.
pub open spec fn event_uuid(namespace: Seq<char>, text: Seq<char>) -> Seq<char> {
    uuid_of_name(with_part(namespace, text))
}

/// The digest of the layer of an intent as it enters the identity of an operation.
pub open spec fn layer_word(layer: Option<IntentLayerStateV1View>) -> Seq<char> {
    match layer {
        Some(l) => l.layer_manifest.manifest_digest,
        None => "no-layer"@,
    }
}

/// The text that the identity of the drop of an intent is derived from.
pub open spec fn drop_name(
    plan: IntentPlanV1View,
    layer: Option<IntentLayerStateV1View>,
    dropped: bool,
    target: IntentVersionRefView,
    workspace_revision: u64,
    frontier: u64,
) -> Seq<char> {
    let revision = if dropped {
        next_number(workspace_revision)
    } else {
        workspace_revision
    };
    with_part(
        with_part(
            with_part(
                with_part(
                    with_part(
                        with_part(plan.stack_id, decimal(plan.stack_version as nat)),
                        target.intent_id,
                    ),
                    decimal(target.version as nat),
                ),
                layer_word(layer),
            ),
            decimal(revision as nat),
        ),
        decimal(frontier as nat),
    )
}

/// The identity of the drop of an intent.
pub open spec fn drop_operation_id(
    plan: IntentPlanV1View,
    layers: IntentLayerProjectionV1View,
    dropped: bool,
    target: IntentVersionRefView,
    workspace_revision: u64,
    frontier: u64,
) -> Seq<char> {
    "intent-drop-"@ + event_uuid(
        "sigil-intent-drop-operation"@,
        drop_name(
            plan,
            latest_layer(layers, target),
            dropped,
            target,
            workspace_revision,
            frontier,
        ),
    )
}

proof fn lemma_uuid_names_operation(u: Seq<char>, id: Seq<char>)
    requires
        u.len() == 36,
        forall|i: int| 0 <= i < 36 ==> is_lower_hex_digit(#[trigger] u[i]) || u[i] == '-',
        id == "intent-drop-"@ + u,
    ensures
        is_stable_identity(id),
{
    reveal_strlit("intent-drop-");
    assert(id.len() == 48);
    assert forall|i: int| 0 <= i < id.len() implies in_class(
        CharClass::ScopedName,
        #[trigger] id[i],
    ) by {
        if i >= 12 {
            assert(id[i] == u[i - 12]);
        }
    }
    assert forall|i: int| 0 <= i < id.len() implies (#[trigger] id[i] as u32) < 128 by {
        if i >= 12 {
            assert(id[i] == u[i - 12]);
        }
    }
    lemma_ascii_byte_len(id);
}

/// Derives the identity of the drop of an intent.
pub(crate) fn operation_id_for_preview_target(
    plan: &IntentPlanV1,
    layers: &IntentLayerProjectionV1,
    dropped: bool,
    target: &IntentVersionRef,
    workspace_revision: u64,
    frontier: u64,
) -> (r: IntentOperationId)
    ensures
        r.deep_view() == drop_operation_id(
            plan.deep_view(),
            layers.deep_view(),
            dropped,
            target.deep_view(),
            workspace_revision,
            frontier,
        ),
{
    let revision: u64 = if dropped {
        following(workspace_revision)
    } else {
        workspace_revision
    };
    let version = decimal_text(plan.stack_version.get());
    let text = add_part(plan.stack_id.as_str(), version.as_str());
    let text = add_part(text.as_str(), target.intent_id.as_str());
    let part = decimal_text(target.version);
    let text = add_part(text.as_str(), part.as_str());
    let text = match layers.latest_layer_for(target) {
        Some(l) => add_part(text.as_str(), l.layer_manifest.manifest_digest.as_str()),
        None => add_part(text.as_str(), "no-layer"),
    };
    let part = decimal_text(revision);
    let text = add_part(text.as_str(), part.as_str());
    let part = decimal_text(frontier);
    let text = add_part(text.as_str(), part.as_str());
    let name = add_part("sigil-intent-drop-operation", text.as_str());
    let uuid = name_uuid(name.as_str());
    let id = joined("intent-drop-", uuid.as_str());
    proof {
        lemma_uuid_names_operation(uuid@, id@);
    }
    let made = IntentOperationId::new(id);
    assert(made is Ok);
    made.unwrap()
}

/// The identity of the batch of mutations of an operation.
pub open spec fn drop_batch_id(operation_id: Seq<char>) -> Seq<char> {
    "intent-drop-batch-"@ + event_uuid("sigil-intent-drop-batch"@, operation_id)
}

/// Derives the identity of the batch of mutations of an operation.
pub(crate) fn intent_drop_batch_id(operation_id: &IntentOperationId) -> (r: String)
    ensures
        r@ == drop_batch_id(operation_id.deep_view()),
{
    let name = add_part("sigil-intent-drop-batch", operation_id.as_str());
    let uuid = name_uuid(name.as_str());
    joined("intent-drop-batch-", uuid.as_str())
}

// What a plan says of a target.

/// The intent is active and builds on the target.
pub open spec fn builds_on(
    target: IntentVersionRefView,
    dropped: Seq<IntentVersionRefView>,
) -> spec_fn(IntentDefinitionV1View) -> bool {
    |d: IntentDefinitionV1View|
        d.intent_ref != target && !dropped.contains(d.intent_ref) && d.depends_on.contains(
            target.intent_id,
        )
}

/// No active intent builds on the target.
pub open spec fn is_leaf(
    plan: IntentPlanV1View,
    dropped: Seq<IntentVersionRefView>,
    target: IntentVersionRefView,
) -> bool {
    !any_where(plan.intents, builds_on(target, dropped))
}

/// The intent stays when the target is dropped.
pub open spec fn stays(
    target: IntentVersionRefView,
    dropped: Seq<IntentVersionRefView>,
) -> spec_fn(IntentVersionRefView) -> bool {
    |r: IntentVersionRefView| r != target && !dropped.contains(r)
}

/// The intents of a plan that stay when the target is dropped, in their order.
pub open spec fn retained_refs(
    plan: IntentPlanV1View,
    dropped: Seq<IntentVersionRefView>,
    target: IntentVersionRefView,
) -> Seq<IntentVersionRefView> {
    selected(plan_refs(plan), stays(target, dropped))
}

/// Tells whether no active intent builds on the target.
pub(crate) fn is_leaf_target(
    plan: &IntentPlanV1,
    dropped: &Vec<IntentVersionRef>,
    target: &IntentVersionRef,
) -> (r: bool)
    ensures
        r == is_leaf(plan.deep_view(), dropped.deep_view(), target.deep_view()),
{
    let ghost p = builds_on(target.deep_view(), dropped.deep_view());
    !has_any(
        &plan.intents,
        |d: &IntentDefinitionV1| -> (b: bool)
            ensures
                b == p(d.deep_view())
            {
                !d.intent_ref.same(target) && !holds(dropped, &d.intent_ref) && holds(
                    &d.depends_on,
                    &target.intent_id,
                )
            },
        Ghost(p),
    )
}

/// Lists the intents of a plan that stay when the target is dropped.
pub(crate) fn list_retained(
    plan: &IntentPlanV1,
    dropped: &Vec<IntentVersionRef>,
    target: &IntentVersionRef,
) -> (r: Vec<IntentVersionRef>)
    ensures
        r.deep_view() == retained_refs(plan.deep_view(), dropped.deep_view(), target.deep_view()),
{
    let refs = refs_of_plan(plan);
    let ghost v = refs.deep_view();
    let ghost p = stays(target.deep_view(), dropped.deep_view());
    let mut r: Vec<IntentVersionRef> = Vec::new();
    let mut i: usize = 0;
    assert(v.take(0) =~= Seq::empty());
    assert(r.deep_view() =~= Seq::empty());
    while i < refs.len()
        invariant
            i <= refs.len(),
            v == refs.deep_view(),
            p == stays(target.deep_view(), dropped.deep_view()),
            r.deep_view() == selected(v.take(i as int), p),
        decreases refs.len() - i,
    {
        proof {
            assert(v.take(i + 1).drop_last() =~= v.take(i as int));
            assert(v.take(i + 1).last() == refs@[i as int].deep_view());
        }
        if !refs[i].same(target) && !holds(dropped, &refs[i]) {
            let ghost had = r;
            let item = refs[i].duplicate();
            r.push(item);
            proof {
                lemma_push_view(had, item, r);
            }
        }
        i = i + 1;
    }
    assert(v.take(i as int) =~= v);
    r
}

// A requested preview.

/// The number before `n`, or 0.
pub open spec fn previous_number(n: u64) -> u64 {
    if n == 0 {
        0
    } else {
        (n - 1) as u64
    }
}

/// The layer is one of an intent and was completed before a record.
pub open spec fn is_earlier_layer_of(target: IntentVersionRefView, sequence: u64) -> spec_fn(
    IntentLayerStateV1View,
) -> bool {
    |l: IntentLayerStateV1View|
        l.layer_stream_sequence < sequence && l.layer_manifest.core.intent_ref == target
}

/// The artifact belongs to a file.
pub open spec fn is_hunk() -> spec_fn(EffectiveIntentArtifactV1View) -> bool {
    |a: EffectiveIntentArtifactV1View|
        a.binding.subject is FileHunk
}

/// The identities of artifacts.
pub open spec fn artifact_ids_of(artifacts: Seq<EffectiveIntentArtifactV1View>) -> Seq<Seq<char>> {
    Seq::new(artifacts.len(), |i: int| artifacts[i].binding.artifact_id)
}

/// The identities of the artifacts of the file at a path.
pub open spec fn artifact_ids_at(artifacts: Seq<EffectiveIntentArtifactV1View>, path: Seq<char>) -> Seq<
    Seq<char>,
> {
    artifact_ids_of(selected(artifacts, is_hunk_at(path)))
}

/// The effect on a file names exactly the artifacts of that file.
pub open spec fn file_effect_fits(artifacts: Seq<EffectiveIntentArtifactV1View>) -> spec_fn(
    IntentOperationFileSummaryV1View,
) -> bool {
    |f: IntentOperationFileSummaryV1View|
        any_where(artifacts, is_hunk_at(f.normalized_relative_path)) && same_items(
            f.artifact_ids,
            artifact_ids_at(artifacts, f.normalized_relative_path),
        )
}

/// The paths of the files that an operation has an effect on.
pub open spec fn paths_in_effects(files: Seq<IntentOperationFileSummaryV1View>) -> Seq<Seq<char>> {
    Seq::new(files.len(), |i: int| files[i].normalized_relative_path)
}

/// The file of an artifact is among some paths.
pub open spec fn is_covered(paths: Seq<Seq<char>>) -> spec_fn(EffectiveIntentArtifactV1View) -> bool {
    |a: EffectiveIntentArtifactV1View| paths.contains(artifact_path_of(a.binding))
}

/// The effects of an operation are exactly on the files of a layer.
pub open spec fn effects_fit(
    artifacts: Seq<EffectiveIntentArtifactV1View>,
    files: Seq<IntentOperationFileSummaryV1View>,
) -> bool {
    &&& distinct(paths_in_effects(files))
    &&& all_where(files, file_effect_fits(artifacts))
    &&& all_where(artifacts, is_covered(paths_in_effects(files)))
}

/// The check that the files of an operation that can be executed are those of its layer.
pub open spec fn executable_verdict(
    preview: IntentOperationPreviewV1View,
    layers: IntentLayerProjectionV1View,
    target: IntentVersionRefView,
    sequence: u64,
) -> Verdict {
    match last_where(layers.layers, is_earlier_layer_of(target, sequence)) {
        None => Err("executable Intent operation request has no prior layer"@),
        Some(k) => chain(
            check(
                all_where(layers.layers[k].artifacts, is_hunk()),
                "executable Intent operation layer contains a non-file artifact"@,
            ),
            check(
                effects_fit(layers.layers[k].artifacts, preview.file_effects),
                "Intent operation request file set does not match its exact layer"@,
            ),
        ),
    }
}

/// The check that a requested preview is what the host derives from its own state.
pub open spec fn requested_preview_verdict(
    preview: IntentOperationPreviewV1View,
    plan: IntentPlanV1View,
    layers: IntentLayerProjectionV1View,
    dropped: Seq<IntentVersionRefView>,
    sequence: u64,
) -> Verdict {
    let target = preview.target_intents[0];
    chain(
        check(
            preview.target_is_leaf == is_leaf(plan, dropped, target),
            "Intent operation request carries a stale dependency result"@,
        ),
        chain(
            check(
                preview.retained_intents == retained_refs(plan, dropped, target),
                "Intent operation request carries a forged retained-intent set"@,
            ),
            chain(
                check(
                    preview.operation_id == drop_operation_id(
                        plan,
                        layers,
                        dropped.contains(target),
                        target,
                        preview.workspace_revision,
                        previous_number(sequence),
                    ),
                    "Intent operation request identity is not runtime-derived"@,
                ),
                if preview.conflicts.len() == 0 {
                    executable_verdict(preview, layers, target, sequence)
                } else {
                    Ok(())
                },
            ),
        ),
    )
}

/// Tells whether an artifact belongs to a file.
pub(crate) fn is_file_hunk(a: &EffectiveIntentArtifactV1) -> (r: bool)
    ensures
        r == (a.deep_view().binding.subject is FileHunk),
{
    match &a.binding.subject {
        BoundedIntentArtifactSubjectV1::FileHunk { .. } => true,
        _ => false,
    }
}

/// Tells whether an artifact is one of the file at a path.
pub(crate) fn is_hunk_of(a: &EffectiveIntentArtifactV1, path: &String) -> (r: bool)
    ensures
        r == is_hunk_at(path@)(a.deep_view()),
{
    match &a.binding.subject {
        BoundedIntentArtifactSubjectV1::FileHunk { normalized_relative_path, .. } => {
            same_text(normalized_relative_path.as_str(), path.as_str())
        },
        _ => false,
    }
}

/// Lists the identities of the artifacts of the file at a path.
pub(crate) fn list_ids_at(artifacts: &Vec<EffectiveIntentArtifactV1>, path: &String) -> (r: Vec<
    IntentArtifactId,
>)
    ensures
        r.deep_view() == artifact_ids_at(artifacts.deep_view(), path@),
{
    let ghost v = artifacts.deep_view();
    let ghost p = is_hunk_at(path@);
    let mut r: Vec<IntentArtifactId> = Vec::new();
    let mut i: usize = 0;
    assert(v.take(0) =~= Seq::empty());
    assert(r.deep_view() =~= artifact_ids_of(selected(v.take(0), p)));
    while i < artifacts.len()
        invariant
            i <= artifacts.len(),
            v == artifacts.deep_view(),
            p == is_hunk_at(path@),
            r.deep_view() == artifact_ids_of(selected(v.take(i as int), p)),
        decreases artifacts.len() - i,
    {
        proof {
            assert(v.take(i + 1).drop_last() =~= v.take(i as int));
            assert(v.take(i + 1).last() == artifacts@[i as int].deep_view());
        }
        if is_hunk_of(&artifacts[i], path) {
            let ghost had = r;
            let item = artifacts[i].binding.artifact_id.duplicate();
            r.push(item);
            proof {
                lemma_push_view(had, item, r);
                assert(r.deep_view() =~= artifact_ids_of(selected(v.take(i + 1), p)));
            }
        }
        i = i + 1;
    }
    assert(v.take(i as int) =~= v);
    r
}

fn same_ids(a: &Vec<IntentArtifactId>, b: &Vec<IntentArtifactId>) -> (r: bool)
    ensures
        r == same_items(a.deep_view(), b.deep_view()),
{
    let ghost pa = member_of(a.deep_view());
    let ghost pb = member_of(b.deep_view());
    has_all(
        a,
        |x: &IntentArtifactId| -> (o: bool)
            ensures
                o == pb(x.deep_view())
            { holds(b, x) },
        Ghost(pb),
    ) && has_all(
        b,
        |x: &IntentArtifactId| -> (o: bool)
            ensures
                o == pa(x.deep_view())
            { holds(a, x) },
        Ghost(pa),
    )
}

fn fits_effect(artifacts: &Vec<EffectiveIntentArtifactV1>, f: &IntentOperationFileSummaryV1) -> (r: bool)
    ensures
        r == file_effect_fits(artifacts.deep_view())(f.deep_view()),
{
    let path = &f.normalized_relative_path;
    let ghost p = is_hunk_at(path@);
    let found = has_any(
        artifacts,
        |a: &EffectiveIntentArtifactV1| -> (b: bool)
            ensures
                b == p(a.deep_view())
            { is_hunk_of(a, path) },
        Ghost(p),
    );
    found && same_ids(&f.artifact_ids, &list_ids_at(artifacts, path))
}

fn list_effect_paths(files: &Vec<IntentOperationFileSummaryV1>) -> (r: Vec<String>)
    ensures
        r.deep_view() == paths_in_effects(files.deep_view()),
{
    let ghost all = paths_in_effects(files.deep_view());
    let mut r: Vec<String> = Vec::new();
    let mut i: usize = 0;
    while i < files.len()
        invariant
            i <= files.len(),
            all == paths_in_effects(files.deep_view()),
            r.deep_view() =~= all.take(i as int),
        decreases files.len() - i,
    {
        let ghost had = r;
        let path = files[i].normalized_relative_path.duplicate();
        assert(all[i as int] == path@);
        r.push(path);
        proof {
            lemma_push_view(had, path, r);
        }
        i = i + 1;
    }
    assert(r.deep_view() =~= all);
    r
}

fn fit_effects(
    artifacts: &Vec<EffectiveIntentArtifactV1>,
    files: &Vec<IntentOperationFileSummaryV1>,
) -> (r: bool)
    ensures
        r == effects_fit(artifacts.deep_view(), files.deep_view()),
{
    let paths = list_effect_paths(files);
    let ghost p = file_effect_fits(artifacts.deep_view());
    let ghost q = is_covered(paths.deep_view());
    all_distinct(&paths) && has_all(
        files,
        |f: &IntentOperationFileSummaryV1| -> (b: bool)
            ensures
                b == p(f.deep_view())
            { fits_effect(artifacts, f) },
        Ghost(p),
    ) && has_all(
        artifacts,
        |a: &EffectiveIntentArtifactV1| -> (b: bool)
            ensures
                b == q(a.deep_view())
            { holds(&paths, &artifact_path(&a.binding)) },
        Ghost(q),
    )
}

fn validate_executable(
    preview: &IntentOperationPreviewV1,
    layers: &IntentLayerProjectionV1,
    target: &IntentVersionRef,
    sequence: u64,
) -> (r: Result<(), KernelError>)
    ensures
        verdict(r) == executable_verdict(
            preview.deep_view(),
            layers.deep_view(),
            target.deep_view(),
            sequence,
        ),
{
    let ghost p = is_earlier_layer_of(target.deep_view(), sequence);
    let found = find_last(
        &layers.layers,
        |l: &IntentLayerStateV1| -> (b: bool)
            ensures
                b == p(l.deep_view())
            {
                l.layer_stream_sequence < sequence && l.layer_manifest.core.intent_ref.same(target)
            },
        Ghost(p),
    );
    let k = match found {
        None => {
            return reject("executable Intent operation request has no prior layer");
        },
        Some(k) => k,
    };
    assert(layers.layers.deep_view()[k as int] == layers.layers@[k as int].deep_view());
    let artifacts = &layers.layers[k].artifacts;
    let ghost q = is_hunk();
    let plain = has_all(
        artifacts,
        |a: &EffectiveIntentArtifactV1| -> (b: bool)
            ensures
                b == q(a.deep_view())
            { is_file_hunk(a) },
        Ghost(q),
    );
    if !plain {
        return reject("executable Intent operation layer contains a non-file artifact");
    }
    if !fit_effects(artifacts, &preview.file_effects) {
        return reject("Intent operation request file set does not match its exact layer");
    }
    Ok(())
}

fn validate_requested_preview(
    preview: &IntentOperationPreviewV1,
    plan: &IntentPlanV1,
    layers: &IntentLayerProjectionV1,
    dropped: &Vec<IntentVersionRef>,
    sequence: u64,
) -> (r: Result<(), KernelError>)
    requires
        preview.target_intents.len() == 1,
    ensures
        verdict(r) == requested_preview_verdict(
            preview.deep_view(),
            plan.deep_view(),
            layers.deep_view(),
            dropped.deep_view(),
            sequence,
        ),
{
    let target = &preview.target_intents[0];
    assert(preview.deep_view().target_intents[0] == target.deep_view());
    if preview.target_is_leaf != is_leaf_target(plan, dropped, target) {
        return reject("Intent operation request carries a stale dependency result");
    }
    if !preview.retained_intents.same(&list_retained(plan, dropped, target)) {
        return reject("Intent operation request carries a forged retained-intent set");
    }
    let frontier: u64 = if sequence == 0 {
        0
    } else {
        sequence - 1
    };
    let expected = operation_id_for_preview_target(
        plan,
        layers,
        holds(dropped, target),
        target,
        preview.workspace_revision,
        frontier,
    );
    if !preview.operation_id.same(&expected) {
        return reject("Intent operation request identity is not runtime-derived");
    }
    if preview.conflicts.len() == 0 {
        return validate_executable(preview, layers, target, sequence);
    }
    Ok(())
}

// Replay.

/// The event belongs to an operation.
pub open spec fn is_operation_event() -> spec_fn(SessionStreamRecordView) -> bool {
    |r: SessionStreamRecordView|
        match intent_event_in(r) {
            Some(IntentEventV1View::OperationRequested { .. }) => true,
            Some(IntentEventV1View::OperationPrepared { .. }) => true,
            Some(IntentEventV1View::OperationResolved { .. }) => true,
            Some(IntentEventV1View::ConflictRecorded { .. }) => true,
            _ => false,
        }
}

/// The check that a request speaks of an accepted plan.
pub open spec fn request_verdict(
    admission: IntentStackProjectionV1View,
    layers: IntentLayerProjectionV1View,
    s: OperationReplayView,
    sequence: u64,
    preview: IntentOperationPreviewV1View,
) -> Verdict {
    match accepted_version(admission, preview.stack_version) {
        None => Err("Intent operation request references an unaccepted plan version"@),
        Some(accepted) => chain(
            check(
                preview.operation_kind == IntentOperationKind::Drop && preview.stack_id
                    == accepted.plan.stack_id && accepted.accepted_stream_sequence < sequence
                    && preview.target_intents.len() == 1 && plan_refs(accepted.plan).contains(
                    preview.target_intents[0],
                ),
                "Intent operation request references unsupported or stale authority"@,
            ),
            chain(
                requested_preview_verdict(preview, accepted.plan, layers, s.dropped, sequence),
                check(
                    find_key::<OperationRecord>(s.operations, preview.operation_id) is None,
                    "Intent operation was requested more than once"@,
                ),
            ),
        ),
    }
}

/// The replay after a request.
pub open spec fn after_request(
    admission: IntentStackProjectionV1View,
    layers: IntentLayerProjectionV1View,
    s: OperationReplayView,
    sequence: u64,
    preview: IntentOperationPreviewV1View,
) -> Result<OperationReplayView, Seq<char>> {
    yields(
        request_verdict(admission, layers, s, sequence, preview),
        OperationReplayView {
            operations: s.operations.push(
                OperationRecordView {
                    preview,
                    requested_sequence: sequence,
                    prepared: None,
                    prepared_sequence: None,
                    resolved: None,
                    resolved_sequence: None,
                },
            ),
            ..s
        },
    )
}

/// A prepare event says exactly what the request of its operation says.
pub open spec fn prepare_fits(
    op: OperationRecordView,
    layer: IntentLayerStateV1View,
    sequence: u64,
    stack_id: Seq<char>,
    stack_version: u64,
    preview_digest: Seq<char>,
    artifact_manifest_digest: Seq<char>,
    workspace_revision: u64,
) -> bool {
    &&& sequence > op.requested_sequence
    &&& op.prepared is None
    &&& op.resolved is None
    &&& stack_id == op.preview.stack_id
    &&& stack_version == op.preview.stack_version
    &&& preview_digest == op.preview.preview_digest
    &&& workspace_revision == op.preview.workspace_revision
    &&& artifact_manifest_digest == layer.layer_manifest.artifact_manifest_digest
}

/// An operation once it is prepared.
pub open spec fn prepared_operation(
    op: OperationRecordView,
    p: PreparedOperationView,
    sequence: u64,
) -> OperationRecordView {
    OperationRecordView { prepared: Some(p), prepared_sequence: Some(sequence), ..op }
}

/// The replay after a prepare event.
pub open spec fn after_prepare(
    layers: IntentLayerProjectionV1View,
    s: OperationReplayView,
    sequence: u64,
    e: IntentEventV1View,
) -> Result<OperationReplayView, Seq<char>> {
    match e {
        IntentEventV1View::OperationPrepared {
            operation_id,
            stack_id,
            stack_version,
            preview_digest,
            artifact_manifest_digest,
            workspace_revision,
            permission_policy_digest,
            approval_authority_id,
            mutation_batch_id,
            ..
        } => match find_key::<OperationRecord>(s.operations, operation_id) {
            None => Err("Intent operation prepare precedes its request"@),
            Some(k) => match latest_layer(layers, s.operations[k].preview.target_intents[0]) {
                None => Err("Intent operation prepare has no target layer"@),
                Some(layer) => yields(
                    check(
                        prepare_fits(
                            s.operations[k],
                            layer,
                            sequence,
                            stack_id,
                            stack_version,
                            preview_digest,
                            artifact_manifest_digest,
                            workspace_revision,
                        ),
                        "Intent operation prepare does not match its exact request"@,
                    ),
                    OperationReplayView {
                        operations: s.operations.update(
                            k,
                            prepared_operation(
                                s.operations[k],
                                PreparedOperationView {
                                    preview_digest,
                                    permission_policy_digest,
                                    approval_authority_id,
                                    mutation_batch_id,
                                },
                                sequence,
                            ),
                        ),
                        ..s
                    },
                ),
            },
        },
        _ => Ok(s),
    }
}

/// A result that is only reached through prepared effects.
pub open spec fn is_effectful(resolution: IntentOperationResolution) -> bool {
    resolution == IntentOperationResolution::Committed || resolution
        == IntentOperationResolution::PartiallyApplied || resolution
        == IntentOperationResolution::Interrupted
}

/// The check that a result belongs to its operation.
pub open spec fn result_verdict(
    op: OperationRecordView,
    sequence: u64,
    resolution: IntentOperationResolution,
    mutation_batch_id: Option<Seq<char>>,
) -> Verdict {
    chain(
        check(
            op.resolved is None && sequence > op.requested_sequence,
            "Intent operation has a duplicate or out-of-order terminal"@,
        ),
        chain(
            check(
                is_effectful(resolution) ==> op.prepared is Some,
                "effectful Intent operation terminal has no prepared authority"@,
            ),
            check(
                op.prepared is Some && mutation_batch_id is Some ==> mutation_batch_id->0
                    == op.prepared->0.mutation_batch_id,
                "Intent operation terminal references another mutation batch"@,
            ),
        ),
    )
}

/// The replay after a result.
pub open spec fn after_result(s: OperationReplayView, sequence: u64, e: IntentEventV1View) -> Result<
    OperationReplayView,
    Seq<char>,
> {
    match e {
        IntentEventV1View::OperationResolved {
            operation_id,
            resolution,
            mutation_batch_id,
            result_snapshot_id,
            error_code,
            ..
        } => match find_key::<OperationRecord>(s.operations, operation_id) {
            None => Err("Intent operation result precedes its request"@),
            Some(k) => yields(
                result_verdict(s.operations[k], sequence, resolution, mutation_batch_id),
                OperationReplayView {
                    operations: s.operations.update(
                        k,
                        OperationRecordView {
                            resolved: Some(
                                ResolvedOperationView {
                                    resolution,
                                    mutation_batch_id,
                                    result_snapshot_id,
                                    error_code,
                                },
                            ),
                            resolved_sequence: Some(sequence),
                            ..s.operations[k]
                        },
                    ),
                    dropped: if resolution == IntentOperationResolution::Committed {
                        with_new(s.dropped, s.operations[k].preview.target_intents)
                    } else {
                        s.dropped
                    },
                    ..s
                },
            ),
        },
        _ => Ok(s),
    }
}

/// The replay after a recorded conflict.
pub open spec fn after_conflict(
    admission: IntentStackProjectionV1View,
    s: OperationReplayView,
    sequence: u64,
    stack_id: Seq<char>,
    stack_version: u64,
    conflict: IntentConflictV1View,
) -> Result<OperationReplayView, Seq<char>> {
    match accepted_version(admission, stack_version) {
        None => Err("Intent conflict references an unaccepted plan version"@),
        Some(accepted) => yields(
            check(
                stack_id == accepted.plan.stack_id && accepted.accepted_stream_sequence < sequence,
                "Intent conflict references another stack version"@,
            ),
            OperationReplayView { conflicts: s.conflicts.push(conflict), ..s },
        ),
    }
}

/// The replay of nothing.
pub open spec fn no_operations() -> OperationReplayView {
    OperationReplayView {
        operations: Seq::empty(),
        conflicts: Seq::empty(),
        dropped: Seq::empty(),
    }
}

/// The replay after the first `n` records.
pub open spec fn operations_after(
    records: Seq<SessionStreamRecordView>,
    admission: IntentStackProjectionV1View,
    layers: IntentLayerProjectionV1View,
    n: int,
) -> Result<OperationReplayView, Seq<char>>
    decreases n,
{
    if n <= 0 {
        Ok(no_operations())
    } else {
        match operations_after(records, admission, layers, n - 1) {
            Err(m) => Err(m),
            Ok(s) => {
                let sequence = records[n - 1].stream_sequence;
                match intent_event_in(records[n - 1]) {
                    Some(e) => match e {
                        IntentEventV1View::OperationRequested { preview, .. } => {
                            after_request(admission, layers, s, sequence, preview)
                        },
                        IntentEventV1View::OperationPrepared { .. } => {
                            after_prepare(layers, s, sequence, e)
                        },
                        IntentEventV1View::OperationResolved { .. } => {
                            after_result(s, sequence, e)
                        },
                        IntentEventV1View::ConflictRecorded {
                            stack_id,
                            stack_version,
                            conflict,
                            ..
                        } => after_conflict(
                            admission,
                            s,
                            sequence,
                            stack_id,
                            stack_version,
                            conflict,
                        ),
                        _ => Ok(s),
                    },
                    None => Ok(s),
                }
            },
        }
    }
}

// What must hold of resolved operations.

/// The batch of an operation ended before the operation did.
pub open spec fn batch_ended_first(
    records: Seq<SessionStreamRecordView>,
    op: OperationRecordView,
    batch_id: Seq<char>,
) -> bool {
    match first_where(records, ends_batch(batch_id)) {
        Some(k) => op.resolved_sequence matches Some(s) && records[k].stream_sequence < s,
        None => false,
    }
}

/// The check of a committed operation.
pub open spec fn committed_verdict(
    records: Seq<SessionStreamRecordView>,
    op: OperationRecordView,
    result_snapshot_id: Option<Seq<char>>,
) -> Verdict {
    match op.prepared {
        None => Err("committed Intent operation has no prepare"@),
        Some(p) => match batch_outcome(records, op, p) {
            Err(m) => Err(m),
            Ok(BatchOutcomeView::Applied { result_snapshot_id: own, .. }) => chain(
                check(
                    result_snapshot_id == Some(own),
                    "committed Intent operation result snapshot does not match its batch"@,
                ),
                check(
                    batch_ended_first(records, op, p.mutation_batch_id),
                    "committed Intent operation terminal precedes its batch terminal"@,
                ),
            ),
            Ok(_) => Err("committed Intent operation has no fully applied mutation batch"@),
        },
    }
}

/// The check of a partially applied operation.
pub open spec fn partial_verdict(records: Seq<SessionStreamRecordView>, op: OperationRecordView) -> Verdict {
    match op.prepared {
        None => Err("partial Intent operation has no prepare"@),
        Some(p) => match batch_outcome(records, op, p) {
            Err(m) => Err(m),
            Ok(o) => check(
                o is Partial || o is Conflicted,
                "partial Intent operation has no partial/conflicting batch evidence"@,
            ),
        },
    }
}

/// The check of an interrupted operation.
pub open spec fn interrupted_verdict(
    records: Seq<SessionStreamRecordView>,
    op: OperationRecordView,
) -> Verdict {
    match op.prepared {
        None => Ok(()),
        Some(p) => match batch_outcome(records, op, p) {
            Err(m) => Err(m),
            Ok(o) => check(
                !(o is Applied) && !(o is FullyAppliedUnfinished),
                "fully applied Intent operation cannot resolve as interrupted"@,
            ),
        },
    }
}

/// The check that the stream proves the result of an operation.
pub open spec fn terminal_verdict(records: Seq<SessionStreamRecordView>) -> spec_fn(
    OperationRecordView,
) -> Verdict {
    |op: OperationRecordView|
        match op.resolved {
            None => Ok(()),
            Some(end) => match end.resolution {
                IntentOperationResolution::Committed => committed_verdict(
                    records,
                    op,
                    end.result_snapshot_id,
                ),
                IntentOperationResolution::Cancelled => check(
                    op.prepared matches Some(p) ==> !has_evidence(records, p.mutation_batch_id),
                    "Intent operation was cancelled after file preparation began"@,
                ),
                IntentOperationResolution::Rejected => check(
                    op.prepared is None,
                    "rejected Intent operation cannot have prepared mutation authority"@,
                ),
                IntentOperationResolution::Conflicted => Ok(()),
                IntentOperationResolution::PartiallyApplied => partial_verdict(records, op),
                IntentOperationResolution::Interrupted => interrupted_verdict(records, op),
            },
        }
}

/// Operations are ordered by their identities.
pub open spec fn operation_order() -> spec_fn(OperationRecordView, OperationRecordView) -> bool {
    |a: OperationRecordView, b: OperationRecordView|
        precedes(a.preview.operation_id, b.preview.operation_id)
}

/// Versions of intents are ordered by the identity of the intent, then by their number.
pub open spec fn ref_order() -> spec_fn(IntentVersionRefView, IntentVersionRefView) -> bool {
    |a: IntentVersionRefView, b: IntentVersionRefView|
        precedes(a.intent_id, b.intent_id) || (a.intent_id == b.intent_id && a.version < b.version)
}

/// The replay of a whole stream, with the operations in the order of their identities.
pub open spec fn replay_of(
    records: Seq<SessionStreamRecordView>,
    admission: IntentStackProjectionV1View,
    layers: IntentLayerProjectionV1View,
) -> Result<OperationReplayView, Seq<char>> {
    if latest_accepted(admission) is None {
        yields(
            check(
                !any_where(records, is_operation_event()),
                "Intent operation events exist without an accepted IntentPlan"@,
            ),
            no_operations(),
        )
    } else {
        match batch_facts_verdict(records) {
            Err(m) => Err(m),
            Ok(_) => match operations_after(records, admission, layers, records.len() as int) {
                Err(m) => Err(m),
                Ok(s) => {
                    let ops = items_in_order(s.operations, operation_order());
                    yields(
                        check_each(ops, terminal_verdict(records)),
                        OperationReplayView { operations: ops, ..s },
                    )
                },
            },
        }
    }
}

/// The state that an operation is in.
pub open spec fn operation_state(records: Seq<SessionStreamRecordView>, op: OperationRecordView) -> IntentOperationStateV1 {
    match op.resolved {
        Some(end) => match end.resolution {
            IntentOperationResolution::Committed => IntentOperationStateV1::Committed,
            IntentOperationResolution::Rejected => IntentOperationStateV1::Rejected,
            IntentOperationResolution::Cancelled => IntentOperationStateV1::Cancelled,
            IntentOperationResolution::Conflicted => IntentOperationStateV1::Conflicted,
            IntentOperationResolution::PartiallyApplied => IntentOperationStateV1::PartiallyApplied,
            IntentOperationResolution::Interrupted => IntentOperationStateV1::Interrupted,
        },
        None => match op.prepared {
            Some(p) => if has_evidence(records, p.mutation_batch_id) {
                IntentOperationStateV1::Applying
            } else {
                IntentOperationStateV1::Prepared
            },
            None => IntentOperationStateV1::Requested,
        },
    }
}

/// What is said of an operation.
pub open spec fn operation_summary(
    records: Seq<SessionStreamRecordView>,
    op: OperationRecordView,
) -> IntentOperationSummaryV1View {
    let own = match op.prepared {
        Some(p) => Some(p.mutation_batch_id),
        None => None,
    };
    IntentOperationSummaryV1View {
        operation_id: op.preview.operation_id,
        operation_kind: op.preview.operation_kind,
        target_intents: op.preview.target_intents,
        state: operation_state(records, op),
        mutation_batch_id: match op.resolved {
            Some(end) => match end.mutation_batch_id {
                Some(id) => Some(id),
                None => own,
            },
            None => own,
        },
        result_snapshot_id: match op.resolved {
            Some(end) => end.result_snapshot_id,
            None => None,
        },
        error_code: match op.resolved {
            Some(end) => end.error_code,
            None => None,
        },
    }
}

/// What is said of all operations.
pub open spec fn operation_summaries(
    records: Seq<SessionStreamRecordView>,
    ops: Seq<OperationRecordView>,
) -> Seq<IntentOperationSummaryV1View> {
    Seq::new(ops.len(), |i: int| operation_summary(records, ops[i]))
}

/// The intents that committed operations drop, in the order of the operations.
pub open spec fn dropped_by(ops: Seq<OperationRecordView>) -> Seq<IntentVersionRefView>
    decreases ops.len(),
{
    if ops.len() == 0 {
        Seq::empty()
    } else {
        let before = dropped_by(ops.drop_last());
        if ops.last().resolved matches Some(end) && end.resolution
            == IntentOperationResolution::Committed {
            with_new(before, ops.last().preview.target_intents)
        } else {
            before
        }
    }
}

/// The projection that a replay shows.
pub open spec fn operation_projection_of(
    records: Seq<SessionStreamRecordView>,
    s: OperationReplayView,
) -> IntentOperationProjectionV1View {
    IntentOperationProjectionV1View {
        operations: operation_summaries(records, s.operations),
        conflicts: s.conflicts,
        dropped_intents: items_in_order(dropped_by(s.operations), ref_order()),
    }
}

/// What the stream says of operations.
pub open spec fn operations_of(
    records: Seq<SessionStreamRecordView>,
    admission: IntentStackProjectionV1View,
    layers: IntentLayerProjectionV1View,
) -> Result<IntentOperationProjectionV1View, Seq<char>> {
    match replay_of(records, admission, layers) {
        Err(m) => Err(m),
        Ok(s) => Ok(operation_projection_of(records, s)),
    }
}

proof fn lemma_operations_fail(
    records: Seq<SessionStreamRecordView>,
    admission: IntentStackProjectionV1View,
    layers: IntentLayerProjectionV1View,
    n: int,
    end: int,
)
    requires
        0 <= n <= end,
        operations_after(records, admission, layers, n) is Err,
    ensures
        operations_after(records, admission, layers, end) == operations_after(
            records,
            admission,
            layers,
            n,
        ),
    decreases end - n,
{
    if n < end {
        lemma_operations_fail(records, admission, layers, n, end - 1);
    }
}

/// Every operation of a replay has one target.
pub open spec fn single_targets(ops: Seq<OperationRecordView>) -> bool {
    forall|i: int| 0 <= i < ops.len() ==> (#[trigger] ops[i]).preview.target_intents.len() == 1
}

fn take_request(
    admission: &IntentStackProjectionV1,
    layers: &IntentLayerProjectionV1,
    s: &mut OperationReplay,
    sequence: u64,
    preview: &IntentOperationPreviewV1,
) -> (r: Result<(), KernelError>)
    ensures
        yields(verdict(r), final(s).deep_view()) == after_request(
            admission.deep_view(),
            layers.deep_view(),
            old(s).deep_view(),
            sequence,
            preview.deep_view(),
        ),
{
    let accepted = match admission.accepted_plan(preview.stack_version) {
        None => {
            return reject("Intent operation request references an unaccepted plan version");
        },
        Some(accepted) => accepted,
    };
    if preview.operation_kind != IntentOperationKind::Drop || !preview.stack_id.same(
        &accepted.plan.stack_id,
    ) || accepted.accepted_stream_sequence >= sequence || preview.target_intents.len() != 1 {
        return reject("Intent operation request references unsupported or stale authority");
    }
    assert(preview.deep_view().target_intents[0] == preview.target_intents@[0].deep_view());
    if !plan_holds(&accepted.plan, &preview.target_intents[0]) {
        return reject("Intent operation request references unsupported or stale authority");
    }
    validate_requested_preview(preview, &accepted.plan, layers, &s.dropped, sequence)?;
    if position_by_key(&s.operations, preview.operation_id.as_str()).is_some() {
        return reject("Intent operation was requested more than once");
    }
    let ghost had = s.operations;
    let op = OperationRecord {
        preview: preview.duplicate(),
        requested_sequence: sequence,
        prepared: None,
        prepared_sequence: None,
        resolved: None,
        resolved_sequence: None,
    };
    s.operations.push(op);
    proof {
        lemma_push_view(had, op, s.operations);
    }
    Ok(())
}

fn take_prepare(
    layers: &IntentLayerProjectionV1,
    s: &mut OperationReplay,
    sequence: u64,
    e: &IntentEventV1,
) -> (r: Result<(), KernelError>)
    requires
        single_targets(old(s).deep_view().operations),
    ensures
        yields(verdict(r), final(s).deep_view()) == after_prepare(
            layers.deep_view(),
            old(s).deep_view(),
            sequence,
            e.deep_view(),
        ),
{
    match e {
        IntentEventV1::OperationPrepared {
            operation_id,
            stack_id,
            stack_version,
            preview_digest,
            artifact_manifest_digest,
            workspace_revision,
            permission_policy_digest,
            approval_authority_id,
            mutation_batch_id,
            ..
        } => {
            let k = match position_by_key(&s.operations, operation_id.as_str()) {
                None => {
                    return reject("Intent operation prepare precedes its request");
                },
                Some(k) => k,
            };
            assert(s.operations.deep_view()[k as int] == s.operations@[k as int].deep_view());
            assert(s.operations.deep_view()[k as int].preview.target_intents.len() == 1);
            let op = &s.operations[k];
            assert(op.deep_view().preview.target_intents[0]
                == op.preview.target_intents@[0].deep_view());
            let layer = match layers.latest_layer_for(&op.preview.target_intents[0]) {
                None => {
                    return reject("Intent operation prepare has no target layer");
                },
                Some(layer) => layer,
            };
            if sequence <= op.requested_sequence || op.prepared.is_some() || op.resolved.is_some()
                || !stack_id.same(&op.preview.stack_id) || stack_version.get()
                != op.preview.stack_version.get() || !preview_digest.same(
                &op.preview.preview_digest,
            ) || *workspace_revision != op.preview.workspace_revision
                || !artifact_manifest_digest.same(&layer.layer_manifest.artifact_manifest_digest) {
                return reject("Intent operation prepare does not match its exact request");
            }
            let mut next = op.duplicate();
            next.prepared = Some(
                PreparedOperation {
                    preview_digest: preview_digest.duplicate(),
                    permission_policy_digest: permission_policy_digest.duplicate(),
                    approval_authority_id: approval_authority_id.duplicate(),
                    mutation_batch_id: mutation_batch_id.duplicate(),
                },
            );
            next.prepared_sequence = Some(sequence);
            let ghost had = s.operations;
            let ghost item = next;
            s.operations.set(k, next);
            proof {
                lemma_update_view(had, k as int, item, s.operations);
            }
            Ok(())
        },
        _ => Ok(()),
    }
}

fn validate_result(
    op: &OperationRecord,
    sequence: u64,
    resolution: IntentOperationResolution,
    mutation_batch_id: &Option<String>,
) -> (r: Result<(), KernelError>)
    ensures
        verdict(r) == result_verdict(
            op.deep_view(),
            sequence,
            resolution,
            mutation_batch_id.deep_view(),
        ),
{
    if op.resolved.is_some() || sequence <= op.requested_sequence {
        return reject("Intent operation has a duplicate or out-of-order terminal");
    }
    let effectful = resolution == IntentOperationResolution::Committed || resolution
        == IntentOperationResolution::PartiallyApplied || resolution
        == IntentOperationResolution::Interrupted;
    if effectful && op.prepared.is_none() {
        return reject("effectful Intent operation terminal has no prepared authority");
    }
    let same = match (&op.prepared, mutation_batch_id) {
        (Some(p), Some(id)) => same_text(id.as_str(), p.mutation_batch_id.as_str()),
        _ => true,
    };
    if !same {
        return reject("Intent operation terminal references another mutation batch");
    }
    Ok(())
}

fn take_result(s: &mut OperationReplay, sequence: u64, e: &IntentEventV1) -> (r: Result<
    (),
    KernelError,
>)
    ensures
        yields(verdict(r), final(s).deep_view()) == after_result(
            old(s).deep_view(),
            sequence,
            e.deep_view(),
        ),
{
    match e {
        IntentEventV1::OperationResolved {
            operation_id,
            resolution,
            mutation_batch_id,
            result_snapshot_id,
            error_code,
            ..
        } => {
            let k = match position_by_key(&s.operations, operation_id.as_str()) {
                None => {
                    return reject("Intent operation result precedes its request");
                },
                Some(k) => k,
            };
            assert(s.operations.deep_view()[k as int] == s.operations@[k as int].deep_view());
            validate_result(&s.operations[k], sequence, *resolution, mutation_batch_id)?;
            let mut next = s.operations[k].duplicate();
            next.resolved = Some(
                ResolvedOperation {
                    resolution: *resolution,
                    mutation_batch_id: mutation_batch_id.duplicate(),
                    result_snapshot_id: result_snapshot_id.duplicate(),
                    error_code: *error_code,
                },
            );
            next.resolved_sequence = Some(sequence);
            if *resolution == IntentOperationResolution::Committed {
                let dropped = s.dropped.duplicate();
                s.dropped = add_new(dropped, &s.operations[k].preview.target_intents);
            }
            let ghost had = s.operations;
            let ghost item = next;
            s.operations.set(k, next);
            proof {
                lemma_update_view(had, k as int, item, s.operations);
            }
            Ok(())
        },
        _ => Ok(()),
    }
}

fn take_conflict(
    admission: &IntentStackProjectionV1,
    s: &mut OperationReplay,
    sequence: u64,
    stack_id: &IntentStackId,
    stack_version: IntentStackVersion,
    conflict: &IntentConflictV1,
) -> (r: Result<(), KernelError>)
    ensures
        yields(verdict(r), final(s).deep_view()) == after_conflict(
            admission.deep_view(),
            old(s).deep_view(),
            sequence,
            stack_id.deep_view(),
            stack_version.deep_view(),
            conflict.deep_view(),
        ),
{
    let accepted = match admission.accepted_plan(stack_version) {
        None => {
            return reject("Intent conflict references an unaccepted plan version");
        },
        Some(accepted) => accepted,
    };
    if !stack_id.same(&accepted.plan.stack_id) || accepted.accepted_stream_sequence >= sequence {
        return reject("Intent conflict references another stack version");
    }
    let ghost had = s.conflicts;
    let item = conflict.duplicate();
    s.conflicts.push(item);
    proof {
        lemma_push_view(had, item, s.conflicts);
    }
    Ok(())
}

fn validate_committed(
    records: &Vec<SessionStreamRecord>,
    op: &OperationRecord,
    result_snapshot_id: &Option<String>,
) -> (r: Result<(), KernelError>)
    ensures
        verdict(r) == committed_verdict(
            records.deep_view(),
            op.deep_view(),
            result_snapshot_id.deep_view(),
        ),
{
    let p = match &op.prepared {
        None => {
            return reject("committed Intent operation has no prepare");
        },
        Some(p) => p,
    };
    match find_batch_outcome(records, op, p)? {
        BatchOutcome::Applied { result_snapshot_id: own, .. } => {
            let same = match result_snapshot_id {
                Some(id) => same_text(id.as_str(), own.as_str()),
                None => false,
            };
            if !same {
                return reject(
                    "committed Intent operation result snapshot does not match its batch",
                );
            }
            let first = match find_batch_end(records, p.mutation_batch_id.as_str()) {
                Some(k) => {
                    assert(records.deep_view()[k as int] == records@[k as int].deep_view());
                    match op.resolved_sequence {
                        Some(s) => records[k].stream_sequence < s,
                        None => false,
                    }
                },
                None => false,
            };
            if !first {
                return reject("committed Intent operation terminal precedes its batch terminal");
            }
            Ok(())
        },
        _ => reject("committed Intent operation has no fully applied mutation batch"),
    }
}

fn validate_terminal(records: &Vec<SessionStreamRecord>, op: &OperationRecord) -> (r: Result<
    (),
    KernelError,
>)
    ensures
        verdict(r) == terminal_verdict(records.deep_view())(op.deep_view()),
{
    let end = match &op.resolved {
        None => {
            return Ok(());
        },
        Some(end) => end,
    };
    match end.resolution {
        IntentOperationResolution::Committed => validate_committed(
            records,
            op,
            &end.result_snapshot_id,
        ),
        IntentOperationResolution::Cancelled => {
            let touched = match &op.prepared {
                Some(p) => has_file_evidence(records, p.mutation_batch_id.as_str()),
                None => false,
            };
            if touched {
                return reject("Intent operation was cancelled after file preparation began");
            }
            Ok(())
        },
        IntentOperationResolution::Rejected => {
            if op.prepared.is_some() {
                return reject("rejected Intent operation cannot have prepared mutation authority");
            }
            Ok(())
        },
        IntentOperationResolution::Conflicted => Ok(()),
        IntentOperationResolution::PartiallyApplied => {
            let p = match &op.prepared {
                None => {
                    return reject("partial Intent operation has no prepare");
                },
                Some(p) => p,
            };
            match find_batch_outcome(records, op, p)? {
                BatchOutcome::Partial { .. } => Ok(()),
                BatchOutcome::Conflicted { .. } => Ok(()),
                _ => reject("partial Intent operation has no partial/conflicting batch evidence"),
            }
        },
        IntentOperationResolution::Interrupted => {
            let p = match &op.prepared {
                None => {
                    return Ok(());
                },
                Some(p) => p,
            };
            match find_batch_outcome(records, op, p)? {
                BatchOutcome::Applied { .. } => {
                    reject("fully applied Intent operation cannot resolve as interrupted")
                },
                BatchOutcome::FullyAppliedUnfinished { .. } => {
                    reject("fully applied Intent operation cannot resolve as interrupted")
                },
                _ => Ok(()),
            }
        },
    }
}

fn has_operation_events(records: &Vec<SessionStreamRecord>) -> (r: bool)
    ensures
        r == any_where(records.deep_view(), is_operation_event()),
{
    let ghost p = is_operation_event();
    has_any(
        records,
        |r: &SessionStreamRecord| -> (b: bool)
            ensures
                b == p(r.deep_view())
            {
                match intent_event_of(r) {
                    Some(IntentEventV1::OperationRequested { .. }) => true,
                    Some(IntentEventV1::OperationPrepared { .. }) => true,
                    Some(IntentEventV1::OperationResolved { .. }) => true,
                    Some(IntentEventV1::ConflictRecorded { .. }) => true,
                    _ => false,
                }
            },
        Ghost(p),
    )
}

/// Every operation of a replay has one target.
pub(crate) proof fn lemma_targets_stay_single(
    records: Seq<SessionStreamRecordView>,
    admission: IntentStackProjectionV1View,
    layers: IntentLayerProjectionV1View,
    n: int,
)
    requires
        0 <= n,
        operations_after(records, admission, layers, n) is Ok,
    ensures
        single_targets(operations_after(records, admission, layers, n)->Ok_0.operations),
    decreases n,
{
    if n > 0 {
        lemma_targets_stay_single(records, admission, layers, n - 1);
        let s = operations_after(records, admission, layers, n - 1)->Ok_0;
        if let Some(e) = intent_event_in(records[n - 1]) {
            match e {
                IntentEventV1View::OperationPrepared { operation_id, .. } => {
                    lemma_find_key::<OperationRecord>(s.operations, operation_id);
                },
                IntentEventV1View::OperationResolved { operation_id, .. } => {
                    lemma_find_key::<OperationRecord>(s.operations, operation_id);
                },
                _ => {},
            }
        }
    }
}

#[verifier::rlimit(40)]
fn collect_operations(
    records: &Vec<SessionStreamRecord>,
    admission: &IntentStackProjectionV1,
    layers: &IntentLayerProjectionV1,
) -> (r: Result<OperationReplay, KernelError>)
    ensures
        outcome(r) == operations_after(
            records.deep_view(),
            admission.deep_view(),
            layers.deep_view(),
            records.len() as int,
        ),
{
    let ghost rv = records.deep_view();
    let ghost av = admission.deep_view();
    let ghost lv = layers.deep_view();
    let mut s = OperationReplay {
        operations: Vec::new(),
        conflicts: Vec::new(),
        dropped: Vec::new(),
    };
    assert(s.operations.deep_view() =~= Seq::empty());
    assert(s.conflicts.deep_view() =~= Seq::empty());
    assert(s.dropped.deep_view() =~= Seq::empty());
    let mut i: usize = 0;
    while i < records.len()
        invariant
            i <= records.len(),
            rv == records.deep_view(),
            av == admission.deep_view(),
            lv == layers.deep_view(),
            operations_after(rv, av, lv, i as int) == Ok::<OperationReplayView, Seq<char>>(
                s.deep_view(),
            ),
        decreases records.len() - i,
    {
        assert(rv[i as int] == records@[i as int].deep_view());
        proof {
            lemma_targets_stay_single(rv, av, lv, i as int);
        }
        let sequence = records[i].stream_sequence;
        let step = match intent_event_of(&records[i]) {
            Some(e) => match e {
                IntentEventV1::OperationRequested { preview, .. } => take_request(
                    admission,
                    layers,
                    &mut s,
                    sequence,
                    preview,
                ),
                IntentEventV1::OperationPrepared { .. } => take_prepare(
                    layers,
                    &mut s,
                    sequence,
                    e,
                ),
                IntentEventV1::OperationResolved { .. } => take_result(&mut s, sequence, e),
                IntentEventV1::ConflictRecorded { stack_id, stack_version, conflict, .. } => {
                    take_conflict(admission, &mut s, sequence, stack_id, *stack_version, conflict)
                },
                _ => Ok(()),
            },
            None => Ok(()),
        };
        match step {
            Ok(_) => {},
            Err(e) => {
                proof {
                    lemma_operations_fail(rv, av, lv, i + 1, rv.len() as int);
                }
                return Err(e);
            },
        }
        i = i + 1;
    }
    Ok(s)
}

/// Replays the operations of a stream, and checks that the stream proves their results.
pub(crate) fn replay_operations(
    records: &Vec<SessionStreamRecord>,
    admission: &IntentStackProjectionV1,
    layers: &IntentLayerProjectionV1,
) -> (r: Result<OperationReplay, KernelError>)
    ensures
        outcome(r) == replay_of(records.deep_view(), admission.deep_view(), layers.deep_view()),
{
    if admission.latest_accepted_plan().is_none() {
        if has_operation_events(records) {
            return Err(
                KernelError::new("Intent operation events exist without an accepted IntentPlan"),
            );
        }
        let s = OperationReplay {
            operations: Vec::new(),
            conflicts: Vec::new(),
            dropped: Vec::new(),
        };
        assert(s.operations.deep_view() =~= Seq::empty());
        assert(s.conflicts.deep_view() =~= Seq::empty());
        assert(s.dropped.deep_view() =~= Seq::empty());
        return Ok(s);
    }
    validate_batch_facts(records)?;
    let s = collect_operations(records, admission, layers)?;
    let ghost p = operation_order();
    let ops = sort_items(
        &s.operations,
        |a: &OperationRecord, b: &OperationRecord| -> (o: bool)
            ensures
                o == p(a.deep_view(), b.deep_view())
            {
                text_precedes(a.preview.operation_id.as_str(), b.preview.operation_id.as_str())
            },
        Ghost(p),
    );
    let ghost v = terminal_verdict(records.deep_view());
    validate_each(
        &ops,
        |op: &OperationRecord| -> (o: Result<(), KernelError>)
            ensures
                verdict(o) == v(op.deep_view())
            { validate_terminal(records, op) },
        Ghost(v),
    )?;
    Ok(OperationReplay { operations: ops, conflicts: s.conflicts, dropped: s.dropped })
}

fn state_of(records: &Vec<SessionStreamRecord>, op: &OperationRecord) -> (r: IntentOperationStateV1)
    ensures
        r == operation_state(records.deep_view(), op.deep_view()),
{
    match &op.resolved {
        Some(end) => match end.resolution {
            IntentOperationResolution::Committed => IntentOperationStateV1::Committed,
            IntentOperationResolution::Rejected => IntentOperationStateV1::Rejected,
            IntentOperationResolution::Cancelled => IntentOperationStateV1::Cancelled,
            IntentOperationResolution::Conflicted => IntentOperationStateV1::Conflicted,
            IntentOperationResolution::PartiallyApplied => IntentOperationStateV1::PartiallyApplied,
            IntentOperationResolution::Interrupted => IntentOperationStateV1::Interrupted,
        },
        None => match &op.prepared {
            Some(p) => if has_file_evidence(records, p.mutation_batch_id.as_str()) {
                IntentOperationStateV1::Applying
            } else {
                IntentOperationStateV1::Prepared
            },
            None => IntentOperationStateV1::Requested,
        },
    }
}

fn summarize_operation(records: &Vec<SessionStreamRecord>, op: &OperationRecord) -> (r:
    IntentOperationSummaryV1)
    ensures
        r.deep_view() == operation_summary(records.deep_view(), op.deep_view()),
{
    let own = match &op.prepared {
        Some(p) => Some(p.mutation_batch_id.duplicate()),
        None => None,
    };
    let (batch, snapshot, error_code) = match &op.resolved {
        Some(end) => {
            let batch = match &end.mutation_batch_id {
                Some(id) => Some(id.duplicate()),
                None => own,
            };
            (batch, end.result_snapshot_id.duplicate(), end.error_code)
        },
        None => (own, None, None),
    };
    IntentOperationSummaryV1 {
        operation_id: op.preview.operation_id.duplicate(),
        operation_kind: op.preview.operation_kind,
        target_intents: op.preview.target_intents.duplicate(),
        state: state_of(records, op),
        mutation_batch_id: batch,
        result_snapshot_id: snapshot,
        error_code,
    }
}

fn list_dropped(ops: &Vec<OperationRecord>) -> (r: Vec<IntentVersionRef>)
    ensures
        r.deep_view() == items_in_order(dropped_by(ops.deep_view()), ref_order()),
{
    let ghost v = ops.deep_view();
    let mut list: Vec<IntentVersionRef> = Vec::new();
    let mut i: usize = 0;
    assert(v.take(0) =~= Seq::empty());
    assert(list.deep_view() =~= Seq::empty());
    while i < ops.len()
        invariant
            i <= ops.len(),
            v == ops.deep_view(),
            list.deep_view() == dropped_by(v.take(i as int)),
        decreases ops.len() - i,
    {
        proof {
            assert(v.take(i + 1).drop_last() =~= v.take(i as int));
            assert(v.take(i + 1).last() == ops@[i as int].deep_view());
        }
        let committed = match &ops[i].resolved {
            Some(end) => end.resolution == IntentOperationResolution::Committed,
            None => false,
        };
        if committed {
            list = add_new(list, &ops[i].preview.target_intents);
        }
        i = i + 1;
    }
    assert(v.take(i as int) =~= v);
    let ghost p = ref_order();
    sort_items(
        &list,
        |a: &IntentVersionRef, b: &IntentVersionRef| -> (o: bool)
            ensures
                o == p(a.deep_view(), b.deep_view())
            {
                text_precedes(a.intent_id.as_str(), b.intent_id.as_str()) || (a.intent_id.same(
                    &b.intent_id,
                ) && a.version < b.version)
            },
        Ghost(p),
    )
}

/// The projection that a replay shows.
pub(crate) fn public_projection(records: &Vec<SessionStreamRecord>, s: &OperationReplay) -> (r:
    IntentOperationProjectionV1)
    ensures
        r.deep_view() == operation_projection_of(records.deep_view(), s.deep_view()),
{
    let ghost all = operation_summaries(records.deep_view(), s.operations.deep_view());
    let mut operations: Vec<IntentOperationSummaryV1> = Vec::new();
    let mut i: usize = 0;
    while i < s.operations.len()
        invariant
            i <= s.operations.len(),
            all == operation_summaries(records.deep_view(), s.operations.deep_view()),
            operations.deep_view() =~= all.take(i as int),
        decreases s.operations.len() - i,
    {
        assert(s.operations.deep_view()[i as int] == s.operations@[i as int].deep_view());
        let item = summarize_operation(records, &s.operations[i]);
        assert(all[i as int] == item.deep_view());
        let ghost had = operations;
        operations.push(item);
        proof {
            lemma_push_view(had, item, operations);
        }
        i = i + 1;
    }
    assert(operations.deep_view() =~= all);
    IntentOperationProjectionV1 {
        operations,
        conflicts: s.conflicts.duplicate(),
        dropped_intents: list_dropped(&s.operations),
    }
}

/// The operation is under way and has an intent among its targets.
pub open spec fn is_active_for(intent_ref: IntentVersionRefView) -> spec_fn(
    IntentOperationSummaryV1View,
) -> bool {
    |o: IntentOperationSummaryV1View|
        o.target_intents.contains(intent_ref) && (o.state == IntentOperationStateV1::Requested
            || o.state == IntentOperationStateV1::Prepared || o.state
            == IntentOperationStateV1::Applying)
}

/// What is said of an operation.
pub open spec fn operation_with(p: IntentOperationProjectionV1View, id: Seq<char>) -> Option<
    IntentOperationSummaryV1View,
> {
    match find_key::<IntentOperationSummaryV1>(p.operations, id) {
        Some(i) => Some(p.operations[i]),
        None => None,
    }
}

impl IntentOperationProjectionV1 {
    /// Replays the operations of a stream and the evidence of their batches.
    pub fn from_records(
        records: &Vec<SessionStreamRecord>,
        admission: &IntentStackProjectionV1,
        layers: &IntentLayerProjectionV1,
    ) -> (r: Result<Self, KernelError>)
        ensures
            outcome(r) == operations_of(
                records.deep_view(),
                admission.deep_view(),
                layers.deep_view(),
            ),
    {
        let s = replay_operations(records, admission, layers)?;
        Ok(public_projection(records, &s))
    }

    /// What is said of an operation.
    pub fn operation(&self, operation_id: &IntentOperationId) -> (r: Option<&IntentOperationSummaryV1>)
        ensures
            r.deep_view() == operation_with(self.deep_view(), operation_id.deep_view()),
    {
        match position_by_key(&self.operations, operation_id.as_str()) {
            Some(i) => {
                assert(self.operations.deep_view()[i as int]
                    == self.operations@[i as int].deep_view());
                Some(&self.operations[i])
            },
            None => None,
        }
    }

    /// Tells whether an intent was dropped.
    pub fn is_dropped(&self, intent_ref: &IntentVersionRef) -> (r: bool)
        ensures
            r == self.deep_view().dropped_intents.contains(intent_ref.deep_view()),
    {
        holds(&self.dropped_intents, intent_ref)
    }

    /// The intents that were dropped, in order.
    pub fn dropped_intents(&self) -> (r: &Vec<IntentVersionRef>)
        ensures
            r.deep_view() == self.deep_view().dropped_intents,
    {
        &self.dropped_intents
    }

    /// Tells whether an operation on an intent is under way.
    pub fn has_active_operation_for(&self, intent_ref: &IntentVersionRef) -> (r: bool)
        ensures
            r == any_where(self.deep_view().operations, is_active_for(intent_ref.deep_view())),
    {
        let ghost p = is_active_for(intent_ref.deep_view());
        has_any(
            &self.operations,
            |o: &IntentOperationSummaryV1| -> (b: bool)
                ensures
                    b == p(o.deep_view())
                {
                    holds(&o.target_intents, intent_ref) && (o.state
                        == IntentOperationStateV1::Requested || o.state
                        == IntentOperationStateV1::Prepared || o.state
                        == IntentOperationStateV1::Applying)
                },
            Ghost(p),
        )
    }
}

/// What the stream of a session says of operations.
pub open spec fn session_operations(
    session: SessionView,
    contents: Option<Seq<ArtifactContentV1View>>,
) -> Result<IntentOperationProjectionV1View, Seq<char>> {
    match session.durable_records {
        None => Err("Intent operation projection requires a durable session"@),
        Some(records) => match stack_of(records) {
            Err(m) => Err(m),
            Ok(admission) => match session_layers(session, contents) {
                Err(m) => Err(m),
                Ok(layers) => operations_of(records, admission, layers),
            },
        },
    }
}

impl Session {
    /// Replays the operations of the durable stream of the session. The contents are those of the
    /// stored artifacts that can be read, where there is a store.
    pub fn intent_operation_projection(&self, contents: Option<&Vec<ArtifactContentV1>>) -> (r: Result<
        IntentOperationProjectionV1,
        KernelError,
    >)
        ensures
            outcome(r) == session_operations(self.deep_view(), contents.deep_view()),
    {
        let records = match &self.durable_records {
            None => {
                return Err(
                    KernelError::new("Intent operation projection requires a durable session"),
                );
            },
            Some(records) => records,
        };
        let admission = IntentStackProjectionV1::from_records(records)?;
        let layers = self.intent_layer_projection(contents)?;
        IntentOperationProjectionV1::from_records(records, &admission, &layers)
    }
}

// Laws.

/// What a list holds once it has the items of another.
pub(crate) proof fn lemma_with_new_members<A>(have: Seq<A>, items: Seq<A>, x: A)
    ensures
        with_new(have, items).contains(x) == (have.contains(x) || items.contains(x)),
    decreases items.len(),
{
    if items.len() > 0 {
        let before = with_new(have, items.drop_last());
        lemma_with_new_members(have, items.drop_last(), x);
        let last = items.last();
        assert(items.contains(last)) by {
            assert(items[items.len() - 1] == last);
        }
        if items.contains(x) {
            let i = choose|i: int| 0 <= i < items.len() && items[i] == x;
            if i < items.len() - 1 {
                assert(items.drop_last()[i] == x);
            }
        }
        if items.drop_last().contains(x) {
            let i = choose|i: int| 0 <= i < items.drop_last().len() && items.drop_last()[i] == x;
            assert(items[i] == x);
        }
        if !before.contains(last) {
            let all = before.push(last);
            assert(all[all.len() - 1] == last);
            if before.contains(x) {
                let i = choose|i: int| 0 <= i < before.len() && before[i] == x;
                assert(all[i] == x);
            }
            if all.contains(x) {
                let i = choose|i: int| 0 <= i < all.len() && all[i] == x;
                if i < before.len() {
                    assert(before[i] == x);
                }
            }
        }
    }
}

proof fn lemma_dropped_by(ops: Seq<OperationRecordView>, x: IntentVersionRefView)
    requires
        dropped_by(ops).contains(x),
    ensures
        exists|i: int|
            0 <= i < ops.len() && (#[trigger] ops[i]).preview.target_intents.contains(x) && (
            ops[i].resolved matches Some(end) && end.resolution
                == IntentOperationResolution::Committed),
    decreases ops.len(),
{
    if ops.len() > 0 {
        let before = dropped_by(ops.drop_last());
        let op = ops.last();
        if op.resolved matches Some(end) && end.resolution == IntentOperationResolution::Committed {
            lemma_with_new_members(before, op.preview.target_intents, x);
        }
        if before.contains(x) {
            lemma_dropped_by(ops.drop_last(), x);
            let i = choose|i: int|
                0 <= i < ops.drop_last().len() && (
                #[trigger] ops.drop_last()[i]).preview.target_intents.contains(x) && (
                ops.drop_last()[i].resolved matches Some(end) && end.resolution
                    == IntentOperationResolution::Committed);
            assert(ops[i] == ops.drop_last()[i]);
        } else {
            assert(ops[ops.len() - 1] == op);
        }
    }
}

/// The operation has an intent among its targets, and the stream proves that its batch changed every
/// file of the operation.
pub open spec fn provably_drops(
    records: Seq<SessionStreamRecordView>,
    intent_ref: IntentVersionRefView,
) -> spec_fn(OperationRecordView) -> bool {
    |op: OperationRecordView|
        op.preview.target_intents.contains(intent_ref) && match op.prepared {
            Some(p) => match batch_outcome(records, op, p) {
                Ok(o) => o is Applied,
                Err(_) => false,
            },
            None => false,
        }
}

/// An intent counts as dropped only where an operation on it was committed, and the stream proves that
/// its batch changed every file of the operation.
pub proof fn law_dropped_intents_are_proved(
    records: Seq<SessionStreamRecordView>,
    admission: IntentStackProjectionV1View,
    layers: IntentLayerProjectionV1View,
    intent_ref: IntentVersionRefView,
)
    requires
        operations_of(records, admission, layers) matches Ok(p) && p.dropped_intents.contains(
            intent_ref,
        ),
    ensures
        any_where(
            replay_of(records, admission, layers)->Ok_0.operations,
            provably_drops(records, intent_ref),
        ),
{
    let s = replay_of(records, admission, layers)->Ok_0;
    let ops = s.operations;
    lemma_in_order(dropped_by(ops), ref_order());
    vstd::seq_lib::to_multiset_contains(dropped_by(ops), intent_ref);
    vstd::seq_lib::to_multiset_contains(
        items_in_order(dropped_by(ops), ref_order()),
        intent_ref,
    );
    lemma_dropped_by(ops, intent_ref);
    let i = choose|i: int|
        0 <= i < ops.len() && (#[trigger] ops[i]).preview.target_intents.contains(intent_ref) && (
        ops[i].resolved matches Some(end) && end.resolution
            == IntentOperationResolution::Committed);
    let all = ops.map_values(terminal_verdict(records));
    lemma_all_pass(all);
    assert(all[i] == terminal_verdict(records)(ops[i]));
    assert(all[i] is Ok);
    assert(provably_drops(records, intent_ref)(ops[i]));
}

/// The operation is the one that was requested by an event.
pub open spec fn was_requested(
    preview: IntentOperationPreviewV1View,
    sequence: u64,
) -> spec_fn(OperationRecordView) -> bool {
    |o: OperationRecordView| o.preview == preview && o.requested_sequence == sequence
}

/// The operation is the one that was prepared by an event.
pub open spec fn was_prepared(
    operation_id: Seq<char>,
    p: PreparedOperationView,
    sequence: u64,
) -> spec_fn(OperationRecordView) -> bool {
    |o: OperationRecordView|
        o.preview.operation_id == operation_id && o.prepared == Some(p) && o.prepared_sequence
            == Some(sequence)
}

/// The operation is the one that was resolved by an event.
pub open spec fn was_resolved(
    operation_id: Seq<char>,
    end: ResolvedOperationView,
    sequence: u64,
) -> spec_fn(OperationRecordView) -> bool {
    |o: OperationRecordView|
        o.preview.operation_id == operation_id && o.resolved == Some(end) && o.resolved_sequence
            == Some(sequence)
}

/// The replay holds what an event of an operation tells.
pub open spec fn tells_operation(s: OperationReplayView, record: SessionStreamRecordView) -> bool {
    let sequence = record.stream_sequence;
    match intent_event_in(record) {
        Some(IntentEventV1View::OperationRequested { preview, .. }) => any_where(
            s.operations,
            was_requested(preview, sequence),
        ),
        Some(
            IntentEventV1View::OperationPrepared {
                operation_id,
                preview_digest,
                permission_policy_digest,
                approval_authority_id,
                mutation_batch_id,
                ..
            },
        ) => any_where(
            s.operations,
            was_prepared(
                operation_id,
                PreparedOperationView {
                    preview_digest,
                    permission_policy_digest,
                    approval_authority_id,
                    mutation_batch_id,
                },
                sequence,
            ),
        ),
        Some(
            IntentEventV1View::OperationResolved {
                operation_id,
                resolution,
                mutation_batch_id,
                result_snapshot_id,
                error_code,
                ..
            },
        ) => any_where(
            s.operations,
            was_resolved(
                operation_id,
                ResolvedOperationView {
                    resolution,
                    mutation_batch_id,
                    result_snapshot_id,
                    error_code,
                },
                sequence,
            ),
        ),
        Some(IntentEventV1View::ConflictRecorded { conflict, .. }) => s.conflicts.contains(conflict),
        _ => true,
    }
}

/// What an operation once has, it keeps.
spec fn keeps(before: OperationRecordView, after: OperationRecordView) -> bool {
    &&& after.preview == before.preview
    &&& after.requested_sequence == before.requested_sequence
    &&& before.prepared is Some ==> after.prepared == before.prepared && after.prepared_sequence
        == before.prepared_sequence
    &&& before.resolved is Some ==> after.resolved == before.resolved && after.resolved_sequence
        == before.resolved_sequence
}

proof fn lemma_kept_operations_tell(
    before: OperationReplayView,
    after: OperationReplayView,
    record: SessionStreamRecordView,
)
    requires
        tells_operation(before, record),
        before.operations.len() <= after.operations.len(),
        forall|i: int|
            0 <= i < before.operations.len() ==> keeps(
                before.operations[i],
                #[trigger] after.operations[i],
            ),
        forall|c| before.conflicts.contains(c) ==> after.conflicts.contains(c),
    ensures
        tells_operation(after, record),
{
    let sequence = record.stream_sequence;
    let p: spec_fn(OperationRecordView) -> bool = match intent_event_in(record) {
        Some(IntentEventV1View::OperationRequested { preview, .. }) => was_requested(
            preview,
            sequence,
        ),
        Some(
            IntentEventV1View::OperationPrepared {
                operation_id,
                preview_digest,
                permission_policy_digest,
                approval_authority_id,
                mutation_batch_id,
                ..
            },
        ) => was_prepared(
            operation_id,
            PreparedOperationView {
                preview_digest,
                permission_policy_digest,
                approval_authority_id,
                mutation_batch_id,
            },
            sequence,
        ),
        Some(
            IntentEventV1View::OperationResolved {
                operation_id,
                resolution,
                mutation_batch_id,
                result_snapshot_id,
                error_code,
                ..
            },
        ) => was_resolved(
            operation_id,
            ResolvedOperationView { resolution, mutation_batch_id, result_snapshot_id, error_code },
            sequence,
        ),
        _ => |o: OperationRecordView| false,
    };
    if any_where(before.operations, p) {
        let i = choose|i: int| 0 <= i < before.operations.len() && p(#[trigger] before.operations[i]);
        assert(keeps(before.operations[i], after.operations[i]));
        assert(p(after.operations[i]));
    }
}

proof fn lemma_operation_record_is_told(
    records: Seq<SessionStreamRecordView>,
    admission: IntentStackProjectionV1View,
    layers: IntentLayerProjectionV1View,
    n: int,
    s: OperationReplayView,
    t: OperationReplayView,
)
    requires
        0 < n <= records.len(),
        operations_after(records, admission, layers, n - 1) == Ok::<_, Seq<char>>(s),
        operations_after(records, admission, layers, n) == Ok::<_, Seq<char>>(t),
    ensures
        tells_operation(t, records[n - 1]),
        s.operations.len() <= t.operations.len(),
        forall|i: int|
            0 <= i < s.operations.len() ==> keeps(s.operations[i], #[trigger] t.operations[i]),
        forall|c| s.conflicts.contains(c) ==> t.conflicts.contains(c),
{
    let record = records[n - 1];
    let sequence = record.stream_sequence;
    match intent_event_in(record) {
        Some(IntentEventV1View::OperationRequested { preview, .. }) => {
            let m = s.operations.len() as int;
            assert(was_requested(preview, sequence)(t.operations[m]));
        },
        Some(
            IntentEventV1View::OperationPrepared {
                operation_id,
                preview_digest,
                permission_policy_digest,
                approval_authority_id,
                mutation_batch_id,
                ..
            },
        ) => {
            lemma_find_key::<OperationRecord>(s.operations, operation_id);
            let k = find_key::<OperationRecord>(s.operations, operation_id)->0;
            assert(was_prepared(
                operation_id,
                PreparedOperationView {
                    preview_digest,
                    permission_policy_digest,
                    approval_authority_id,
                    mutation_batch_id,
                },
                sequence,
            )(t.operations[k]));
        },
        Some(
            IntentEventV1View::OperationResolved {
                operation_id,
                resolution,
                mutation_batch_id,
                result_snapshot_id,
                error_code,
                ..
            },
        ) => {
            lemma_find_key::<OperationRecord>(s.operations, operation_id);
            let k = find_key::<OperationRecord>(s.operations, operation_id)->0;
            assert(was_resolved(
                operation_id,
                ResolvedOperationView {
                    resolution,
                    mutation_batch_id,
                    result_snapshot_id,
                    error_code,
                },
                sequence,
            )(t.operations[k]));
        },
        Some(IntentEventV1View::ConflictRecorded { conflict, .. }) => {
            assert(t.conflicts[s.conflicts.len() as int] == conflict);
            assert forall|c| s.conflicts.contains(c) implies t.conflicts.contains(c) by {
                let i = choose|i: int| 0 <= i < s.conflicts.len() && s.conflicts[i] == c;
                assert(t.conflicts[i] == c);
            }
        },
        _ => {},
    }
}

proof fn lemma_operations_are_told(
    records: Seq<SessionStreamRecordView>,
    admission: IntentStackProjectionV1View,
    layers: IntentLayerProjectionV1View,
    n: int,
    i: int,
)
    requires
        0 <= i < n <= records.len(),
    ensures
        operations_after(records, admission, layers, n) matches Ok(s) ==> tells_operation(
            s,
            records[i],
        ),
    decreases n,
{
    if let Ok(s) = operations_after(records, admission, layers, n - 1) {
        if let Ok(t) = operations_after(records, admission, layers, n) {
            lemma_operation_record_is_told(records, admission, layers, n, s, t);
            if i < n - 1 {
                lemma_operations_are_told(records, admission, layers, n - 1, i);
                lemma_kept_operations_tell(s, t, records[i]);
            }
        }
    }
}

proof fn lemma_order_keeps_operations(
    ops: Seq<OperationRecordView>,
    p: spec_fn(OperationRecordView) -> bool,
)
    requires
        any_where(ops, p),
    ensures
        any_where(items_in_order(ops, operation_order()), p),
{
    let sorted = items_in_order(ops, operation_order());
    let i = choose|i: int| 0 <= i < ops.len() && p(#[trigger] ops[i]);
    let x = ops[i];
    assert(ops.contains(x));
    lemma_in_order(ops, operation_order());
    vstd::seq_lib::to_multiset_contains(ops, x);
    vstd::seq_lib::to_multiset_contains(sorted, x);
    let j = choose|j: int| 0 <= j < sorted.len() && sorted[j] == x;
    assert(p(sorted[j]));
}

/// No operation is lost: what the events of operations in a stream tell is what a replay of the stream
/// shows, each request with its preview, each operation with how it was prepared and how it ended, and
/// all conflicts.
pub proof fn law_no_operation_is_lost(
    records: Seq<SessionStreamRecordView>,
    admission: IntentStackProjectionV1View,
    layers: IntentLayerProjectionV1View,
    s: OperationReplayView,
    i: int,
)
    requires
        replay_of(records, admission, layers) == Ok::<_, Seq<char>>(s),
        0 <= i < records.len(),
    ensures
        tells_operation(s, records[i]),
{
    if latest_accepted(admission) is None {
        assert(!is_operation_event()(records[i]));
    } else {
        let n = records.len() as int;
        lemma_operations_are_told(records, admission, layers, n, i);
        let before = operations_after(records, admission, layers, n)->Ok_0;
        assert forall|p: spec_fn(OperationRecordView) -> bool| #[trigger]
            any_where(before.operations, p) implies any_where(s.operations, p) by {
            lemma_order_keeps_operations(before.operations, p);
        }
    }
}

proof fn lemma_committed_are_dropped(ops: Seq<OperationRecordView>, i: int, x: IntentVersionRefView)
    requires
        0 <= i < ops.len(),
        ops[i].preview.target_intents.contains(x),
        ops[i].resolved matches Some(end) && end.resolution == IntentOperationResolution::Committed,
    ensures
        dropped_by(ops).contains(x),
    decreases ops.len(),
{
    let before = dropped_by(ops.drop_last());
    let op = ops.last();
    if i < ops.len() - 1 {
        lemma_committed_are_dropped(ops.drop_last(), i, x);
    }
    if op.resolved matches Some(end) && end.resolution == IntentOperationResolution::Committed {
        lemma_with_new_members(before, op.preview.target_intents, x);
    }
}

/// A drop that the stream tells to be committed is one whose intents are dropped.
pub proof fn law_committed_drops_are_replayed(
    records: Seq<SessionStreamRecordView>,
    s: OperationReplayView,
    i: int,
    x: IntentVersionRefView,
)
    requires
        0 <= i < s.operations.len(),
        s.operations[i].preview.target_intents.contains(x),
        s.operations[i].resolved matches Some(end) && end.resolution
            == IntentOperationResolution::Committed,
    ensures
        operation_projection_of(records, s).dropped_intents.contains(x),
{
    let all = dropped_by(s.operations);
    lemma_committed_are_dropped(s.operations, i, x);
    lemma_in_order(all, ref_order());
    vstd::seq_lib::to_multiset_contains(all, x);
    vstd::seq_lib::to_multiset_contains(items_in_order(all, ref_order()), x);
}

} // verus!
