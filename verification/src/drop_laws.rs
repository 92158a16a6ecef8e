//! What a preview of a drop tells: what the drop does to every file, which intents stay, and what
//! stands in the way.

use vstd::prelude::*;

use crate::intent::{
    content_digest_of, BoundedIntentArtifactSubjectV1View, IntentArtifactAvailability,
    IntentArtifactOwnership, IntentConflictV1View, IntentOperationErrorCode,
    IntentOperationFileAction, IntentOperationFileSummaryV1View, IntentOperationKind,
    IntentPlanV1View, IntentVerificationImpact, IntentVerificationImpactV1View,
    IntentVersionRefView,
};
use crate::intent_admission::plan_refs;
use crate::intent_drop::{
    add_if, artifact_conflicts, artifact_obstacle, conflict_order, drop_conflict, drop_of,
    drop_of_layer, effect_order, file_conflicts, file_order, file_to_drop, foreign_conflicts,
    found_at, has_artifact, has_effect, impacts_of, is_patched, patch_after, patch_covers,
    resolved_files, target_conflicts, DropTargetObservationV1, DropTargetObservationV1View,
    DropTargetStateV1, ResolvedDropFileView, ResolvedDropView,
};
use crate::intent_impact::{lemma_pushed_members, lemma_selected_members};
use crate::intent_layer::{
    artifact_path_of, content_of, is_hunk_at, is_layer_of, latest_layer, ArtifactContentV1,
    ArtifactContentV1View,
};
use crate::intent_lineage::{current_receipts, IntentLineageProjectionV1View};
use crate::intent_operation::{builds_on, is_leaf, stays};
use crate::intent_patch::{patch_paths, read_patch};
use crate::intent_state::{
    EffectiveIntentArtifactV1View, ExactIntentPatchFileV1View, IntentLayerProjectionV1View,
    IntentLayerStateV1View,
};
use crate::lineage_laws::lemma_ascending_members;
use crate::order::{items_in_order, lemma_ordered_items};
use crate::search::{any_where, last_where, lemma_last_where, lemma_selected, selected};
use crate::text::ascending_of;
use crate::value::{find_key, lemma_find_key, Keyed};

verus! {

// The files.

/// An effect on a file tells what is done to that file.
pub open spec fn tells_what_is_done(
    e: IntentOperationFileSummaryV1View,
    f: ResolvedDropFileView,
) -> bool {
    &&& e.normalized_relative_path == f.path
    &&& e.action == IntentOperationFileAction::Delete <==> f.target is None
    &&& e.action == IntentOperationFileAction::Create <==> f.target is Some && f.expected_hash is None
    &&& e.action == IntentOperationFileAction::Update <==> f.target is Some && f.expected_hash is Some
}

proof fn lemma_effects_tell(
    intent_ref: IntentVersionRefView,
    artifacts: Seq<EffectiveIntentArtifactV1View>,
    observations: Seq<DropTargetObservationV1View>,
    patch: Seq<ExactIntentPatchFileV1View>,
    others: Seq<IntentConflictV1View>,
)
    ensures
        ({
            let all = patch_after(intent_ref, artifacts, observations, patch, others);
            &&& all.effects.len() == all.files.len()
            &&& forall|i: int|
                0 <= i < all.files.len() ==> tells_what_is_done(
                    #[trigger] all.effects[i],
                    #[trigger] all.files[i],
                )
        }),
    decreases patch.len(),
{
    if patch.len() > 0 {
        let rest = patch.drop_last();
        lemma_effects_tell(intent_ref, artifacts, observations, rest, others);
        let before = patch_after(intent_ref, artifacts, observations, rest, others);
        let all = patch_after(intent_ref, artifacts, observations, patch, others);
        assert forall|i: int| 0 <= i < all.files.len() implies tells_what_is_done(
            #[trigger] all.effects[i],
            #[trigger] all.files[i],
        ) by {
            if i < before.files.len() {
                assert(all.files[i] == before.files[i] && all.effects[i] == before.effects[i]);
                assert(tells_what_is_done(before.effects[i], before.files[i]));
            }
        }
    }
}

/// A preview tells what the drop does to the files that it names, and names all of them: it says
/// that a file is deleted exactly where the drop leaves none, that one is created exactly where
/// there is none to be found, and that one is changed exactly where there is one before and after.
pub proof fn law_effects_tell_what_is_done(
    frontier: u64,
    workspace_revision: u64,
    contents: Seq<ArtifactContentV1View>,
    observations: Seq<DropTargetObservationV1View>,
    plan: IntentPlanV1View,
    lineage: IntentLineageProjectionV1View,
    layers: IntentLayerProjectionV1View,
    dropped: Seq<IntentVersionRefView>,
    intent_ref: IntentVersionRefView,
    d: ResolvedDropView,
)
    requires
        d == drop_of(
            frontier,
            workspace_revision,
            contents,
            observations,
            plan,
            lineage,
            layers,
            dropped,
            intent_ref,
        ),
    ensures
        d.preview.file_effects.len() == d.files.len(),
        forall|e: IntentOperationFileSummaryV1View| #[trigger]
            d.preview.file_effects.contains(e) ==> exists|f: ResolvedDropFileView| #[trigger]
                d.files.contains(f) && tells_what_is_done(e, f),
        forall|f: ResolvedDropFileView| #[trigger]
            d.files.contains(f) ==> exists|e: IntentOperationFileSummaryV1View| #[trigger]
                d.preview.file_effects.contains(e) && tells_what_is_done(e, f),
{
    let others = target_conflicts(
        intent_ref,
        dropped.contains(intent_ref),
        is_leaf(plan, dropped, intent_ref),
    );
    if let Some(l) = latest_layer(layers, intent_ref) {
        if let Some(bytes) = content_of(contents, l.layer_manifest.core.reverse_patch_artifact_id) {
            if let Ok(patch) = read_patch(bytes) {
                let own = artifact_conflicts(intent_ref, l.artifacts, others);
                let start = patch_start(intent_ref, l.artifacts, patch, own);
                let all = patch_after(intent_ref, l.artifacts, observations, patch, start);
                assert(resolved_files(intent_ref, l.artifacts, observations, patch, own).files
                    == d.files);
                lemma_effects_tell(intent_ref, l.artifacts, observations, patch, start);
                lemma_ordered_items(all.effects, effect_order());
                lemma_ordered_items(all.files, file_order());
                let effects = d.preview.file_effects;
                let files = d.files;
                assert forall|e: IntentOperationFileSummaryV1View| #[trigger]
                    effects.contains(e) implies exists|f: ResolvedDropFileView| #[trigger]
                    files.contains(f) && tells_what_is_done(e, f) by {
                    assert(all.effects.contains(e));
                    let k = choose|k: int| 0 <= k < all.effects.len() && all.effects[k] == e;
                    assert(tells_what_is_done(all.effects[k], all.files[k]));
                    assert(all.files.contains(all.files[k]));
                    assert(files.contains(all.files[k]));
                }
                assert forall|f: ResolvedDropFileView| #[trigger]
                    files.contains(f) implies exists|e: IntentOperationFileSummaryV1View| #[trigger]
                    effects.contains(e) && tells_what_is_done(e, f) by {
                    assert(all.files.contains(f));
                    let k = choose|k: int| 0 <= k < all.files.len() && all.files[k] == f;
                    assert(tells_what_is_done(all.effects[k], all.files[k]));
                    assert(all.effects.contains(all.effects[k]));
                    assert(effects.contains(all.effects[k]));
                }
            }
        }
    }
}

spec fn patch_start(
    intent_ref: IntentVersionRefView,
    artifacts: Seq<EffectiveIntentArtifactV1View>,
    patch: Seq<ExactIntentPatchFileV1View>,
    others: Seq<IntentConflictV1View>,
) -> Seq<IntentConflictV1View> {
    add_if(
        foreign_conflicts(intent_ref, artifacts, others),
        !patch_covers(artifacts, patch),
        drop_conflict(
            IntentOperationErrorCode::ArtifactDigestMismatch,
            intent_ref,
            None,
            "Intent reverse patch paths do not match the layer manifest"@,
        ),
    )
}

/// An artifact of some is one of the file at a path.
pub open spec fn is_file_of_some(
    artifacts: Seq<EffectiveIntentArtifactV1View>,
    path: Seq<char>,
) -> bool {
    exists|i: int|
        0 <= i < artifacts.len() && ((#[trigger] artifacts[i]).binding.subject matches
        BoundedIntentArtifactSubjectV1View::FileHunk { normalized_relative_path, .. }
            && normalized_relative_path == path)
}

/// What is done to a file is what a patch says of it.
pub open spec fn is_patched_so(f: ResolvedDropFileView, x: ExactIntentPatchFileV1View) -> bool {
    &&& f.path == x.path
    &&& f.target == x.target
    &&& f.expected_hash == (if x.expected_present {
        Some(x.expected_digest)
    } else {
        None
    })
}

proof fn lemma_files_of_patch(
    intent_ref: IntentVersionRefView,
    artifacts: Seq<EffectiveIntentArtifactV1View>,
    observations: Seq<DropTargetObservationV1View>,
    patch: Seq<ExactIntentPatchFileV1View>,
    others: Seq<IntentConflictV1View>,
    f: ResolvedDropFileView,
)
    ensures
        patch_after(intent_ref, artifacts, observations, patch, others).files.contains(f) == (exists|
            k: int,
        |
            0 <= k < patch.len() && is_patched_so(f, #[trigger] patch[k]) && is_file_of_some(
                artifacts,
                patch[k].path,
            ) && (patch[k].expected_present || patch[k].target is Some)),
    decreases patch.len(),
{
    if patch.len() > 0 {
        let rest = patch.drop_last();
        lemma_files_of_patch(intent_ref, artifacts, observations, rest, others, f);
        let before = patch_after(intent_ref, artifacts, observations, rest, others);
        let all = patch_after(intent_ref, artifacts, observations, patch, others);
        let x = patch.last();
        lemma_pushed_members(before.files, file_to_drop(x), f);
        assert(any_where(artifacts, is_hunk_at(x.path)) == is_file_of_some(artifacts, x.path)) by {
            if any_where(artifacts, is_hunk_at(x.path)) {
                let i = choose|i: int|
                    0 <= i < artifacts.len() && is_hunk_at(x.path)(#[trigger] artifacts[i]);
                assert(is_hunk_at(x.path)(artifacts[i]));
            }
            if is_file_of_some(artifacts, x.path) {
                let i = choose|i: int|
                    0 <= i < artifacts.len() && ((#[trigger] artifacts[i]).binding.subject matches
                    BoundedIntentArtifactSubjectV1View::FileHunk { normalized_relative_path, .. }
                        && normalized_relative_path == x.path);
                assert(is_hunk_at(x.path)(artifacts[i]));
            }
        }
        if before.files.contains(f) {
            let k = choose|k: int|
                0 <= k < rest.len() && is_patched_so(f, #[trigger] rest[k]) && is_file_of_some(
                    artifacts,
                    rest[k].path,
                ) && (rest[k].expected_present || rest[k].target is Some);
            assert(patch[k] == rest[k]);
        }
        if has_effect(artifacts)(x) && f == file_to_drop(x) {
            assert(patch[patch.len() - 1] == x);
        }
        if exists|k: int|
            0 <= k < patch.len() && is_patched_so(f, #[trigger] patch[k]) && is_file_of_some(
                artifacts,
                patch[k].path,
            ) && (patch[k].expected_present || patch[k].target is Some) {
            let k = choose|k: int|
                0 <= k < patch.len() && is_patched_so(f, #[trigger] patch[k]) && is_file_of_some(
                    artifacts,
                    patch[k].path,
                ) && (patch[k].expected_present || patch[k].target is Some);
            if k < rest.len() {
                assert(rest[k] == patch[k]);
            } else {
                assert(f =~= file_to_drop(x));
            }
        }
    }
}

/// A drop does to files what the reverse patch of the latest layer of the intent says, to the files
/// of that layer and to no others: each gets the contents that the patch has for it, or is deleted
/// where the patch has none, and must be found as the patch expects it. Without such a patch
/// nothing is done.
pub proof fn law_drops_follow_the_reverse_patch(
    frontier: u64,
    workspace_revision: u64,
    contents: Seq<ArtifactContentV1View>,
    observations: Seq<DropTargetObservationV1View>,
    plan: IntentPlanV1View,
    lineage: IntentLineageProjectionV1View,
    layers: IntentLayerProjectionV1View,
    dropped: Seq<IntentVersionRefView>,
    intent_ref: IntentVersionRefView,
    d: ResolvedDropView,
    f: ResolvedDropFileView,
)
    requires
        d == drop_of(
            frontier,
            workspace_revision,
            contents,
            observations,
            plan,
            lineage,
            layers,
            dropped,
            intent_ref,
        ),
    ensures
        d.files.contains(f) == (exists|l: int, c: int, k: int|
            is_last_layer(layers.layers, intent_ref, l) && is_first_content(
                contents,
                layers.layers[l].layer_manifest.core.reverse_patch_artifact_id,
                c,
            ) && (read_patch(contents[c].content) matches Ok(patch) && 0 <= k < patch.len()
                && #[trigger] is_patched_in(layers.layers, contents, f, l, c, k))),
{
    lemma_latest_layer(layers, intent_ref);
    let others = target_conflicts(
        intent_ref,
        dropped.contains(intent_ref),
        is_leaf(plan, dropped, intent_ref),
    );
    if let Some(i) = last_where(layers.layers, is_layer_of(intent_ref)) {
        let l = layers.layers[i];
        let id = l.layer_manifest.core.reverse_patch_artifact_id;
        lemma_find_key::<ArtifactContentV1>(contents, id);
        if let Some(c) = find_key::<ArtifactContentV1>(contents, id) {
            assert(is_first_content(contents, id, c));
            if let Ok(patch) = read_patch(contents[c].content) {
                let own = artifact_conflicts(intent_ref, l.artifacts, others);
                let start = patch_start(intent_ref, l.artifacts, patch, own);
                let all = patch_after(intent_ref, l.artifacts, observations, patch, start);
                assert(d.files == items_in_order(all.files, file_order()));
                lemma_ordered_items(all.files, file_order());
                assert(d.files.contains(f) == all.files.contains(f));
                lemma_files_of_patch(intent_ref, l.artifacts, observations, patch, start, f);
                if all.files.contains(f) {
                    let k = choose|k: int|
                        0 <= k < patch.len() && is_patched_so(f, #[trigger] patch[k])
                            && is_file_of_some(l.artifacts, patch[k].path) && (
                        patch[k].expected_present || patch[k].target is Some);
                    assert(is_patched_in(layers.layers, contents, f, i, c, k));
                }
                if exists|l: int, c: int, k: int|
                    is_last_layer(layers.layers, intent_ref, l) && is_first_content(
                        contents,
                        layers.layers[l].layer_manifest.core.reverse_patch_artifact_id,
                        c,
                    ) && (read_patch(contents[c].content) matches Ok(patch) && 0 <= k < patch.len()
                        && #[trigger] is_patched_in(layers.layers, contents, f, l, c, k)) {
                    let (m, e, k) = choose|l: int, c: int, k: int|
                        is_last_layer(layers.layers, intent_ref, l) && is_first_content(
                            contents,
                            layers.layers[l].layer_manifest.core.reverse_patch_artifact_id,
                            c,
                        ) && (read_patch(contents[c].content) matches Ok(patch) && 0 <= k
                            < patch.len() && #[trigger] is_patched_in(
                            layers.layers,
                            contents,
                            f,
                            l,
                            c,
                            k,
                        ));
                    assert(m == i);
                    assert(e == c);
                    assert(is_patched_so(f, patch[k]));
                }
            }
        }
    }
}

/// The layer is the last of an intent.
pub open spec fn is_last_layer(
    layers: Seq<IntentLayerStateV1View>,
    intent_ref: IntentVersionRefView,
    l: int,
) -> bool {
    &&& 0 <= l < layers.len()
    &&& layers[l].layer_manifest.core.intent_ref == intent_ref
    &&& forall|m: int|
        l < m < layers.len() ==> (#[trigger] layers[m]).layer_manifest.core.intent_ref != intent_ref
}

/// The content is the first that is stored under an identity.
pub open spec fn is_first_content(
    contents: Seq<ArtifactContentV1View>,
    id: Seq<char>,
    c: int,
) -> bool {
    &&& 0 <= c < contents.len()
    &&& contents[c].artifact_id == id
    &&& forall|b: int| 0 <= b < c ==> (#[trigger] contents[b]).artifact_id != id
}

/// What is done to a file is what a stored patch of a layer says of it, which is one of the files
/// of the layer, and there is something to be done.
pub open spec fn is_patched_in(
    layers: Seq<IntentLayerStateV1View>,
    contents: Seq<ArtifactContentV1View>,
    f: ResolvedDropFileView,
    l: int,
    c: int,
    k: int,
) -> bool {
    let x = read_patch(contents[c].content)->Ok_0[k];
    &&& is_patched_so(f, x)
    &&& is_file_of_some(layers[l].artifacts, x.path)
    &&& x.expected_present || x.target is Some
}

/// The layer that counts for an intent is the last of its layers.
pub proof fn lemma_latest_layer(layers: IntentLayerProjectionV1View, intent_ref: IntentVersionRefView)
    ensures
        match latest_layer(layers, intent_ref) {
            Some(l) => exists|i: int|
                #[trigger] is_last_layer(layers.layers, intent_ref, i) && layers.layers[i] == l,
            None => forall|i: int|
                0 <= i < layers.layers.len() ==> (
                #[trigger] layers.layers[i]).layer_manifest.core.intent_ref != intent_ref,
        },
        last_where(layers.layers, is_layer_of(intent_ref)) matches Some(i) ==> is_last_layer(
            layers.layers,
            intent_ref,
            i,
        ),
        forall|i: int, j: int| #[trigger]
            is_last_layer(layers.layers, intent_ref, i) && #[trigger] is_last_layer(
                layers.layers,
                intent_ref,
                j,
            ) ==> i == j,
{
    let p = is_layer_of(intent_ref);
    lemma_last_where(layers.layers, p);
    if let Some(i) = last_where(layers.layers, p) {
        assert forall|m: int| i < m < layers.layers.len() implies (
        #[trigger] layers.layers[m]).layer_manifest.core.intent_ref != intent_ref by {
            assert(!p(layers.layers[m]));
        }
        assert(is_last_layer(layers.layers, intent_ref, i));
    } else {
        assert forall|i: int| 0 <= i < layers.layers.len() implies (
        #[trigger] layers.layers[i]).layer_manifest.core.intent_ref != intent_ref by {
            assert(!p(layers.layers[i]));
        }
    }
}

// What stands in the way.

/// A conflict with a code is among some.
pub open spec fn has_code(
    conflicts: Seq<IntentConflictV1View>,
    code: IntentOperationErrorCode,
) -> bool {
    exists|i: int| 0 <= i < conflicts.len() && (#[trigger] conflicts[i]).code == code
}

proof fn lemma_pushed_code(
    s: Seq<IntentConflictV1View>,
    x: IntentConflictV1View,
    code: IntentOperationErrorCode,
)
    ensures
        has_code(s.push(x), code) == (has_code(s, code) || x.code == code),
{
    let t = s.push(x);
    assert(t[s.len() as int] == x);
    if has_code(s, code) {
        let i = choose|i: int| 0 <= i < s.len() && (#[trigger] s[i]).code == code;
        assert(t[i].code == code);
    }
    if has_code(t, code) {
        let i = choose|i: int| 0 <= i < t.len() && (#[trigger] t[i]).code == code;
        if i < s.len() {
            assert(s[i].code == code);
        }
    }
}

spec fn is_obstacle(a: EffectiveIntentArtifactV1View, code: IntentOperationErrorCode) -> bool {
    artifact_obstacle(a) matches Some(o) && o.0 == code
}

proof fn lemma_artifact_codes(
    intent_ref: IntentVersionRefView,
    artifacts: Seq<EffectiveIntentArtifactV1View>,
    others: Seq<IntentConflictV1View>,
    code: IntentOperationErrorCode,
)
    ensures
        has_code(artifact_conflicts(intent_ref, artifacts, others), code) == (has_code(others, code)
            || exists|i: int|
            0 <= i < artifacts.len() && is_obstacle(#[trigger] artifacts[i], code)),
    decreases artifacts.len(),
{
    if artifacts.len() > 0 {
        let rest = artifacts.drop_last();
        let before = artifact_conflicts(intent_ref, rest, others);
        lemma_artifact_codes(intent_ref, rest, others, code);
        let a = artifacts.last();
        if let Some(o) = artifact_obstacle(a) {
            lemma_pushed_code(
                before,
                drop_conflict(o.0, intent_ref, Some(a.binding.artifact_id), o.1),
                code,
            );
        }
        if exists|i: int| 0 <= i < rest.len() && is_obstacle(#[trigger] rest[i], code) {
            let i = choose|i: int| 0 <= i < rest.len() && is_obstacle(#[trigger] rest[i], code);
            assert(artifacts[i] == rest[i]);
        }
        if is_obstacle(a, code) {
            assert(artifacts[artifacts.len() - 1] == a);
        }
        if exists|i: int| 0 <= i < artifacts.len() && is_obstacle(#[trigger] artifacts[i], code) {
            let i = choose|i: int|
                0 <= i < artifacts.len() && is_obstacle(#[trigger] artifacts[i], code);
            if i < rest.len() {
                assert(rest[i] == artifacts[i]);
            }
        }
    }
}

proof fn lemma_foreign_codes(
    intent_ref: IntentVersionRefView,
    artifacts: Seq<EffectiveIntentArtifactV1View>,
    others: Seq<IntentConflictV1View>,
    code: IntentOperationErrorCode,
)
    ensures
        has_code(foreign_conflicts(intent_ref, artifacts, others), code) == (has_code(others, code)
            || (code == IntentOperationErrorCode::UnsupportedArtifact && exists|i: int|
            0 <= i < artifacts.len() && !((#[trigger] artifacts[i]).binding.subject is FileHunk))),
    decreases artifacts.len(),
{
    if artifacts.len() > 0 {
        let rest = artifacts.drop_last();
        let before = foreign_conflicts(intent_ref, rest, others);
        lemma_foreign_codes(intent_ref, rest, others, code);
        let a = artifacts.last();
        lemma_pushed_code(
            before,
            drop_conflict(
                IntentOperationErrorCode::UnsupportedArtifact,
                intent_ref,
                Some(a.binding.artifact_id),
                "Intent layer contains a non-file artifact"@,
            ),
            code,
        );
        if exists|i: int| 0 <= i < rest.len() && !((#[trigger] rest[i]).binding.subject is FileHunk) {
            let i = choose|i: int|
                0 <= i < rest.len() && !((#[trigger] rest[i]).binding.subject is FileHunk);
            assert(artifacts[i] == rest[i]);
        }
        if !(a.binding.subject is FileHunk) {
            assert(artifacts[artifacts.len() - 1] == a);
        }
        if exists|i: int|
            0 <= i < artifacts.len() && !((#[trigger] artifacts[i]).binding.subject is FileHunk) {
            let i = choose|i: int|
                0 <= i < artifacts.len() && !((#[trigger] artifacts[i]).binding.subject is FileHunk);
            if i < rest.len() {
                assert(rest[i] == artifacts[i]);
            }
        }
    }
}

/// What was found first at the path of a file is what must be there: a plain file with the expected
/// hash, or nothing where nothing is expected, in a plain directory.
pub open spec fn is_reached(
    observations: Seq<DropTargetObservationV1View>,
    path: Seq<char>,
    present: bool,
) -> bool {
    exists|i: int|
        #[trigger] is_first_sight(observations, path, i)
            && observations[i].parent_is_plain_directory && observations[i].state == (if present {
            DropTargetStateV1::PlainFile
        } else {
            DropTargetStateV1::Missing
        })
}

/// The observation is the first of a path.
pub open spec fn is_first_sight(
    observations: Seq<DropTargetObservationV1View>,
    path: Seq<char>,
    i: int,
) -> bool {
    &&& 0 <= i < observations.len()
    &&& observations[i].path == path
    &&& forall|j: int| 0 <= j < i ==> (#[trigger] observations[j]).path != path
}

/// The hash that was found first at a path; none where nobody looked.
pub open spec fn has_hash(
    observations: Seq<DropTargetObservationV1View>,
    path: Seq<char>,
    hash: Option<Seq<char>>,
) -> bool {
    ||| exists|i: int|
        #[trigger] is_first_sight(observations, path, i) && observations[i].content_hash == hash
    ||| hash is None && forall|j: int|
        0 <= j < observations.len() ==> (#[trigger] observations[j]).path != path
}

proof fn lemma_found(
    observations: Seq<DropTargetObservationV1View>,
    path: Seq<char>,
    present: bool,
    hash: Option<Seq<char>>,
)
    ensures
        crate::intent_drop::in_scope(found_at(observations, path), present) == is_reached(
            observations,
            path,
            present,
        ),
        (found_at(observations, path).2 == hash) == has_hash(observations, path, hash),
{
    lemma_find_key::<DropTargetObservationV1>(observations, path);
    match find_key::<DropTargetObservationV1>(observations, path) {
        Some(i) => {
            assert forall|j: int| 0 <= j < i implies (#[trigger] observations[j]).path != path by {
                assert(DropTargetObservationV1::key(observations[j]) != path);
            }
            assert(is_first_sight(observations, path, i));
            assert forall|j: int| #[trigger] is_first_sight(observations, path, j) implies j == i by {
                if j < i {
                    assert(observations[j].path == path);
                }
            }
        },
        None => {
            assert forall|j: int| 0 <= j < observations.len() implies (
            #[trigger] observations[j]).path != path by {
                assert(DropTargetObservationV1::key(observations[j]) != path);
            }
        },
    }
}

/// An artifact says of its file something else than a patch: other contents after the layer, or
/// other contents before it.
pub open spec fn disagrees(a: EffectiveIntentArtifactV1View, x: ExactIntentPatchFileV1View) -> bool {
    a.binding.subject matches BoundedIntentArtifactSubjectV1View::FileHunk {
        normalized_relative_path,
        before_file_digest,
        after_file_digest,
        ..
    } && normalized_relative_path == x.path && (after_file_digest != x.expected_digest
        || before_file_digest != content_digest_of(
        match x.target {
            Some(bytes) => bytes,
            None => Seq::empty(),
        },
    ))
}

spec fn file_has_code(
    artifacts: Seq<EffectiveIntentArtifactV1View>,
    observations: Seq<DropTargetObservationV1View>,
    x: ExactIntentPatchFileV1View,
    code: IntentOperationErrorCode,
) -> bool {
    is_file_of_some(artifacts, x.path) && {
        ||| code == IntentOperationErrorCode::ArtifactDigestMismatch && exists|i: int|
            0 <= i < artifacts.len() && disagrees(#[trigger] artifacts[i], x)
        ||| code == IntentOperationErrorCode::UnsupportedArtifact && !x.expected_present && x.target
            is None
        ||| code == IntentOperationErrorCode::WorkspaceOutOfScope && (x.expected_present || x.target
            is Some) && !is_reached(observations, x.path, x.expected_present)
        ||| code == IntentOperationErrorCode::DriftedArtifact && (x.expected_present || x.target
            is Some) && !has_hash(
            observations,
            x.path,
            if x.expected_present {
                Some(x.expected_digest)
            } else {
                None
            },
        )
    }
}

proof fn lemma_is_file_of_some(artifacts: Seq<EffectiveIntentArtifactV1View>, path: Seq<char>)
    ensures
        any_where(artifacts, is_hunk_at(path)) == is_file_of_some(artifacts, path),
{
    if any_where(artifacts, is_hunk_at(path)) {
        let i = choose|i: int| 0 <= i < artifacts.len() && is_hunk_at(path)(#[trigger] artifacts[i]);
        assert(is_hunk_at(path)(artifacts[i]));
    }
    if is_file_of_some(artifacts, path) {
        let i = choose|i: int|
            0 <= i < artifacts.len() && ((#[trigger] artifacts[i]).binding.subject matches
            BoundedIntentArtifactSubjectV1View::FileHunk { normalized_relative_path, .. }
                && normalized_relative_path == path);
        assert(is_hunk_at(path)(artifacts[i]));
    }
}

proof fn lemma_file_codes(
    intent_ref: IntentVersionRefView,
    artifacts: Seq<EffectiveIntentArtifactV1View>,
    observations: Seq<DropTargetObservationV1View>,
    x: ExactIntentPatchFileV1View,
    others: Seq<IntentConflictV1View>,
    code: IntentOperationErrorCode,
)
    ensures
        has_code(file_conflicts(intent_ref, artifacts, observations, x, others), code) == (has_code(
            others,
            code,
        ) || file_has_code(artifacts, observations, x, code)),
{
    let own = selected(artifacts, is_hunk_at(x.path));
    lemma_selected(artifacts, is_hunk_at(x.path));
    lemma_is_file_of_some(artifacts, x.path);
    let hash = if x.expected_present {
        Some(x.expected_digest)
    } else {
        None
    };
    lemma_found(observations, x.path, x.expected_present, hash);
    let agrees = crate::intent_drop::artifact_agrees(x);
    assert((exists|i: int| 0 <= i < artifacts.len() && disagrees(#[trigger] artifacts[i], x))
        == !crate::search::all_where(artifacts, agrees)) by {
        if exists|i: int| 0 <= i < artifacts.len() && disagrees(#[trigger] artifacts[i], x) {
            let i = choose|i: int| 0 <= i < artifacts.len() && disagrees(#[trigger] artifacts[i], x);
            assert(!agrees(artifacts[i]));
        }
        if !crate::search::all_where(artifacts, agrees) {
            let i = choose|i: int| 0 <= i < artifacts.len() && !agrees(#[trigger] artifacts[i]);
            assert(disagrees(artifacts[i], x));
        }
    }
    if own.len() > 0 {
        let mismatch = drop_conflict(
            IntentOperationErrorCode::ArtifactDigestMismatch,
            intent_ref,
            Some(own[0].binding.artifact_id),
            "Intent reverse patch bytes do not match the layer manifest"@,
        );
        let bound = add_if(others, !crate::search::all_where(artifacts, agrees), mismatch);
        lemma_pushed_code(others, mismatch, code);
        let unsupported = drop_conflict(
            IntentOperationErrorCode::UnsupportedArtifact,
            intent_ref,
            None,
            "Intent reverse patch contains a no-op file target"@,
        );
        lemma_pushed_code(bound, unsupported, code);
        let found = found_at(observations, x.path);
        let outside = drop_conflict(
            IntentOperationErrorCode::WorkspaceOutOfScope,
            intent_ref,
            None,
            "Intent target is missing, a symlink, or outside a plain workspace parent"@,
        );
        let reached = crate::intent_drop::in_scope(found, x.expected_present);
        let next = add_if(bound, !reached, outside);
        lemma_pushed_code(bound, outside, code);
        let drifted = drop_conflict(
            IntentOperationErrorCode::DriftedArtifact,
            intent_ref,
            None,
            "Intent target content changed after layer materialization"@,
        );
        lemma_pushed_code(next, drifted, code);
    }
}

proof fn lemma_patch_codes(
    intent_ref: IntentVersionRefView,
    artifacts: Seq<EffectiveIntentArtifactV1View>,
    observations: Seq<DropTargetObservationV1View>,
    patch: Seq<ExactIntentPatchFileV1View>,
    others: Seq<IntentConflictV1View>,
    code: IntentOperationErrorCode,
)
    ensures
        has_code(
            patch_after(intent_ref, artifacts, observations, patch, others).conflicts,
            code,
        ) == (has_code(others, code) || exists|k: int|
            0 <= k < patch.len() && file_has_code(artifacts, observations, #[trigger] patch[k], code)),
    decreases patch.len(),
{
    if patch.len() > 0 {
        let rest = patch.drop_last();
        let x = patch.last();
        let before = patch_after(intent_ref, artifacts, observations, rest, others);
        lemma_patch_codes(intent_ref, artifacts, observations, rest, others, code);
        lemma_file_codes(intent_ref, artifacts, observations, x, before.conflicts, code);
        if exists|k: int|
            0 <= k < rest.len() && file_has_code(artifacts, observations, #[trigger] rest[k], code) {
            let k = choose|k: int|
                0 <= k < rest.len() && file_has_code(
                    artifacts,
                    observations,
                    #[trigger] rest[k],
                    code,
                );
            assert(patch[k] == rest[k]);
        }
        if file_has_code(artifacts, observations, x, code) {
            assert(patch[patch.len() - 1] == x);
        }
        if exists|k: int|
            0 <= k < patch.len() && file_has_code(artifacts, observations, #[trigger] patch[k], code) {
            let k = choose|k: int|
                0 <= k < patch.len() && file_has_code(
                    artifacts,
                    observations,
                    #[trigger] patch[k],
                    code,
                );
            if k < rest.len() {
                assert(rest[k] == patch[k]);
            }
        }
    }
}

proof fn lemma_ordered_codes(s: Seq<IntentConflictV1View>, code: IntentOperationErrorCode)
    ensures
        has_code(items_in_order(s, conflict_order()), code) == has_code(s, code),
{
    let t = items_in_order(s, conflict_order());
    lemma_ordered_items(s, conflict_order());
    if has_code(s, code) {
        let i = choose|i: int| 0 <= i < s.len() && (#[trigger] s[i]).code == code;
        assert(s.contains(s[i]));
        assert(t.contains(s[i]));
        let j = choose|j: int| 0 <= j < t.len() && t[j] == s[i];
        assert(t[j].code == code);
    }
    if has_code(t, code) {
        let i = choose|i: int| 0 <= i < t.len() && (#[trigger] t[i]).code == code;
        assert(t.contains(t[i]));
        assert(s.contains(t[i]));
        let j = choose|j: int| 0 <= j < s.len() && s[j] == t[i];
        assert(s[j].code == code);
    }
}

spec fn target_has_code(
    plan: IntentPlanV1View,
    dropped: Seq<IntentVersionRefView>,
    intent_ref: IntentVersionRefView,
    code: IntentOperationErrorCode,
) -> bool {
    ||| code == IntentOperationErrorCode::IntentStateConflict && dropped.contains(intent_ref)
    ||| code == IntentOperationErrorCode::TargetNotLeaf && is_built_on(plan, dropped, intent_ref)
}

/// An intent of a plan that was not dropped builds on another.
pub open spec fn is_built_on(
    plan: IntentPlanV1View,
    dropped: Seq<IntentVersionRefView>,
    intent_ref: IntentVersionRefView,
) -> bool {
    exists|i: int|
        0 <= i < plan.intents.len() && (#[trigger] plan.intents[i]).intent_ref != intent_ref
            && !dropped.contains(plan.intents[i].intent_ref) && plan.intents[i].depends_on.contains(
            intent_ref.intent_id,
        )
}

proof fn lemma_target_codes(
    plan: IntentPlanV1View,
    dropped: Seq<IntentVersionRefView>,
    intent_ref: IntentVersionRefView,
    code: IntentOperationErrorCode,
)
    ensures
        is_leaf(plan, dropped, intent_ref) == !is_built_on(plan, dropped, intent_ref),
        has_code(
            target_conflicts(
                intent_ref,
                dropped.contains(intent_ref),
                is_leaf(plan, dropped, intent_ref),
            ),
            code,
        ) == target_has_code(plan, dropped, intent_ref, code),
{
    let p = builds_on(intent_ref, dropped);
    if any_where(plan.intents, p) {
        let i = choose|i: int| 0 <= i < plan.intents.len() && p(#[trigger] plan.intents[i]);
        assert(p(plan.intents[i]));
    }
    if is_built_on(plan, dropped, intent_ref) {
        let i = choose|i: int|
            0 <= i < plan.intents.len() && (#[trigger] plan.intents[i]).intent_ref != intent_ref
                && !dropped.contains(plan.intents[i].intent_ref)
                && plan.intents[i].depends_on.contains(intent_ref.intent_id);
        assert(p(plan.intents[i]));
    }
    let e = Seq::<IntentConflictV1View>::empty();
    assert(!has_code(e, code));
    let state = drop_conflict(
        IntentOperationErrorCode::IntentStateConflict,
        intent_ref,
        None,
        "Intent is already dropped"@,
    );
    lemma_pushed_code(e, state, code);
    let first = add_if(e, dropped.contains(intent_ref), state);
    lemma_pushed_code(
        first,
        drop_conflict(
            IntentOperationErrorCode::TargetNotLeaf,
            intent_ref,
            None,
            "Active downstream intent depends on this target"@,
        ),
        code,
    );
}

spec fn layer_has_code(
    intent_ref: IntentVersionRefView,
    layer: Option<IntentLayerStateV1View>,
    contents: Seq<ArtifactContentV1View>,
    observations: Seq<DropTargetObservationV1View>,
    code: IntentOperationErrorCode,
) -> bool {
    match layer {
        None => code == IntentOperationErrorCode::MissingExecutionLineage,
        Some(l) => {
            ||| exists|i: int| 0 <= i < l.artifacts.len() && is_obstacle(#[trigger] l.artifacts[i], code)
            ||| match content_of(contents, l.layer_manifest.core.reverse_patch_artifact_id) {
                None => code == IntentOperationErrorCode::ArtifactUnavailable,
                Some(bytes) => match read_patch(bytes) {
                    Err(_) => code == IntentOperationErrorCode::ArtifactDigestMismatch,
                    Ok(patch) => {
                        ||| code == IntentOperationErrorCode::UnsupportedArtifact && exists|i: int|
                            0 <= i < l.artifacts.len() && !((
                            #[trigger] l.artifacts[i]).binding.subject is FileHunk)
                        ||| code == IntentOperationErrorCode::ArtifactDigestMismatch
                            && !patch_covers(l.artifacts, patch)
                        ||| exists|k: int|
                            0 <= k < patch.len() && file_has_code(
                                l.artifacts,
                                observations,
                                #[trigger] patch[k],
                                code,
                            )
                    },
                },
            }
        },
    }
}

proof fn lemma_drop_codes(
    frontier: u64,
    workspace_revision: u64,
    contents: Seq<ArtifactContentV1View>,
    observations: Seq<DropTargetObservationV1View>,
    plan: IntentPlanV1View,
    lineage: IntentLineageProjectionV1View,
    layers: IntentLayerProjectionV1View,
    dropped: Seq<IntentVersionRefView>,
    intent_ref: IntentVersionRefView,
    d: ResolvedDropView,
    code: IntentOperationErrorCode,
)
    requires
        d == drop_of(
            frontier,
            workspace_revision,
            contents,
            observations,
            plan,
            lineage,
            layers,
            dropped,
            intent_ref,
        ),
    ensures
        has_code(d.preview.conflicts, code) == (target_has_code(plan, dropped, intent_ref, code)
            || layer_has_code(
            intent_ref,
            latest_layer(layers, intent_ref),
            contents,
            observations,
            code,
        )),
{
    let others = target_conflicts(
        intent_ref,
        dropped.contains(intent_ref),
        is_leaf(plan, dropped, intent_ref),
    );
    lemma_target_codes(plan, dropped, intent_ref, code);
    let layer = latest_layer(layers, intent_ref);
    let got = drop_of_layer(intent_ref, layer, contents, observations, others).1;
    lemma_ordered_codes(got.conflicts, code);
    match layer {
        None => {
            lemma_pushed_code(
                others,
                drop_conflict(
                    IntentOperationErrorCode::MissingExecutionLineage,
                    intent_ref,
                    None,
                    "Intent has no executable layer"@,
                ),
                code,
            );
        },
        Some(l) => {
            let own = artifact_conflicts(intent_ref, l.artifacts, others);
            lemma_artifact_codes(intent_ref, l.artifacts, others, code);
            match content_of(contents, l.layer_manifest.core.reverse_patch_artifact_id) {
                None => {
                    lemma_pushed_code(
                        own,
                        drop_conflict(
                            IntentOperationErrorCode::ArtifactUnavailable,
                            intent_ref,
                            None,
                            "Intent reverse patch artifact is unavailable"@,
                        ),
                        code,
                    );
                },
                Some(bytes) => match read_patch(bytes) {
                    Err(_) => {
                        lemma_pushed_code(
                            own,
                            drop_conflict(
                                IntentOperationErrorCode::ArtifactDigestMismatch,
                                intent_ref,
                                None,
                                "Intent reverse patch artifact is malformed"@,
                            ),
                            code,
                        );
                    },
                    Ok(patch) => {
                        let foreign = foreign_conflicts(intent_ref, l.artifacts, own);
                        lemma_foreign_codes(intent_ref, l.artifacts, own, code);
                        lemma_pushed_code(
                            foreign,
                            drop_conflict(
                                IntentOperationErrorCode::ArtifactDigestMismatch,
                                intent_ref,
                                None,
                                "Intent reverse patch paths do not match the layer manifest"@,
                            ),
                            code,
                        );
                        let start = patch_start(intent_ref, l.artifacts, patch, own);
                        lemma_patch_codes(
                            intent_ref,
                            l.artifacts,
                            observations,
                            patch,
                            start,
                            code,
                        );
                        assert(got.conflicts == patch_after(
                            intent_ref,
                            l.artifacts,
                            observations,
                            patch,
                            start,
                        ).conflicts);
                    },
                },
            }
        },
    }
}

/// What stands in the way of the target itself is told exactly: that it was dropped, that an intent
/// that was not dropped builds on it, and that it has no layer.
pub proof fn law_obstacles_of_the_target_are_told(
    frontier: u64,
    workspace_revision: u64,
    contents: Seq<ArtifactContentV1View>,
    observations: Seq<DropTargetObservationV1View>,
    plan: IntentPlanV1View,
    lineage: IntentLineageProjectionV1View,
    layers: IntentLayerProjectionV1View,
    dropped: Seq<IntentVersionRefView>,
    intent_ref: IntentVersionRefView,
    d: ResolvedDropView,
)
    requires
        d == drop_of(
            frontier,
            workspace_revision,
            contents,
            observations,
            plan,
            lineage,
            layers,
            dropped,
            intent_ref,
        ),
    ensures
        has_code(d.preview.conflicts, IntentOperationErrorCode::IntentStateConflict)
            == dropped.contains(intent_ref),
        has_code(d.preview.conflicts, IntentOperationErrorCode::TargetNotLeaf) == is_built_on(
            plan,
            dropped,
            intent_ref,
        ),
        d.preview.target_is_leaf == !is_built_on(plan, dropped, intent_ref),
        has_code(d.preview.conflicts, IntentOperationErrorCode::MissingExecutionLineage) == (forall|
            i: int,
        |
            0 <= i < layers.layers.len() ==> (
            #[trigger] layers.layers[i]).layer_manifest.core.intent_ref != intent_ref),
{
    lemma_latest_layer(layers, intent_ref);
    lemma_target_codes(
        plan,
        dropped,
        intent_ref,
        IntentOperationErrorCode::TargetNotLeaf,
    );
    assert forall|code: IntentOperationErrorCode| #[trigger]
        has_code(d.preview.conflicts, code) == (target_has_code(plan, dropped, intent_ref, code)
            || layer_has_code(
            intent_ref,
            latest_layer(layers, intent_ref),
            contents,
            observations,
            code,
        )) by {
        lemma_drop_codes(
            frontier,
            workspace_revision,
            contents,
            observations,
            plan,
            lineage,
            layers,
            dropped,
            intent_ref,
            d,
            code,
        );
    }
}

/// What stands in the way of artifacts is told exactly: that one of the latest layer of the intent
/// can not be read, or that one that can be read is shared, has no proved owner, or is not what the
/// workspace holds.
pub proof fn law_obstacles_of_artifacts_are_told(
    frontier: u64,
    workspace_revision: u64,
    contents: Seq<ArtifactContentV1View>,
    observations: Seq<DropTargetObservationV1View>,
    plan: IntentPlanV1View,
    lineage: IntentLineageProjectionV1View,
    layers: IntentLayerProjectionV1View,
    dropped: Seq<IntentVersionRefView>,
    intent_ref: IntentVersionRefView,
    d: ResolvedDropView,
    l: int,
)
    requires
        d == drop_of(
            frontier,
            workspace_revision,
            contents,
            observations,
            plan,
            lineage,
            layers,
            dropped,
            intent_ref,
        ),
        is_last_layer(layers.layers, intent_ref, l),
    ensures
        ({
            let artifacts = layers.layers[l].artifacts;
            let id = layers.layers[l].layer_manifest.core.reverse_patch_artifact_id;
            let told = d.preview.conflicts;
            &&& has_code(told, IntentOperationErrorCode::SharedArtifact) == (exists|i: int|
                0 <= i < artifacts.len() && (#[trigger] artifacts[i]).availability
                    == IntentArtifactAvailability::Available && artifacts[i].ownership
                    == IntentArtifactOwnership::Shared)
            &&& has_code(told, IntentOperationErrorCode::UnownedArtifact) == (exists|i: int|
                0 <= i < artifacts.len() && (#[trigger] artifacts[i]).availability
                    == IntentArtifactAvailability::Available && artifacts[i].ownership
                    == IntentArtifactOwnership::Unowned)
            &&& (exists|i: int|
                0 <= i < artifacts.len() && (#[trigger] artifacts[i]).availability
                    == IntentArtifactAvailability::Available && artifacts[i].ownership
                    == IntentArtifactOwnership::Drifted) ==> has_code(
                told,
                IntentOperationErrorCode::DriftedArtifact,
            )
            &&& has_code(told, IntentOperationErrorCode::ArtifactUnavailable) == ((exists|i: int|
                0 <= i < artifacts.len() && (#[trigger] artifacts[i]).availability
                    != IntentArtifactAvailability::Available) || forall|c: int|
                0 <= c < contents.len() ==> (#[trigger] contents[c]).artifact_id != id)
        }),
{
    lemma_latest_layer(layers, intent_ref);
    let layer = layers.layers[l];
    assert(latest_layer(layers, intent_ref) == Some(layer));
    let id = layer.layer_manifest.core.reverse_patch_artifact_id;
    lemma_find_key::<ArtifactContentV1>(contents, id);
    if let None = find_key::<ArtifactContentV1>(contents, id) {
        assert forall|c: int| 0 <= c < contents.len() implies (#[trigger] contents[c]).artifact_id
            != id by {
            assert(ArtifactContentV1::key(contents[c]) != id);
        }
    }
    assert forall|code: IntentOperationErrorCode| #[trigger]
        has_code(d.preview.conflicts, code) == (target_has_code(plan, dropped, intent_ref, code)
            || layer_has_code(
            intent_ref,
            latest_layer(layers, intent_ref),
            contents,
            observations,
            code,
        )) by {
        lemma_drop_codes(
            frontier,
            workspace_revision,
            contents,
            observations,
            plan,
            lineage,
            layers,
            dropped,
            intent_ref,
            d,
            code,
        );
    }
    let artifacts = layer.artifacts;
    assert forall|i: int| 0 <= i < artifacts.len() implies is_obstacle(
        #[trigger] artifacts[i],
        IntentOperationErrorCode::SharedArtifact,
    ) == (artifacts[i].availability == IntentArtifactAvailability::Available && artifacts[i].ownership
        == IntentArtifactOwnership::Shared) by {}
    assert forall|i: int| 0 <= i < artifacts.len() implies is_obstacle(
        #[trigger] artifacts[i],
        IntentOperationErrorCode::UnownedArtifact,
    ) == (artifacts[i].availability == IntentArtifactAvailability::Available && artifacts[i].ownership
        == IntentArtifactOwnership::Unowned) by {}
    assert forall|i: int| 0 <= i < artifacts.len() implies is_obstacle(
        #[trigger] artifacts[i],
        IntentOperationErrorCode::DriftedArtifact,
    ) == (artifacts[i].availability == IntentArtifactAvailability::Available && artifacts[i].ownership
        == IntentArtifactOwnership::Drifted) by {}
    assert forall|i: int| 0 <= i < artifacts.len() implies is_obstacle(
        #[trigger] artifacts[i],
        IntentOperationErrorCode::ArtifactUnavailable,
    ) == (artifacts[i].availability != IntentArtifactAvailability::Available) by {}
}

/// What stands in the way of files is told exactly, where the reverse patch of the latest layer of
/// the intent can be read: that a file is not where and what it must be, that its contents were
/// changed since the layer, that the patch is not one of the files and the contents of the layer,
/// and that there is something else than a change of a file.
pub proof fn law_obstacles_of_files_are_told(
    frontier: u64,
    workspace_revision: u64,
    contents: Seq<ArtifactContentV1View>,
    observations: Seq<DropTargetObservationV1View>,
    plan: IntentPlanV1View,
    lineage: IntentLineageProjectionV1View,
    layers: IntentLayerProjectionV1View,
    dropped: Seq<IntentVersionRefView>,
    intent_ref: IntentVersionRefView,
    d: ResolvedDropView,
    l: int,
    c: int,
    patch: Seq<ExactIntentPatchFileV1View>,
)
    requires
        d == drop_of(
            frontier,
            workspace_revision,
            contents,
            observations,
            plan,
            lineage,
            layers,
            dropped,
            intent_ref,
        ),
        is_last_layer(layers.layers, intent_ref, l),
        is_first_content(
            contents,
            layers.layers[l].layer_manifest.core.reverse_patch_artifact_id,
            c,
        ),
        read_patch(contents[c].content) == Ok::<_, Seq<char>>(patch),
    ensures
        ({
            let artifacts = layers.layers[l].artifacts;
            let told = d.preview.conflicts;
            &&& has_code(told, IntentOperationErrorCode::WorkspaceOutOfScope) == (exists|
                f: ResolvedDropFileView,
            | #[trigger]
                d.files.contains(f) && !is_reached(observations, f.path, f.expected_hash is Some))
            &&& has_code(told, IntentOperationErrorCode::DriftedArtifact) == ((exists|
                f: ResolvedDropFileView,
            | #[trigger]
                d.files.contains(f) && !has_hash(observations, f.path, f.expected_hash)) || exists|
                i: int,
            |
                0 <= i < artifacts.len() && (#[trigger] artifacts[i]).availability
                    == IntentArtifactAvailability::Available && artifacts[i].ownership
                    == IntentArtifactOwnership::Drifted)
            &&& has_code(told, IntentOperationErrorCode::ArtifactDigestMismatch) == ((exists|k: int|
                0 <= k < patch.len() && !is_file_of_some(
                    artifacts,
                    (#[trigger] patch[k]).path,
                )) || (exists|i: int|
                0 <= i < artifacts.len() && ((#[trigger] artifacts[i]).binding.subject matches
                BoundedIntentArtifactSubjectV1View::FileHunk { normalized_relative_path, .. }
                    && !has_path(patch, normalized_relative_path))) || (exists|i: int, k: int|
                0 <= i < artifacts.len() && 0 <= k < patch.len() && disagrees(
                    #[trigger] artifacts[i],
                    #[trigger] patch[k],
                )))
            &&& has_code(told, IntentOperationErrorCode::UnsupportedArtifact) == ((exists|i: int|
                0 <= i < artifacts.len() && !((#[trigger] artifacts[i]).binding.subject is FileHunk))
                || (exists|k: int|
                0 <= k < patch.len() && !(#[trigger] patch[k]).expected_present && patch[k].target
                    is None && is_file_of_some(artifacts, patch[k].path)))
        }),
{
    lemma_latest_layer(layers, intent_ref);
    let layer = layers.layers[l];
    assert(latest_layer(layers, intent_ref) == Some(layer));
    let id = layer.layer_manifest.core.reverse_patch_artifact_id;
    lemma_find_key::<ArtifactContentV1>(contents, id);
    assert(content_of(contents, id) == Some(contents[c].content)) by {
        let e = find_key::<ArtifactContentV1>(contents, id);
        assert(ArtifactContentV1::key(contents[c]) == id);
        if e->0 < c {
            assert(contents[e->0].artifact_id != id);
        }
    }
    assert forall|code: IntentOperationErrorCode| #[trigger]
        has_code(d.preview.conflicts, code) == (target_has_code(plan, dropped, intent_ref, code)
            || layer_has_code(
            intent_ref,
            latest_layer(layers, intent_ref),
            contents,
            observations,
            code,
        )) by {
        lemma_drop_codes(
            frontier,
            workspace_revision,
            contents,
            observations,
            plan,
            lineage,
            layers,
            dropped,
            intent_ref,
            d,
            code,
        );
    }
    let artifacts = layer.artifacts;
    assert forall|f: ResolvedDropFileView| #[trigger] d.files.contains(f) == (exists|k: int|
        0 <= k < patch.len() && is_patched_so(f, #[trigger] patch[k]) && is_file_of_some(
            artifacts,
            patch[k].path,
        ) && (patch[k].expected_present || patch[k].target is Some)) by {
        let others = target_conflicts(
            intent_ref,
            dropped.contains(intent_ref),
            is_leaf(plan, dropped, intent_ref),
        );
        let own = artifact_conflicts(intent_ref, artifacts, others);
        let start = patch_start(intent_ref, artifacts, patch, own);
        let all = patch_after(intent_ref, artifacts, observations, patch, start);
        assert(d.files == items_in_order(all.files, file_order()));
        lemma_ordered_items(all.files, file_order());
        assert(d.files.contains(f) == all.files.contains(f));
        lemma_files_of_patch(intent_ref, artifacts, observations, patch, start, f);
    }
    lemma_codes_of_files(artifacts, observations, patch, d.files);
    lemma_patch_covers(artifacts, patch);
    assert forall|i: int, k: int|
        0 <= i < artifacts.len() && 0 <= k < patch.len() && disagrees(
            #[trigger] artifacts[i],
            #[trigger] patch[k],
        ) implies is_file_of_some(artifacts, patch[k].path) by {}
    assert forall|i: int| 0 <= i < artifacts.len() implies is_obstacle(
        #[trigger] artifacts[i],
        IntentOperationErrorCode::DriftedArtifact,
    ) == (artifacts[i].availability == IntentArtifactAvailability::Available && artifacts[i].ownership
        == IntentArtifactOwnership::Drifted) by {}
    lemma_code_of_disagreement(artifacts, observations, patch);
    lemma_code_of_nothing(artifacts, observations, patch);
}

proof fn lemma_code_of_disagreement(
    artifacts: Seq<EffectiveIntentArtifactV1View>,
    observations: Seq<DropTargetObservationV1View>,
    patch: Seq<ExactIntentPatchFileV1View>,
)
    ensures
        (exists|k: int|
            0 <= k < patch.len() && file_has_code(
                artifacts,
                observations,
                #[trigger] patch[k],
                IntentOperationErrorCode::ArtifactDigestMismatch,
            )) == (exists|i: int, k: int|
            0 <= i < artifacts.len() && 0 <= k < patch.len() && disagrees(
                #[trigger] artifacts[i],
                #[trigger] patch[k],
            )),
{
    let code = IntentOperationErrorCode::ArtifactDigestMismatch;
    if exists|k: int|
        0 <= k < patch.len() && file_has_code(artifacts, observations, #[trigger] patch[k], code) {
        let k = choose|k: int|
            0 <= k < patch.len() && file_has_code(artifacts, observations, #[trigger] patch[k], code);
        let i = choose|i: int| 0 <= i < artifacts.len() && disagrees(#[trigger] artifacts[i], patch[k]);
        assert(disagrees(artifacts[i], patch[k]));
    }
    if exists|i: int, k: int|
        0 <= i < artifacts.len() && 0 <= k < patch.len() && disagrees(
            #[trigger] artifacts[i],
            #[trigger] patch[k],
        ) {
        let (i, k) = choose|i: int, k: int|
            0 <= i < artifacts.len() && 0 <= k < patch.len() && disagrees(
                #[trigger] artifacts[i],
                #[trigger] patch[k],
            );
        assert(is_file_of_some(artifacts, patch[k].path));
        assert(file_has_code(artifacts, observations, patch[k], code));
    }
}

proof fn lemma_code_of_nothing(
    artifacts: Seq<EffectiveIntentArtifactV1View>,
    observations: Seq<DropTargetObservationV1View>,
    patch: Seq<ExactIntentPatchFileV1View>,
)
    ensures
        (exists|k: int|
            0 <= k < patch.len() && file_has_code(
                artifacts,
                observations,
                #[trigger] patch[k],
                IntentOperationErrorCode::UnsupportedArtifact,
            )) == (exists|k: int|
            0 <= k < patch.len() && !(#[trigger] patch[k]).expected_present && patch[k].target
                is None && is_file_of_some(artifacts, patch[k].path)),
{
    let code = IntentOperationErrorCode::UnsupportedArtifact;
    assert forall|k: int| 0 <= k < patch.len() implies file_has_code(
        artifacts,
        observations,
        #[trigger] patch[k],
        code,
    ) == (!patch[k].expected_present && patch[k].target is None && is_file_of_some(
        artifacts,
        patch[k].path,
    )) by {}
}

/// A patch changes the file at a path.
pub open spec fn has_path(patch: Seq<ExactIntentPatchFileV1View>, path: Seq<char>) -> bool {
    exists|k: int| 0 <= k < patch.len() && (#[trigger] patch[k]).path == path
}

proof fn lemma_patch_covers(
    artifacts: Seq<EffectiveIntentArtifactV1View>,
    patch: Seq<ExactIntentPatchFileV1View>,
)
    ensures
        !patch_covers(artifacts, patch) == ((exists|k: int|
            0 <= k < patch.len() && !is_file_of_some(artifacts, (#[trigger] patch[k]).path)) || (
        exists|i: int|
            0 <= i < artifacts.len() && ((#[trigger] artifacts[i]).binding.subject matches
            BoundedIntentArtifactSubjectV1View::FileHunk { normalized_relative_path, .. }
                && !has_path(patch, normalized_relative_path)))),
{
    let p = has_artifact(artifacts);
    let q = is_patched(patch_paths(patch));
    assert forall|k: int| 0 <= k < patch.len() implies p(#[trigger] patch[k]) == is_file_of_some(
        artifacts,
        patch[k].path,
    ) by {
        lemma_is_file_of_some(artifacts, patch[k].path);
    }
    assert forall|path: Seq<char>| #[trigger] patch_paths(patch).contains(path) == has_path(
        patch,
        path,
    ) by {
        let paths = patch_paths(patch);
        if paths.contains(path) {
            let k = choose|k: int| 0 <= k < paths.len() && paths[k] == path;
            assert(patch[k].path == path);
        }
        if has_path(patch, path) {
            let k = choose|k: int| 0 <= k < patch.len() && (#[trigger] patch[k]).path == path;
            assert(paths[k] == path);
        }
    }
    assert forall|i: int| 0 <= i < artifacts.len() implies q(#[trigger] artifacts[i]) == (
    artifacts[i].binding.subject matches BoundedIntentArtifactSubjectV1View::FileHunk {
        normalized_relative_path,
        ..
    } ==> has_path(patch, normalized_relative_path)) by {
        assert(patch_paths(patch).contains(artifact_path_of(artifacts[i].binding)) == has_path(
            patch,
            artifact_path_of(artifacts[i].binding),
        ));
    }
}

proof fn lemma_codes_of_files(
    artifacts: Seq<EffectiveIntentArtifactV1View>,
    observations: Seq<DropTargetObservationV1View>,
    patch: Seq<ExactIntentPatchFileV1View>,
    files: Seq<ResolvedDropFileView>,
)
    requires
        forall|f: ResolvedDropFileView| #[trigger]
            files.contains(f) == (exists|k: int|
                0 <= k < patch.len() && is_patched_so(f, #[trigger] patch[k]) && is_file_of_some(
                    artifacts,
                    patch[k].path,
                ) && (patch[k].expected_present || patch[k].target is Some)),
    ensures
        (exists|k: int|
            0 <= k < patch.len() && file_has_code(
                artifacts,
                observations,
                #[trigger] patch[k],
                IntentOperationErrorCode::WorkspaceOutOfScope,
            )) == (exists|f: ResolvedDropFileView| #[trigger]
            files.contains(f) && !is_reached(observations, f.path, f.expected_hash is Some)),
        (exists|k: int|
            0 <= k < patch.len() && file_has_code(
                artifacts,
                observations,
                #[trigger] patch[k],
                IntentOperationErrorCode::DriftedArtifact,
            )) == (exists|f: ResolvedDropFileView| #[trigger]
            files.contains(f) && !has_hash(observations, f.path, f.expected_hash)),
{
    let outside = IntentOperationErrorCode::WorkspaceOutOfScope;
    let drifted = IntentOperationErrorCode::DriftedArtifact;
    assert forall|k: int|
        0 <= k < patch.len() && (file_has_code(
            artifacts,
            observations,
            #[trigger] patch[k],
            outside,
        ) || file_has_code(artifacts, observations, patch[k], drifted)) implies files.contains(
        file_to_drop(patch[k]),
    ) by {
        assert(is_patched_so(file_to_drop(patch[k]), patch[k]));
    }
    if exists|f: ResolvedDropFileView| #[trigger]
        files.contains(f) && !is_reached(observations, f.path, f.expected_hash is Some) {
        let f = choose|f: ResolvedDropFileView| #[trigger]
            files.contains(f) && !is_reached(observations, f.path, f.expected_hash is Some);
        let k = choose|k: int|
            0 <= k < patch.len() && is_patched_so(f, #[trigger] patch[k]) && is_file_of_some(
                artifacts,
                patch[k].path,
            ) && (patch[k].expected_present || patch[k].target is Some);
        assert(file_has_code(artifacts, observations, patch[k], outside));
    }
    if exists|f: ResolvedDropFileView| #[trigger]
        files.contains(f) && !has_hash(observations, f.path, f.expected_hash) {
        let f = choose|f: ResolvedDropFileView| #[trigger]
            files.contains(f) && !has_hash(observations, f.path, f.expected_hash);
        let k = choose|k: int|
            0 <= k < patch.len() && is_patched_so(f, #[trigger] patch[k]) && is_file_of_some(
                artifacts,
                patch[k].path,
            ) && (patch[k].expected_present || patch[k].target is Some);
        assert(file_has_code(artifacts, observations, patch[k], drifted));
    }
}

// What a preview is of.

proof fn lemma_impacts_of(receipts: Seq<Seq<char>>, x: IntentVerificationImpactV1View)
    ensures
        impacts_of(receipts).contains(x) == (receipts.contains(x.receipt_id) && (x.impact
            == IntentVerificationImpact::BecomesStale || x.impact
            == IntentVerificationImpact::RerunRequired)),
    decreases receipts.len(),
{
    if receipts.len() > 0 {
        let rest = receipts.drop_last();
        let last = receipts.last();
        lemma_impacts_of(rest, x);
        let stale = IntentVerificationImpactV1View {
            receipt_id: last,
            impact: IntentVerificationImpact::BecomesStale,
        };
        let rerun = IntentVerificationImpactV1View {
            receipt_id: last,
            impact: IntentVerificationImpact::RerunRequired,
        };
        lemma_pushed_members(impacts_of(rest), stale, x);
        lemma_pushed_members(impacts_of(rest).push(stale), rerun, x);
        assert(receipts =~= rest.push(last));
        lemma_pushed_members(rest, last, x.receipt_id);
    }
}

/// A preview is one of the drop of one intent of the plan. The intents that stay are those of the
/// plan that were not dropped, without the target. Every receipt that counts for the target becomes
/// stale, and its check must run again; no other receipt is touched.
pub proof fn law_previews_tell_what_stays(
    frontier: u64,
    workspace_revision: u64,
    contents: Seq<ArtifactContentV1View>,
    observations: Seq<DropTargetObservationV1View>,
    plan: IntentPlanV1View,
    lineage: IntentLineageProjectionV1View,
    layers: IntentLayerProjectionV1View,
    dropped: Seq<IntentVersionRefView>,
    intent_ref: IntentVersionRefView,
    d: ResolvedDropView,
    x: IntentVersionRefView,
    receipt: Seq<char>,
)
    requires
        d == drop_of(
            frontier,
            workspace_revision,
            contents,
            observations,
            plan,
            lineage,
            layers,
            dropped,
            intent_ref,
        ),
    ensures
        d.preview.operation_kind == IntentOperationKind::Drop,
        d.preview.target_intents == seq![intent_ref],
        d.preview.stack_id == plan.stack_id,
        d.preview.stack_version == plan.stack_version,
        d.preview.workspace_revision == workspace_revision,
        d.preview.expires_at_ms is None,
        d.source_frontier_sequence == frontier,
        d.preview.retained_intents.contains(x) <==> plan_refs(plan).contains(x) && x != intent_ref
            && !dropped.contains(x),
        d.preview.verification_impacts.contains(
            IntentVerificationImpactV1View {
                receipt_id: receipt,
                impact: IntentVerificationImpact::BecomesStale,
            },
        ) <==> current_receipts(lineage, intent_ref).contains(receipt),
        d.preview.verification_impacts.contains(
            IntentVerificationImpactV1View {
                receipt_id: receipt,
                impact: IntentVerificationImpact::RerunRequired,
            },
        ) <==> current_receipts(lineage, intent_ref).contains(receipt),
        forall|i: int|
            0 <= i < d.preview.verification_impacts.len() ==> (
            #[trigger] d.preview.verification_impacts[i]).impact
                == IntentVerificationImpact::BecomesStale || d.preview.verification_impacts[i].impact
                == IntentVerificationImpact::RerunRequired,
        is_last_layer_or_none(layers.layers, intent_ref, d.artifact_manifest_digest),
{
    lemma_selected_members(plan_refs(plan), stays(intent_ref, dropped), x);
    let receipts = current_receipts(lineage, intent_ref);
    lemma_ascending_members(receipts);
    let stale = IntentVerificationImpactV1View {
        receipt_id: receipt,
        impact: IntentVerificationImpact::BecomesStale,
    };
    let rerun = IntentVerificationImpactV1View {
        receipt_id: receipt,
        impact: IntentVerificationImpact::RerunRequired,
    };
    lemma_impacts_of(ascending_of(receipts), stale);
    lemma_impacts_of(ascending_of(receipts), rerun);
    assert(ascending_of(receipts).contains(receipt) == receipts.contains(receipt));
    let all = d.preview.verification_impacts;
    assert forall|i: int| 0 <= i < all.len() implies (#[trigger] all[i]).impact
        == IntentVerificationImpact::BecomesStale || all[i].impact
        == IntentVerificationImpact::RerunRequired by {
        lemma_impacts_of(ascending_of(receipts), all[i]);
        assert(all.contains(all[i]));
    }
    lemma_latest_layer(layers, intent_ref);
}

/// The digest is that of the artifacts of the last layer of an intent, where it has one.
pub open spec fn is_last_layer_or_none(
    layers: Seq<IntentLayerStateV1View>,
    intent_ref: IntentVersionRefView,
    digest: Seq<char>,
) -> bool {
    forall|l: int| #[trigger]
        is_last_layer(layers, intent_ref, l) ==> digest
            == layers[l].layer_manifest.artifact_manifest_digest
}

} // verus!
