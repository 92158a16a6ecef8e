//! What a replay of layers shows: who owns an artifact, whether it can be had, and what is said of
//! the layer of an intent.

use vstd::prelude::*;

use crate::intent::{
    BoundedIntentArtifactSubjectV1View, IntentApplicationState, IntentArtifactAvailability,
    IntentArtifactManifestV1, IntentArtifactOwnership, IntentVersionRefView,
};
use crate::intent_admission::plan_refs;
use crate::intent_layer::{
    aged_layers, artifact_drifted, artifact_told, claimed_by_other, content_of, count_owned,
    count_unavailable, drifts, fresh_artifacts, is_hunk_at, is_latest_layer, is_source_event,
    latest_layer, layer_reason, layer_summary, layers_after, layers_of, owned_layers,
    refreshed_layer, tells_of_artifact, told_after, ArtifactContentV1, ArtifactContentV1View,
};
use crate::intent_lineage::IntentLineageProjectionV1View;
use crate::intent_stack::{latest_accepted, IntentStackProjectionV1View};
use crate::intent_state::{
    EffectiveIntentArtifactV1View, IntentLayerProjectionV1View, IntentLayerReadOnlyReasonV1,
    IntentLayerStateV1View,
};
use crate::json::Encode;
use crate::records::{
    FileType, MutationArtifactLifecycleStatus, MutationSubjectView, RecordBodyView,
    SessionStreamRecordView,
};
use crate::search::{any_where, lemma_last_where};
use crate::value::lemma_find_key;

verus! {

// What the stream tells of artifacts.

/// The record tells that an artifact cannot be had for a reason.
pub open spec fn tells(
    r: SessionStreamRecordView,
    id: Seq<char>,
    availability: IntentArtifactAvailability,
) -> bool {
    r.body matches RecordBodyView::ArtifactLifecycle(l) && l.artifact_id == id && (match l.status {
        MutationArtifactLifecycleStatus::Deleted => availability
            == IntentArtifactAvailability::Deleted,
        MutationArtifactLifecycleStatus::Expired => availability
            == IntentArtifactAvailability::Expired,
        MutationArtifactLifecycleStatus::Unavailable => availability
            == IntentArtifactAvailability::Corrupted,
    })
}

/// The last record that tells of an artifact is later than `sequence`, and tells `availability`.
#[verifier::opaque]
pub open spec fn is_last_word(
    records: Seq<SessionStreamRecordView>,
    id: Seq<char>,
    sequence: u64,
    availability: IntentArtifactAvailability,
) -> bool {
    exists|i: int|
        0 <= i < records.len() && tells(#[trigger] records[i], id, availability)
            && records[i].stream_sequence > sequence && forall|j: int|
            i < j < records.len() ==> !((#[trigger] records[j]).body matches RecordBodyView::ArtifactLifecycle(
            l) && l.artifact_id == id)
}

proof fn lemma_last_word(
    records: Seq<SessionStreamRecordView>,
    id: Seq<char>,
    sequence: u64,
    availability: IntentArtifactAvailability,
)
    ensures
        is_last_word(records, id, sequence, availability) == (told_after(records, id, sequence)
            == Some(availability)),
{
    reveal(is_last_word);
    let p = tells_of_artifact(id);
    lemma_last_where(records, p);
    assert forall|j: int| 0 <= j < records.len() implies p(#[trigger] records[j]) == (
    records[j].body matches RecordBodyView::ArtifactLifecycle(l) && l.artifact_id == id) by {}
    if is_last_word(records, id, sequence, availability) {
        let i = choose|i: int|
            0 <= i < records.len() && tells(#[trigger] records[i], id, availability)
                && records[i].stream_sequence > sequence && forall|j: int|
                i < j < records.len() ==> !((
                #[trigger] records[j]).body matches RecordBodyView::ArtifactLifecycle(l)
                    && l.artifact_id == id);
        assert(p(records[i]));
        match crate::search::last_where(records, p) {
            Some(m) => {
                assert(p(records[m]));
                assert(m == i);
            },
            None => {},
        }
    }
    if told_after(records, id, sequence) == Some(availability) {
        let m = crate::search::last_where(records, p)->0;
        assert(tells(records[m], id, availability));
        assert forall|j: int| m < j < records.len() implies !((
        #[trigger] records[j]).body matches RecordBodyView::ArtifactLifecycle(l) && l.artifact_id
            == id) by {
            assert(!p(records[j]));
        }
    }
}

/// Nothing is told of an artifact after `sequence`, or what is told last of it is earlier.
pub open spec fn is_without_word(
    records: Seq<SessionStreamRecordView>,
    id: Seq<char>,
    sequence: u64,
) -> bool {
    forall|availability: IntentArtifactAvailability|
        !#[trigger] is_last_word(records, id, sequence, availability)
}

proof fn lemma_without_word(records: Seq<SessionStreamRecordView>, id: Seq<char>, sequence: u64)
    ensures
        is_without_word(records, id, sequence) == (told_after(records, id, sequence) is None),
        forall|availability: IntentArtifactAvailability| #[trigger]
            is_last_word(records, id, sequence, availability) == (told_after(records, id, sequence)
                == Some(availability)),
{
    assert forall|availability: IntentArtifactAvailability| #[trigger]
        is_last_word(records, id, sequence, availability) == (told_after(records, id, sequence)
            == Some(availability)) by {
        lemma_last_word(records, id, sequence, availability);
    }
    if told_after(records, id, sequence) is Some {
        assert(is_last_word(records, id, sequence, told_after(records, id, sequence)->0));
    }
}

/// How an artifact of a layer can be had: as the stream tells last of it, else as it tells last of
/// the forward patch, of the reverse patch or of the manifest of the layer, else as it was bound.
pub open spec fn is_had_so(
    records: Seq<SessionStreamRecordView>,
    layer: IntentLayerStateV1View,
    a: EffectiveIntentArtifactV1View,
) -> bool {
    let at = layer.layer_stream_sequence;
    let own = a.binding.artifact_id;
    let forward = layer.layer_manifest.core.forward_patch_artifact_id;
    let reverse = layer.layer_manifest.core.reverse_patch_artifact_id;
    let manifest = layer.layer_manifest.artifact_manifest_id;
    ||| is_last_word(records, own, at, a.availability)
    ||| is_without_word(records, own, at) && is_last_word(records, forward, at, a.availability)
    ||| is_without_word(records, own, at) && is_without_word(records, forward, at) && is_last_word(
        records,
        reverse,
        at,
        a.availability,
    )
    ||| is_without_word(records, own, at) && is_without_word(records, forward, at)
        && is_without_word(records, reverse, at) && is_last_word(
        records,
        manifest,
        at,
        a.availability,
    )
    ||| is_without_word(records, own, at) && is_without_word(records, forward, at)
        && is_without_word(records, reverse, at) && is_without_word(records, manifest, at)
        && a.availability == a.binding.availability
}

// Who owns an artifact.

/// An artifact is of a part of the file at a path.
pub open spec fn is_of_file(a: EffectiveIntentArtifactV1View, path: Seq<char>) -> bool {
    a.binding.subject matches BoundedIntentArtifactSubjectV1View::FileHunk {
        normalized_relative_path,
        ..
    } && normalized_relative_path == path
}

/// An event is one that an artifact of some layer comes from.
pub open spec fn is_source_of_some(layers: Seq<IntentLayerStateV1View>, id: Seq<char>) -> bool {
    exists|i: int, k: int|
        0 <= i < layers.len() && 0 <= k < layers[i].artifacts.len() && (
        #[trigger] layers[i].artifacts[k]).binding.provenance.source_event_id == id
}

/// A record tells that the file of a layer was changed behind the layer: the workspace is dirty in
/// an unknown way, or a mutation of that plain file that no artifact of a layer comes from left
/// other contents.
pub open spec fn is_change_behind(
    layers: Seq<IntentLayerStateV1View>,
    r: SessionStreamRecordView,
    path: Seq<char>,
    after: Seq<char>,
) -> bool {
    ||| r.body matches RecordBodyView::WorkspaceMutation(d) && d.unknown_dirty
    ||| r.body matches RecordBodyView::MutationCommitted(c) && !is_source_of_some(layers, r.event_id)
        && c.observed_after_hash != Some(after) && (
    c.committed_subject matches MutationSubjectView::File { portable_path, file_type, .. }
        && portable_path == Some(path) && file_type == FileType::File)
}

/// The file of an artifact of a layer was changed behind the layer by a later record.
pub open spec fn has_drifted(
    records: Seq<SessionStreamRecordView>,
    layers: Seq<IntentLayerStateV1View>,
    layer: IntentLayerStateV1View,
    a: EffectiveIntentArtifactV1View,
) -> bool {
    a.binding.subject matches BoundedIntentArtifactSubjectV1View::FileHunk {
        normalized_relative_path,
        after_file_digest,
        ..
    } && exists|n: int|
        0 <= n < records.len() && (#[trigger] records[n]).stream_sequence
            > layer.layer_stream_sequence && is_change_behind(
            layers,
            records[n],
            normalized_relative_path,
            after_file_digest,
        )
}

/// The layer at `i` is the last one of an intent that the accepted plan holds.
pub open spec fn stands(
    layers: Seq<IntentLayerStateV1View>,
    accepted: Seq<IntentVersionRefView>,
    i: int,
) -> bool {
    &&& 0 <= i < layers.len()
    &&& accepted.contains(layers[i].layer_manifest.core.intent_ref)
    &&& forall|j: int|
        i < j < layers.len() ==> (#[trigger] layers[j]).layer_manifest.core.intent_ref
            != layers[i].layer_manifest.core.intent_ref
}

/// A layer that stands, of another intent, holds an artifact of the same file.
pub open spec fn is_held_twice(
    layers: Seq<IntentLayerStateV1View>,
    accepted: Seq<IntentVersionRefView>,
    i: int,
    a: EffectiveIntentArtifactV1View,
) -> bool {
    stands(layers, accepted, i) && exists|j: int, n: int|
        stands(layers, accepted, j) && layers[j].layer_manifest.core.intent_ref
            != layers[i].layer_manifest.core.intent_ref && 0 <= n < layers[j].artifacts.len()
            && share_a_file(#[trigger] layers[j].artifacts[n], a)
}

/// Two artifacts are of one file.
pub open spec fn share_a_file(
    a: EffectiveIntentArtifactV1View,
    b: EffectiveIntentArtifactV1View,
) -> bool {
    exists|path: Seq<char>| #[trigger] is_of_file(a, path) && is_of_file(b, path)
}

/// Layers have the same places, intents, sequences and bindings.
spec fn same_frame(a: Seq<IntentLayerStateV1View>, b: Seq<IntentLayerStateV1View>) -> bool {
    &&& a.len() == b.len()
    &&& forall|i: int|
        #![trigger a[i]]
        #![trigger b[i]]
        0 <= i < a.len() ==> {
            &&& a[i].layer_manifest == b[i].layer_manifest
            &&& a[i].artifact_manifest == b[i].artifact_manifest
            &&& a[i].layer_stream_sequence == b[i].layer_stream_sequence
            &&& a[i].artifacts.len() == b[i].artifacts.len()
        }
    &&& forall|i: int, k: int|
        #![trigger a[i].artifacts[k]]
        #![trigger b[i].artifacts[k]]
        0 <= i < a.len() && 0 <= k < a[i].artifacts.len() ==> a[i].artifacts[k].binding
            == b[i].artifacts[k].binding
}

proof fn lemma_fresh_layers(
    records: Seq<SessionStreamRecordView>,
    admission: IntentStackProjectionV1View,
    lineage: IntentLineageProjectionV1View,
    n: int,
)
    ensures
        layers_after(records, admission, lineage, n) matches Ok(s) ==> forall|i: int|
            0 <= i < s.layers.len() ==> (#[trigger] s.layers[i]).artifacts == fresh_artifacts(
                s.layers[i].artifact_manifest.artifacts,
            ),
    decreases n,
{
    if n > 0 {
        lemma_fresh_layers(records, admission, lineage, n - 1);
    }
}

proof fn lemma_source_events(
    a: Seq<IntentLayerStateV1View>,
    b: Seq<IntentLayerStateV1View>,
    id: Seq<char>,
)
    requires
        same_frame(a, b),
    ensures
        is_source_event(a, id) == is_source_of_some(b, id),
{
    if is_source_event(a, id) {
        let (i, k) = choose|i: int, k: int|
            0 <= i < a.len() && 0 <= k < a[i].artifacts.len() && (
            #[trigger] a[i].artifacts[k]).binding.provenance.source_event_id == id;
        assert(b[i].artifacts[k].binding.provenance.source_event_id == id);
    }
    if is_source_of_some(b, id) {
        let (i, k) = choose|i: int, k: int|
            0 <= i < b.len() && 0 <= k < b[i].artifacts.len() && (
            #[trigger] b[i].artifacts[k]).binding.provenance.source_event_id == id;
        assert(a[i].artifacts[k].binding.provenance.source_event_id == id);
    }
}

proof fn lemma_drift(
    records: Seq<SessionStreamRecordView>,
    old_layers: Seq<IntentLayerStateV1View>,
    layers: Seq<IntentLayerStateV1View>,
    layer: IntentLayerStateV1View,
    sequence: u64,
    a: EffectiveIntentArtifactV1View,
)
    requires
        same_frame(old_layers, layers),
        sequence == layer.layer_stream_sequence,
    ensures
        artifact_drifted(records, old_layers, sequence, a) == if has_drifted(records, layers, layer, a) {
            EffectiveIntentArtifactV1View { ownership: IntentArtifactOwnership::Drifted, ..a }
        } else {
            a
        },
{
    match a.binding.subject {
        BoundedIntentArtifactSubjectV1View::FileHunk {
            normalized_relative_path: path,
            after_file_digest: after,
            ..
        } => {
            let p = drifts(old_layers, sequence, path, after);
            assert forall|n: int| 0 <= n < records.len() implies p(#[trigger] records[n]) == (
            records[n].stream_sequence > layer.layer_stream_sequence && is_change_behind(
                layers,
                records[n],
                path,
                after,
            )) by {
                lemma_source_events(old_layers, layers, records[n].event_id);
            }
            if any_where(records, p) {
                let n = choose|n: int| 0 <= n < records.len() && p(#[trigger] records[n]);
                assert(is_change_behind(layers, records[n], path, after));
            }
            if has_drifted(records, layers, layer, a) {
                let n = choose|n: int|
                    0 <= n < records.len() && (#[trigger] records[n]).stream_sequence
                        > layer.layer_stream_sequence && is_change_behind(
                        layers,
                        records[n],
                        path,
                        after,
                    );
                assert(p(records[n]));
            }
        },
        _ => {},
    }
}

proof fn lemma_twice(
    aged: Seq<IntentLayerStateV1View>,
    layers: Seq<IntentLayerStateV1View>,
    refs: Seq<IntentVersionRefView>,
    i: int,
    a: EffectiveIntentArtifactV1View,
    path: Seq<char>,
)
    requires
        same_frame(aged, layers),
        0 <= i < aged.len(),
        is_of_file(a, path),
    ensures
        is_latest_layer(aged, refs, i) == stands(layers, refs, i),
        stands(layers, refs, i) ==> claimed_by_other(
            aged,
            refs,
            aged[i].layer_manifest.core.intent_ref,
            path,
        ) == is_held_twice(layers, refs, i, a),
{
    assert forall|j: int| 0 <= j < aged.len() implies #[trigger] is_latest_layer(aged, refs, j)
        == stands(layers, refs, j) by {
        if is_latest_layer(aged, refs, j) {
            assert forall|m: int| j < m < layers.len() implies (
            #[trigger] layers[m]).layer_manifest.core.intent_ref
                != layers[j].layer_manifest.core.intent_ref by {
                assert(aged[m].layer_manifest == layers[m].layer_manifest);
                assert(aged[j].layer_manifest == layers[j].layer_manifest);
            }
            assert(aged[j].layer_manifest == layers[j].layer_manifest);
        }
        if stands(layers, refs, j) {
            assert forall|m: int| j < m < aged.len() implies (
            #[trigger] aged[m]).layer_manifest.core.intent_ref
                != aged[j].layer_manifest.core.intent_ref by {
                assert(aged[m].layer_manifest == layers[m].layer_manifest);
                assert(aged[j].layer_manifest == layers[j].layer_manifest);
            }
            assert(aged[j].layer_manifest == layers[j].layer_manifest);
        }
    }
    let own = aged[i].layer_manifest.core.intent_ref;
    let p = is_hunk_at(path);
    if stands(layers, refs, i) {
        if claimed_by_other(aged, refs, own, path) {
            let j = choose|j: int|
                0 <= j < aged.len() && (#[trigger] aged[j]).layer_manifest.core.intent_ref != own
                    && is_latest_layer(aged, refs, j) && any_where(aged[j].artifacts, p);
            let n = choose|n: int|
                0 <= n < aged[j].artifacts.len() && p(#[trigger] aged[j].artifacts[n]);
            assert(aged[j].artifacts[n].binding == layers[j].artifacts[n].binding);
            assert(is_of_file(layers[j].artifacts[n], path));
            assert(share_a_file(layers[j].artifacts[n], a));
            assert(stands(layers, refs, j));
        }
        if is_held_twice(layers, refs, i, a) {
            let (j, n) = choose|j: int, n: int|
                stands(layers, refs, j) && layers[j].layer_manifest.core.intent_ref
                    != layers[i].layer_manifest.core.intent_ref && 0 <= n
                    < layers[j].artifacts.len() && share_a_file(
                    #[trigger] layers[j].artifacts[n],
                    a,
                );
            assert(aged[j].artifacts[n].binding == layers[j].artifacts[n].binding);
            let q = choose|q: Seq<char>| #[trigger]
                is_of_file(layers[j].artifacts[n], q) && is_of_file(a, q);
            assert(q == path);
            assert(p(aged[j].artifacts[n]));
            assert(is_latest_layer(aged, refs, j));
        }
    }
}

proof fn lemma_had(
    records: Seq<SessionStreamRecordView>,
    fresh: IntentLayerStateV1View,
    layer: IntentLayerStateV1View,
    first: EffectiveIntentArtifactV1View,
    a: EffectiveIntentArtifactV1View,
)
    requires
        fresh.layer_manifest == layer.layer_manifest,
        fresh.layer_stream_sequence == layer.layer_stream_sequence,
        a.binding == first.binding,
        first.availability == first.binding.availability,
        a.availability == artifact_told(records, fresh, first).availability,
    ensures
        is_had_so(records, layer, a),
{
    let at = layer.layer_stream_sequence;
    lemma_without_word(records, a.binding.artifact_id, at);
    lemma_without_word(records, layer.layer_manifest.core.forward_patch_artifact_id, at);
    lemma_without_word(records, layer.layer_manifest.core.reverse_patch_artifact_id, at);
    lemma_without_word(records, layer.layer_manifest.artifact_manifest_id, at);
}

proof fn lemma_nothing_twice(
    layers: Seq<IntentLayerStateV1View>,
    refs: Seq<IntentVersionRefView>,
    i: int,
    a: EffectiveIntentArtifactV1View,
)
    requires
        !(a.binding.subject is FileHunk),
    ensures
        !is_held_twice(layers, refs, i, a),
{
    if is_held_twice(layers, refs, i, a) {
        let (j, m) = choose|j: int, m: int|
            stands(layers, refs, j) && layers[j].layer_manifest.core.intent_ref
                != layers[i].layer_manifest.core.intent_ref && 0 <= m < layers[j].artifacts.len()
                && share_a_file(#[trigger] layers[j].artifacts[m], a);
        let q = choose|q: Seq<char>| #[trigger]
            is_of_file(layers[j].artifacts[m], q) && is_of_file(a, q);
        assert(is_of_file(a, q));
    }
}

proof fn lemma_frames(
    records: Seq<SessionStreamRecordView>,
    fresh: Seq<IntentLayerStateV1View>,
    admission: IntentStackProjectionV1View,
)
    ensures
        same_frame(fresh, owned_layers(aged_layers(records, fresh), latest_accepted(admission))),
        same_frame(
            aged_layers(records, fresh),
            owned_layers(aged_layers(records, fresh), latest_accepted(admission)),
        ),
{
    let aged = aged_layers(records, fresh);
    assert(same_frame(fresh, aged));
    let layers = owned_layers(aged, latest_accepted(admission));
    assert(same_frame(aged, layers));
    assert forall|i: int, k: int|
        0 <= i < fresh.len() && 0 <= k < fresh[i].artifacts.len() implies (
    #[trigger] fresh[i].artifacts[k]).binding == layers[i].artifacts[k].binding by {
        assert(fresh[i].artifacts[k].binding == aged[i].artifacts[k].binding);
        assert(aged[i].artifacts[k].binding == layers[i].artifacts[k].binding);
    }
}

proof fn lemma_owned(
    aged: Seq<IntentLayerStateV1View>,
    admission: IntentStackProjectionV1View,
    refs: Seq<IntentVersionRefView>,
    i: int,
    k: int,
)
    requires
        0 <= i < aged.len(),
        0 <= k < aged[i].artifacts.len(),
        refs == match latest_accepted(admission) {
            Some(accepted) => plan_refs(accepted.plan),
            None => Seq::empty(),
        },
        same_frame(aged, owned_layers(aged, latest_accepted(admission))),
    ensures
        ({
            let layers = owned_layers(aged, latest_accepted(admission));
            let a = layers[i].artifacts[k];
            &&& a.availability == aged[i].artifacts[k].availability
            &&& a.ownership == if aged[i].artifacts[k].ownership
                != IntentArtifactOwnership::Drifted && is_held_twice(layers, refs, i, a) {
                IntentArtifactOwnership::Shared
            } else {
                aged[i].artifacts[k].ownership
            }
        }),
{
    let layers = owned_layers(aged, latest_accepted(admission));
    let a = layers[i].artifacts[k];
    let before = aged[i].artifacts[k];
    assert(before.binding == a.binding);
    match a.binding.subject {
        BoundedIntentArtifactSubjectV1View::FileHunk { normalized_relative_path: path, .. } => {
            assert(is_of_file(a, path));
            lemma_twice(aged, layers, refs, i, a, path);
        },
        _ => {
            lemma_nothing_twice(layers, refs, i, a);
        },
    }
}

/// An artifact of a layer is owned as it was bound, unless its file was changed behind the layer,
/// which is drift, or is held by the standing layer of another accepted intent too, which makes it
/// shared. It can be had as the stream tells last.
pub proof fn law_owners_are_exact(
    records: Seq<SessionStreamRecordView>,
    admission: IntentStackProjectionV1View,
    lineage: IntentLineageProjectionV1View,
    p: IntentLayerProjectionV1View,
    i: int,
    k: int,
)
    requires
        layers_of(records, admission, lineage) == Ok::<_, Seq<char>>(p),
        0 <= i < p.layers.len(),
        0 <= k < p.layers[i].artifacts.len(),
    ensures
        p.layers[i].artifacts.len() == p.layers[i].artifact_manifest.artifacts.len(),
        ({
            let layer = p.layers[i];
            let a = layer.artifacts[k];
            let refs = match latest_accepted(admission) {
                Some(accepted) => plan_refs(accepted.plan),
                None => Seq::empty(),
            };
            &&& a.binding == layer.artifact_manifest.artifacts[k]
            &&& is_had_so(records, layer, a)
            &&& a.ownership == if has_drifted(records, p.layers, layer, a) {
                IntentArtifactOwnership::Drifted
            } else if a.binding.ownership != IntentArtifactOwnership::Drifted && is_held_twice(
                p.layers,
                refs,
                i,
                a,
            ) {
                IntentArtifactOwnership::Shared
            } else {
                a.binding.ownership
            }
        }),
{
    let n = records.len() as int;
    lemma_fresh_layers(records, admission, lineage, n);
    let fresh = layers_after(records, admission, lineage, n)->Ok_0.layers;
    let aged = aged_layers(records, fresh);
    let layers = p.layers;
    lemma_frames(records, fresh, admission);
    let refs = match latest_accepted(admission) {
        Some(accepted) => plan_refs(accepted.plan),
        None => Seq::empty(),
    };
    let layer = layers[i];
    let a = layer.artifacts[k];
    let first = fresh[i].artifacts[k];
    assert(first.binding == a.binding);
    assert(first == fresh_artifacts(fresh[i].artifact_manifest.artifacts)[k]);
    let told = artifact_told(records, fresh[i], first);
    lemma_drift(records, fresh, layers, layer, layer.layer_stream_sequence, told);
    assert(aged[i].artifacts[k] == artifact_drifted(
        records,
        fresh,
        layer.layer_stream_sequence,
        told,
    ));
    assert(has_drifted(records, layers, layer, told) == has_drifted(records, layers, layer, a));
    lemma_owned(aged, admission, refs, i, k);
    lemma_had(records, fresh[i], layer, first, a);
}

// What is said of a layer.

/// An artifact gives its layer a reason to be read only: it cannot be had, or it can be had and is
/// not owned by the layer alone.
pub open spec fn gives_reason(
    a: EffectiveIntentArtifactV1View,
    reason: IntentLayerReadOnlyReasonV1,
) -> bool {
    match reason {
        IntentLayerReadOnlyReasonV1::ArtifactUnavailable => !(a.availability is Available),
        IntentLayerReadOnlyReasonV1::SharedOwnership => a.availability is Available
            && a.ownership is Shared,
        IntentLayerReadOnlyReasonV1::UnownedArtifact => a.availability is Available
            && a.ownership is Unowned,
        IntentLayerReadOnlyReasonV1::DriftedArtifact => a.availability is Available
            && a.ownership is Drifted,
        _ => false,
    }
}

/// An artifact is held by its layer alone and can be had.
pub open spec fn is_sound_artifact(a: EffectiveIntentArtifactV1View) -> bool {
    a.ownership is Exclusive && a.availability is Available
}

proof fn lemma_layer_reason(artifacts: Seq<EffectiveIntentArtifactV1View>)
    ensures
        layer_reason(artifacts) is None <==> forall|k: int|
            0 <= k < artifacts.len() ==> is_sound_artifact(#[trigger] artifacts[k]),
        layer_reason(artifacts) matches Some(reason) ==> exists|k: int|
            0 <= k < artifacts.len() && gives_reason(#[trigger] artifacts[k], reason) && forall|j: int|
                k < j < artifacts.len() ==> is_sound_artifact(#[trigger] artifacts[j]),
    decreases artifacts.len(),
{
    if artifacts.len() > 0 {
        let rest = artifacts.drop_last();
        let last = artifacts.len() - 1;
        lemma_layer_reason(rest);
        assert forall|k: int| 0 <= k < rest.len() implies rest[k] == #[trigger] artifacts[k] by {}
        match layer_reason(artifacts) {
            Some(reason) => {
                if is_sound_artifact(artifacts[last]) {
                    let k = choose|k: int|
                        0 <= k < rest.len() && gives_reason(#[trigger] rest[k], reason)
                            && forall|j: int|
                            k < j < rest.len() ==> is_sound_artifact(#[trigger] rest[j]);
                    assert(gives_reason(artifacts[k], reason));
                    assert forall|j: int| k < j < artifacts.len() implies is_sound_artifact(
                        #[trigger] artifacts[j],
                    ) by {
                        if j < last {
                            assert(rest[j] == artifacts[j]);
                        }
                    }
                } else {
                    assert(gives_reason(artifacts[last], reason));
                }
            },
            None => {
                assert forall|k: int| 0 <= k < artifacts.len() implies is_sound_artifact(
                    #[trigger] artifacts[k],
                ) by {
                    if k < last {
                        assert(rest[k] == artifacts[k]);
                    }
                }
            },
        }
        if (forall|k: int| 0 <= k < artifacts.len() ==> is_sound_artifact(#[trigger] artifacts[k])) {
            assert forall|k: int| 0 <= k < rest.len() implies is_sound_artifact(#[trigger] rest[k]) by {
                assert(is_sound_artifact(artifacts[k]));
            }
            assert(is_sound_artifact(artifacts[last]));
        }
    }
}

/// How many of the artifacts have a property.
pub open spec fn how_many(
    artifacts: Seq<EffectiveIntentArtifactV1View>,
    p: spec_fn(EffectiveIntentArtifactV1View) -> bool,
) -> nat {
    artifacts.filter(p).len()
}

proof fn lemma_counts(artifacts: Seq<EffectiveIntentArtifactV1View>, ownership: IntentArtifactOwnership)
    ensures
        count_owned(artifacts, ownership) == how_many(
            artifacts,
            |a: EffectiveIntentArtifactV1View| a.ownership == ownership,
        ),
        count_unavailable(artifacts) == how_many(
            artifacts,
            |a: EffectiveIntentArtifactV1View| !(a.availability is Available),
        ),
    decreases artifacts.len(),
{
    reveal(Seq::filter);
    if artifacts.len() > 0 {
        lemma_counts(artifacts.drop_last(), ownership);
    }
}

/// The number, or the largest that a count can hold.
pub open spec fn counted(n: nat) -> u32 {
    if n <= u32::MAX {
        n as u32
    } else {
        u32::MAX
    }
}

/// What is said of an intent is what its last layer is: without a layer nothing is said. The layer
/// is applied if and only if it alone holds every artifact and all can be had; else it is read only
/// for the reason that the last unsound artifact gives. The counts count the artifacts by their
/// owners, and the artifacts are shown one by one.
pub proof fn law_layers_are_told_as_they_are(
    p: IntentLayerProjectionV1View,
    intent_ref: IntentVersionRefView,
    i: int,
)
    requires
        0 <= i < p.layers.len(),
        p.layers[i].layer_manifest.core.intent_ref == intent_ref,
        forall|j: int|
            i < j < p.layers.len() ==> (#[trigger] p.layers[j]).layer_manifest.core.intent_ref
                != intent_ref,
    ensures
        latest_layer(p, intent_ref) == Some(p.layers[i]),
        ({
            let artifacts = p.layers[i].artifacts;
            let s = layer_summary(p, intent_ref);
            &&& s.application_state == Some(IntentApplicationState::Applied)
                || s.application_state == Some(IntentApplicationState::ReadOnly)
            &&& s.application_state == Some(IntentApplicationState::Applied) <==> forall|k: int|
                0 <= k < artifacts.len() ==> is_sound_artifact(#[trigger] artifacts[k])
            &&& s.read_only_reason is None <==> s.application_state == Some(
                IntentApplicationState::Applied,
            )
            &&& s.read_only_reason matches Some(reason) ==> exists|k: int|
                0 <= k < artifacts.len() && gives_reason(#[trigger] artifacts[k], reason)
                    && forall|j: int|
                    k < j < artifacts.len() ==> is_sound_artifact(#[trigger] artifacts[j])
            &&& s.exclusive_artifact_count == counted(
                how_many(artifacts, |a: EffectiveIntentArtifactV1View| a.ownership is Exclusive),
            )
            &&& s.shared_artifact_count == counted(
                how_many(artifacts, |a: EffectiveIntentArtifactV1View| a.ownership is Shared),
            )
            &&& s.unowned_artifact_count == counted(
                how_many(artifacts, |a: EffectiveIntentArtifactV1View| a.ownership is Unowned),
            )
            &&& s.drifted_artifact_count == counted(
                how_many(artifacts, |a: EffectiveIntentArtifactV1View| a.ownership is Drifted),
            )
            &&& s.unavailable_artifact_count == counted(
                how_many(
                    artifacts,
                    |a: EffectiveIntentArtifactV1View| !(a.availability is Available),
                ),
            )
            &&& s.artifacts.len() == artifacts.len()
            &&& forall|k: int|
                0 <= k < artifacts.len() ==> {
                    &&& (#[trigger] s.artifacts[k]).artifact_id == artifacts[k].binding.artifact_id
                    &&& s.artifacts[k].artifact_kind == artifacts[k].binding.artifact_kind
                    &&& s.artifacts[k].ownership == artifacts[k].ownership
                    &&& s.artifacts[k].availability == artifacts[k].availability
                    &&& forall|path: Seq<char>|
                        s.artifacts[k].normalized_relative_path == Some(path)
                            <==> #[trigger] is_of_file(artifacts[k], path)
                }
        }),
{
    let q = crate::intent_layer::is_layer_of(intent_ref);
    lemma_last_where(p.layers, q);
    assert(q(p.layers[i]));
    let m = crate::search::last_where(p.layers, q)->0;
    assert(q(p.layers[m]));
    assert(m == i);
    let artifacts = p.layers[i].artifacts;
    lemma_layer_reason(artifacts);
    lemma_counts(artifacts, IntentArtifactOwnership::Exclusive);
    lemma_counts(artifacts, IntentArtifactOwnership::Shared);
    lemma_counts(artifacts, IntentArtifactOwnership::Unowned);
    lemma_counts(artifacts, IntentArtifactOwnership::Drifted);
    assert((|a: EffectiveIntentArtifactV1View| a.ownership is Exclusive)
        =~= (|a: EffectiveIntentArtifactV1View| a.ownership == IntentArtifactOwnership::Exclusive));
    assert((|a: EffectiveIntentArtifactV1View| a.ownership is Shared)
        =~= (|a: EffectiveIntentArtifactV1View| a.ownership == IntentArtifactOwnership::Shared));
    assert((|a: EffectiveIntentArtifactV1View| a.ownership is Unowned)
        =~= (|a: EffectiveIntentArtifactV1View| a.ownership == IntentArtifactOwnership::Unowned));
    assert((|a: EffectiveIntentArtifactV1View| a.ownership is Drifted)
        =~= (|a: EffectiveIntentArtifactV1View| a.ownership == IntentArtifactOwnership::Drifted));
}

/// Of an intent without a layer nothing is said: no state, no artifact, no reason.
pub proof fn law_intents_without_layers_are_silent(
    p: IntentLayerProjectionV1View,
    intent_ref: IntentVersionRefView,
)
    requires
        forall|j: int|
            0 <= j < p.layers.len() ==> (#[trigger] p.layers[j]).layer_manifest.core.intent_ref
                != intent_ref,
    ensures
        latest_layer(p, intent_ref) is None,
        ({
            let s = layer_summary(p, intent_ref);
            &&& s.application_state is None
            &&& s.read_only_reason is None
            &&& s.artifacts.len() == 0
            &&& s.exclusive_artifact_count == 0
            &&& s.shared_artifact_count == 0
            &&& s.unowned_artifact_count == 0
            &&& s.drifted_artifact_count == 0
            &&& s.unavailable_artifact_count == 0
        }),
{
    let q = crate::intent_layer::is_layer_of(intent_ref);
    lemma_last_where(p.layers, q);
    match crate::search::last_where(p.layers, q) {
        Some(m) => {
            assert(q(p.layers[m]));
        },
        None => {},
    }
}

/// A stored artifact is among the contents that were found, and the first of its identity has the
/// bytes.
pub open spec fn is_found(
    contents: Seq<ArtifactContentV1View>,
    id: Seq<char>,
    bytes: Seq<u8>,
) -> bool {
    exists|i: int|
        0 <= i < contents.len() && (#[trigger] contents[i]).artifact_id == id && contents[i].content
            == bytes && forall|j: int|
            0 <= j < i ==> (#[trigger] contents[j]).artifact_id != id
}

/// Some contents of a stored artifact were found.
pub open spec fn is_stored(contents: Seq<ArtifactContentV1View>, id: Seq<char>) -> bool {
    exists|i: int| 0 <= i < contents.len() && (#[trigger] contents[i]).artifact_id == id
}

proof fn lemma_content(contents: Seq<ArtifactContentV1View>, id: Seq<char>, bytes: Seq<u8>)
    ensures
        (content_of(contents, id) == Some(bytes)) == is_found(contents, id, bytes),
        content_of(contents, id) is Some == is_stored(contents, id),
{
    lemma_find_key::<ArtifactContentV1>(contents, id);
    match crate::value::find_key::<ArtifactContentV1>(contents, id) {
        Some(i) => {
            assert(contents[i].artifact_id == id);
        },
        None => {},
    }
}

/// Looking for the artifacts of a layer leaves it as it is if and only if all it rests on is
/// stored: both patches, every artifact, and the manifest with its exact text. Otherwise what could
/// be had is corrupted; nothing else changes.
pub proof fn law_missing_artifacts_are_noticed(
    contents: Seq<ArtifactContentV1View>,
    layer: IntentLayerStateV1View,
    k: int,
)
    requires
        0 <= k < layer.artifacts.len(),
    ensures
        ({
            let a = layer.artifacts[k];
            let after = refreshed_layer(contents, layer);
            let stored = is_stored(contents, layer.layer_manifest.core.forward_patch_artifact_id)
                && is_stored(contents, layer.layer_manifest.core.reverse_patch_artifact_id)
                && is_found(
                contents,
                layer.layer_manifest.artifact_manifest_id,
                vstd::utf8::encode_utf8(IntentArtifactManifestV1::json(layer.artifact_manifest)),
            ) && forall|n: int|
                0 <= n < layer.artifact_manifest.artifacts.len() ==> is_stored(
                    contents,
                    (#[trigger] layer.artifact_manifest.artifacts[n]).artifact_id,
                );
            &&& after.artifacts.len() == layer.artifacts.len()
            &&& after.layer_manifest == layer.layer_manifest
            &&& after.artifact_manifest == layer.artifact_manifest
            &&& after.layer_stream_sequence == layer.layer_stream_sequence
            &&& after.artifacts[k].binding == a.binding
            &&& after.artifacts[k].ownership == a.ownership
            &&& after.artifacts[k].availability == if !stored && a.availability is Available {
                IntentArtifactAvailability::Corrupted
            } else {
                a.availability
            }
        }),
{
    let text = vstd::utf8::encode_utf8(IntentArtifactManifestV1::json(layer.artifact_manifest));
    lemma_content(contents, layer.layer_manifest.core.forward_patch_artifact_id, text);
    lemma_content(contents, layer.layer_manifest.core.reverse_patch_artifact_id, text);
    lemma_content(contents, layer.layer_manifest.artifact_manifest_id, text);
    let artifacts = layer.artifact_manifest.artifacts;
    assert forall|n: int| 0 <= n < artifacts.len() implies is_stored(
        contents,
        (#[trigger] artifacts[n]).artifact_id,
    ) == (content_of(contents, artifacts[n].artifact_id) is Some) by {
        lemma_content(contents, artifacts[n].artifact_id, text);
    }
}

} // verus!
