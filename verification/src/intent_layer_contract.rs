//! The contracts of artifacts, layers and operation previews.

use vstd::prelude::*;

use crate::intent::{
    BoundedIntentArtifactSubjectV1, BoundedIntentArtifactSubjectV1View, IntentArtifactBindingV1,
    IntentArtifactBindingV1View, IntentArtifactKind, IntentArtifactManifestV1,
    IntentArtifactManifestV1View, IntentArtifactOwnership, IntentConflictV1, IntentConflictV1View,
    IntentDigest, IntentDigestDomain, IntentLayerCoreV1, IntentLayerCoreV1View,
    IntentLayerManifestV1, IntentLayerManifestV1View, IntentOperationFileSummaryV1,
    IntentOperationFileSummaryV1View, IntentOperationPreviewV1, IntentOperationPreviewV1View,
    IntentVerificationImpactV1, IntentVerificationImpactV1View, IntentVersionRef,
    IntentVersionRefView, MAX_INTENT_REASON_BYTES,
};
use crate::intent_contract::{
    bounded_identity_verdict, bounded_text_verdict, canonical_digest, canonical_text_digest,
    optional_identity_verdict, origin_verdict, ref_verdict, relative_path_verdict, schema_verdict,
    validate_bounded_identity, validate_bounded_text, validate_execution_origin,
    validate_normalized_relative_path, validate_optional_identity, validate_schema_version,
};
use crate::value::{
    chain, check, first_failure, holds, lemma_failures_begin, lemma_failures_end,
    lemma_failures_step, outcome, reject, repeated_at, repeats, verdict, KernelError, Value,
    Verdict,
};

verus! {

/// The check that the subject of an artifact fits the rest of its binding.
pub open spec fn subject_verdict(a: IntentArtifactBindingV1View) -> Verdict {
    match a.subject {
        BoundedIntentArtifactSubjectV1View::FileHunk {
            normalized_relative_path,
            old_range,
            new_range,
            old_content_digest,
            new_content_digest,
            ..
        } => chain(
            check(
                a.artifact_kind == IntentArtifactKind::FileHunk,
                "file hunk subject requires file_hunk artifact kind"@,
            ),
            chain(
                check(
                    a.provenance.mutation_batch_id is Some && a.provenance.changeset_id is Some,
                    "file hunk artifact requires mutation and change set lineage"@,
                ),
                chain(
                    relative_path_verdict(normalized_relative_path),
                    chain(
                        check(
                            old_range.start <= old_range.end && new_range.start <= new_range.end,
                            "intent byte range start must not exceed end"@,
                        ),
                        check(
                            a.before_digest == Some(old_content_digest) && a.after_digest
                                == new_content_digest,
                            "intent file hunk content digests are inconsistent"@,
                        ),
                    ),
                ),
            ),
        ),
        BoundedIntentArtifactSubjectV1View::Evidence { reference_id } => chain(
            bounded_identity_verdict("intent artifact evidence reference"@, reference_id),
            check(
                a.artifact_kind != IntentArtifactKind::FileHunk && a.artifact_kind
                    != IntentArtifactKind::UnsupportedSideEffect,
                "evidence subject has incompatible artifact kind"@,
            ),
        ),
        BoundedIntentArtifactSubjectV1View::UnsupportedSideEffect { effect_kind, safe_summary } =>
        chain(
            check(
                a.artifact_kind == IntentArtifactKind::UnsupportedSideEffect,
                "unsupported side effect subject requires matching artifact kind"@,
            ),
            chain(
                bounded_identity_verdict("unsupported side effect kind"@, effect_kind),
                chain(
                    bounded_text_verdict(
                        "unsupported side effect summary"@,
                        safe_summary,
                        MAX_INTENT_REASON_BYTES as nat,
                    ),
                    check(
                        a.ownership != IntentArtifactOwnership::Exclusive,
                        "unsupported side effect cannot have exclusive ownership"@,
                    ),
                ),
            ),
        ),
    }
}

/// The check of an artifact binding.
pub open spec fn artifact_verdict(a: IntentArtifactBindingV1View) -> Verdict {
    chain(
        bounded_identity_verdict(
            "intent artifact source event id"@,
            a.provenance.source_event_id,
        ),
        chain(
            optional_identity_verdict(
                "intent artifact mutation batch id"@,
                a.provenance.mutation_batch_id,
            ),
            chain(
                optional_identity_verdict(
                    "intent artifact change set id"@,
                    a.provenance.changeset_id,
                ),
                chain(
                    optional_identity_verdict(
                        "intent artifact verification receipt id"@,
                        a.provenance.verification_receipt_id,
                    ),
                    subject_verdict(a),
                ),
            ),
        ),
    )
}

impl IntentArtifactBindingV1 {
    /// Checks the shape of the binding.
    pub fn validate_contract(&self) -> (r: Result<(), KernelError>)
        ensures
            verdict(r) == artifact_verdict(self.deep_view()),
    {
        validate_bounded_identity(
            "intent artifact source event id",
            self.provenance.source_event_id.as_str(),
        )?;
        validate_optional_identity(
            "intent artifact mutation batch id",
            &self.provenance.mutation_batch_id,
        )?;
        validate_optional_identity("intent artifact change set id", &self.provenance.changeset_id)?;
        validate_optional_identity(
            "intent artifact verification receipt id",
            &self.provenance.verification_receipt_id,
        )?;
        match &self.subject {
            BoundedIntentArtifactSubjectV1::FileHunk {
                normalized_relative_path,
                old_range,
                new_range,
                old_content_digest,
                new_content_digest,
                ..
            } => {
                if self.artifact_kind != IntentArtifactKind::FileHunk {
                    return reject("file hunk subject requires file_hunk artifact kind");
                }
                if self.provenance.mutation_batch_id.is_none()
                    || self.provenance.changeset_id.is_none() {
                    return reject("file hunk artifact requires mutation and change set lineage");
                }
                validate_normalized_relative_path(normalized_relative_path.as_str())?;
                if old_range.start > old_range.end || new_range.start > new_range.end {
                    return reject("intent byte range start must not exceed end");
                }
                let before_same = match &self.before_digest {
                    Some(d) => d.same(old_content_digest),
                    None => false,
                };
                if !before_same || !self.after_digest.same(new_content_digest) {
                    return reject("intent file hunk content digests are inconsistent");
                }
                Ok(())
            },
            BoundedIntentArtifactSubjectV1::Evidence { reference_id } => {
                validate_bounded_identity(
                    "intent artifact evidence reference",
                    reference_id.as_str(),
                )?;
                if self.artifact_kind == IntentArtifactKind::FileHunk || self.artifact_kind
                    == IntentArtifactKind::UnsupportedSideEffect {
                    return reject("evidence subject has incompatible artifact kind");
                }
                Ok(())
            },
            BoundedIntentArtifactSubjectV1::UnsupportedSideEffect { effect_kind, safe_summary } => {
                if self.artifact_kind != IntentArtifactKind::UnsupportedSideEffect {
                    return reject(
                        "unsupported side effect subject requires matching artifact kind",
                    );
                }
                validate_bounded_identity("unsupported side effect kind", effect_kind.as_str())?;
                validate_bounded_text(
                    "unsupported side effect summary",
                    safe_summary.as_str(),
                    MAX_INTENT_REASON_BYTES,
                )?;
                if self.ownership == IntentArtifactOwnership::Exclusive {
                    return reject("unsupported side effect cannot have exclusive ownership");
                }
                Ok(())
            },
        }
    }
}

/// The checks of a list of identities: each is bounded, and none comes twice.
pub open spec fn identity_list_verdicts(
    label: Seq<char>,
    repeated: Seq<char>,
    ids: Seq<Seq<char>>,
) -> Seq<Verdict> {
    Seq::new(
        ids.len(),
        |i: int| chain(bounded_identity_verdict(label, ids[i]), check(!repeats(ids, i), repeated)),
    )
}

/// Checks a list of identities.
pub(crate) fn validate_identity_list(label: &str, repeated: &str, ids: &Vec<String>) -> (r: Result<
    (),
    KernelError,
>)
    ensures
        verdict(r) == first_failure(
            identity_list_verdicts(label@, repeated@, ids.deep_view()),
        ),
{
    let ghost all = identity_list_verdicts(label@, repeated@, ids.deep_view());
    let mut i: usize = 0;
    proof {
        lemma_failures_begin(all);
    }
    while i < ids.len()
        invariant
            i <= ids.len(),
            all == identity_list_verdicts(label@, repeated@, ids.deep_view()),
            first_failure(all) == first_failure(all.skip(i as int)),
        decreases ids.len() - i,
    {
        proof {
            lemma_failures_step(all, i as int);
        }
        assert(ids.deep_view()[i as int] == ids@[i as int]@);
        validate_bounded_identity(label, ids[i].as_str())?;
        if repeated_at(ids, i) {
            return reject(repeated);
        }
        i = i + 1;
    }
    proof {
        lemma_failures_end(all);
    }
    Ok(())
}

/// The digest that a layer core should carry.
#[verifier::opaque]
pub open spec fn core_digest_of(c: IntentLayerCoreV1View) -> Seq<char> {
    canonical_digest(IntentDigestDomain::LayerCore, IntentLayerCoreV1::payload_json(c))
}

/// The checks of a layer core.
#[verifier::opaque]
pub open spec fn core_verdict(c: IntentLayerCoreV1View) -> Verdict {
    chain(
        schema_verdict(c.schema_version),
        chain(
            ref_verdict(c.intent_ref),
            chain(
                origin_verdict(c.execution_origin, true),
                chain(
                    bounded_identity_verdict("intent layer base snapshot id"@, c.base_snapshot_id),
                    chain(
                        bounded_identity_verdict(
                            "intent layer result snapshot id"@,
                            c.result_snapshot_id,
                        ),
                        chain(
                            check(
                                c.changeset_ids.len() > 0,
                                "executable intent layer requires change set lineage"@,
                            ),
                            chain(
                                first_failure(
                                    identity_list_verdicts(
                                        "intent layer change set id"@,
                                        "intent layer contains duplicate change set ids"@,
                                        c.changeset_ids,
                                    ),
                                ),
                                chain(
                                    bounded_identity_verdict(
                                        "intent layer forward patch artifact id"@,
                                        c.forward_patch_artifact_id,
                                    ),
                                    chain(
                                        bounded_identity_verdict(
                                            "intent layer reverse patch artifact id"@,
                                            c.reverse_patch_artifact_id,
                                        ),
                                        check(
                                            c.core_digest == core_digest_of(c),
                                            "intent layer core canonical digest mismatch"@,
                                        ),
                                    ),
                                ),
                            ),
                        ),
                    ),
                ),
            ),
        ),
    )
}

impl IntentLayerCoreV1 {
    /// The digest of the core, its own digest left out.
    pub fn computed_digest(&self) -> (r: Result<IntentDigest, KernelError>)
        ensures
            outcome(r) == Ok::<Seq<char>, Seq<char>>(core_digest_of(self.deep_view())),
    {
        let payload = self.to_payload_json();
        proof {
            reveal(core_digest_of);
        }
        Ok(canonical_text_digest(IntentDigestDomain::LayerCore, &payload))
    }

    /// Checks the lineage of the core and its digest.
    pub fn validate_contract(&self) -> (r: Result<(), KernelError>)
        ensures
            verdict(r) == core_verdict(self.deep_view()),
    {
        proof {
            reveal(core_verdict);
        }
        validate_schema_version(self.schema_version)?;
        self.intent_ref.validate()?;
        validate_execution_origin(&self.execution_origin, true)?;
        validate_bounded_identity("intent layer base snapshot id", self.base_snapshot_id.as_str())?;
        validate_bounded_identity(
            "intent layer result snapshot id",
            self.result_snapshot_id.as_str(),
        )?;
        if self.changeset_ids.len() == 0 {
            return reject("executable intent layer requires change set lineage");
        }
        validate_identity_list(
            "intent layer change set id",
            "intent layer contains duplicate change set ids",
            &self.changeset_ids,
        )?;
        validate_bounded_identity(
            "intent layer forward patch artifact id",
            self.forward_patch_artifact_id.as_str(),
        )?;
        validate_bounded_identity(
            "intent layer reverse patch artifact id",
            self.reverse_patch_artifact_id.as_str(),
        )?;
        let digest = self.computed_digest()?;
        if !digest.same(&self.core_digest) {
            return reject("intent layer core canonical digest mismatch");
        }
        Ok(())
    }
}

/// The identities of artifacts.
pub open spec fn artifact_ids(artifacts: Seq<IntentArtifactBindingV1View>) -> Seq<Seq<char>> {
    artifacts.map_values(|a: IntentArtifactBindingV1View| a.artifact_id)
}

/// A file hunk names the digest `core`; other subjects name none.
pub open spec fn names_core(subject: BoundedIntentArtifactSubjectV1View, core: Seq<char>) -> bool {
    match subject {
        BoundedIntentArtifactSubjectV1View::FileHunk { layer_core_digest, .. } => layer_core_digest
            == core,
        _ => true,
    }
}

/// The check of the artifact at `i` of a manifest.
pub open spec fn manifest_artifact_verdict(m: IntentArtifactManifestV1View, i: int) -> Verdict {
    let a = m.artifacts[i];
    chain(
        artifact_verdict(a),
        chain(
            check(
                !repeats(artifact_ids(m.artifacts), i),
                "intent artifact manifest contains duplicate artifact ids"@,
            ),
            chain(
                check(
                    a.provenance.execution_id == m.execution_id,
                    "intent artifact provenance references a different execution"@,
                ),
                check(
                    names_core(a.subject, m.layer_core_digest),
                    "intent file hunk references a different layer core digest"@,
                ),
            ),
        ),
    )
}

/// The checks of all artifacts of a manifest.
pub open spec fn manifest_artifact_verdicts(m: IntentArtifactManifestV1View) -> Seq<Verdict> {
    Seq::new(m.artifacts.len(), |i: int| manifest_artifact_verdict(m, i))
}

/// The digest that an artifact manifest should carry.
#[verifier::opaque]
pub open spec fn artifact_manifest_digest_of(m: IntentArtifactManifestV1View) -> Seq<char> {
    canonical_digest(
        IntentDigestDomain::ArtifactManifest,
        IntentArtifactManifestV1::payload_json(m),
    )
}

/// The checks of an artifact manifest.
#[verifier::opaque]
pub open spec fn artifact_manifest_verdict(m: IntentArtifactManifestV1View) -> Verdict {
    chain(
        schema_verdict(m.schema_version),
        chain(
            ref_verdict(m.intent_ref),
            chain(
                check(
                    m.artifacts.len() > 0,
                    "intent artifact manifest must contain at least one artifact"@,
                ),
                chain(
                    first_failure(manifest_artifact_verdicts(m)),
                    check(
                        m.manifest_digest == artifact_manifest_digest_of(m),
                        "intent artifact manifest canonical digest mismatch"@,
                    ),
                ),
            ),
        ),
    )
}

impl IntentArtifactManifestV1 {
    /// The digest of the manifest, its own digest left out.
    pub fn computed_digest(&self) -> (r: Result<IntentDigest, KernelError>)
        ensures
            outcome(r) == Ok::<Seq<char>, Seq<char>>(
                artifact_manifest_digest_of(self.deep_view()),
            ),
    {
        let payload = self.to_payload_json();
        proof {
            reveal(artifact_manifest_digest_of);
        }
        Ok(canonical_text_digest(IntentDigestDomain::ArtifactManifest, &payload))
    }

    fn id_repeats(&self, i: usize) -> (r: bool)
        requires
            i < self.artifacts.len(),
        ensures
            r == repeats(artifact_ids(self.deep_view().artifacts), i as int),
    {
        let ghost ids = artifact_ids(self.deep_view().artifacts);
        let mut j: usize = 0;
        while j < i
            invariant
                j <= i < self.artifacts.len(),
                ids == artifact_ids(self.deep_view().artifacts),
                forall|k: int| 0 <= k < j ==> ids[k] != ids[i as int],
            decreases i - j,
        {
            assert(ids[j as int] == self.artifacts@[j as int].artifact_id.deep_view());
            assert(ids[i as int] == self.artifacts@[i as int].artifact_id.deep_view());
            if self.artifacts[j].artifact_id.same(&self.artifacts[i].artifact_id) {
                return true;
            }
            j = j + 1;
        }
        false
    }

    fn validate_artifact(&self, i: usize) -> (r: Result<(), KernelError>)
        requires
            i < self.artifacts.len(),
        ensures
            verdict(r) == manifest_artifact_verdict(self.deep_view(), i as int),
    {
        let a = &self.artifacts[i];
        assert(self.deep_view().artifacts[i as int] == a.deep_view());
        a.validate_contract()?;
        if self.id_repeats(i) {
            return reject("intent artifact manifest contains duplicate artifact ids");
        }
        if !a.provenance.execution_id.same(&self.execution_id) {
            return reject("intent artifact provenance references a different execution");
        }
        if let BoundedIntentArtifactSubjectV1::FileHunk { layer_core_digest, .. } = &a.subject {
            if !layer_core_digest.same(&self.layer_core_digest) {
                return reject("intent file hunk references a different layer core digest");
            }
        }
        Ok(())
    }

    /// Checks the artifacts of the manifest and its digest.
    #[verifier::rlimit(60)]
    #[verifier::spinoff_prover]
    pub fn validate_contract(&self) -> (r: Result<(), KernelError>)
        ensures
            verdict(r) == artifact_manifest_verdict(self.deep_view()),
    {
        proof {
            reveal(artifact_manifest_verdict);
        }
        validate_schema_version(self.schema_version)?;
        self.intent_ref.validate()?;
        if self.artifacts.len() == 0 {
            return reject("intent artifact manifest must contain at least one artifact");
        }
        let ghost all = manifest_artifact_verdicts(self.deep_view());
        let mut i: usize = 0;
        proof {
            lemma_failures_begin(all);
        }
        while i < self.artifacts.len()
            invariant
                i <= self.artifacts.len(),
                all == manifest_artifact_verdicts(self.deep_view()),
                all.len() == self.artifacts.len(),
                artifact_manifest_verdict(self.deep_view()) == chain(
                    first_failure(all),
                    check(
                        self.manifest_digest.deep_view() == artifact_manifest_digest_of(
                            self.deep_view(),
                        ),
                        "intent artifact manifest canonical digest mismatch"@,
                    ),
                ),
                first_failure(all) == first_failure(all.skip(i as int)),
            decreases self.artifacts.len() - i,
        {
            proof {
                lemma_failures_step(all, i as int);
            }
            self.validate_artifact(i)?;
            i = i + 1;
        }
        proof {
            lemma_failures_end(all);
        }
        let digest = self.computed_digest()?;
        if !digest.same(&self.manifest_digest) {
            return reject("intent artifact manifest canonical digest mismatch");
        }
        Ok(())
    }
}

/// The digest that a layer manifest should carry.
#[verifier::opaque]
pub open spec fn layer_manifest_digest_of(m: IntentLayerManifestV1View) -> Seq<char> {
    canonical_digest(IntentDigestDomain::LayerManifest, IntentLayerManifestV1::payload_json(m))
}

/// The checks of a layer manifest.
pub open spec fn layer_manifest_verdict(m: IntentLayerManifestV1View) -> Verdict {
    chain(
        schema_verdict(m.schema_version),
        chain(
            core_verdict(m.core),
            chain(
                bounded_identity_verdict("intent artifact manifest id"@, m.artifact_manifest_id),
                check(
                    m.manifest_digest == layer_manifest_digest_of(m),
                    "intent layer manifest canonical digest mismatch"@,
                ),
            ),
        ),
    )
}

impl IntentLayerManifestV1 {
    /// The digest of the manifest, its own digest left out.
    pub fn computed_digest(&self) -> (r: Result<IntentDigest, KernelError>)
        ensures
            outcome(r) == Ok::<Seq<char>, Seq<char>>(layer_manifest_digest_of(self.deep_view())),
    {
        let payload = self.to_payload_json();
        proof {
            reveal(layer_manifest_digest_of);
        }
        Ok(canonical_text_digest(IntentDigestDomain::LayerManifest, &payload))
    }

    /// Checks the core of the manifest, its artifact manifest and its digest.
    #[verifier::rlimit(60)]
    #[verifier::spinoff_prover]
    pub fn validate_contract(&self) -> (r: Result<(), KernelError>)
        ensures
            verdict(r) == layer_manifest_verdict(self.deep_view()),
    {
        validate_schema_version(self.schema_version)?;
        self.core.validate_contract()?;
        validate_bounded_identity(
            "intent artifact manifest id",
            self.artifact_manifest_id.as_str(),
        )?;
        let digest = self.computed_digest()?;
        if !digest.same(&self.manifest_digest) {
            return reject("intent layer manifest canonical digest mismatch");
        }
        Ok(())
    }
}

/// The checks of the targets of a preview.
pub open spec fn target_verdicts(targets: Seq<IntentVersionRefView>) -> Seq<Verdict> {
    Seq::new(
        targets.len(),
        |i: int|
            chain(
                ref_verdict(targets[i]),
                check(
                    !repeats(targets, i),
                    "intent operation preview contains duplicate targets"@,
                ),
            ),
    )
}

/// The checks of the intents that a preview retains.
pub open spec fn retained_verdicts(
    targets: Seq<IntentVersionRefView>,
    retained: Seq<IntentVersionRefView>,
) -> Seq<Verdict> {
    Seq::new(
        retained.len(),
        |i: int|
            chain(
                ref_verdict(retained[i]),
                chain(
                    check(
                        !targets.contains(retained[i]),
                        "intent operation preview cannot both target and retain one intent"@,
                    ),
                    check(
                        !repeats(retained, i),
                        "intent operation preview contains duplicate retained intents"@,
                    ),
                ),
            ),
    )
}

/// The checks of the file effects of a preview.
pub open spec fn file_effect_verdicts(files: Seq<IntentOperationFileSummaryV1View>) -> Seq<
    Verdict,
> {
    Seq::new(
        files.len(),
        |i: int|
            chain(
                relative_path_verdict(files[i].normalized_relative_path),
                check(
                    files[i].artifact_ids.len() > 0,
                    "intent operation file effect requires artifact ids"@,
                ),
            ),
    )
}

/// The checks of the verification impacts of a preview.
pub open spec fn impact_verdicts(impacts: Seq<IntentVerificationImpactV1View>) -> Seq<Verdict> {
    Seq::new(
        impacts.len(),
        |i: int|
            bounded_identity_verdict(
                "intent operation verification receipt id"@,
                impacts[i].receipt_id,
            ),
    )
}

/// The check of one conflict.
pub open spec fn conflict_verdict(c: IntentConflictV1View) -> Verdict {
    chain(
        match c.intent_ref {
            Some(r) => ref_verdict(r),
            None => Ok(()),
        },
        bounded_text_verdict(
            "intent operation conflict reason"@,
            c.safe_reason,
            MAX_INTENT_REASON_BYTES as nat,
        ),
    )
}

/// The checks of the conflicts of a preview.
pub open spec fn conflict_verdicts(conflicts: Seq<IntentConflictV1View>) -> Seq<Verdict> {
    Seq::new(conflicts.len(), |i: int| conflict_verdict(conflicts[i]))
}

/// The digest that a preview should carry.
#[verifier::opaque]
pub open spec fn preview_digest_of(p: IntentOperationPreviewV1View) -> Seq<char> {
    canonical_digest(
        IntentDigestDomain::OperationPreview,
        IntentOperationPreviewV1::payload_json(p),
    )
}

/// The checks of a preview, all but that of its digest.
#[verifier::opaque]
pub open spec fn preview_shape_verdict(p: IntentOperationPreviewV1View) -> Verdict {
    chain(
        schema_verdict(p.schema_version),
        chain(
            check(
                p.target_intents.len() > 0,
                "intent operation preview requires at least one target"@,
            ),
            chain(
                check(
                    p.expires_at_ms != Some(0u64),
                    "intent operation preview expiry must be non-zero"@,
                ),
                chain(
                    first_failure(target_verdicts(p.target_intents)),
                    chain(
                        first_failure(retained_verdicts(p.target_intents, p.retained_intents)),
                        chain(
                            first_failure(file_effect_verdicts(p.file_effects)),
                            chain(
                                first_failure(impact_verdicts(p.verification_impacts)),
                                first_failure(conflict_verdicts(p.conflicts)),
                            ),
                        ),
                    ),
                ),
            ),
        ),
    )
}

/// The checks of a preview.
pub open spec fn preview_verdict(p: IntentOperationPreviewV1View) -> Verdict {
    chain(
        preview_shape_verdict(p),
        check(
            p.preview_digest == preview_digest_of(p),
            "intent operation preview canonical digest mismatch"@,
        ),
    )
}

fn validate_targets(targets: &Vec<IntentVersionRef>) -> (r: Result<(), KernelError>)
    ensures
        verdict(r) == first_failure(target_verdicts(targets.deep_view())),
{
    let ghost all = target_verdicts(targets.deep_view());
    let mut i: usize = 0;
    proof {
        lemma_failures_begin(all);
    }
    while i < targets.len()
        invariant
            i <= targets.len(),
            all == target_verdicts(targets.deep_view()),
            first_failure(all) == first_failure(all.skip(i as int)),
        decreases targets.len() - i,
    {
        proof {
            lemma_failures_step(all, i as int);
        }
        assert(targets.deep_view()[i as int] == targets@[i as int].deep_view());
        targets[i].validate()?;
        if repeated_at(targets, i) {
            return reject("intent operation preview contains duplicate targets");
        }
        i = i + 1;
    }
    proof {
        lemma_failures_end(all);
    }
    Ok(())
}

fn validate_retained(targets: &Vec<IntentVersionRef>, retained: &Vec<IntentVersionRef>) -> (r:
    Result<(), KernelError>)
    ensures
        verdict(r) == first_failure(retained_verdicts(targets.deep_view(), retained.deep_view())),
{
    let ghost all = retained_verdicts(targets.deep_view(), retained.deep_view());
    let mut i: usize = 0;
    proof {
        lemma_failures_begin(all);
    }
    while i < retained.len()
        invariant
            i <= retained.len(),
            all == retained_verdicts(targets.deep_view(), retained.deep_view()),
            first_failure(all) == first_failure(all.skip(i as int)),
        decreases retained.len() - i,
    {
        proof {
            lemma_failures_step(all, i as int);
        }
        assert(retained.deep_view()[i as int] == retained@[i as int].deep_view());
        retained[i].validate()?;
        if holds(targets, &retained[i]) {
            return reject("intent operation preview cannot both target and retain one intent");
        }
        if repeated_at(retained, i) {
            return reject("intent operation preview contains duplicate retained intents");
        }
        i = i + 1;
    }
    proof {
        lemma_failures_end(all);
    }
    Ok(())
}

fn validate_file_effects(files: &Vec<IntentOperationFileSummaryV1>) -> (r: Result<(), KernelError>)
    ensures
        verdict(r) == first_failure(file_effect_verdicts(files.deep_view())),
{
    let ghost all = file_effect_verdicts(files.deep_view());
    let mut i: usize = 0;
    proof {
        lemma_failures_begin(all);
    }
    while i < files.len()
        invariant
            i <= files.len(),
            all == file_effect_verdicts(files.deep_view()),
            first_failure(all) == first_failure(all.skip(i as int)),
        decreases files.len() - i,
    {
        proof {
            lemma_failures_step(all, i as int);
        }
        assert(files.deep_view()[i as int] == files@[i as int].deep_view());
        validate_normalized_relative_path(files[i].normalized_relative_path.as_str())?;
        if files[i].artifact_ids.len() == 0 {
            return reject("intent operation file effect requires artifact ids");
        }
        i = i + 1;
    }
    proof {
        lemma_failures_end(all);
    }
    Ok(())
}

fn validate_impacts(impacts: &Vec<IntentVerificationImpactV1>) -> (r: Result<(), KernelError>)
    ensures
        verdict(r) == first_failure(impact_verdicts(impacts.deep_view())),
{
    let ghost all = impact_verdicts(impacts.deep_view());
    let mut i: usize = 0;
    proof {
        lemma_failures_begin(all);
    }
    while i < impacts.len()
        invariant
            i <= impacts.len(),
            all == impact_verdicts(impacts.deep_view()),
            first_failure(all) == first_failure(all.skip(i as int)),
        decreases impacts.len() - i,
    {
        proof {
            lemma_failures_step(all, i as int);
        }
        assert(impacts.deep_view()[i as int] == impacts@[i as int].deep_view());
        validate_bounded_identity(
            "intent operation verification receipt id",
            impacts[i].receipt_id.as_str(),
        )?;
        i = i + 1;
    }
    proof {
        lemma_failures_end(all);
    }
    Ok(())
}

fn validate_conflicts(conflicts: &Vec<IntentConflictV1>) -> (r: Result<(), KernelError>)
    ensures
        verdict(r) == first_failure(conflict_verdicts(conflicts.deep_view())),
{
    let ghost all = conflict_verdicts(conflicts.deep_view());
    let mut i: usize = 0;
    proof {
        lemma_failures_begin(all);
    }
    while i < conflicts.len()
        invariant
            i <= conflicts.len(),
            all == conflict_verdicts(conflicts.deep_view()),
            first_failure(all) == first_failure(all.skip(i as int)),
        decreases conflicts.len() - i,
    {
        proof {
            lemma_failures_step(all, i as int);
        }
        let c = &conflicts[i];
        assert(conflicts.deep_view()[i as int] == c.deep_view());
        if let Some(r) = &c.intent_ref {
            r.validate()?;
        }
        validate_bounded_text(
            "intent operation conflict reason",
            c.safe_reason.as_str(),
            MAX_INTENT_REASON_BYTES,
        )?;
        i = i + 1;
    }
    proof {
        lemma_failures_end(all);
    }
    Ok(())
}

impl IntentOperationPreviewV1 {
    /// The digest of the preview, its own digest left out.
    pub fn computed_digest(&self) -> (r: Result<IntentDigest, KernelError>)
        ensures
            outcome(r) == Ok::<Seq<char>, Seq<char>>(preview_digest_of(self.deep_view())),
    {
        let payload = self.to_payload_json();
        proof {
            reveal(preview_digest_of);
        }
        Ok(canonical_text_digest(IntentDigestDomain::OperationPreview, &payload))
    }

    /// Checks the shape of the preview and its digest.
    pub fn validate_contract(&self) -> (r: Result<(), KernelError>)
        ensures
            verdict(r) == preview_verdict(self.deep_view()),
    {
        proof {
            reveal(preview_shape_verdict);
        }
        validate_schema_version(self.schema_version)?;
        if self.target_intents.len() == 0 {
            return reject("intent operation preview requires at least one target");
        }
        if let Some(expiry) = self.expires_at_ms {
            if expiry == 0 {
                return reject("intent operation preview expiry must be non-zero");
            }
        }
        validate_targets(&self.target_intents)?;
        validate_retained(&self.target_intents, &self.retained_intents)?;
        validate_file_effects(&self.file_effects)?;
        validate_impacts(&self.verification_impacts)?;
        validate_conflicts(&self.conflicts)?;
        let digest = self.computed_digest()?;
        if !digest.same(&self.preview_digest) {
            return reject("intent operation preview canonical digest mismatch");
        }
        Ok(())
    }
}

/// The digest of a preview does not cover the digest that the preview carries, nor does the check of
/// its shape.
pub proof fn law_preview_digest_is_left_out(p: IntentOperationPreviewV1View, digest: Seq<char>)
    ensures
        preview_digest_of((IntentOperationPreviewV1View { preview_digest: digest, ..p }))
            == preview_digest_of(p),
        preview_shape_verdict((IntentOperationPreviewV1View { preview_digest: digest, ..p }))
            == preview_shape_verdict(p),
{
    reveal(preview_digest_of);
    reveal(preview_shape_verdict);
}

/// The digest of a layer core does not cover the digest that the core carries.
pub proof fn law_core_digest_is_left_out(c: IntentLayerCoreV1View, digest: Seq<char>)
    ensures
        core_digest_of((IntentLayerCoreV1View { core_digest: digest, ..c })) == core_digest_of(c),
{
    reveal(core_digest_of);
}

/// The digest of an artifact manifest does not cover the digest that the manifest carries.
pub proof fn law_artifact_manifest_digest_is_left_out(
    m: IntentArtifactManifestV1View,
    digest: Seq<char>,
)
    ensures
        artifact_manifest_digest_of((IntentArtifactManifestV1View { manifest_digest: digest, ..m }))
            == artifact_manifest_digest_of(m),
{
    reveal(artifact_manifest_digest_of);
}

/// The digest of a layer manifest does not cover the digest that the manifest carries.
pub proof fn law_layer_manifest_digest_is_left_out(
    m: IntentLayerManifestV1View,
    digest: Seq<char>,
)
    ensures
        layer_manifest_digest_of((IntentLayerManifestV1View { manifest_digest: digest, ..m }))
            == layer_manifest_digest_of(m),
{
    reveal(layer_manifest_digest_of);
}

} // verus!
