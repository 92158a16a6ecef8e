//! Tools that a provider hosts: requests for them, what a turn with them may hold before it is
//! finalized, and what is kept of it.

use vstd::prelude::*;

use crate::digest::{sha256_hex_of, sha256_lower_hex};
use crate::external::{
    citation_support, CitationSupport, CitationSupportView, ExternalProvenanceEntry,
    ExternalProvenanceEntryView, ExternalSourceRecord, ExternalSourceRecordView, ExternalTrust,
};
use crate::json::{
    add_member, close_object, json_string_of, member, object, quote, quoted, Encode,
};
use crate::json_exact::{
    lemma_optional_numbers_are_told, lemma_string_lists_are_told, lemma_strings_are_told,
};
use crate::order::{
    items_in_order, lemma_in_order, lemma_order_is_canonical, lemma_text_order_is_total,
    sorted_texts, text_order,
};
use crate::search::{any_where, has_any};
use crate::text::{
    all_of, blank, byte_len, byte_length, characters, control, every, in_class, is_blank,
    is_control, joined, lemma_ascii_byte_len, lemma_byte_len_adds, same_text, text_of, CharClass,
};
use crate::value::{distinct, holds, lemma_push_view, repeated_at, repeats, Value};

verus! {

/// The most bytes of an identity.
pub const HOSTED_ID_MAX_BYTES: usize = 512;

/// The most domain filters of a request.
pub const HOSTED_DOMAIN_FILTER_MAX_ITEMS: usize = 100;

/// The most bytes of one domain filter.
pub const HOSTED_DOMAIN_FILTER_MAX_BYTES: usize = 2_048;

/// The most bytes of all domain filters.
pub const HOSTED_DOMAIN_FILTER_TOTAL_BYTES: usize = 32_768;

/// Provider-neutral hosted capability requested for one completion.
#[derive(Debug, Clone, Copy, PartialEq, Eq, Structural)]
pub enum HostedToolKind {
    WebSearch,
}

impl DeepView for HostedToolKind {
    type V = HostedToolKind;

    open spec fn deep_view(&self) -> HostedToolKind {
        *self
    }
}

impl Value for HostedToolKind {
    fn same(&self, other: &Self) -> (r: bool) {
        *self == *other
    }

    fn duplicate(&self) -> (r: Self) {
        *self
    }
}

/// Provider-neutral limits attached to one hosted-tool request.
#[derive(Debug, Clone, PartialEq, Eq)]
pub struct HostedToolLimits {
    pub max_uses: Option<u32>,
    pub allowed_domains: Vec<String>,
    pub blocked_domains: Vec<String>,
}

/// What a [`HostedToolLimits`] holds.
#[verifier::ext_equal]
pub struct HostedToolLimitsView {
    pub max_uses: Option<u32>,
    pub allowed_domains: Seq<Seq<char>>,
    pub blocked_domains: Seq<Seq<char>>,
}

impl DeepView for HostedToolLimits {
    type V = HostedToolLimitsView;

    open spec fn deep_view(&self) -> HostedToolLimitsView {
        HostedToolLimitsView {
            max_uses: self.max_uses.deep_view(),
            allowed_domains: self.allowed_domains.deep_view(),
            blocked_domains: self.blocked_domains.deep_view(),
        }
    }
}

impl Value for HostedToolLimits {
    fn same(&self, other: &Self) -> (r: bool) {
        self.max_uses.same(&other.max_uses)
            && self.allowed_domains.same(&other.allowed_domains)
            && self.blocked_domains.same(&other.blocked_domains)
    }

    fn duplicate(&self) -> (r: Self) {
        HostedToolLimits {
            max_uses: self.max_uses.duplicate(),
            allowed_domains: self.allowed_domains.duplicate(),
            blocked_domains: self.blocked_domains.duplicate(),
        }
    }
}

/// One authorized provider-hosted capability carried into request materialization.
#[derive(Debug, Clone, PartialEq, Eq)]
pub struct HostedToolRequest {
    pub authorization_id: String,
    pub request_fingerprint: String,
    pub kind: HostedToolKind,
    pub limits: HostedToolLimits,
}

/// What a [`HostedToolRequest`] holds.
#[verifier::ext_equal]
pub struct HostedToolRequestView {
    pub authorization_id: Seq<char>,
    pub request_fingerprint: Seq<char>,
    pub kind: HostedToolKind,
    pub limits: HostedToolLimitsView,
}

impl DeepView for HostedToolRequest {
    type V = HostedToolRequestView;

    open spec fn deep_view(&self) -> HostedToolRequestView {
        HostedToolRequestView {
            authorization_id: self.authorization_id.deep_view(),
            request_fingerprint: self.request_fingerprint.deep_view(),
            kind: self.kind.deep_view(),
            limits: self.limits.deep_view(),
        }
    }
}

impl Value for HostedToolRequest {
    fn same(&self, other: &Self) -> (r: bool) {
        self.authorization_id.same(&other.authorization_id)
            && self.request_fingerprint.same(&other.request_fingerprint)
            && self.kind.same(&other.kind)
            && self.limits.same(&other.limits)
    }

    fn duplicate(&self) -> (r: Self) {
        HostedToolRequest {
            authorization_id: self.authorization_id.duplicate(),
            request_fingerprint: self.request_fingerprint.duplicate(),
            kind: self.kind.duplicate(),
            limits: self.limits.duplicate(),
        }
    }
}

/// Typed provider-neutral hosted request validation failure.
#[derive(Debug, Clone, Copy, PartialEq, Eq, Structural)]
pub enum HostedToolRequestError {
    MissingAuthorizationId,
    MissingRequestFingerprint,
    ZeroMaxUses,
    ConflictingDomainFilters,
    EmptyDomainFilter,
    DomainFilterLimitExceeded,
    DomainFilterBytesExceeded,
    InvalidDomainFilter,
    DuplicateDomainFilter,
    InvalidIdentity,
    RequestFingerprintMismatch,
}

impl DeepView for HostedToolRequestError {
    type V = HostedToolRequestError;

    open spec fn deep_view(&self) -> HostedToolRequestError {
        *self
    }
}

impl Value for HostedToolRequestError {
    fn same(&self, other: &Self) -> (r: bool) {
        *self == *other
    }

    fn duplicate(&self) -> (r: Self) {
        *self
    }
}

/// Whether a model exposes a hosted tool at all.
#[derive(Debug, Clone, Copy, PartialEq, Eq, Structural)]
pub enum HostedToolSupport {
    Unsupported,
    ServerManaged,
}

impl DeepView for HostedToolSupport {
    type V = HostedToolSupport;

    open spec fn deep_view(&self) -> HostedToolSupport {
        *self
    }
}

impl Value for HostedToolSupport {
    fn same(&self, other: &Self) -> (r: bool) {
        *self == *other
    }

    fn duplicate(&self) -> (r: Self) {
        *self
    }
}

/// When an exact provider-generated query can become visible to Sigil.
#[derive(Debug, Clone, Copy, PartialEq, Eq, Structural)]
pub enum HostedQueryVisibility {
    Unavailable,
    ProviderReportedPostExecution,
}

impl DeepView for HostedQueryVisibility {
    type V = HostedQueryVisibility;

    open spec fn deep_view(&self) -> HostedQueryVisibility {
        *self
    }
}

impl Value for HostedQueryVisibility {
    fn same(&self, other: &Self) -> (r: bool) {
        *self == *other
    }

    fn duplicate(&self) -> (r: Self) {
        *self
    }
}

/// Fidelity of source metadata returned by a hosted provider.
#[derive(Debug, Clone, Copy, PartialEq, Eq, Structural)]
pub enum HostedSourceFidelity {
    Unavailable,
    UrlAndTitle,
}

impl DeepView for HostedSourceFidelity {
    type V = HostedSourceFidelity;

    open spec fn deep_view(&self) -> HostedSourceFidelity {
        *self
    }
}

impl Value for HostedSourceFidelity {
    fn same(&self, other: &Self) -> (r: bool) {
        *self == *other
    }

    fn duplicate(&self) -> (r: Self) {
        *self
    }
}

/// Fidelity of claim-level citations returned by a hosted provider.
#[derive(Debug, Clone, Copy, PartialEq, Eq, Structural)]
pub enum HostedCitationFidelity {
    Unavailable,
    OutputSpan,
}

impl DeepView for HostedCitationFidelity {
    type V = HostedCitationFidelity;

    open spec fn deep_view(&self) -> HostedCitationFidelity {
        *self
    }
}

impl Value for HostedCitationFidelity {
    fn same(&self, other: &Self) -> (r: bool) {
        *self == *other
    }

    fn duplicate(&self) -> (r: Self) {
        *self
    }
}

/// Strength with which a provider enforces a hosted-tool request constraint.
#[derive(Debug, Clone, Copy, PartialEq, Eq, Structural)]
pub enum HostedConstraintEnforcement {
    Unsupported,
    BestEffort,
    Hard,
}

impl DeepView for HostedConstraintEnforcement {
    type V = HostedConstraintEnforcement;

    open spec fn deep_view(&self) -> HostedConstraintEnforcement {
        *self
    }
}

impl Value for HostedConstraintEnforcement {
    fn same(&self, other: &Self) -> (r: bool) {
        *self == *other
    }

    fn duplicate(&self) -> (r: Self) {
        *self
    }
}

/// Model-specific declaration for native provider web search.
#[derive(Debug, Clone, Copy, PartialEq, Eq)]
pub struct HostedWebSearchCapability {
    pub support: HostedToolSupport,
    pub query_visibility: HostedQueryVisibility,
    pub source_fidelity: HostedSourceFidelity,
    pub citation_fidelity: HostedCitationFidelity,
    pub max_uses_enforcement: HostedConstraintEnforcement,
    pub domain_filter_enforcement: HostedConstraintEnforcement,
}

/// What a [`HostedWebSearchCapability`] holds.
#[verifier::ext_equal]
pub struct HostedWebSearchCapabilityView {
    pub support: HostedToolSupport,
    pub query_visibility: HostedQueryVisibility,
    pub source_fidelity: HostedSourceFidelity,
    pub citation_fidelity: HostedCitationFidelity,
    pub max_uses_enforcement: HostedConstraintEnforcement,
    pub domain_filter_enforcement: HostedConstraintEnforcement,
}

impl DeepView for HostedWebSearchCapability {
    type V = HostedWebSearchCapabilityView;

    open spec fn deep_view(&self) -> HostedWebSearchCapabilityView {
        HostedWebSearchCapabilityView {
            support: self.support.deep_view(),
            query_visibility: self.query_visibility.deep_view(),
            source_fidelity: self.source_fidelity.deep_view(),
            citation_fidelity: self.citation_fidelity.deep_view(),
            max_uses_enforcement: self.max_uses_enforcement.deep_view(),
            domain_filter_enforcement: self.domain_filter_enforcement.deep_view(),
        }
    }
}

impl Value for HostedWebSearchCapability {
    fn same(&self, other: &Self) -> (r: bool) {
        self.support.same(&other.support)
            && self.query_visibility.same(&other.query_visibility)
            && self.source_fidelity.same(&other.source_fidelity)
            && self.citation_fidelity.same(&other.citation_fidelity)
            && self.max_uses_enforcement.same(&other.max_uses_enforcement)
            && self.domain_filter_enforcement.same(&other.domain_filter_enforcement)
    }

    fn duplicate(&self) -> (r: Self) {
        HostedWebSearchCapability {
            support: self.support.duplicate(),
            query_visibility: self.query_visibility.duplicate(),
            source_fidelity: self.source_fidelity.duplicate(),
            citation_fidelity: self.citation_fidelity.duplicate(),
            max_uses_enforcement: self.max_uses_enforcement.duplicate(),
            domain_filter_enforcement: self.domain_filter_enforcement.duplicate(),
        }
    }
}

/// Exact provider source candidate. Secret-bearing fields deliberately have no serde contract.
#[derive(Clone)]
pub struct HostedSourceCandidate {
    provider_source_id: String,
    raw_url: String,
    raw_title: Option<String>,
    published_at: Option<String>,
    rank: Option<usize>,
}

/// What a [`HostedSourceCandidate`] holds.
#[verifier::ext_equal]
pub struct HostedSourceCandidateView {
    pub provider_source_id: Seq<char>,
    pub raw_url: Seq<char>,
    pub raw_title: Option<Seq<char>>,
    pub published_at: Option<Seq<char>>,
    pub rank: Option<usize>,
}

impl DeepView for HostedSourceCandidate {
    type V = HostedSourceCandidateView;

    closed spec fn deep_view(&self) -> HostedSourceCandidateView {
        HostedSourceCandidateView {
            provider_source_id: self.provider_source_id.deep_view(),
            raw_url: self.raw_url.deep_view(),
            raw_title: self.raw_title.deep_view(),
            published_at: self.published_at.deep_view(),
            rank: self.rank.deep_view(),
        }
    }
}

impl Value for HostedSourceCandidate {
    fn same(&self, other: &Self) -> (r: bool) {
        self.provider_source_id.same(&other.provider_source_id)
            && self.raw_url.same(&other.raw_url)
            && self.raw_title.same(&other.raw_title)
            && self.published_at.same(&other.published_at)
            && self.rank.same(&other.rank)
    }

    fn duplicate(&self) -> (r: Self) {
        HostedSourceCandidate {
            provider_source_id: self.provider_source_id.duplicate(),
            raw_url: self.raw_url.duplicate(),
            raw_title: self.raw_title.duplicate(),
            published_at: self.published_at.duplicate(),
            rank: self.rank.duplicate(),
        }
    }
}

/// Exact provider citation offsets into the pre-finalized assistant text.
#[derive(Clone)]
pub struct HostedCitationCandidate {
    provider_source_id: String,
    start_byte: usize,
    end_byte: usize,
}

/// What a [`HostedCitationCandidate`] holds.
#[verifier::ext_equal]
pub struct HostedCitationCandidateView {
    pub provider_source_id: Seq<char>,
    pub start_byte: usize,
    pub end_byte: usize,
}

impl DeepView for HostedCitationCandidate {
    type V = HostedCitationCandidateView;

    closed spec fn deep_view(&self) -> HostedCitationCandidateView {
        HostedCitationCandidateView {
            provider_source_id: self.provider_source_id.deep_view(),
            start_byte: self.start_byte.deep_view(),
            end_byte: self.end_byte.deep_view(),
        }
    }
}

impl Value for HostedCitationCandidate {
    fn same(&self, other: &Self) -> (r: bool) {
        self.provider_source_id.same(&other.provider_source_id)
            && self.start_byte.same(&other.start_byte)
            && self.end_byte.same(&other.end_byte)
    }

    fn duplicate(&self) -> (r: Self) {
        HostedCitationCandidate {
            provider_source_id: self.provider_source_id.duplicate(),
            start_byte: self.start_byte.duplicate(),
            end_byte: self.end_byte.duplicate(),
        }
    }
}

/// Transient hosted evidence sidecar. None of its variants are serializable.
#[derive(Clone)]
pub enum HostedEvidence {
    Source(HostedSourceCandidate),
    Citation(HostedCitationCandidate),
    QueryObserved(String),
}

/// What a [`HostedEvidence`] holds.
#[verifier::ext_equal]
pub enum HostedEvidenceView {
    Source(HostedSourceCandidateView),
    Citation(HostedCitationCandidateView),
    QueryObserved(Seq<char>),
}

impl DeepView for HostedEvidence {
    type V = HostedEvidenceView;

    open spec fn deep_view(&self) -> HostedEvidenceView {
        match self {
            HostedEvidence::Source(x) => HostedEvidenceView::Source(x.deep_view()),
            HostedEvidence::Citation(x) => HostedEvidenceView::Citation(x.deep_view()),
            HostedEvidence::QueryObserved(x) => HostedEvidenceView::QueryObserved(x.deep_view()),
        }
    }
}

impl Value for HostedEvidence {
    fn same(&self, other: &Self) -> (r: bool) {
        match (self, other) {
            (
                HostedEvidence::Source(x),
                HostedEvidence::Source(x2),
            ) => x.same(x2),
            (
                HostedEvidence::Citation(x),
                HostedEvidence::Citation(x2),
            ) => x.same(x2),
            (
                HostedEvidence::QueryObserved(x),
                HostedEvidence::QueryObserved(x2),
            ) => x.same(x2),
            _ => false,
        }
    }

    fn duplicate(&self) -> (r: Self) {
        match self {
            HostedEvidence::Source(x) => HostedEvidence::Source(x.duplicate()),
            HostedEvidence::Citation(x) => HostedEvidence::Citation(x.duplicate()),
            HostedEvidence::QueryObserved(x) => HostedEvidence::QueryObserved(x.duplicate()),
        }
    }
}

/// Hard limits for the pre-finalization hosted turn.
#[derive(Debug, Clone, Copy, PartialEq, Eq, Structural)]
pub struct HostedTurnBufferLimits {
    pub total_bytes: usize,
    pub text_bytes: usize,
    pub reasoning_bytes: usize,
    pub evidence_bytes: usize,
    pub evidence_items: usize,
}

impl DeepView for HostedTurnBufferLimits {
    type V = HostedTurnBufferLimits;

    open spec fn deep_view(&self) -> HostedTurnBufferLimits {
        *self
    }
}

impl Value for HostedTurnBufferLimits {
    fn same(&self, other: &Self) -> (r: bool) {
        *self == *other
    }

    fn duplicate(&self) -> (r: Self) {
        *self
    }
}

/// Typed fail-closed hosted buffering/finalization failure.
#[derive(Debug, Clone, Copy, PartialEq, Eq, Structural)]
pub enum HostedTurnError {
    BufferLimitExceeded,
    UnsupportedLocalToolChunk,
    MissingProcessor,
    FinalizationFailed,
    ProviderFailed,
    InvalidInvocationCorrelation,
}

impl DeepView for HostedTurnError {
    type V = HostedTurnError;

    open spec fn deep_view(&self) -> HostedTurnError {
        *self
    }
}

impl Value for HostedTurnError {
    fn same(&self, other: &Self) -> (r: bool) {
        *self == *other
    }

    fn duplicate(&self) -> (r: Self) {
        *self
    }
}

/// An invocation of a hosted tool that has started.
#[derive(Debug, Clone, PartialEq, Eq)]
pub struct StartedInvocation {
    pub authorization_id: String,
    pub invocation_id: String,
    pub kind: HostedToolKind,
}

/// What a [`StartedInvocation`] holds.
#[verifier::ext_equal]
pub struct StartedInvocationView {
    pub authorization_id: Seq<char>,
    pub invocation_id: Seq<char>,
    pub kind: HostedToolKind,
}

impl DeepView for StartedInvocation {
    type V = StartedInvocationView;

    open spec fn deep_view(&self) -> StartedInvocationView {
        StartedInvocationView {
            authorization_id: self.authorization_id.deep_view(),
            invocation_id: self.invocation_id.deep_view(),
            kind: self.kind.deep_view(),
        }
    }
}

impl Value for StartedInvocation {
    fn same(&self, other: &Self) -> (r: bool) {
        self.authorization_id.same(&other.authorization_id)
            && self.invocation_id.same(&other.invocation_id)
            && self.kind.same(&other.kind)
    }

    fn duplicate(&self) -> (r: Self) {
        StartedInvocation {
            authorization_id: self.authorization_id.duplicate(),
            invocation_id: self.invocation_id.duplicate(),
            kind: self.kind.duplicate(),
        }
    }
}

/// A piece of what a provider streams. What is only passed on goes by its canonical text.
#[derive(Clone)]
pub enum ProviderChunk {
    TextDelta(String),
    ReasoningDelta(String),
    ReasoningSummaryDelta(String),
    HostedToolStarted {
        authorization_id: String,
        invocation_id: String,
        kind: HostedToolKind,
    },
    HostedEvidence {
        authorization_id: String,
        invocation_id: String,
        kind: HostedToolKind,
        evidence: HostedEvidence,
    },
    HostedToolFailed {
        authorization_id: String,
        invocation_id: String,
        kind: HostedToolKind,
    },
    HostedRequestUsage {
        authorization_id: String,
        kind: HostedToolKind,
        observed_uses: u32,
    },
    Usage(String),
    BackgroundTaskAccepted(String),
    BackgroundTaskStatus(String),
    ResponseHandle(String),
    ContinuationState(String),
    ReasoningArtifact(String),
    ToolCallStart(String),
    ToolCallArgsDelta(String),
    ToolCallComplete(String),
    ToolCallStreamError(String),
    Done,
}

/// What a [`ProviderChunk`] holds.
#[verifier::ext_equal]
pub enum ProviderChunkView {
    TextDelta(Seq<char>),
    ReasoningDelta(Seq<char>),
    ReasoningSummaryDelta(Seq<char>),
    HostedToolStarted {
        authorization_id: Seq<char>,
        invocation_id: Seq<char>,
        kind: HostedToolKind,
    },
    HostedEvidence {
        authorization_id: Seq<char>,
        invocation_id: Seq<char>,
        kind: HostedToolKind,
        evidence: HostedEvidenceView,
    },
    HostedToolFailed {
        authorization_id: Seq<char>,
        invocation_id: Seq<char>,
        kind: HostedToolKind,
    },
    HostedRequestUsage {
        authorization_id: Seq<char>,
        kind: HostedToolKind,
        observed_uses: u32,
    },
    Usage(Seq<char>),
    BackgroundTaskAccepted(Seq<char>),
    BackgroundTaskStatus(Seq<char>),
    ResponseHandle(Seq<char>),
    ContinuationState(Seq<char>),
    ReasoningArtifact(Seq<char>),
    ToolCallStart(Seq<char>),
    ToolCallArgsDelta(Seq<char>),
    ToolCallComplete(Seq<char>),
    ToolCallStreamError(Seq<char>),
    Done,
}

impl DeepView for ProviderChunk {
    type V = ProviderChunkView;

    open spec fn deep_view(&self) -> ProviderChunkView {
        match self {
            ProviderChunk::TextDelta(x) => ProviderChunkView::TextDelta(x.deep_view()),
            ProviderChunk::ReasoningDelta(x) => ProviderChunkView::ReasoningDelta(x.deep_view()),
            ProviderChunk::ReasoningSummaryDelta(x) => ProviderChunkView::ReasoningSummaryDelta(x.deep_view()),
            ProviderChunk::HostedToolStarted { authorization_id, invocation_id, kind } => ProviderChunkView::HostedToolStarted {
                authorization_id: authorization_id.deep_view(),
                invocation_id: invocation_id.deep_view(),
                kind: kind.deep_view(),
            },
            ProviderChunk::HostedEvidence { authorization_id, invocation_id, kind, evidence } => ProviderChunkView::HostedEvidence {
                authorization_id: authorization_id.deep_view(),
                invocation_id: invocation_id.deep_view(),
                kind: kind.deep_view(),
                evidence: evidence.deep_view(),
            },
            ProviderChunk::HostedToolFailed { authorization_id, invocation_id, kind } => ProviderChunkView::HostedToolFailed {
                authorization_id: authorization_id.deep_view(),
                invocation_id: invocation_id.deep_view(),
                kind: kind.deep_view(),
            },
            ProviderChunk::HostedRequestUsage { authorization_id, kind, observed_uses } => ProviderChunkView::HostedRequestUsage {
                authorization_id: authorization_id.deep_view(),
                kind: kind.deep_view(),
                observed_uses: observed_uses.deep_view(),
            },
            ProviderChunk::Usage(x) => ProviderChunkView::Usage(x.deep_view()),
            ProviderChunk::BackgroundTaskAccepted(x) => ProviderChunkView::BackgroundTaskAccepted(x.deep_view()),
            ProviderChunk::BackgroundTaskStatus(x) => ProviderChunkView::BackgroundTaskStatus(x.deep_view()),
            ProviderChunk::ResponseHandle(x) => ProviderChunkView::ResponseHandle(x.deep_view()),
            ProviderChunk::ContinuationState(x) => ProviderChunkView::ContinuationState(x.deep_view()),
            ProviderChunk::ReasoningArtifact(x) => ProviderChunkView::ReasoningArtifact(x.deep_view()),
            ProviderChunk::ToolCallStart(x) => ProviderChunkView::ToolCallStart(x.deep_view()),
            ProviderChunk::ToolCallArgsDelta(x) => ProviderChunkView::ToolCallArgsDelta(x.deep_view()),
            ProviderChunk::ToolCallComplete(x) => ProviderChunkView::ToolCallComplete(x.deep_view()),
            ProviderChunk::ToolCallStreamError(x) => ProviderChunkView::ToolCallStreamError(x.deep_view()),
            ProviderChunk::Done => ProviderChunkView::Done,
        }
    }
}

impl Value for ProviderChunk {
    fn same(&self, other: &Self) -> (r: bool) {
        match (self, other) {
            (
                ProviderChunk::TextDelta(x),
                ProviderChunk::TextDelta(x2),
            ) => x.same(x2),
            (
                ProviderChunk::ReasoningDelta(x),
                ProviderChunk::ReasoningDelta(x2),
            ) => x.same(x2),
            (
                ProviderChunk::ReasoningSummaryDelta(x),
                ProviderChunk::ReasoningSummaryDelta(x2),
            ) => x.same(x2),
            (
                ProviderChunk::HostedToolStarted { authorization_id, invocation_id, kind },
                ProviderChunk::HostedToolStarted { authorization_id: authorization_id2, invocation_id: invocation_id2, kind: kind2 },
            ) => authorization_id.same(authorization_id2)
                && invocation_id.same(invocation_id2)
                && kind.same(kind2),
            (
                ProviderChunk::HostedEvidence { authorization_id, invocation_id, kind, evidence },
                ProviderChunk::HostedEvidence { authorization_id: authorization_id2, invocation_id: invocation_id2, kind: kind2, evidence: evidence2 },
            ) => authorization_id.same(authorization_id2)
                && invocation_id.same(invocation_id2)
                && kind.same(kind2)
                && evidence.same(evidence2),
            (
                ProviderChunk::HostedToolFailed { authorization_id, invocation_id, kind },
                ProviderChunk::HostedToolFailed { authorization_id: authorization_id2, invocation_id: invocation_id2, kind: kind2 },
            ) => authorization_id.same(authorization_id2)
                && invocation_id.same(invocation_id2)
                && kind.same(kind2),
            (
                ProviderChunk::HostedRequestUsage { authorization_id, kind, observed_uses },
                ProviderChunk::HostedRequestUsage { authorization_id: authorization_id2, kind: kind2, observed_uses: observed_uses2 },
            ) => authorization_id.same(authorization_id2)
                && kind.same(kind2)
                && observed_uses.same(observed_uses2),
            (
                ProviderChunk::Usage(x),
                ProviderChunk::Usage(x2),
            ) => x.same(x2),
            (
                ProviderChunk::BackgroundTaskAccepted(x),
                ProviderChunk::BackgroundTaskAccepted(x2),
            ) => x.same(x2),
            (
                ProviderChunk::BackgroundTaskStatus(x),
                ProviderChunk::BackgroundTaskStatus(x2),
            ) => x.same(x2),
            (
                ProviderChunk::ResponseHandle(x),
                ProviderChunk::ResponseHandle(x2),
            ) => x.same(x2),
            (
                ProviderChunk::ContinuationState(x),
                ProviderChunk::ContinuationState(x2),
            ) => x.same(x2),
            (
                ProviderChunk::ReasoningArtifact(x),
                ProviderChunk::ReasoningArtifact(x2),
            ) => x.same(x2),
            (
                ProviderChunk::ToolCallStart(x),
                ProviderChunk::ToolCallStart(x2),
            ) => x.same(x2),
            (
                ProviderChunk::ToolCallArgsDelta(x),
                ProviderChunk::ToolCallArgsDelta(x2),
            ) => x.same(x2),
            (
                ProviderChunk::ToolCallComplete(x),
                ProviderChunk::ToolCallComplete(x2),
            ) => x.same(x2),
            (
                ProviderChunk::ToolCallStreamError(x),
                ProviderChunk::ToolCallStreamError(x2),
            ) => x.same(x2),
            (
                ProviderChunk::Done,
                ProviderChunk::Done,
            ) => true,
            _ => false,
        }
    }

    fn duplicate(&self) -> (r: Self) {
        match self {
            ProviderChunk::TextDelta(x) => ProviderChunk::TextDelta(x.duplicate()),
            ProviderChunk::ReasoningDelta(x) => ProviderChunk::ReasoningDelta(x.duplicate()),
            ProviderChunk::ReasoningSummaryDelta(x) => ProviderChunk::ReasoningSummaryDelta(x.duplicate()),
            ProviderChunk::HostedToolStarted { authorization_id, invocation_id, kind } => ProviderChunk::HostedToolStarted {
                authorization_id: authorization_id.duplicate(),
                invocation_id: invocation_id.duplicate(),
                kind: kind.duplicate(),
            },
            ProviderChunk::HostedEvidence { authorization_id, invocation_id, kind, evidence } => ProviderChunk::HostedEvidence {
                authorization_id: authorization_id.duplicate(),
                invocation_id: invocation_id.duplicate(),
                kind: kind.duplicate(),
                evidence: evidence.duplicate(),
            },
            ProviderChunk::HostedToolFailed { authorization_id, invocation_id, kind } => ProviderChunk::HostedToolFailed {
                authorization_id: authorization_id.duplicate(),
                invocation_id: invocation_id.duplicate(),
                kind: kind.duplicate(),
            },
            ProviderChunk::HostedRequestUsage { authorization_id, kind, observed_uses } => ProviderChunk::HostedRequestUsage {
                authorization_id: authorization_id.duplicate(),
                kind: kind.duplicate(),
                observed_uses: observed_uses.duplicate(),
            },
            ProviderChunk::Usage(x) => ProviderChunk::Usage(x.duplicate()),
            ProviderChunk::BackgroundTaskAccepted(x) => ProviderChunk::BackgroundTaskAccepted(x.duplicate()),
            ProviderChunk::BackgroundTaskStatus(x) => ProviderChunk::BackgroundTaskStatus(x.duplicate()),
            ProviderChunk::ResponseHandle(x) => ProviderChunk::ResponseHandle(x.duplicate()),
            ProviderChunk::ContinuationState(x) => ProviderChunk::ContinuationState(x.duplicate()),
            ProviderChunk::ReasoningArtifact(x) => ProviderChunk::ReasoningArtifact(x.duplicate()),
            ProviderChunk::ToolCallStart(x) => ProviderChunk::ToolCallStart(x.duplicate()),
            ProviderChunk::ToolCallArgsDelta(x) => ProviderChunk::ToolCallArgsDelta(x.duplicate()),
            ProviderChunk::ToolCallComplete(x) => ProviderChunk::ToolCallComplete(x.duplicate()),
            ProviderChunk::ToolCallStreamError(x) => ProviderChunk::ToolCallStreamError(x.duplicate()),
            ProviderChunk::Done => ProviderChunk::Done,
        }
    }
}

/// Non-serializable, hard-capped turn material retained until a finalizer succeeds.
#[derive(Clone)]
pub struct HostedTurnBuffer {
    limits: HostedTurnBufferLimits,
    text: String,
    reasoning: String,
    evidence: Vec<HostedEvidence>,
    usages: Vec<String>,
    background_accepted: Vec<String>,
    background_statuses: Vec<String>,
    response_handles: Vec<String>,
    continuation_states: Vec<String>,
    observed_uses: Option<u32>,
    total_bytes: usize,
    evidence_bytes: usize,
    started_invocations: Vec<StartedInvocation>,
    failed: bool,
}

/// What a [`HostedTurnBuffer`] holds.
#[verifier::ext_equal]
pub struct HostedTurnBufferView {
    pub limits: HostedTurnBufferLimits,
    pub text: Seq<char>,
    pub reasoning: Seq<char>,
    pub evidence: Seq<HostedEvidenceView>,
    pub usages: Seq<Seq<char>>,
    pub background_accepted: Seq<Seq<char>>,
    pub background_statuses: Seq<Seq<char>>,
    pub response_handles: Seq<Seq<char>>,
    pub continuation_states: Seq<Seq<char>>,
    pub observed_uses: Option<u32>,
    pub total_bytes: usize,
    pub evidence_bytes: usize,
    pub started_invocations: Seq<StartedInvocationView>,
    pub failed: bool,
}

impl DeepView for HostedTurnBuffer {
    type V = HostedTurnBufferView;

    closed spec fn deep_view(&self) -> HostedTurnBufferView {
        HostedTurnBufferView {
            limits: self.limits.deep_view(),
            text: self.text.deep_view(),
            reasoning: self.reasoning.deep_view(),
            evidence: self.evidence.deep_view(),
            usages: self.usages.deep_view(),
            background_accepted: self.background_accepted.deep_view(),
            background_statuses: self.background_statuses.deep_view(),
            response_handles: self.response_handles.deep_view(),
            continuation_states: self.continuation_states.deep_view(),
            observed_uses: self.observed_uses.deep_view(),
            total_bytes: self.total_bytes.deep_view(),
            evidence_bytes: self.evidence_bytes.deep_view(),
            started_invocations: self.started_invocations.deep_view(),
            failed: self.failed.deep_view(),
        }
    }
}

impl Value for HostedTurnBuffer {
    fn same(&self, other: &Self) -> (r: bool) {
        self.limits.same(&other.limits)
            && self.text.same(&other.text)
            && self.reasoning.same(&other.reasoning)
            && self.evidence.same(&other.evidence)
            && self.usages.same(&other.usages)
            && self.background_accepted.same(&other.background_accepted)
            && self.background_statuses.same(&other.background_statuses)
            && self.response_handles.same(&other.response_handles)
            && self.continuation_states.same(&other.continuation_states)
            && self.observed_uses.same(&other.observed_uses)
            && self.total_bytes.same(&other.total_bytes)
            && self.evidence_bytes.same(&other.evidence_bytes)
            && self.started_invocations.same(&other.started_invocations)
            && self.failed.same(&other.failed)
    }

    fn duplicate(&self) -> (r: Self) {
        HostedTurnBuffer {
            limits: self.limits.duplicate(),
            text: self.text.duplicate(),
            reasoning: self.reasoning.duplicate(),
            evidence: self.evidence.duplicate(),
            usages: self.usages.duplicate(),
            background_accepted: self.background_accepted.duplicate(),
            background_statuses: self.background_statuses.duplicate(),
            response_handles: self.response_handles.duplicate(),
            continuation_states: self.continuation_states.duplicate(),
            observed_uses: self.observed_uses.duplicate(),
            total_bytes: self.total_bytes.duplicate(),
            evidence_bytes: self.evidence_bytes.duplicate(),
            started_invocations: self.started_invocations.duplicate(),
            failed: self.failed.duplicate(),
        }
    }
}

/// Safe finalization context owned by kernel; exact evidence remains in the buffer.
#[derive(Debug, Clone, PartialEq, Eq)]
pub struct HostedFinalizationContext {
    pub session_scope_id: String,
    pub provider_name: String,
    pub model_name: String,
}

/// What a [`HostedFinalizationContext`] holds.
#[verifier::ext_equal]
pub struct HostedFinalizationContextView {
    pub session_scope_id: Seq<char>,
    pub provider_name: Seq<char>,
    pub model_name: Seq<char>,
}

impl DeepView for HostedFinalizationContext {
    type V = HostedFinalizationContextView;

    open spec fn deep_view(&self) -> HostedFinalizationContextView {
        HostedFinalizationContextView {
            session_scope_id: self.session_scope_id.deep_view(),
            provider_name: self.provider_name.deep_view(),
            model_name: self.model_name.deep_view(),
        }
    }
}

impl Value for HostedFinalizationContext {
    fn same(&self, other: &Self) -> (r: bool) {
        self.session_scope_id.same(&other.session_scope_id)
            && self.provider_name.same(&other.provider_name)
            && self.model_name.same(&other.model_name)
    }

    fn duplicate(&self) -> (r: Self) {
        HostedFinalizationContext {
            session_scope_id: self.session_scope_id.duplicate(),
            provider_name: self.provider_name.duplicate(),
            model_name: self.model_name.duplicate(),
        }
    }
}

/// Safe citation after provider source-id rewrite and text offset projection.
#[derive(Debug, Clone, PartialEq, Eq)]
pub struct FinalizedHostedCitation {
    pub source_id: String,
    pub start_byte: usize,
    pub end_byte: usize,
}

/// What a [`FinalizedHostedCitation`] holds.
#[verifier::ext_equal]
pub struct FinalizedHostedCitationView {
    pub source_id: Seq<char>,
    pub start_byte: usize,
    pub end_byte: usize,
}

impl DeepView for FinalizedHostedCitation {
    type V = FinalizedHostedCitationView;

    open spec fn deep_view(&self) -> FinalizedHostedCitationView {
        FinalizedHostedCitationView {
            source_id: self.source_id.deep_view(),
            start_byte: self.start_byte.deep_view(),
            end_byte: self.end_byte.deep_view(),
        }
    }
}

impl Value for FinalizedHostedCitation {
    fn same(&self, other: &Self) -> (r: bool) {
        self.source_id.same(&other.source_id)
            && self.start_byte.same(&other.start_byte)
            && self.end_byte.same(&other.end_byte)
    }

    fn duplicate(&self) -> (r: Self) {
        FinalizedHostedCitation {
            source_id: self.source_id.duplicate(),
            start_byte: self.start_byte.duplicate(),
            end_byte: self.end_byte.duplicate(),
        }
    }
}

/// Finalizer output. Every string in this type must already be safe to persist and emit.
#[derive(Debug, Clone, PartialEq, Eq)]
pub struct FinalizedHostedTurn {
    pub assistant_text: String,
    pub reasoning_trace: String,
    pub sources: Vec<ExternalSourceRecord>,
    pub citations: Vec<FinalizedHostedCitation>,
    pub hosted_used: bool,
    pub query_observed: bool,
}

/// What a [`FinalizedHostedTurn`] holds.
#[verifier::ext_equal]
pub struct FinalizedHostedTurnView {
    pub assistant_text: Seq<char>,
    pub reasoning_trace: Seq<char>,
    pub sources: Seq<ExternalSourceRecordView>,
    pub citations: Seq<FinalizedHostedCitationView>,
    pub hosted_used: bool,
    pub query_observed: bool,
}

impl DeepView for FinalizedHostedTurn {
    type V = FinalizedHostedTurnView;

    open spec fn deep_view(&self) -> FinalizedHostedTurnView {
        FinalizedHostedTurnView {
            assistant_text: self.assistant_text.deep_view(),
            reasoning_trace: self.reasoning_trace.deep_view(),
            sources: self.sources.deep_view(),
            citations: self.citations.deep_view(),
            hosted_used: self.hosted_used.deep_view(),
            query_observed: self.query_observed.deep_view(),
        }
    }
}

impl Value for FinalizedHostedTurn {
    fn same(&self, other: &Self) -> (r: bool) {
        self.assistant_text.same(&other.assistant_text)
            && self.reasoning_trace.same(&other.reasoning_trace)
            && self.sources.same(&other.sources)
            && self.citations.same(&other.citations)
            && self.hosted_used.same(&other.hosted_used)
            && self.query_observed.same(&other.query_observed)
    }

    fn duplicate(&self) -> (r: Self) {
        FinalizedHostedTurn {
            assistant_text: self.assistant_text.duplicate(),
            reasoning_trace: self.reasoning_trace.duplicate(),
            sources: self.sources.duplicate(),
            citations: self.citations.duplicate(),
            hosted_used: self.hosted_used.duplicate(),
            query_observed: self.query_observed.duplicate(),
        }
    }
}

/// Explicit send boundary used by hosted provider adapters to prohibit post-send retries.
#[derive(Debug, Clone, Copy, PartialEq, Eq, Structural)]
pub enum HostedRequestWireState {
    Prepared,
    RequestBytesStarted,
    Terminal,
}

impl DeepView for HostedRequestWireState {
    type V = HostedRequestWireState;

    open spec fn deep_view(&self) -> HostedRequestWireState {
        *self
    }
}

impl Value for HostedRequestWireState {
    fn same(&self, other: &Self) -> (r: bool) {
        *self == *other
    }

    fn duplicate(&self) -> (r: Self) {
        *self
    }
}

/// A step that the wire state does not allow.
#[derive(Debug, Clone, Copy, PartialEq, Eq, Structural)]
pub enum HostedWireStateError {
    InvalidTransition,
}

impl DeepView for HostedWireStateError {
    type V = HostedWireStateError;

    open spec fn deep_view(&self) -> HostedWireStateError {
        *self
    }
}

impl Value for HostedWireStateError {
    fn same(&self, other: &Self) -> (r: bool) {
        *self == *other
    }

    fn duplicate(&self) -> (r: Self) {
        *self
    }
}

/// The default of [`HostedToolLimits`].
pub open spec fn hosted_tool_limits_default() -> HostedToolLimitsView {
    HostedToolLimitsView {
        max_uses: None,
        allowed_domains: Seq::empty(),
        blocked_domains: Seq::empty(),
    }
}

impl Default for HostedToolLimits {
    fn default() -> (r: Self)
        ensures
            r.deep_view() == hosted_tool_limits_default(),
    {
        let r = HostedToolLimits {
            max_uses: None,
            allowed_domains: Vec::new(),
            blocked_domains: Vec::new(),
        };
        assert(r.deep_view() =~= hosted_tool_limits_default());
        r
    }
}

impl Default for HostedToolSupport {
    fn default() -> (r: Self)
        ensures
            r == HostedToolSupport::Unsupported,
    {
        HostedToolSupport::Unsupported
    }
}

impl Default for HostedQueryVisibility {
    fn default() -> (r: Self)
        ensures
            r == HostedQueryVisibility::Unavailable,
    {
        HostedQueryVisibility::Unavailable
    }
}

impl Default for HostedSourceFidelity {
    fn default() -> (r: Self)
        ensures
            r == HostedSourceFidelity::Unavailable,
    {
        HostedSourceFidelity::Unavailable
    }
}

impl Default for HostedCitationFidelity {
    fn default() -> (r: Self)
        ensures
            r == HostedCitationFidelity::Unavailable,
    {
        HostedCitationFidelity::Unavailable
    }
}

impl Default for HostedConstraintEnforcement {
    fn default() -> (r: Self)
        ensures
            r == HostedConstraintEnforcement::Unsupported,
    {
        HostedConstraintEnforcement::Unsupported
    }
}

/// The default of [`HostedWebSearchCapability`].
pub open spec fn hosted_web_search_capability_default() -> HostedWebSearchCapabilityView {
    HostedWebSearchCapabilityView {
        support: HostedToolSupport::Unsupported,
        query_visibility: HostedQueryVisibility::Unavailable,
        source_fidelity: HostedSourceFidelity::Unavailable,
        citation_fidelity: HostedCitationFidelity::Unavailable,
        max_uses_enforcement: HostedConstraintEnforcement::Unsupported,
        domain_filter_enforcement: HostedConstraintEnforcement::Unsupported,
    }
}

impl Default for HostedWebSearchCapability {
    fn default() -> (r: Self)
        ensures
            r.deep_view() == hosted_web_search_capability_default(),
    {
        let r = HostedWebSearchCapability {
            support: HostedToolSupport::Unsupported,
            query_visibility: HostedQueryVisibility::Unavailable,
            source_fidelity: HostedSourceFidelity::Unavailable,
            citation_fidelity: HostedCitationFidelity::Unavailable,
            max_uses_enforcement: HostedConstraintEnforcement::Unsupported,
            domain_filter_enforcement: HostedConstraintEnforcement::Unsupported,
        };
        assert(r.deep_view() =~= hosted_web_search_capability_default());
        r
    }
}

impl Default for HostedRequestWireState {
    fn default() -> (r: Self)
        ensures
            r == HostedRequestWireState::Prepared,
    {
        HostedRequestWireState::Prepared
    }
}

/// The message of a failure.
pub open spec fn request_error_message(e: HostedToolRequestError) -> Seq<char> {
    match e {
        HostedToolRequestError::MissingAuthorizationId => "hosted tool request is missing authorization id"@,
        HostedToolRequestError::MissingRequestFingerprint => "hosted tool request is missing request fingerprint"@,
        HostedToolRequestError::ZeroMaxUses => "hosted tool max uses must be greater than zero"@,
        HostedToolRequestError::ConflictingDomainFilters => "hosted tool allowed and blocked domain filters are mutually exclusive"@,
        HostedToolRequestError::EmptyDomainFilter => "hosted tool domain filter must not be empty"@,
        HostedToolRequestError::DomainFilterLimitExceeded => "hosted tool domain filter count exceeds the hard limit"@,
        HostedToolRequestError::DomainFilterBytesExceeded => "hosted tool domain filters exceed the aggregate byte limit"@,
        HostedToolRequestError::InvalidDomainFilter => "hosted tool domain filter is not a canonical bounded domain pattern"@,
        HostedToolRequestError::DuplicateDomainFilter => "hosted tool domain filter is duplicated"@,
        HostedToolRequestError::InvalidIdentity => "hosted tool identity is not bounded safe ASCII"@,
        HostedToolRequestError::RequestFingerprintMismatch => "hosted tool request fingerprint does not match its canonical content"@,
    }
}

impl HostedToolRequestError {
    /// The message of the failure.
    pub fn message(&self) -> (r: String)
        ensures
            r@ == request_error_message(self.deep_view()),
    {
        match self {
            HostedToolRequestError::MissingAuthorizationId => "hosted tool request is missing authorization id".to_owned(),
            HostedToolRequestError::MissingRequestFingerprint => "hosted tool request is missing request fingerprint".to_owned(),
            HostedToolRequestError::ZeroMaxUses => "hosted tool max uses must be greater than zero".to_owned(),
            HostedToolRequestError::ConflictingDomainFilters => "hosted tool allowed and blocked domain filters are mutually exclusive".to_owned(),
            HostedToolRequestError::EmptyDomainFilter => "hosted tool domain filter must not be empty".to_owned(),
            HostedToolRequestError::DomainFilterLimitExceeded => "hosted tool domain filter count exceeds the hard limit".to_owned(),
            HostedToolRequestError::DomainFilterBytesExceeded => "hosted tool domain filters exceed the aggregate byte limit".to_owned(),
            HostedToolRequestError::InvalidDomainFilter => "hosted tool domain filter is not a canonical bounded domain pattern".to_owned(),
            HostedToolRequestError::DuplicateDomainFilter => "hosted tool domain filter is duplicated".to_owned(),
            HostedToolRequestError::InvalidIdentity => "hosted tool identity is not bounded safe ASCII".to_owned(),
            HostedToolRequestError::RequestFingerprintMismatch => "hosted tool request fingerprint does not match its canonical content".to_owned(),
        }
    }
}

/// The message of a failure.
pub open spec fn turn_error_message(e: HostedTurnError) -> Seq<char> {
    match e {
        HostedTurnError::BufferLimitExceeded => "hosted turn buffer limit exceeded"@,
        HostedTurnError::UnsupportedLocalToolChunk => "hosted turn received an unsupported local tool-call chunk"@,
        HostedTurnError::MissingProcessor => "hosted evidence processor is required"@,
        HostedTurnError::FinalizationFailed => "hosted evidence finalization failed"@,
        HostedTurnError::ProviderFailed => "hosted provider reported a terminal search failure"@,
        HostedTurnError::InvalidInvocationCorrelation => "hosted provider emitted invalid invocation correlation"@,
    }
}

impl HostedTurnError {
    /// The message of the failure.
    pub fn message(&self) -> (r: String)
        ensures
            r@ == turn_error_message(self.deep_view()),
    {
        match self {
            HostedTurnError::BufferLimitExceeded => "hosted turn buffer limit exceeded".to_owned(),
            HostedTurnError::UnsupportedLocalToolChunk => "hosted turn received an unsupported local tool-call chunk".to_owned(),
            HostedTurnError::MissingProcessor => "hosted evidence processor is required".to_owned(),
            HostedTurnError::FinalizationFailed => "hosted evidence finalization failed".to_owned(),
            HostedTurnError::ProviderFailed => "hosted provider reported a terminal search failure".to_owned(),
            HostedTurnError::InvalidInvocationCorrelation => "hosted provider emitted invalid invocation correlation".to_owned(),
        }
    }
}

/// The message of a failure.
pub open spec fn wire_error_message(e: HostedWireStateError) -> Seq<char> {
    match e {
        HostedWireStateError::InvalidTransition => "invalid hosted request wire-state transition"@,
    }
}

impl HostedWireStateError {
    /// The message of the failure.
    pub fn message(&self) -> (r: String)
        ensures
            r@ == wire_error_message(self.deep_view()),
    {
        match self {
            HostedWireStateError::InvalidTransition => "invalid hosted request wire-state transition".to_owned(),
        }
    }
}

// Requests.

/// The label of a kind of hosted tool.
pub open spec fn kind_label(kind: HostedToolKind) -> Seq<char> {
    match kind {
        HostedToolKind::WebSearch => "web_search"@,
    }
}

fn hosted_kind_label(kind: HostedToolKind) -> (r: &'static str)
    ensures
        r@ == kind_label(kind),
{
    match kind {
        HostedToolKind::WebSearch => "web_search",
    }
}

/// An identity of bounded, safe ASCII text.
pub open spec fn is_hosted_identity(s: Seq<char>) -> bool {
    &&& s.len() > 0
    &&& byte_len(s) <= HOSTED_ID_MAX_BYTES
    &&& every(CharClass::ScopedName, s)
}

fn valid_hosted_identity(value: &str) -> (r: bool)
    ensures
        r == is_hosted_identity(value@),
{
    !value.is_empty() && byte_length(value) <= HOSTED_ID_MAX_BYTES && all_of(
        CharClass::ScopedName,
        value,
    )
}

/// What `url` finds in a host: the domain in its canonical form, or nothing where it is an address or
/// no host at all.
pub uninterp spec fn parsed_domain_of(host: Seq<char>) -> Option<Seq<char>>;

/// Calls `url::Host::parse` and tells a domain apart from addresses and failures. The contract claims
/// that what is found depends on the text alone.
#[verifier::external_body]
pub(crate) fn parse_domain(host: &str) -> (r: Option<String>)
    ensures
        r.deep_view() == parsed_domain_of(host@),
{
    match url::Host::parse(host) {
        Ok(url::Host::Domain(domain)) => Some(domain),
        Ok(url::Host::Ipv4(_)) => None,
        Ok(url::Host::Ipv6(_)) => None,
        Err(_) => None,
    }
}

/// A scheme and its separator stand in a text.
pub open spec fn has_scheme_separator(s: Seq<char>) -> bool {
    exists|i: int| 0 <= i && i + 2 < s.len() && #[trigger] s[i] == ':' && s[i + 1] == '/' && s[i + 2]
        == '/'
}

/// The place of the first slash, or the length where there is none.
pub open spec fn first_slash(s: Seq<char>) -> int
    decreases s.len(),
{
    if s.len() == 0 || s[0] == '/' {
        0
    } else {
        1 + first_slash(s.drop_first())
    }
}

/// The host of a domain filter: all before the first slash.
pub open spec fn filter_host(s: Seq<char>) -> Seq<char> {
    s.take(first_slash(s))
}

/// One of the characters that a domain filter must not hold.
pub open spec fn is_forbidden_in_filter(c: char) -> bool {
    is_control(c) || c > '\u{7f}' || c == '@' || c == '?' || c == '#' || c == '\\'
}

/// One of the characters that the host of a domain filter must not hold.
pub open spec fn is_forbidden_in_host(c: char) -> bool {
    c == '*' || 'A' <= c <= 'Z'
}

/// A domain filter in canonical form, given the domain that was found in its host: a bounded lowercase
/// domain with a dot in it, and a path without blanks behind it where there is one.
pub open spec fn is_domain_filter(s: Seq<char>, found: Option<Seq<char>>) -> bool {
    let host = filter_host(s);
    &&& byte_len(s) <= HOSTED_DOMAIN_FILTER_MAX_BYTES
    &&& forall|i: int| 0 <= i < s.len() ==> !is_forbidden_in_filter(#[trigger] s[i])
    &&& !has_scheme_separator(s)
    &&& host.len() > 0
    &&& forall|i: int| 0 <= i < host.len() ==> !is_forbidden_in_host(#[trigger] host[i])
    &&& host.contains('.')
    &&& found == Some(host)
    &&& forall|i: int| host.len() < i < s.len() ==> #[trigger] s[i] != ' '
}

proof fn lemma_first_slash(s: Seq<char>, k: int)
    requires
        0 <= k <= s.len(),
        forall|j: int| 0 <= j < k ==> #[trigger] s[j] != '/',
        k < s.len() ==> s[k] == '/',
    ensures
        first_slash(s) == k,
    decreases s.len(),
{
    if k > 0 {
        let rest = s.drop_first();
        assert forall|j: int| 0 <= j < k - 1 implies #[trigger] rest[j] != '/' by {
            assert(rest[j] == s[j + 1]);
        }
        lemma_first_slash(rest, k - 1);
    }
}

fn slash_at(chars: &Vec<char>) -> (r: usize)
    ensures
        r == first_slash(chars@),
        r <= chars.len(),
{
    let mut k: usize = 0;
    while k < chars.len() && chars[k] != '/'
        invariant
            k <= chars.len(),
            forall|j: int| 0 <= j < k ==> #[trigger] chars@[j] != '/',
        decreases chars.len() - k,
    {
        k = k + 1;
    }
    proof {
        lemma_first_slash(chars@, k as int);
    }
    k
}

fn scheme_separator(chars: &Vec<char>) -> (r: bool)
    ensures
        r == has_scheme_separator(chars@),
{
    let mut i: usize = 0;
    while i < chars.len()
        invariant
            i <= chars.len(),
            forall|j: int|
                0 <= j < i && j + 2 < chars.len() ==> !(#[trigger] chars@[j] == ':' && chars@[j + 1]
                    == '/' && chars@[j + 2] == '/'),
        decreases chars.len() - i,
    {
        if chars.len() - i > 2 && chars[i] == ':' && chars[i + 1] == '/' && chars[i + 2] == '/' {
            assert(chars@[i as int] == ':');
            return true;
        }
        i = i + 1;
    }
    false
}

fn forbidden_character(chars: &Vec<char>) -> (r: bool)
    ensures
        r == exists|i: int| 0 <= i < chars.len() && is_forbidden_in_filter(#[trigger] chars@[i]),
{
    let mut i: usize = 0;
    while i < chars.len()
        invariant
            i <= chars.len(),
            forall|j: int| 0 <= j < i ==> !is_forbidden_in_filter(#[trigger] chars@[j]),
        decreases chars.len() - i,
    {
        let c = chars[i];
        if control(c) || c > '\u{7f}' || c == '@' || c == '?' || c == '#' || c == '\\' {
            assert(is_forbidden_in_filter(chars@[i as int]));
            return true;
        }
        i = i + 1;
    }
    false
}

fn plain_host(chars: &Vec<char>, end: usize) -> (r: bool)
    requires
        end <= chars.len(),
    ensures
        r == ((forall|i: int| 0 <= i < end ==> !is_forbidden_in_host(#[trigger] chars@[i]))
            && chars@.take(end as int).contains('.')),
{
    let mut dotted = false;
    let ghost head = chars@.take(end as int);
    let mut i: usize = 0;
    while i < end
        invariant
            i <= end <= chars.len(),
            head == chars@.take(end as int),
            forall|j: int| 0 <= j < i ==> !is_forbidden_in_host(#[trigger] chars@[j]),
            dotted ==> head.contains('.'),
            !dotted ==> forall|j: int| 0 <= j < i ==> #[trigger] head[j] != '.',
        decreases end - i,
    {
        let c = chars[i];
        if c == '*' || ('A' <= c && c <= 'Z') {
            assert(is_forbidden_in_host(chars@[i as int]));
            return false;
        }
        if c == '.' {
            assert(head[i as int] == '.');
            dotted = true;
        }
        i = i + 1;
    }
    dotted
}

fn blank_after(chars: &Vec<char>, from: usize) -> (r: bool)
    requires
        from <= chars.len(),
    ensures
        r == exists|i: int| from < i < chars.len() && #[trigger] chars@[i] == ' ',
{
    if from == chars.len() {
        return false;
    }
    let mut i: usize = from + 1;
    while i < chars.len()
        invariant
            from < i <= chars.len(),
            forall|j: int| from < j < i ==> #[trigger] chars@[j] != ' ',
        decreases chars.len() - i,
    {
        if chars[i] == ' ' {
            assert(chars@[i as int] == ' ');
            return true;
        }
        i = i + 1;
    }
    false
}

/// The host of a domain filter.
pub fn domain_filter_host(value: &str) -> (r: String)
    ensures
        r@ == filter_host(value@),
{
    let chars = characters(value);
    let end = slash_at(&chars);
    let r = text_of(&chars, 0, end);
    assert(r@ =~= filter_host(value@));
    r
}

/// Tells whether a text is a domain filter in canonical form, given the domain that was found in its
/// host.
pub fn valid_domain_filter(value: &str, found: &Option<String>) -> (r: bool)
    ensures
        r == is_domain_filter(value@, found.deep_view()),
{
    let chars = characters(value);
    let end = slash_at(&chars);
    let host = text_of(&chars, 0, end);
    let ghost head = chars@.take(end as int);
    assert(host@ =~= filter_host(value@));
    assert(head =~= filter_host(value@));
    proof {
        if forall|i: int| 0 <= i < end ==> !is_forbidden_in_host(#[trigger] chars@[i]) {
            assert forall|i: int| 0 <= i < head.len() implies !is_forbidden_in_host(
                #[trigger] head[i],
            ) by {
                assert(head[i] == chars@[i]);
            }
        }
        if forall|i: int| 0 <= i < head.len() ==> !is_forbidden_in_host(#[trigger] head[i]) {
            assert forall|i: int| 0 <= i < end implies !is_forbidden_in_host(#[trigger] chars@[i]) by {
                assert(head[i] == chars@[i]);
            }
        }
    }
    let same = match found {
        Some(domain) => *domain == host,
        None => false,
    };
    byte_length(value) <= HOSTED_DOMAIN_FILTER_MAX_BYTES && !forbidden_character(&chars)
        && !scheme_separator(&chars) && end > 0 && plain_host(&chars, end) && same && !blank_after(
        &chars,
        end,
    )
}

/// The bytes of all texts together.
pub open spec fn bytes_of_all(s: Seq<Seq<char>>) -> nat
    decreases s.len(),
{
    if s.len() == 0 {
        0
    } else {
        bytes_of_all(s.drop_last()) + byte_len(s.last())
    }
}

/// What is wrong with the first `n` domain filters.
pub open spec fn filters_verdict(domains: Seq<Seq<char>>, n: int) -> Result<
    (),
    HostedToolRequestError,
>
    decreases n,
{
    if n <= 0 {
        Ok(())
    } else {
        match filters_verdict(domains, n - 1) {
            Err(e) => Err(e),
            Ok(_) => if !is_domain_filter(
                domains[n - 1],
                parsed_domain_of(filter_host(domains[n - 1])),
            ) {
                Err(HostedToolRequestError::InvalidDomainFilter)
            } else if repeats(domains, n - 1) {
                Err(HostedToolRequestError::DuplicateDomainFilter)
            } else {
                Ok(())
            },
        }
    }
}

/// The text is blank.
pub open spec fn blank_text() -> spec_fn(Seq<char>) -> bool {
    |s: Seq<char>| is_blank(s)
}

/// What is wrong with the limits of a request.
pub open spec fn limits_verdict(v: HostedToolLimitsView) -> Result<(), HostedToolRequestError> {
    let domains = v.allowed_domains + v.blocked_domains;
    if v.max_uses == Some(0u32) {
        Err(HostedToolRequestError::ZeroMaxUses)
    } else if v.allowed_domains.len() > 0 && v.blocked_domains.len() > 0 {
        Err(HostedToolRequestError::ConflictingDomainFilters)
    } else if any_where(domains, blank_text()) {
        Err(HostedToolRequestError::EmptyDomainFilter)
    } else if domains.len() > HOSTED_DOMAIN_FILTER_MAX_ITEMS {
        Err(HostedToolRequestError::DomainFilterLimitExceeded)
    } else if bytes_of_all(domains) > HOSTED_DOMAIN_FILTER_TOTAL_BYTES {
        Err(HostedToolRequestError::DomainFilterBytesExceeded)
    } else {
        filters_verdict(domains, domains.len() as int)
    }
}

proof fn lemma_filters_fail(domains: Seq<Seq<char>>, n: int, end: int)
    requires
        0 <= n <= end,
        filters_verdict(domains, n) is Err,
    ensures
        filters_verdict(domains, end) == filters_verdict(domains, n),
    decreases end - n,
{
    if n < end {
        lemma_filters_fail(domains, n, end - 1);
    }
}

proof fn lemma_bytes_of_all_grow(s: Seq<Seq<char>>, i: int)
    requires
        0 <= i <= s.len(),
    ensures
        bytes_of_all(s.take(i)) <= bytes_of_all(s),
    decreases s.len() - i,
{
    if i < s.len() {
        lemma_bytes_of_all_grow(s, i + 1);
        assert(s.take(i + 1).drop_last() =~= s.take(i));
    } else {
        assert(s.take(i) =~= s);
    }
}

fn too_many_bytes(domains: &Vec<String>) -> (r: bool)
    ensures
        r == (bytes_of_all(domains.deep_view()) > HOSTED_DOMAIN_FILTER_TOTAL_BYTES),
{
    let ghost v = domains.deep_view();
    let mut left: usize = HOSTED_DOMAIN_FILTER_TOTAL_BYTES;
    let mut i: usize = 0;
    assert(v.take(0) =~= Seq::empty());
    while i < domains.len()
        invariant
            i <= domains.len(),
            v == domains.deep_view(),
            bytes_of_all(v.take(i as int)) + left == HOSTED_DOMAIN_FILTER_TOTAL_BYTES,
        decreases domains.len() - i,
    {
        proof {
            assert(v.take(i + 1).drop_last() =~= v.take(i as int));
            assert(v.take(i + 1).last() == domains@[i as int]@);
            lemma_bytes_of_all_grow(v, i + 1);
        }
        let n = byte_length(domains[i].as_str());
        if n > left {
            return true;
        }
        left = left - n;
        i = i + 1;
    }
    assert(v.take(i as int) =~= v);
    false
}

fn both_lists(limits: &HostedToolLimits) -> (r: Vec<String>)
    ensures
        r.deep_view() == limits.deep_view().allowed_domains + limits.deep_view().blocked_domains,
{
    let ghost a = limits.allowed_domains.deep_view();
    let ghost b = limits.blocked_domains.deep_view();
    let mut r = limits.allowed_domains.duplicate();
    let mut i: usize = 0;
    while i < limits.blocked_domains.len()
        invariant
            i <= limits.blocked_domains.len(),
            b == limits.blocked_domains.deep_view(),
            r.deep_view() =~= a + b.take(i as int),
        decreases limits.blocked_domains.len() - i,
    {
        let ghost had = r;
        let item = limits.blocked_domains[i].duplicate();
        assert(b[i as int] == item@);
        r.push(item);
        proof {
            lemma_push_view(had, item, r);
        }
        i = i + 1;
    }
    assert(b.take(i as int) =~= b);
    r
}

fn validate_filters(domains: &Vec<String>) -> (r: Result<(), HostedToolRequestError>)
    ensures
        r == filters_verdict(domains.deep_view(), domains.len() as int),
{
    let ghost v = domains.deep_view();
    let mut i: usize = 0;
    while i < domains.len()
        invariant
            i <= domains.len(),
            v == domains.deep_view(),
            filters_verdict(v, i as int) == Ok::<(), HostedToolRequestError>(()),
        decreases domains.len() - i,
    {
        assert(v[i as int] == domains@[i as int]@);
        let host = domain_filter_host(domains[i].as_str());
        let found = parse_domain(host.as_str());
        if !valid_domain_filter(domains[i].as_str(), &found) {
            proof {
                lemma_filters_fail(v, i + 1, v.len() as int);
            }
            return Err(HostedToolRequestError::InvalidDomainFilter);
        }
        if repeated_at(domains, i) {
            proof {
                lemma_filters_fail(v, i + 1, v.len() as int);
            }
            return Err(HostedToolRequestError::DuplicateDomainFilter);
        }
        i = i + 1;
    }
    Ok(())
}

impl HostedToolLimits {
    /// Checks the limits before they are sent: none of them zero, empty or ambiguous.
    pub fn validate(&self) -> (r: Result<(), HostedToolRequestError>)
        ensures
            r == limits_verdict(self.deep_view()),
    {
        if let Some(n) = self.max_uses {
            if n == 0 {
                return Err(HostedToolRequestError::ZeroMaxUses);
            }
        }
        if self.allowed_domains.len() > 0 && self.blocked_domains.len() > 0 {
            return Err(HostedToolRequestError::ConflictingDomainFilters);
        }
        let domains = both_lists(self);
        let ghost p = blank_text();
        let empty = has_any(
            &domains,
            |s: &String| -> (b: bool)
                ensures
                    b == p(s.deep_view())
                { blank(s.as_str()) },
            Ghost(p),
        );
        if empty {
            return Err(HostedToolRequestError::EmptyDomainFilter);
        }
        if domains.len() > HOSTED_DOMAIN_FILTER_MAX_ITEMS {
            return Err(HostedToolRequestError::DomainFilterLimitExceeded);
        }
        if too_many_bytes(&domains) {
            return Err(HostedToolRequestError::DomainFilterBytesExceeded);
        }
        validate_filters(&domains)
    }
}

/// The canonical text of a request: its authorization, kind and limits, with the domains in order.
pub open spec fn request_text(
    authorization_id: Seq<char>,
    kind: HostedToolKind,
    limits: HostedToolLimitsView,
) -> Seq<char> {
    let allowed = items_in_order(limits.allowed_domains, text_order());
    let blocked = items_in_order(limits.blocked_domains, text_order());
    let t = Seq::<char>::empty();
    let t = member(t, "allowed_domains"@, <Vec<String> as Encode>::json(allowed));
    let t = member(t, "blocked_domains"@, <Vec<String> as Encode>::json(blocked));
    let t = member(t, "max_uses"@, <Option<u32> as Encode>::json(limits.max_uses));
    let inner = object(t);
    let t = Seq::<char>::empty();
    let t = member(t, "authorization_id"@, <String as Encode>::json(authorization_id));
    let t = member(t, "kind"@, quoted(kind_label(kind)));
    let t = member(t, "limits"@, inner);
    object(t)
}

/// The fingerprint of a request.
pub open spec fn request_fingerprint_of(
    authorization_id: Seq<char>,
    kind: HostedToolKind,
    limits: HostedToolLimitsView,
) -> Seq<char> {
    "hosted-v1:"@ + sha256_hex_of(
        vstd::utf8::encode_utf8(request_text(authorization_id, kind, limits)),
    )
}

fn hosted_request_fingerprint(
    authorization_id: &String,
    kind: HostedToolKind,
    limits: &HostedToolLimits,
) -> (r: String)
    ensures
        r@ == request_fingerprint_of(authorization_id@, kind, limits.deep_view()),
        is_hosted_identity(r@),
        !is_blank(r@),
{
    let allowed = sorted_texts(&limits.allowed_domains);
    let blocked = sorted_texts(&limits.blocked_domains);
    let mut inner = String::new();
    add_member(&mut inner, "allowed_domains", &allowed.to_json());
    add_member(&mut inner, "blocked_domains", &blocked.to_json());
    add_member(&mut inner, "max_uses", &limits.max_uses.to_json());
    close_object(&mut inner);
    let mut text = String::new();
    add_member(&mut text, "authorization_id", &authorization_id.to_json());
    add_member(&mut text, "kind", &quote(hosted_kind_label(kind)));
    add_member(&mut text, "limits", &inner);
    close_object(&mut text);
    let digest = sha256_lower_hex(text.as_str().as_bytes());
    let r = joined("hosted-v1:", digest.as_str());
    proof {
        reveal_strlit("hosted-v1:");
        let s = r@;
        assert forall|i: int| 0 <= i < s.len() implies in_class(
            CharClass::ScopedName,
            #[trigger] s[i],
        ) by {
            if i >= 10 {
                assert(s[i] == digest@[i - 10]);
            }
        }
        assert(vstd::utf8::is_ascii_chars(s)) by {
            assert forall|i: int| 0 <= i < s.len() implies '\0' <= #[trigger] s[i] <= '\u{7f}' by {
                assert(in_class(CharClass::ScopedName, s[i]));
            }
        }
        lemma_ascii_byte_len(s);
        assert(s[0] == 'h');
        assert(!in_class(CharClass::White, s[0]));
    }
    r
}

/// What is wrong with a request.
pub open spec fn request_verdict(v: HostedToolRequestView) -> Result<(), HostedToolRequestError> {
    if is_blank(v.authorization_id) {
        Err(HostedToolRequestError::MissingAuthorizationId)
    } else if is_blank(v.request_fingerprint) {
        Err(HostedToolRequestError::MissingRequestFingerprint)
    } else if !is_hosted_identity(v.authorization_id) || !is_hosted_identity(
        v.request_fingerprint,
    ) {
        Err(HostedToolRequestError::InvalidIdentity)
    } else {
        match limits_verdict(v.limits) {
            Err(e) => Err(e),
            Ok(_) => if v.request_fingerprint != request_fingerprint_of(
                v.authorization_id,
                v.kind,
                v.limits,
            ) {
                Err(HostedToolRequestError::RequestFingerprintMismatch)
            } else {
                Ok(())
            },
        }
    }
}

/// The request for a hosted tool.
pub open spec fn new_request(
    authorization_id: Seq<char>,
    kind: HostedToolKind,
    limits: HostedToolLimitsView,
) -> Result<HostedToolRequestView, HostedToolRequestError> {
    if !is_hosted_identity(authorization_id) {
        Err(HostedToolRequestError::InvalidIdentity)
    } else {
        match limits_verdict(limits) {
            Err(e) => Err(e),
            Ok(_) => Ok(
                HostedToolRequestView {
                    authorization_id,
                    request_fingerprint: request_fingerprint_of(authorization_id, kind, limits),
                    kind,
                    limits,
                },
            ),
        }
    }
}

proof fn lemma_identity_is_not_blank(s: Seq<char>)
    requires
        is_hosted_identity(s),
    ensures
        !is_blank(s),
{
    assert(in_class(CharClass::ScopedName, s[0]));
    if is_blank(s) {
        assert(in_class(CharClass::White, s[0]));
    }
}

impl HostedToolRequest {
    /// Makes a request and binds its fingerprint to authorization, kind and limits. What is made is
    /// valid.
    pub fn new(authorization_id: &str, kind: HostedToolKind, limits: HostedToolLimits) -> (r: Result<
        Self,
        HostedToolRequestError,
    >)
        ensures
            match new_request(authorization_id@, kind, limits.deep_view()) {
                Ok(v) => r matches Ok(q) && q.deep_view() == v,
                Err(e) => r matches Err(x) && x == e,
            },
            r matches Ok(q) ==> request_verdict(q.deep_view()) is Ok,
    {
        let authorization_id = authorization_id.to_owned();
        if !valid_hosted_identity(authorization_id.as_str()) {
            return Err(HostedToolRequestError::InvalidIdentity);
        }
        limits.validate()?;
        let request_fingerprint = hosted_request_fingerprint(&authorization_id, kind, &limits);
        proof {
            lemma_identity_is_not_blank(authorization_id@);
        }
        Ok(HostedToolRequest { authorization_id, request_fingerprint, kind, limits })
    }

    /// Checks the request before it is sent.
    pub fn validate(&self) -> (r: Result<(), HostedToolRequestError>)
        ensures
            r == request_verdict(self.deep_view()),
    {
        if blank(self.authorization_id.as_str()) {
            return Err(HostedToolRequestError::MissingAuthorizationId);
        }
        if blank(self.request_fingerprint.as_str()) {
            return Err(HostedToolRequestError::MissingRequestFingerprint);
        }
        if !valid_hosted_identity(self.authorization_id.as_str()) || !valid_hosted_identity(
            self.request_fingerprint.as_str(),
        ) {
            return Err(HostedToolRequestError::InvalidIdentity);
        }
        self.limits.validate()?;
        let expected = hosted_request_fingerprint(&self.authorization_id, self.kind, &self.limits);
        if self.request_fingerprint != expected {
            return Err(HostedToolRequestError::RequestFingerprintMismatch);
        }
        Ok(())
    }
}

impl HostedWebSearchCapability {
    /// Tells whether the model offers web search at all.
    pub fn is_supported(self) -> (r: bool)
        ensures
            r == (self.support != HostedToolSupport::Unsupported),
    {
        self.support != HostedToolSupport::Unsupported
    }
}

// Evidence.

/// A source with nothing known of it but its identity, address and title.
pub open spec fn source_of(id: Seq<char>, url: Seq<char>, title: Option<Seq<char>>) -> HostedSourceCandidateView {
    HostedSourceCandidateView {
        provider_source_id: id,
        raw_url: url,
        raw_title: title,
        published_at: None,
        rank: None,
    }
}

impl HostedSourceCandidate {
    /// A source with nothing known of it but its identity, address and title.
    pub fn new(provider_source_id: &str, raw_url: &str, raw_title: Option<String>) -> (r: Self)
        ensures
            r.deep_view() == source_of(provider_source_id@, raw_url@, raw_title.deep_view()),
    {
        HostedSourceCandidate {
            provider_source_id: provider_source_id.to_owned(),
            raw_url: raw_url.to_owned(),
            raw_title,
            published_at: None,
            rank: None,
        }
    }

    /// The source with its date of publication.
    pub fn with_published_at(self, published_at: &str) -> (r: Self)
        ensures
            r.deep_view() == (HostedSourceCandidateView {
                published_at: Some(published_at@),
                ..self.deep_view()
            }),
    {
        let mut r = self;
        r.published_at = Some(published_at.to_owned());
        r
    }

    /// The source with its rank.
    pub fn with_rank(self, rank: usize) -> (r: Self)
        ensures
            r.deep_view() == (HostedSourceCandidateView { rank: Some(rank), ..self.deep_view() }),
    {
        let mut r = self;
        r.rank = Some(rank);
        r
    }

    /// The identity that the provider gave.
    pub fn provider_source_id(&self) -> (r: &str)
        ensures
            r@ == self.deep_view().provider_source_id,
    {
        self.provider_source_id.as_str()
    }

    /// The address.
    pub fn raw_url(&self) -> (r: &str)
        ensures
            r@ == self.deep_view().raw_url,
    {
        self.raw_url.as_str()
    }

    /// The title.
    pub fn raw_title(&self) -> (r: Option<&str>)
        ensures
            r.deep_view() == self.deep_view().raw_title,
    {
        match &self.raw_title {
            Some(title) => Some(title.as_str()),
            None => None,
        }
    }

    /// The date of publication.
    pub fn published_at(&self) -> (r: Option<&str>)
        ensures
            r.deep_view() == self.deep_view().published_at,
    {
        match &self.published_at {
            Some(at) => Some(at.as_str()),
            None => None,
        }
    }

    /// The rank.
    pub fn rank(&self) -> (r: Option<usize>)
        ensures
            r == self.deep_view().rank,
    {
        self.rank
    }
}

impl HostedCitationCandidate {
    /// A citation of a source for a span of text.
    pub fn new(provider_source_id: &str, start_byte: usize, end_byte: usize) -> (r: Self)
        ensures
            r.deep_view() == (HostedCitationCandidateView {
                provider_source_id: provider_source_id@,
                start_byte,
                end_byte,
            }),
    {
        HostedCitationCandidate {
            provider_source_id: provider_source_id.to_owned(),
            start_byte,
            end_byte,
        }
    }

    /// The identity that the provider gave the source.
    pub fn provider_source_id(&self) -> (r: &str)
        ensures
            r@ == self.deep_view().provider_source_id,
    {
        self.provider_source_id.as_str()
    }

    /// Where the span starts.
    pub fn start_byte(&self) -> (r: usize)
        ensures
            r == self.deep_view().start_byte,
    {
        self.start_byte
    }

    /// Where the span ends.
    pub fn end_byte(&self) -> (r: usize)
        ensures
            r == self.deep_view().end_byte,
    {
        self.end_byte
    }
}

// The buffer of a turn.

/// A sum, or the largest number where that is too small.
pub open spec fn saturated(a: int, b: int) -> usize {
    if a + b > usize::MAX {
        usize::MAX
    } else {
        (a + b) as usize
    }
}

/// The limits that a turn has if nothing else is said.
pub open spec fn default_turn_limits() -> HostedTurnBufferLimits {
    HostedTurnBufferLimits {
        total_bytes: 1_048_576,
        text_bytes: 524_288,
        reasoning_bytes: 524_288,
        evidence_bytes: 524_288,
        evidence_items: 256,
    }
}

impl Default for HostedTurnBufferLimits {
    fn default() -> (r: Self)
        ensures
            r == default_turn_limits(),
    {
        HostedTurnBufferLimits {
            total_bytes: 1_048_576,
            text_bytes: 524_288,
            reasoning_bytes: 524_288,
            evidence_bytes: 524_288,
            evidence_items: 256,
        }
    }
}

/// A buffer that holds nothing yet.
pub open spec fn empty_turn(limits: HostedTurnBufferLimits) -> HostedTurnBufferView {
    HostedTurnBufferView {
        limits,
        text: Seq::empty(),
        reasoning: Seq::empty(),
        evidence: Seq::empty(),
        usages: Seq::empty(),
        background_accepted: Seq::empty(),
        background_statuses: Seq::empty(),
        response_handles: Seq::empty(),
        continuation_states: Seq::empty(),
        observed_uses: None,
        total_bytes: 0,
        evidence_bytes: 0,
        started_invocations: Seq::empty(),
        failed: false,
    }
}

/// The bytes of the texts that evidence holds.
pub open spec fn evidence_length(e: HostedEvidenceView) -> nat {
    match e {
        HostedEvidenceView::Source(s) => byte_len(s.provider_source_id) + byte_len(s.raw_url) + (
        match s.raw_title {
            Some(title) => byte_len(title),
            None => 0,
        }),
        HostedEvidenceView::Citation(c) => byte_len(c.provider_source_id),
        HostedEvidenceView::QueryObserved(q) => byte_len(q),
    }
}

/// What a buffer is after a piece was handed to it, and what the buffer says of it.
#[verifier::ext_equal]
pub struct Pushed {
    /// The buffer afterwards.
    pub buffer: HostedTurnBufferView,
    /// What the buffer says.
    pub result: Result<(), HostedTurnError>,
}

/// Nothing is taken.
pub open spec fn refused(b: HostedTurnBufferView, e: HostedTurnError) -> Pushed {
    Pushed { buffer: b, result: Err(e) }
}

/// Everything is taken.
pub open spec fn taken(b: HostedTurnBufferView) -> Pushed {
    Pushed { buffer: b, result: Ok(()) }
}

/// The room that a buffer has left is charged with some bytes, where there is enough of it. What a buffer
/// was charged with is counted up to the largest number; what it holds is compared with the limit by
/// itself, so that no count hides it.
pub open spec fn charged(b: HostedTurnBufferView, bytes: nat) -> Pushed {
    let next = saturated(b.total_bytes as int, bytes as int);
    if next > b.limits.total_bytes || byte_len(b.text) + byte_len(b.reasoning) + b.evidence_bytes
        + bytes > b.limits.total_bytes {
        refused(b, HostedTurnError::BufferLimitExceeded)
    } else {
        taken(HostedTurnBufferView { total_bytes: next, ..b })
    }
}

/// Text comes in.
pub open spec fn text_pushed(b: HostedTurnBufferView, delta: Seq<char>) -> Pushed {
    let c = charged(b, byte_len(delta));
    if c.result is Err {
        c
    } else if byte_len(b.text) + byte_len(delta) > b.limits.text_bytes {
        refused(c.buffer, HostedTurnError::BufferLimitExceeded)
    } else {
        taken(HostedTurnBufferView { text: b.text + delta, ..c.buffer })
    }
}

/// Reasoning comes in.
pub open spec fn reasoning_pushed(b: HostedTurnBufferView, delta: Seq<char>) -> Pushed {
    let c = charged(b, byte_len(delta));
    if c.result is Err {
        c
    } else if byte_len(b.reasoning) + byte_len(delta) > b.limits.reasoning_bytes {
        refused(c.buffer, HostedTurnError::BufferLimitExceeded)
    } else {
        taken(HostedTurnBufferView { reasoning: b.reasoning + delta, ..c.buffer })
    }
}

/// Evidence comes in.
pub open spec fn evidence_pushed(b: HostedTurnBufferView, e: HostedEvidenceView) -> Pushed {
    let size = evidence_length(e);
    let c = charged(b, size);
    if c.result is Err {
        c
    } else if b.evidence.len() >= b.limits.evidence_items || b.evidence_bytes + size
        > b.limits.evidence_bytes {
        refused(c.buffer, HostedTurnError::BufferLimitExceeded)
    } else {
        taken(
            HostedTurnBufferView {
                evidence_bytes: (b.evidence_bytes + size) as usize,
                evidence: b.evidence.push(e),
                ..c.buffer
            },
        )
    }
}

/// An invocation starts.
pub open spec fn start_pushed(b: HostedTurnBufferView, i: StartedInvocationView) -> Pushed {
    if !is_hosted_identity(i.authorization_id) || !is_hosted_identity(i.invocation_id)
        || b.started_invocations.contains(i) {
        refused(b, HostedTurnError::InvalidInvocationCorrelation)
    } else {
        taken(
            HostedTurnBufferView { started_invocations: b.started_invocations.push(i), ..b },
        )
    }
}

/// The invocation is one of an authorization and a kind.
pub open spec fn is_started_under(id: Seq<char>, kind: HostedToolKind) -> spec_fn(
    StartedInvocationView,
) -> bool {
    |i: StartedInvocationView| i.authorization_id == id && i.kind == kind
}

/// The larger of a number seen before and a number.
pub open spec fn largest(seen: Option<u32>, n: u32) -> u32 {
    match seen {
        Some(m) => if m > n {
            m
        } else {
            n
        },
        None => n,
    }
}

/// A piece comes in.
pub open spec fn pushed(b: HostedTurnBufferView, chunk: ProviderChunkView) -> Pushed {
    match chunk {
        ProviderChunkView::TextDelta(delta) => text_pushed(b, delta),
        ProviderChunkView::ReasoningDelta(delta) => reasoning_pushed(b, delta),
        ProviderChunkView::ReasoningSummaryDelta(delta) => reasoning_pushed(b, delta),
        ProviderChunkView::HostedToolStarted { authorization_id, invocation_id, kind } => {
            start_pushed(b, StartedInvocationView { authorization_id, invocation_id, kind })
        },
        ProviderChunkView::HostedEvidence { authorization_id, invocation_id, kind, evidence } => {
            if !b.started_invocations.contains(
                StartedInvocationView { authorization_id, invocation_id, kind },
            ) {
                refused(b, HostedTurnError::InvalidInvocationCorrelation)
            } else {
                evidence_pushed(b, evidence)
            }
        },
        ProviderChunkView::HostedToolFailed { authorization_id, invocation_id, kind } => {
            if !b.started_invocations.contains(
                StartedInvocationView { authorization_id, invocation_id, kind },
            ) {
                refused(b, HostedTurnError::InvalidInvocationCorrelation)
            } else {
                taken(HostedTurnBufferView { failed: true, ..b })
            }
        },
        ProviderChunkView::HostedRequestUsage { authorization_id, kind, observed_uses } => {
            if !any_where(b.started_invocations, is_started_under(authorization_id, kind)) {
                refused(b, HostedTurnError::InvalidInvocationCorrelation)
            } else {
                taken(
                    HostedTurnBufferView {
                        observed_uses: Some(largest(b.observed_uses, observed_uses)),
                        ..b
                    },
                )
            }
        },
        ProviderChunkView::Usage(x) => taken(
            HostedTurnBufferView { usages: b.usages.push(x), ..b },
        ),
        ProviderChunkView::BackgroundTaskAccepted(x) => taken(
            HostedTurnBufferView { background_accepted: b.background_accepted.push(x), ..b },
        ),
        ProviderChunkView::BackgroundTaskStatus(x) => taken(
            HostedTurnBufferView { background_statuses: b.background_statuses.push(x), ..b },
        ),
        ProviderChunkView::ResponseHandle(x) => taken(
            HostedTurnBufferView { response_handles: b.response_handles.push(x), ..b },
        ),
        ProviderChunkView::ContinuationState(x) => taken(
            HostedTurnBufferView { continuation_states: b.continuation_states.push(x), ..b },
        ),
        ProviderChunkView::ReasoningArtifact(_) => taken(b),
        ProviderChunkView::Done => taken(b),
        ProviderChunkView::ToolCallStart(_) => refused(
            b,
            HostedTurnError::UnsupportedLocalToolChunk,
        ),
        ProviderChunkView::ToolCallArgsDelta(_) => refused(
            b,
            HostedTurnError::UnsupportedLocalToolChunk,
        ),
        ProviderChunkView::ToolCallComplete(_) => refused(
            b,
            HostedTurnError::UnsupportedLocalToolChunk,
        ),
        ProviderChunkView::ToolCallStreamError(_) => refused(
            b,
            HostedTurnError::UnsupportedLocalToolChunk,
        ),
    }
}

/// The bytes of a text, as a number that can be added to others.
fn wide_length(s: &str) -> (r: u128)
    ensures
        r == byte_len(s@),
        r <= usize::MAX,
{
    byte_length(s) as u128
}

fn evidence_exact_bytes(e: &HostedEvidence) -> (r: u128)
    ensures
        r == evidence_length(e.deep_view()),
        r <= 3 * usize::MAX,
{
    match e {
        HostedEvidence::Source(s) => {
            let title: u128 = match &s.raw_title {
                Some(title) => wide_length(title.as_str()),
                None => 0,
            };
            wide_length(s.provider_source_id.as_str()) + wide_length(s.raw_url.as_str()) + title
        },
        HostedEvidence::Citation(c) => wide_length(c.provider_source_id.as_str()),
        HostedEvidence::QueryObserved(q) => wide_length(q.as_str()),
    }
}

impl HostedTurnBuffer {
    /// A buffer that holds nothing yet.
    pub fn new(limits: HostedTurnBufferLimits) -> (r: Self)
        ensures
            r.deep_view() == empty_turn(limits),
            is_bounded(r.deep_view()),
    {
        proof {
            law_new_turns_are_bounded(limits);
        }
        let r = HostedTurnBuffer {
            limits,
            text: String::new(),
            reasoning: String::new(),
            evidence: Vec::new(),
            usages: Vec::new(),
            background_accepted: Vec::new(),
            background_statuses: Vec::new(),
            response_handles: Vec::new(),
            continuation_states: Vec::new(),
            observed_uses: None,
            total_bytes: 0,
            evidence_bytes: 0,
            started_invocations: Vec::new(),
            failed: false,
        };
        assert(r.deep_view() =~= empty_turn(limits));
        r
    }

    fn charge(&mut self, bytes: u128) -> (r: Result<(), HostedTurnError>)
        requires
            bytes <= 3 * usize::MAX,
        ensures
            (Pushed { buffer: final(self).deep_view(), result: r }) == charged(
                old(self).deep_view(),
                bytes as nat,
            ),
    {
        let sum: u128 = self.total_bytes as u128 + bytes;
        let next: usize = if sum > usize::MAX as u128 {
            usize::MAX
        } else {
            sum as usize
        };
        let held: u128 = wide_length(self.text.as_str()) + wide_length(self.reasoning.as_str())
            + self.evidence_bytes as u128;
        if next > self.limits.total_bytes || held + bytes > self.limits.total_bytes as u128 {
            return Err(HostedTurnError::BufferLimitExceeded);
        }
        self.total_bytes = next;
        Ok(())
    }

    fn push_text(&mut self, delta: String) -> (r: Result<(), HostedTurnError>)
        ensures
            (Pushed { buffer: final(self).deep_view(), result: r }) == text_pushed(
                old(self).deep_view(),
                delta@,
            ),
    {
        let size = wide_length(delta.as_str());
        self.charge(size)?;
        if wide_length(self.text.as_str()) + size > self.limits.text_bytes as u128 {
            return Err(HostedTurnError::BufferLimitExceeded);
        }
        self.text.append(delta.as_str());
        Ok(())
    }

    fn push_reasoning(&mut self, delta: String) -> (r: Result<(), HostedTurnError>)
        ensures
            (Pushed { buffer: final(self).deep_view(), result: r }) == reasoning_pushed(
                old(self).deep_view(),
                delta@,
            ),
    {
        let size = wide_length(delta.as_str());
        self.charge(size)?;
        if wide_length(self.reasoning.as_str()) + size > self.limits.reasoning_bytes as u128 {
            return Err(HostedTurnError::BufferLimitExceeded);
        }
        self.reasoning.append(delta.as_str());
        Ok(())
    }

    fn push_evidence(&mut self, evidence: HostedEvidence) -> (r: Result<(), HostedTurnError>)
        ensures
            (Pushed { buffer: final(self).deep_view(), result: r }) == evidence_pushed(
                old(self).deep_view(),
                evidence.deep_view(),
            ),
    {
        let bytes = evidence_exact_bytes(&evidence);
        self.charge(bytes)?;
        let sum: u128 = self.evidence_bytes as u128 + bytes;
        if self.evidence.len() >= self.limits.evidence_items || sum
            > self.limits.evidence_bytes as u128 {
            return Err(HostedTurnError::BufferLimitExceeded);
        }
        self.evidence_bytes = sum as usize;
        let ghost had = self.evidence;
        self.evidence.push(evidence);
        proof {
            lemma_push_view(had, evidence, self.evidence);
        }
        Ok(())
    }

    fn push_started(&mut self, started: StartedInvocation) -> (r: Result<(), HostedTurnError>)
        ensures
            (Pushed { buffer: final(self).deep_view(), result: r }) == start_pushed(
                old(self).deep_view(),
                started.deep_view(),
            ),
    {
        if !valid_hosted_identity(started.authorization_id.as_str()) || !valid_hosted_identity(
            started.invocation_id.as_str(),
        ) || holds(&self.started_invocations, &started) {
            return Err(HostedTurnError::InvalidInvocationCorrelation);
        }
        let ghost had = self.started_invocations;
        self.started_invocations.push(started);
        proof {
            lemma_push_view(had, started, self.started_invocations);
        }
        Ok(())
    }

    /// Takes one piece of what the provider streams. What goes beyond the limits, what belongs to no
    /// invocation that has started, and calls of local tools are refused.
    pub fn push(&mut self, chunk: ProviderChunk) -> (r: Result<(), HostedTurnError>)
        ensures
            (Pushed { buffer: final(self).deep_view(), result: r }) == pushed(
                old(self).deep_view(),
                chunk.deep_view(),
            ),
            is_bounded(old(self).deep_view()) ==> is_bounded(final(self).deep_view()),
            final(self).deep_view().limits == old(self).deep_view().limits,
    {
        proof {
            if is_bounded(self.deep_view()) {
                law_turns_stay_bounded(self.deep_view(), chunk.deep_view());
            }
        }
        match chunk {
            ProviderChunk::TextDelta(delta) => self.push_text(delta),
            ProviderChunk::ReasoningDelta(delta) => self.push_reasoning(delta),
            ProviderChunk::ReasoningSummaryDelta(delta) => self.push_reasoning(delta),
            ProviderChunk::HostedToolStarted { authorization_id, invocation_id, kind } => {
                self.push_started(StartedInvocation { authorization_id, invocation_id, kind })
            },
            ProviderChunk::HostedEvidence { authorization_id, invocation_id, kind, evidence } => {
                let started = StartedInvocation { authorization_id, invocation_id, kind };
                if !holds(&self.started_invocations, &started) {
                    return Err(HostedTurnError::InvalidInvocationCorrelation);
                }
                self.push_evidence(evidence)
            },
            ProviderChunk::HostedToolFailed { authorization_id, invocation_id, kind } => {
                let started = StartedInvocation { authorization_id, invocation_id, kind };
                if !holds(&self.started_invocations, &started) {
                    return Err(HostedTurnError::InvalidInvocationCorrelation);
                }
                self.failed = true;
                Ok(())
            },
            ProviderChunk::HostedRequestUsage { authorization_id, kind, observed_uses } => {
                let ghost p = is_started_under(authorization_id@, kind);
                let known = has_any(
                    &self.started_invocations,
                    |i: &StartedInvocation| -> (b: bool)
                        ensures
                            b == p(i.deep_view())
                        { i.authorization_id == authorization_id && i.kind == kind },
                    Ghost(p),
                );
                if !known {
                    return Err(HostedTurnError::InvalidInvocationCorrelation);
                }
                let most = match self.observed_uses {
                    Some(m) => if m > observed_uses {
                        m
                    } else {
                        observed_uses
                    },
                    None => observed_uses,
                };
                self.observed_uses = Some(most);
                Ok(())
            },
            ProviderChunk::Usage(x) => {
                let ghost had = self.usages;
                self.usages.push(x);
                proof {
                    lemma_push_view(had, x, self.usages);
                }
                Ok(())
            },
            ProviderChunk::BackgroundTaskAccepted(x) => {
                let ghost had = self.background_accepted;
                self.background_accepted.push(x);
                proof {
                    lemma_push_view(had, x, self.background_accepted);
                }
                Ok(())
            },
            ProviderChunk::BackgroundTaskStatus(x) => {
                let ghost had = self.background_statuses;
                self.background_statuses.push(x);
                proof {
                    lemma_push_view(had, x, self.background_statuses);
                }
                Ok(())
            },
            ProviderChunk::ResponseHandle(x) => {
                let ghost had = self.response_handles;
                self.response_handles.push(x);
                proof {
                    lemma_push_view(had, x, self.response_handles);
                }
                Ok(())
            },
            ProviderChunk::ContinuationState(x) => {
                let ghost had = self.continuation_states;
                self.continuation_states.push(x);
                proof {
                    lemma_push_view(had, x, self.continuation_states);
                }
                Ok(())
            },
            ProviderChunk::ReasoningArtifact(_) => Ok(()),
            ProviderChunk::Done => Ok(()),
            ProviderChunk::ToolCallStart(_) => Err(HostedTurnError::UnsupportedLocalToolChunk),
            ProviderChunk::ToolCallArgsDelta(_) => Err(HostedTurnError::UnsupportedLocalToolChunk),
            ProviderChunk::ToolCallComplete(_) => Err(HostedTurnError::UnsupportedLocalToolChunk),
            ProviderChunk::ToolCallStreamError(_) => Err(
                HostedTurnError::UnsupportedLocalToolChunk,
            ),
        }
    }

    /// The text of the turn.
    pub fn text(&self) -> (r: &str)
        ensures
            r@ == self.deep_view().text,
    {
        self.text.as_str()
    }

    /// The reasoning of the turn.
    pub fn reasoning(&self) -> (r: &str)
        ensures
            r@ == self.deep_view().reasoning,
    {
        self.reasoning.as_str()
    }

    /// The evidence of the turn.
    pub fn evidence(&self) -> (r: &Vec<HostedEvidence>)
        ensures
            r.deep_view() == self.deep_view().evidence,
    {
        &self.evidence
    }

    /// Tells whether a hosted tool was used.
    pub fn hosted_used(&self) -> (r: bool)
        ensures
            r == (self.deep_view().started_invocations.len() > 0 || self.deep_view().evidence.len()
                > 0),
    {
        self.started_invocations.len() > 0 || self.evidence.len() > 0
    }

    /// Tells whether the provider reported a failure.
    pub fn provider_failed(&self) -> (r: bool)
        ensures
            r == self.deep_view().failed,
    {
        self.failed
    }

    /// What the provider said of usage.
    pub fn usages(&self) -> (r: &Vec<String>)
        ensures
            r.deep_view() == self.deep_view().usages,
    {
        &self.usages
    }

    /// The background tasks that were accepted.
    pub fn background_accepted(&self) -> (r: &Vec<String>)
        ensures
            r.deep_view() == self.deep_view().background_accepted,
    {
        &self.background_accepted
    }

    /// What was said of background tasks.
    pub fn background_statuses(&self) -> (r: &Vec<String>)
        ensures
            r.deep_view() == self.deep_view().background_statuses,
    {
        &self.background_statuses
    }

    /// The handles of responses.
    pub fn response_handles(&self) -> (r: &Vec<String>)
        ensures
            r.deep_view() == self.deep_view().response_handles,
    {
        &self.response_handles
    }

    /// The states by which the provider goes on.
    pub fn continuation_states(&self) -> (r: &Vec<String>)
        ensures
            r.deep_view() == self.deep_view().continuation_states,
    {
        &self.continuation_states
    }

    /// The most uses that the provider reported.
    pub fn observed_uses(&self) -> (r: Option<u32>)
        ensures
            r == self.deep_view().observed_uses,
    {
        self.observed_uses
    }

    /// How many bytes were charged, those of refused pieces too where the whole had room for them.
    pub fn total_bytes(&self) -> (r: usize)
        ensures
            r == self.deep_view().total_bytes,
    {
        self.total_bytes
    }
}

// What is kept of a turn.

/// The citations among the first `n` that hold of a final text.
pub open spec fn supported_citations(
    citations: Seq<FinalizedHostedCitationView>,
    session_scope_id: Seq<char>,
    message_id: Seq<char>,
    text: Seq<char>,
    n: int,
) -> Seq<CitationSupportView>
    decreases n,
{
    if n <= 0 {
        Seq::empty()
    } else {
        let before = supported_citations(citations, session_scope_id, message_id, text, n - 1);
        match citation_support(
            session_scope_id,
            message_id,
            citations[n - 1].source_id,
            text,
            citations[n - 1].start_byte,
            citations[n - 1].end_byte,
        ) {
            Some(c) => before.push(c),
            None => before,
        }
    }
}

/// What is kept of a turn: its sources, and its citations where the text is still the one that they
/// were made for.
pub open spec fn provenance_of(
    turn: FinalizedHostedTurnView,
    session_scope_id: Seq<char>,
    message_id: Seq<char>,
    text: Seq<char>,
) -> ExternalProvenanceEntryView {
    ExternalProvenanceEntryView {
        session_scope_id,
        message_id,
        trust: ExternalTrust::ExternalUntrusted,
        sources: turn.sources,
        citations: if text == turn.assistant_text {
            supported_citations(
                turn.citations,
                session_scope_id,
                message_id,
                text,
                turn.citations.len() as int,
            )
        } else {
            Seq::empty()
        },
    }
}

impl FinalizedHostedTurn {
    /// What is kept of the turn beside its message.
    pub fn to_provenance(&self, session_scope_id: &str, message_id: &str, final_safe_text: &str) -> (r:
        ExternalProvenanceEntry)
        ensures
            r.deep_view() == provenance_of(
                self.deep_view(),
                session_scope_id@,
                message_id@,
                final_safe_text@,
            ),
    {
        let ghost v = self.deep_view().citations;
        let mut citations: Vec<CitationSupport> = Vec::new();
        assert(citations.deep_view() =~= Seq::empty());
        if same_text(final_safe_text, self.assistant_text.as_str()) {
            let mut i: usize = 0;
            while i < self.citations.len()
                invariant
                    i <= self.citations.len(),
                    v == self.deep_view().citations,
                    citations.deep_view() == supported_citations(
                        v,
                        session_scope_id@,
                        message_id@,
                        final_safe_text@,
                        i as int,
                    ),
                decreases self.citations.len() - i,
            {
                assert(v[i as int] == self.citations@[i as int].deep_view());
                let support = CitationSupport::for_final_safe_text(
                    session_scope_id,
                    message_id,
                    self.citations[i].source_id.as_str(),
                    final_safe_text,
                    self.citations[i].start_byte,
                    self.citations[i].end_byte,
                );
                if let Some(c) = support {
                    let ghost had = citations;
                    citations.push(c);
                    proof {
                        lemma_push_view(had, c, citations);
                    }
                }
                i = i + 1;
            }
        }
        ExternalProvenanceEntry {
            session_scope_id: session_scope_id.to_owned(),
            message_id: message_id.to_owned(),
            trust: ExternalTrust::ExternalUntrusted,
            sources: self.sources.duplicate(),
            citations,
        }
    }
}

// The wire.

impl HostedRequestWireState {
    /// Tells whether the request may be sent again: only while no byte of it was sent.
    pub fn retry_allowed(self) -> (r: bool)
        ensures
            r == (self == HostedRequestWireState::Prepared),
    {
        self == HostedRequestWireState::Prepared
    }

    /// The first bytes of the request are sent.
    pub fn mark_request_bytes_started(&mut self) -> (r: Result<(), HostedWireStateError>)
        ensures
            r is Ok == (*old(self) == HostedRequestWireState::Prepared),
            *final(self) == if r is Ok {
                HostedRequestWireState::RequestBytesStarted
            } else {
                *old(self)
            },
    {
        if *self != HostedRequestWireState::Prepared {
            return Err(HostedWireStateError::InvalidTransition);
        }
        *self = HostedRequestWireState::RequestBytesStarted;
        Ok(())
    }

    /// The request has come to its end.
    pub fn finish(&mut self) -> (r: Result<(), HostedWireStateError>)
        ensures
            r is Ok == (*old(self) != HostedRequestWireState::Terminal),
            *final(self) == HostedRequestWireState::Terminal,
    {
        if *self == HostedRequestWireState::Terminal {
            return Err(HostedWireStateError::InvalidTransition);
        }
        *self = HostedRequestWireState::Terminal;
        Ok(())
    }
}

// Laws.

/// The fingerprint of a request does not depend on the order in which its domains are listed.
pub proof fn law_fingerprint_ignores_domain_order(
    authorization_id: Seq<char>,
    kind: HostedToolKind,
    a: HostedToolLimitsView,
    b: HostedToolLimitsView,
)
    requires
        a.max_uses == b.max_uses,
        a.allowed_domains.to_multiset() == b.allowed_domains.to_multiset(),
        a.blocked_domains.to_multiset() == b.blocked_domains.to_multiset(),
    ensures
        request_fingerprint_of(authorization_id, kind, a) == request_fingerprint_of(
            authorization_id,
            kind,
            b,
        ),
{
    lemma_text_order_is_total();
    lemma_order_is_canonical(a.allowed_domains, b.allowed_domains, text_order());
    lemma_order_is_canonical(a.blocked_domains, b.blocked_domains, text_order());
}

/// What stands in front of the first member of an object.
pub open spec fn opening(key: Seq<char>) -> Seq<char> {
    (seq!['{'] + quoted(key)).push(':')
}

/// What stands in front of a later member of an object.
pub open spec fn going_on(key: Seq<char>) -> Seq<char> {
    (seq![','] + quoted(key)).push(':')
}

proof fn lemma_three_members(
    a: Seq<char>,
    x: Seq<char>,
    b: Seq<char>,
    y: Seq<char>,
    c: Seq<char>,
    z: Seq<char>,
)
    ensures
        object(member(member(member(Seq::empty(), a, x), b, y), c, z)) == opening(a) + (x + (
        going_on(b) + (y + (going_on(c) + z.push('}'))))),
{
    let one = member(Seq::empty(), a, x);
    assert(one =~= opening(a) + x);
    let two = member(one, b, y);
    assert(two =~= one + (going_on(b) + y));
    let three = member(two, c, z);
    assert(three =~= two + (going_on(c) + z));
    let tail = going_on(c) + z.push('}');
    assert(object(three) =~= two + tail);
    assert(two + tail =~= one + (going_on(b) + (y + tail)));
    assert(one + (going_on(b) + (y + tail)) =~= opening(a) + (x + (going_on(b) + (y + tail))));
}

/// What stands between the authorization and the domains of a request.
pub open spec fn between(kind: HostedToolKind) -> Seq<char> {
    going_on("kind"@) + quoted(kind_label(kind)) + going_on("limits"@) + opening(
        "allowed_domains"@,
    )
}

/// What stands behind the authorization of a request: its kind, its domains and how often it may be
/// used.
pub open spec fn behind_authorization(kind: HostedToolKind, limits: HostedToolLimitsView) -> Seq<char> {
    let allowed = items_in_order(limits.allowed_domains, text_order());
    let blocked = items_in_order(limits.blocked_domains, text_order());
    between(kind) + (<Vec<String> as Encode>::json(allowed) + (going_on("blocked_domains"@) + (<Vec<
        String,
    > as Encode>::json(blocked) + (going_on("max_uses"@) + (<Option<u32> as Encode>::json(
        limits.max_uses,
    ) + seq!['}', '}'])))))
}

proof fn lemma_request_text(
    authorization_id: Seq<char>,
    kind: HostedToolKind,
    limits: HostedToolLimitsView,
)
    ensures
        request_text(authorization_id, kind, limits) == opening("authorization_id"@) + (
        json_string_of(authorization_id) + behind_authorization(kind, limits)),
{
    let a = <Vec<String> as Encode>::json(items_in_order(limits.allowed_domains, text_order()));
    let b = <Vec<String> as Encode>::json(items_in_order(limits.blocked_domains, text_order()));
    let m = <Option<u32> as Encode>::json(limits.max_uses);
    let k = quoted(kind_label(kind));
    let inner = object(
        member(
            member(member(Seq::empty(), "allowed_domains"@, a), "blocked_domains"@, b),
            "max_uses"@,
            m,
        ),
    );
    lemma_three_members("allowed_domains"@, a, "blocked_domains"@, b, "max_uses"@, m);
    lemma_three_members(
        "authorization_id"@,
        json_string_of(authorization_id),
        "kind"@,
        k,
        "limits"@,
        inner,
    );
    lemma_nested(
        opening("allowed_domains"@),
        a,
        going_on("blocked_domains"@),
        b,
        going_on("max_uses"@),
        m,
    );
    let rest = a + (going_on("blocked_domains"@) + (b + (going_on("max_uses"@) + (m + seq![
        '}',
        '}',
    ]))));
    assert(inner.push('}') == opening("allowed_domains"@) + rest);
    lemma_grouped(going_on("kind"@), k, going_on("limits"@), opening("allowed_domains"@), rest);
}

proof fn lemma_nested(
    o: Seq<char>,
    a: Seq<char>,
    p: Seq<char>,
    b: Seq<char>,
    q: Seq<char>,
    m: Seq<char>,
)
    ensures
        (o + (a + (p + (b + (q + m.push('}')))))).push('}') == o + (a + (p + (b + (q + (m + seq![
            '}',
            '}',
        ]))))),
{
    assert(m.push('}').push('}') =~= m + seq!['}', '}']);
    assert((q + m.push('}')).push('}') =~= q + m.push('}').push('}'));
    let one = q + m.push('}');
    assert((b + one).push('}') =~= b + one.push('}'));
    let two = b + one;
    assert((p + two).push('}') =~= p + two.push('}'));
    let three = p + two;
    assert((a + three).push('}') =~= a + three.push('}'));
    let four = a + three;
    assert((o + four).push('}') =~= o + four.push('}'));
}

proof fn lemma_grouped(a: Seq<char>, b: Seq<char>, c: Seq<char>, d: Seq<char>, x: Seq<char>)
    ensures
        a + (b + (c + (d + x))) == a + b + c + d + x,
{
    assert(c + (d + x) =~= c + d + x);
    assert(b + (c + d + x) =~= b + c + d + x);
    assert(a + (b + c + d + x) =~= a + b + c + d + x);
}

/// The text of a request tells its authorization, its kind and its limits, but for the order of the
/// domains.
pub proof fn law_request_texts_tell_the_request(
    v: HostedToolRequestView,
    w: HostedToolRequestView,
)
    requires
        request_text(v.authorization_id, v.kind, v.limits) == request_text(
            w.authorization_id,
            w.kind,
            w.limits,
        ),
    ensures
        is_same_request(v, w),
{
    lemma_request_text(v.authorization_id, v.kind, v.limits);
    lemma_request_text(w.authorization_id, w.kind, w.limits);
    let av = items_in_order(v.limits.allowed_domains, text_order());
    let bv = items_in_order(v.limits.blocked_domains, text_order());
    let aw = items_in_order(w.limits.allowed_domains, text_order());
    let bw = items_in_order(w.limits.blocked_domains, text_order());
    let mv = <Option<u32> as Encode>::json(v.limits.max_uses);
    let mw = <Option<u32> as Encode>::json(w.limits.max_uses);
    let v4 = mv + seq!['}', '}'];
    let w4 = mw + seq!['}', '}'];
    let v3 = <Vec<String> as Encode>::json(bv) + (going_on("max_uses"@) + v4);
    let w3 = <Vec<String> as Encode>::json(bw) + (going_on("max_uses"@) + w4);
    let v2 = <Vec<String> as Encode>::json(av) + (going_on("blocked_domains"@) + v3);
    let w2 = <Vec<String> as Encode>::json(aw) + (going_on("blocked_domains"@) + w3);
    let v1 = behind_authorization(v.kind, v.limits);
    let w1 = behind_authorization(w.kind, w.limits);
    lemma_same_behind(
        opening("authorization_id"@),
        json_string_of(v.authorization_id) + v1,
        json_string_of(w.authorization_id) + w1,
    );
    lemma_strings_are_told(v.authorization_id, w.authorization_id, v1, w1);
    lemma_same_behind(between(v.kind), v2, w2);
    lemma_string_lists_are_told(
        av,
        aw,
        going_on("blocked_domains"@) + v3,
        going_on("blocked_domains"@) + w3,
    );
    lemma_same_behind(going_on("blocked_domains"@), v3, w3);
    lemma_string_lists_are_told(bv, bw, going_on("max_uses"@) + v4, going_on("max_uses"@) + w4);
    lemma_same_behind(going_on("max_uses"@), v4, w4);
    assert(mv =~= v4.take(v4.len() - 2));
    assert(mw =~= w4.take(w4.len() - 2));
    lemma_optional_numbers_are_told(v.limits.max_uses, w.limits.max_uses);
    lemma_in_order(v.limits.allowed_domains, text_order());
    lemma_in_order(w.limits.allowed_domains, text_order());
    lemma_in_order(v.limits.blocked_domains, text_order());
    lemma_in_order(w.limits.blocked_domains, text_order());
}

proof fn lemma_same_behind(frame: Seq<char>, x: Seq<char>, y: Seq<char>)
    requires
        frame + x == frame + y,
    ensures
        x == y,
{
    assert(x =~= (frame + x).skip(frame.len() as int));
    assert(y =~= (frame + y).skip(frame.len() as int));
}

/// Two requests have the same contents, whatever the order of their domains.
pub open spec fn is_same_request(v: HostedToolRequestView, w: HostedToolRequestView) -> bool {
    &&& v.authorization_id == w.authorization_id
    &&& v.kind == w.kind
    &&& v.limits.max_uses == w.limits.max_uses
    &&& v.limits.allowed_domains.to_multiset() == w.limits.allowed_domains.to_multiset()
    &&& v.limits.blocked_domains.to_multiset() == w.limits.blocked_domains.to_multiset()
}

/// A fingerprint stands for one request: other contents, each valid, are refused under it, where the
/// digest of their text is another; the same contents in another order of the domains are not.
pub proof fn law_other_contents_are_refused(v: HostedToolRequestView, w: HostedToolRequestView)
    requires
        request_verdict(v) is Ok,
        w.request_fingerprint == v.request_fingerprint,
        is_hosted_identity(w.authorization_id),
        limits_verdict(w.limits) is Ok,
        ({
            let a = vstd::utf8::encode_utf8(request_text(v.authorization_id, v.kind, v.limits));
            let b = vstd::utf8::encode_utf8(request_text(w.authorization_id, w.kind, w.limits));
            a != b ==> sha256_hex_of(a) != sha256_hex_of(b)
        }),
    ensures
        request_verdict(w) == (if is_same_request(v, w) {
            Ok::<(), HostedToolRequestError>(())
        } else {
            Err(HostedToolRequestError::RequestFingerprintMismatch)
        }),
{
    let x = request_text(v.authorization_id, v.kind, v.limits);
    let y = request_text(w.authorization_id, w.kind, w.limits);
    let a = vstd::utf8::encode_utf8(x);
    let b = vstd::utf8::encode_utf8(y);
    lemma_identity_is_not_blank(w.authorization_id);
    if is_same_request(v, w) {
        law_fingerprint_ignores_domain_order(v.authorization_id, v.kind, v.limits, w.limits);
    } else {
        if request_fingerprint_of(v.authorization_id, v.kind, v.limits) == request_fingerprint_of(
            w.authorization_id,
            w.kind,
            w.limits,
        ) {
            lemma_same_behind("hosted-v1:"@, sha256_hex_of(a), sha256_hex_of(b));
            vstd::utf8::encode_utf8_decode_utf8(x);
            vstd::utf8::encode_utf8_decode_utf8(y);
            law_request_texts_tell_the_request(v, w);
        }
    }
}

/// The bytes of the texts that all evidence holds.
pub open spec fn evidence_total(s: Seq<HostedEvidenceView>) -> nat
    decreases s.len(),
{
    if s.len() == 0 {
        0
    } else {
        evidence_total(s.drop_last()) + evidence_length(s.last())
    }
}

/// The bytes of the text, the reasoning and the evidence that a buffer holds.
pub open spec fn held_bytes(b: HostedTurnBufferView) -> nat {
    byte_len(b.text) + byte_len(b.reasoning) + evidence_total(b.evidence)
}

/// A buffer keeps within its limits: each of text, reasoning and evidence does, and so do all of them
/// together.
pub open spec fn is_bounded(b: HostedTurnBufferView) -> bool {
    &&& held_bytes(b) <= b.total_bytes <= b.limits.total_bytes
    &&& byte_len(b.text) <= b.limits.text_bytes
    &&& byte_len(b.reasoning) <= b.limits.reasoning_bytes
    &&& evidence_total(b.evidence) == b.evidence_bytes
    &&& b.evidence_bytes <= b.limits.evidence_bytes
    &&& b.evidence.len() <= b.limits.evidence_items
    &&& distinct(b.started_invocations)
}

/// A new buffer keeps within its limits, whatever they are.
pub proof fn law_new_turns_are_bounded(limits: HostedTurnBufferLimits)
    ensures
        is_bounded(empty_turn(limits)),
{
    lemma_byte_len_adds(Seq::empty(), Seq::empty());
    assert(Seq::<char>::empty() + Seq::<char>::empty() =~= Seq::empty());
}

/// Whatever comes in, a buffer keeps within its limits, and the limits stay.
pub proof fn law_turns_stay_bounded(b: HostedTurnBufferView, chunk: ProviderChunkView)
    requires
        is_bounded(b),
    ensures
        is_bounded(pushed(b, chunk).buffer),
        pushed(b, chunk).buffer.limits == b.limits,
{
    match chunk {
        ProviderChunkView::TextDelta(d) => {
            lemma_byte_len_adds(b.text, d);
        },
        ProviderChunkView::ReasoningDelta(d) => {
            lemma_byte_len_adds(b.reasoning, d);
        },
        ProviderChunkView::ReasoningSummaryDelta(d) => {
            lemma_byte_len_adds(b.reasoning, d);
        },
        ProviderChunkView::HostedEvidence { evidence, .. } => {
            let after = b.evidence.push(evidence);
            assert(after.drop_last() =~= b.evidence);
            assert(evidence_total(after) == evidence_total(b.evidence) + evidence_length(evidence));
        },
        _ => {},
    }
}

/// What a new buffer is after some pieces were handed to it, one by one, taken or not.
pub open spec fn turn_after(
    limits: HostedTurnBufferLimits,
    chunks: Seq<ProviderChunkView>,
) -> HostedTurnBufferView
    decreases chunks.len(),
{
    if chunks.len() == 0 {
        empty_turn(limits)
    } else {
        pushed(turn_after(limits, chunks.drop_last()), chunks.last()).buffer
    }
}

/// A buffer never holds more than its limits allow, however many pieces were handed to it and whichever
/// of them it took: not of text, not of reasoning, not of evidence, and not of all of them together.
pub proof fn law_turns_keep_their_limits(
    limits: HostedTurnBufferLimits,
    chunks: Seq<ProviderChunkView>,
)
    ensures
        ({
            let b = turn_after(limits, chunks);
            &&& b.limits == limits
            &&& byte_len(b.text) <= limits.text_bytes
            &&& byte_len(b.reasoning) <= limits.reasoning_bytes
            &&& b.evidence.len() <= limits.evidence_items
            &&& evidence_total(b.evidence) <= limits.evidence_bytes
            &&& byte_len(b.text) + byte_len(b.reasoning) + evidence_total(b.evidence)
                <= limits.total_bytes
            &&& is_bounded(b)
        }),
    decreases chunks.len(),
{
    if chunks.len() == 0 {
        law_new_turns_are_bounded(limits);
    } else {
        law_turns_keep_their_limits(limits, chunks.drop_last());
        law_turns_stay_bounded(turn_after(limits, chunks.drop_last()), chunks.last());
    }
}

/// What is refused leaves nothing in a buffer but the bytes that it was charged with.
pub proof fn law_refused_pieces_are_dropped(b: HostedTurnBufferView, chunk: ProviderChunkView)
    requires
        pushed(b, chunk).result is Err,
    ensures
        pushed(b, chunk).buffer == (HostedTurnBufferView {
            total_bytes: pushed(b, chunk).buffer.total_bytes,
            ..b
        }),
{
}

/// Evidence is taken only from an invocation that has started.
pub proof fn law_evidence_needs_its_invocation(b: HostedTurnBufferView, chunk: ProviderChunkView)
    requires
        pushed(b, chunk).buffer.evidence != b.evidence,
    ensures
        chunk matches ProviderChunkView::HostedEvidence {
            authorization_id,
            invocation_id,
            kind,
            ..
        } && b.started_invocations.contains(
            StartedInvocationView { authorization_id, invocation_id, kind },
        ),
{
}

/// A citation is kept only for the very text that it was made for.
pub proof fn law_changed_text_keeps_no_citation(
    turn: FinalizedHostedTurnView,
    session_scope_id: Seq<char>,
    message_id: Seq<char>,
    text: Seq<char>,
)
    requires
        text != turn.assistant_text,
    ensures
        provenance_of(turn, session_scope_id, message_id, text).citations.len() == 0,
{
}

} // verus!
