//! Hosted tools: requests, turns and their provenance.

use sigil_kernel::external::ExternalTrust;
use sigil_kernel::hosted::{
    domain_filter_host, valid_domain_filter, FinalizedHostedCitation, FinalizedHostedTurn,
    HostedCitationCandidate, HostedConstraintEnforcement, HostedEvidence, HostedRequestWireState,
    HostedSourceCandidate, HostedToolKind, HostedToolLimits, HostedToolRequest,
    HostedToolRequestError, HostedToolSupport, HostedTurnBuffer, HostedTurnBufferLimits,
    HostedTurnError, HostedWebSearchCapability, HostedWireStateError, ProviderChunk,
};

const SOURCE: &str = "src_0123456789abcdef0123456789abcdef";

fn text(value: &str) -> String {
    value.to_owned()
}

fn allowed(domains: &[&str]) -> HostedToolLimits {
    HostedToolLimits {
        allowed_domains: domains.iter().map(|domain| text(domain)).collect(),
        ..HostedToolLimits::default()
    }
}

fn request(limits: HostedToolLimits) -> HostedToolRequest {
    HostedToolRequest::new("auth-1", HostedToolKind::WebSearch, limits).unwrap()
}

fn started(invocation: &str) -> ProviderChunk {
    ProviderChunk::HostedToolStarted {
        authorization_id: text("auth-1"),
        invocation_id: text(invocation),
        kind: HostedToolKind::WebSearch,
    }
}

fn evidence(invocation: &str, evidence: HostedEvidence) -> ProviderChunk {
    ProviderChunk::HostedEvidence {
        authorization_id: text("auth-1"),
        invocation_id: text(invocation),
        kind: HostedToolKind::WebSearch,
        evidence,
    }
}

fn limits() -> HostedTurnBufferLimits {
    HostedTurnBufferLimits {
        total_bytes: 20,
        text_bytes: 10,
        reasoning_bytes: 10,
        evidence_bytes: 10,
        evidence_items: 2,
    }
}

fn turn(citations: Vec<FinalizedHostedCitation>) -> FinalizedHostedTurn {
    FinalizedHostedTurn {
        assistant_text: text("grounded"),
        reasoning_trace: text(""),
        sources: vec![],
        citations,
        hosted_used: true,
        query_observed: false,
    }
}

#[test]
fn requests_are_bound_by_their_fingerprint() {
    let limits = HostedToolLimits {
        max_uses: Some(3),
        ..allowed(&["b.example", "a.example/docs"])
    };
    let made = request(limits);
    assert_eq!(
        made.request_fingerprint,
        "hosted-v1:d58abf9ab6241a32675cc4d40375767b669c829e4197435a2c714d14b41b57de",
    );
    assert_eq!(made.validate(), Ok(()));
    assert_eq!(
        request(HostedToolLimits::default()).request_fingerprint,
        "hosted-v1:025558794d9be5973ef5b6e7fde742ba7a19cb3ebf72d008aff0d657e17e13be",
    );
    let mut changed = made.clone();
    changed.limits.max_uses = Some(4);
    assert_eq!(changed.validate(), Err(HostedToolRequestError::RequestFingerprintMismatch));
}

#[test]
fn fingerprints_ignore_the_order_of_domains() {
    assert_eq!(
        request(allowed(&["b.example", "a.example"])).request_fingerprint,
        request(allowed(&["a.example", "b.example"])).request_fingerprint,
    );
}

#[test]
fn other_contents_under_a_fingerprint_are_refused() {
    let mismatch = Err(HostedToolRequestError::RequestFingerprintMismatch);
    let made = request(allowed(&["a.example", "b.example"]));
    let other = HostedToolRequest { limits: allowed(&["a.example"]), ..made.clone() };
    assert_eq!(other.validate(), mismatch);
    let other = HostedToolRequest { authorization_id: text("auth-2"), ..made.clone() };
    assert_eq!(other.validate(), mismatch);
    let mut other = made.clone();
    other.limits.max_uses = Some(1);
    assert_eq!(other.validate(), mismatch);
    let mut other = made.clone();
    other.limits.blocked_domains = other.limits.allowed_domains.clone();
    other.limits.allowed_domains = vec![];
    assert_eq!(other.validate(), mismatch);
    let turned = HostedToolRequest { limits: allowed(&["b.example", "a.example"]), ..made };
    assert_eq!(turned.validate(), Ok(()));
}

#[test]
fn unsound_requests_are_refused() {
    let made = request(HostedToolLimits::default());
    let nameless = HostedToolRequest { authorization_id: text(" "), ..made.clone() };
    assert_eq!(nameless.validate(), Err(HostedToolRequestError::MissingAuthorizationId));
    let unbound = HostedToolRequest { request_fingerprint: text(""), ..made.clone() };
    assert_eq!(unbound.validate(), Err(HostedToolRequestError::MissingRequestFingerprint));
    let odd = HostedToolRequest { authorization_id: text("auth 1"), ..made };
    assert_eq!(odd.validate(), Err(HostedToolRequestError::InvalidIdentity));
    assert_eq!(
        HostedToolRequest::new("", HostedToolKind::WebSearch, HostedToolLimits::default()),
        Err(HostedToolRequestError::InvalidIdentity),
    );
    let zero = HostedToolLimits { max_uses: Some(0), ..HostedToolLimits::default() };
    assert_eq!(zero.validate(), Err(HostedToolRequestError::ZeroMaxUses));
    let both = HostedToolLimits {
        blocked_domains: vec![text("b.example")],
        ..allowed(&["a.example"])
    };
    assert_eq!(both.validate(), Err(HostedToolRequestError::ConflictingDomainFilters));
    assert_eq!(allowed(&[" "]).validate(), Err(HostedToolRequestError::EmptyDomainFilter));
    assert_eq!(
        allowed(&["a.example"; 101]).validate(),
        Err(HostedToolRequestError::DomainFilterLimitExceeded),
    );
    let long = "a".repeat(2_040);
    assert_eq!(
        allowed(&[long.as_str(); 17]).validate(),
        Err(HostedToolRequestError::DomainFilterBytesExceeded),
    );
    assert_eq!(
        allowed(&["a.example", "a.example"]).validate(),
        Err(HostedToolRequestError::DuplicateDomainFilter),
    );
}

#[test]
fn domain_filters_are_canonical_domains() {
    for good in ["example.com", "docs.example.com/guide", "a-b.example"] {
        assert_eq!(allowed(&[good]).validate(), Ok(()), "{good}");
    }
    for bad in [
        "Example.com",
        "localhost",
        "*.example.com",
        "https://example.com",
        "user@example.com",
        "example.com?q",
        "example.com#top",
        "/guide",
        "example.com/a b",
        "192.168.0.1",
        "ex\u{e4}mple.com",
        "exa mple.com",
    ] {
        assert_eq!(
            allowed(&[bad]).validate(),
            Err(HostedToolRequestError::InvalidDomainFilter),
            "{bad}",
        );
    }
    assert_eq!(domain_filter_host("docs.example.com/guide"), "docs.example.com");
    assert!(valid_domain_filter("a.example/x", &Some(text("a.example"))));
    assert!(!valid_domain_filter("a.example/x", &Some(text("b.example"))));
    assert!(!valid_domain_filter("a.example/x", &None));
}

#[test]
fn request_errors_are_explained() {
    assert_eq!(
        HostedToolRequestError::ZeroMaxUses.message(),
        "hosted tool max uses must be greater than zero",
    );
    assert_eq!(
        HostedToolRequestError::InvalidDomainFilter.message(),
        "hosted tool domain filter is not a canonical bounded domain pattern",
    );
    assert_eq!(
        HostedTurnError::BufferLimitExceeded.message(),
        "hosted turn buffer limit exceeded",
    );
    assert_eq!(
        HostedTurnError::MissingProcessor.message(),
        "hosted evidence processor is required",
    );
    assert_eq!(
        HostedWireStateError::InvalidTransition.message(),
        "invalid hosted request wire-state transition",
    );
}

#[test]
fn capabilities_default_to_nothing() {
    let nothing = HostedWebSearchCapability::default();
    assert!(!nothing.is_supported());
    assert_eq!(nothing.max_uses_enforcement, HostedConstraintEnforcement::Unsupported);
    assert!(HostedWebSearchCapability { support: HostedToolSupport::ServerManaged, ..nothing }
        .is_supported());
    let defaults = HostedTurnBufferLimits::default();
    assert_eq!(defaults.total_bytes, 1024 * 1024);
    assert_eq!(defaults.evidence_items, 256);
}

#[test]
fn candidates_give_their_parts_back() {
    let source = HostedSourceCandidate::new("p-1", "https://a.example", Some(text("A")))
        .with_published_at("2026-01-02T03:04:05Z")
        .with_rank(2);
    assert_eq!(source.provider_source_id(), "p-1");
    assert_eq!(source.raw_url(), "https://a.example");
    assert_eq!(source.raw_title(), Some("A"));
    assert_eq!(source.published_at(), Some("2026-01-02T03:04:05Z"));
    assert_eq!(source.rank(), Some(2));
    let citation = HostedCitationCandidate::new("p-1", 3, 9);
    assert_eq!(citation.provider_source_id(), "p-1");
    assert_eq!((citation.start_byte(), citation.end_byte()), (3, 9));
}

#[test]
fn turns_collect_what_they_are_given() {
    let mut buffer = HostedTurnBuffer::new(HostedTurnBufferLimits::default());
    assert!(!buffer.hosted_used());
    assert_eq!(buffer.push(ProviderChunk::TextDelta(text("Hel"))), Ok(()));
    assert_eq!(buffer.push(ProviderChunk::TextDelta(text("lo"))), Ok(()));
    assert_eq!(buffer.push(ProviderChunk::ReasoningDelta(text("a"))), Ok(()));
    assert_eq!(buffer.push(ProviderChunk::ReasoningSummaryDelta(text("b"))), Ok(()));
    assert_eq!(buffer.push(ProviderChunk::Usage(text("u"))), Ok(()));
    assert_eq!(buffer.push(ProviderChunk::BackgroundTaskAccepted(text("t"))), Ok(()));
    assert_eq!(buffer.push(ProviderChunk::BackgroundTaskStatus(text("s"))), Ok(()));
    assert_eq!(buffer.push(ProviderChunk::ResponseHandle(text("h"))), Ok(()));
    assert_eq!(buffer.push(ProviderChunk::ContinuationState(text("c"))), Ok(()));
    assert_eq!(buffer.push(ProviderChunk::ReasoningArtifact(text("x"))), Ok(()));
    assert_eq!(buffer.push(ProviderChunk::Done), Ok(()));
    assert_eq!(buffer.text(), "Hello");
    assert_eq!(buffer.reasoning(), "ab");
    assert_eq!(buffer.usages(), &vec![text("u")]);
    assert_eq!(buffer.background_accepted(), &vec![text("t")]);
    assert_eq!(buffer.background_statuses(), &vec![text("s")]);
    assert_eq!(buffer.response_handles(), &vec![text("h")]);
    assert_eq!(buffer.continuation_states(), &vec![text("c")]);
    assert!(!buffer.hosted_used() && !buffer.provider_failed());
}

#[test]
fn evidence_needs_a_started_invocation() {
    let mut buffer = HostedTurnBuffer::new(HostedTurnBufferLimits::default());
    let query = || HostedEvidence::QueryObserved(text("rust"));
    let uncorrelated = Err(HostedTurnError::InvalidInvocationCorrelation);
    assert_eq!(buffer.push(evidence("call-1", query())), uncorrelated);
    assert_eq!(buffer.push(started("call-1")), Ok(()));
    assert_eq!(buffer.push(started("call-1")), uncorrelated);
    assert_eq!(buffer.push(started("call 2")), uncorrelated);
    assert_eq!(buffer.push(evidence("call-1", query())), Ok(()));
    assert_eq!(buffer.push(evidence("call-2", query())), uncorrelated);
    assert_eq!(buffer.evidence().len(), 1);
    assert!(buffer.hosted_used());
    let usage = |authorization: &str, uses: u32| ProviderChunk::HostedRequestUsage {
        authorization_id: text(authorization),
        kind: HostedToolKind::WebSearch,
        observed_uses: uses,
    };
    assert_eq!(buffer.push(usage("auth-1", 2)), Ok(()));
    assert_eq!(buffer.push(usage("auth-1", 1)), Ok(()));
    assert_eq!(buffer.observed_uses(), Some(2));
    assert_eq!(buffer.push(usage("auth-2", 9)), uncorrelated);
    assert_eq!(
        buffer.push(ProviderChunk::HostedToolFailed {
            authorization_id: text("auth-1"),
            invocation_id: text("call-1"),
            kind: HostedToolKind::WebSearch,
        }),
        Ok(()),
    );
    assert!(buffer.provider_failed());
}

#[test]
fn turns_stay_within_their_limits() {
    let full = Err(HostedTurnError::BufferLimitExceeded);
    let mut buffer = HostedTurnBuffer::new(limits());
    assert_eq!(buffer.push(ProviderChunk::TextDelta(text("0123456789"))), Ok(()));
    assert_eq!(buffer.push(ProviderChunk::TextDelta(text("a"))), full);
    assert_eq!(buffer.text(), "0123456789");
    assert_eq!(buffer.total_bytes(), 11);
    assert_eq!(buffer.push(ProviderChunk::ReasoningDelta(text("0123456789"))), full);
    assert_eq!(buffer.reasoning(), "");
    let mut items = HostedTurnBuffer::new(limits());
    assert_eq!(items.push(started("call-1")), Ok(()));
    let cited = || HostedEvidence::Citation(HostedCitationCandidate::new("p-1", 0, 1));
    assert_eq!(items.push(evidence("call-1", cited())), Ok(()));
    assert_eq!(items.push(evidence("call-1", cited())), Ok(()));
    assert_eq!(items.push(evidence("call-1", cited())), full);
    assert_eq!(items.evidence().len(), 2);
    let mut bytes = HostedTurnBuffer::new(limits());
    assert_eq!(bytes.push(started("call-1")), Ok(()));
    let wide = HostedSourceCandidate::new("p-1", "https://a", Some(text("A")));
    assert_eq!(bytes.push(evidence("call-1", HostedEvidence::Source(wide))), full);
    assert_eq!(bytes.evidence().len(), 0);
}

#[test]
fn turns_without_a_total_limit_keep_the_others() {
    let full = Err(HostedTurnError::BufferLimitExceeded);
    let wide = HostedTurnBufferLimits { total_bytes: usize::MAX, ..limits() };
    let mut buffer = HostedTurnBuffer::new(wide);
    assert_eq!(buffer.push(started("call-1")), Ok(()));
    for _ in 0..4 {
        let _ = buffer.push(ProviderChunk::TextDelta(text("01234567")));
        let _ = buffer.push(ProviderChunk::ReasoningSummaryDelta(text("0123")));
        let cited = HostedEvidence::Citation(HostedCitationCandidate::new("p-123", 0, 1));
        let _ = buffer.push(evidence("call-1", cited));
    }
    assert_eq!(buffer.text(), "01234567");
    assert_eq!(buffer.reasoning(), "01230123");
    assert_eq!(buffer.evidence().len(), 2);
    assert_eq!(buffer.total_bytes(), 4 * (8 + 4 + 5));
    assert_eq!(buffer.push(ProviderChunk::TextDelta(text("89a"))), full);
    assert_eq!(buffer.push(ProviderChunk::TextDelta(text("89"))), Ok(()));
}

#[test]
fn local_tool_calls_are_refused() {
    let mut buffer = HostedTurnBuffer::new(HostedTurnBufferLimits::default());
    let refused = Err(HostedTurnError::UnsupportedLocalToolChunk);
    assert_eq!(buffer.push(ProviderChunk::ToolCallStart(text("t"))), refused);
    assert_eq!(buffer.push(ProviderChunk::ToolCallArgsDelta(text("t"))), refused);
    assert_eq!(buffer.push(ProviderChunk::ToolCallComplete(text("t"))), refused);
    assert_eq!(buffer.push(ProviderChunk::ToolCallStreamError(text("t"))), refused);
}

#[test]
fn citations_follow_unchanged_text_only() {
    let cited = |start: usize, end: usize| FinalizedHostedCitation {
        source_id: text(SOURCE),
        start_byte: start,
        end_byte: end,
    };
    let finalized = turn(vec![cited(0, 4), cited(0, 99)]);
    let kept = finalized.to_provenance("session-1", "message-1", "grounded");
    assert_eq!(kept.trust, ExternalTrust::ExternalUntrusted);
    assert_eq!(kept.citations.len(), 1);
    assert_eq!((kept.citations[0].start_byte, kept.citations[0].end_byte), (0, 4));
    assert_eq!(kept.message_id, "message-1");
    assert!(finalized.to_provenance("session-1", "message-1", "changed").citations.is_empty());
}

#[test]
fn sent_requests_are_not_retried() {
    let invalid = Err(HostedWireStateError::InvalidTransition);
    let mut state = HostedRequestWireState::default();
    assert!(state.retry_allowed());
    assert_eq!(state.mark_request_bytes_started(), Ok(()));
    assert!(!state.retry_allowed());
    assert_eq!(state.mark_request_bytes_started(), invalid);
    assert_eq!(state.finish(), Ok(()));
    assert_eq!(state, HostedRequestWireState::Terminal);
    assert_eq!(state.finish(), invalid);
    assert_eq!(state.mark_request_bytes_started(), invalid);
}
