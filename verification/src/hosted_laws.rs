//! What a request for a hosted tool must be, what the buffer of a turn takes, and what is kept of a
//! turn.

use vstd::prelude::*;

use crate::external::{citation_support, CitationSupportView, ExternalTrust};
use crate::extension_admission::{
    authorized, signature_verdict, ExtensionAdmissionErrorV1, ExtensionApprovalDecisionV1View,
    ExtensionProcessAdmissionV1View, ExtensionProcessDecisionV1View, ExtensionProcessPlanV1View,
};
use crate::hosted::{
    bytes_of_all, default_turn_limits, empty_turn, filter_host, filters_verdict, first_slash,
    hosted_tool_limits_default, hosted_web_search_capability_default, is_domain_filter,
    is_hosted_identity, limits_verdict, new_request, parsed_domain_of, provenance_of, pushed,
    request_fingerprint_of, request_verdict, supported_citations, FinalizedHostedCitationView,
    FinalizedHostedTurnView, HostedCitationFidelity, HostedConstraintEnforcement,
    HostedEvidenceView, HostedQueryVisibility, HostedSourceFidelity, HostedToolKind,
    HostedToolLimitsView, HostedToolRequestError, HostedToolRequestView, HostedToolSupport,
    HostedTurnBufferLimits, HostedTurnBufferView, HostedTurnError, ProviderChunkView,
    StartedInvocationView,
};
use crate::managed_execution::{argv_total, entry_bytes, EnvironmentBindingView};
use crate::search::any_where;
use crate::text::byte_len;
use crate::value::repeats;

verus! {

// Requests.

/// A letter, a digit, or one of the four marks of a scoped name.
pub open spec fn is_name_character(c: char) -> bool {
    ('a' <= c && c <= 'z') || ('A' <= c && c <= 'Z') || ('0' <= c && c <= '9') || c == '-' || c == '_'
        || c == '.' || c == ':'
}

/// A hosted identity has from one to 512 bytes, and nothing but the characters of scoped names.
pub proof fn law_hosted_identities_are_names(s: Seq<char>)
    ensures
        is_hosted_identity(s) <==> s.len() > 0 && byte_len(s) <= 512 && forall|i: int|
            0 <= i < s.len() ==> is_name_character(#[trigger] s[i]),
{
    assert forall|i: int| 0 <= i < s.len() implies is_name_character(#[trigger] s[i])
        == crate::text::in_class(crate::text::CharClass::ScopedName, s[i]) by {}
}

proof fn lemma_first_slash(s: Seq<char>)
    ensures
        0 <= first_slash(s) <= s.len(),
        forall|i: int| 0 <= i < first_slash(s) ==> #[trigger] s[i] != '/',
        first_slash(s) < s.len() ==> s[first_slash(s)] == '/',
    decreases s.len(),
{
    if s.len() > 0 && s[0] != '/' {
        let rest = s.drop_first();
        lemma_first_slash(rest);
        assert forall|i: int| 0 <= i < first_slash(s) implies #[trigger] s[i] != '/' by {
            if i > 0 {
                assert(rest[i - 1] == s[i]);
            }
        }
    }
}

/// A text is a domain and, behind a slash, a path.
pub open spec fn is_host_and_path(s: Seq<char>, n: int) -> bool {
    &&& 0 <= n <= s.len()
    &&& forall|i: int| 0 <= i < n ==> #[trigger] s[i] != '/'
    &&& n < s.len() ==> s[n] == '/'
}

/// A domain filter has at most 2048 bytes, all of ASCII and none a control character or one of
/// `@?#\`; no scheme stands in it; what stands before the first slash is a domain in its own
/// canonical form, with a dot and without wildcards and capitals; and no blank stands behind.
pub proof fn law_domain_filters_are_exact(s: Seq<char>, n: int)
    requires
        is_host_and_path(s, n),
    ensures
        filter_host(s) == s.take(n),
        is_domain_filter(s, parsed_domain_of(filter_host(s))) <==> {
            &&& n > 0
            &&& byte_len(s) <= 2048
            &&& forall|i: int|
                0 <= i < s.len() ==> (#[trigger] s[i]) >= ' ' && s[i] < '\u{7f}' && s[i] != '@' && s[i]
                    != '?' && s[i] != '#' && s[i] != '\\'
            &&& forall|i: int|
                0 <= i && i + 2 < s.len() ==> !((#[trigger] s[i]) == ':' && s[i + 1] == '/' && s[i + 2]
                    == '/')
            &&& forall|i: int|
                0 <= i < n ==> (#[trigger] s[i]) != '*' && !('A' <= s[i] && s[i] <= 'Z')
            &&& exists|i: int| 0 <= i < n && (#[trigger] s[i]) == '.'
            &&& parsed_domain_of(s.take(n)) == Some(s.take(n))
            &&& forall|i: int| n < i < s.len() ==> (#[trigger] s[i]) != ' '
        },
{
    lemma_first_slash(s);
    let m = first_slash(s);
    assert(m == n) by {
        if m < n {
            assert(s[m] != '/');
        } else if n < m {
            assert(s[n] != '/');
        }
    }
    let host = s.take(n);
    assert(filter_host(s) == host);
    assert forall|i: int| 0 <= i < s.len() implies crate::hosted::is_forbidden_in_filter(
        #[trigger] s[i],
    ) == !(s[i] >= ' ' && s[i] < '\u{7f}' && s[i] != '@' && s[i] != '?' && s[i] != '#' && s[i]
        != '\\') by {}
    if is_domain_filter(s, parsed_domain_of(host)) {
        assert forall|i: int| 0 <= i < n implies (#[trigger] s[i]) != '*' && !('A' <= s[i] && s[i]
            <= 'Z') by {
            assert(!crate::hosted::is_forbidden_in_host(host[i]));
        }
        assert forall|i: int| 0 <= i && i + 2 < s.len() implies !((#[trigger] s[i]) == ':' && s[i + 1]
            == '/' && s[i + 2] == '/') by {}
        let i = choose|i: int| 0 <= i < host.len() && host[i] == '.';
        assert(s[i] == '.');
    }
    if exists|i: int| 0 <= i < n && (#[trigger] s[i]) == '.' {
        let i = choose|i: int| 0 <= i < n && (#[trigger] s[i]) == '.';
        assert(host[i] == '.');
    }
    if forall|i: int| 0 <= i < n ==> (#[trigger] s[i]) != '*' && !('A' <= s[i] && s[i] <= 'Z') {
        assert forall|i: int| 0 <= i < host.len() implies !crate::hosted::is_forbidden_in_host(
            #[trigger] host[i],
        ) by {
            assert(host[i] == s[i]);
        }
    }
}

proof fn lemma_filters(domains: Seq<Seq<char>>, n: int)
    requires
        0 <= n <= domains.len(),
    ensures
        filters_verdict(domains, n) is Ok <==> forall|i: int|
            0 <= i < n ==> is_domain_filter(
                #[trigger] domains[i],
                parsed_domain_of(filter_host(domains[i])),
            ) && !repeats(domains, i),
        filters_verdict(domains, n) matches Err(e) ==> e
            == HostedToolRequestError::InvalidDomainFilter || e
            == HostedToolRequestError::DuplicateDomainFilter,
    decreases n,
{
    if n > 0 {
        lemma_filters(domains, n - 1);
        if (forall|i: int|
            0 <= i < n ==> is_domain_filter(
                #[trigger] domains[i],
                parsed_domain_of(filter_host(domains[i])),
            ) && !repeats(domains, i)) {
            assert(is_domain_filter(
                domains[n - 1],
                parsed_domain_of(filter_host(domains[n - 1])),
            ));
        }
    }
}

proof fn lemma_bytes(s: Seq<Seq<char>>, a: Seq<Seq<char>>, b: Seq<Seq<char>>)
    requires
        s == a + b,
    ensures
        bytes_of_all(s) == bytes_of_all(a) + bytes_of_all(b),
    decreases b.len(),
{
    if b.len() == 0 {
        assert(s =~= a);
    } else {
        let rest = b.drop_last();
        lemma_bytes(a + rest, a, rest);
        assert(s.drop_last() =~= a + rest);
        assert(s.last() == b.last());
    }
}

/// A blank domain, with nothing but white space in it.
pub open spec fn is_blank_domain(s: Seq<char>) -> bool {
    forall|i: int| 0 <= i < s.len() ==> crate::text::is_white_space(#[trigger] s[i])
}

/// Limits are good if and only if a number of uses, where one is given, is not zero; only one of
/// the two lists of domains has entries; these are at most 100 with at most 32768 bytes together,
/// none is blank, each is a domain filter, and none occurs twice. What is wrong first is what is
/// said.
pub proof fn law_limits_are_exact(v: HostedToolLimitsView)
    ensures
        ({
            let all = v.allowed_domains + v.blocked_domains;
            let bytes = bytes_of_all(v.allowed_domains) + bytes_of_all(v.blocked_domains);
            let both = v.allowed_domains.len() > 0 && v.blocked_domains.len() > 0;
            let blank = exists|i: int| 0 <= i < all.len() && is_blank_domain(#[trigger] all[i]);
            let r = limits_verdict(v);
            &&& r == Err::<(), _>(HostedToolRequestError::ZeroMaxUses) <==> v.max_uses == Some(0u32)
            &&& r == Err::<(), _>(HostedToolRequestError::ConflictingDomainFilters) <==> v.max_uses
                != Some(0u32) && both
            &&& r == Err::<(), _>(HostedToolRequestError::EmptyDomainFilter) <==> v.max_uses != Some(
                0u32,
            ) && !both && blank
            &&& r == Err::<(), _>(HostedToolRequestError::DomainFilterLimitExceeded) <==> v.max_uses
                != Some(0u32) && !both && !blank && all.len() > 100
            &&& r == Err::<(), _>(HostedToolRequestError::DomainFilterBytesExceeded) <==> v.max_uses
                != Some(0u32) && !both && !blank && all.len() <= 100 && bytes > 32768
            &&& r is Ok <==> {
                &&& v.max_uses != Some(0u32)
                &&& !both
                &&& !blank
                &&& all.len() <= 100
                &&& bytes <= 32768
                &&& forall|i: int|
                    0 <= i < all.len() ==> is_domain_filter(
                        #[trigger] all[i],
                        parsed_domain_of(filter_host(all[i])),
                    )
                &&& forall|i: int, j: int|
                    0 <= i < j < all.len() ==> #[trigger] all[i] != #[trigger] all[j]
            }
        }),
{
    let all = v.allowed_domains + v.blocked_domains;
    lemma_bytes(all, v.allowed_domains, v.blocked_domains);
    lemma_filters(all, all.len() as int);
    let p = crate::hosted::blank_text();
    assert forall|i: int| 0 <= i < all.len() implies is_blank_domain(#[trigger] all[i]) == p(
        all[i],
    ) by {
        let s = all[i];
        if p(s) {
            assert forall|k: int| 0 <= k < s.len() implies crate::text::is_white_space(
                #[trigger] s[k],
            ) by {
                assert(crate::text::in_class(crate::text::CharClass::White, s[k]));
            }
        }
        if is_blank_domain(s) {
            assert forall|k: int| 0 <= k < s.len() implies crate::text::in_class(
                crate::text::CharClass::White,
                #[trigger] s[k],
            ) by {
                assert(crate::text::is_white_space(s[k]));
            }
        }
    }
    if any_where(all, p) {
        let i = choose|i: int| 0 <= i < all.len() && p(#[trigger] all[i]);
        assert(is_blank_domain(all[i]));
    }
    if exists|i: int| 0 <= i < all.len() && is_blank_domain(#[trigger] all[i]) {
        let i = choose|i: int| 0 <= i < all.len() && is_blank_domain(#[trigger] all[i]);
        assert(p(all[i]));
    }
    if forall|i: int| 0 <= i < all.len() ==> !repeats(all, i) {
        assert forall|i: int, j: int| 0 <= i < j < all.len() implies #[trigger] all[i]
            != #[trigger] all[j] by {
            assert(!repeats(all, j));
        }
    }
    if filters_verdict(all, all.len() as int) is Ok {
        assert forall|i: int, j: int| 0 <= i < j < all.len() implies #[trigger] all[i]
            != #[trigger] all[j] by {
            assert(!repeats(all, j));
        }
    }
}

/// A request is good if and only if both of its identities are, its limits are, and its fingerprint
/// is the one of its authorization, its kind and its limits. What is made of good parts is good,
/// and is what was asked for.
pub proof fn law_requests_are_exact(
    v: HostedToolRequestView,
    authorization_id: Seq<char>,
    kind: HostedToolKind,
    limits: HostedToolLimitsView,
)
    ensures
        request_verdict(v) is Ok <==> is_hosted_identity(v.authorization_id) && is_hosted_identity(
            v.request_fingerprint,
        ) && limits_verdict(v.limits) is Ok && v.request_fingerprint == request_fingerprint_of(
            v.authorization_id,
            v.kind,
            v.limits,
        ),
        request_verdict(v) == Err::<(), _>(HostedToolRequestError::RequestFingerprintMismatch)
            ==> v.request_fingerprint != request_fingerprint_of(v.authorization_id, v.kind, v.limits),
        new_request(authorization_id, kind, limits) is Ok <==> is_hosted_identity(authorization_id)
            && limits_verdict(limits) is Ok,
        new_request(authorization_id, kind, limits) matches Ok(q) ==> q.authorization_id
            == authorization_id && q.kind == kind && q.limits == limits && q.request_fingerprint
            == request_fingerprint_of(authorization_id, kind, limits),
        !is_hosted_identity(authorization_id) ==> new_request(authorization_id, kind, limits)
            == Err::<HostedToolRequestView, _>(HostedToolRequestError::InvalidIdentity),
{
    lemma_identities_are_not_blank(v.authorization_id);
    lemma_identities_are_not_blank(v.request_fingerprint);
    let all = v.limits.allowed_domains + v.limits.blocked_domains;
    lemma_filters(all, all.len() as int);
}

proof fn lemma_identities_are_not_blank(s: Seq<char>)
    ensures
        is_hosted_identity(s) ==> !crate::text::is_blank(s),
{
    if is_hosted_identity(s) && crate::text::is_blank(s) {
        assert(crate::text::in_class(crate::text::CharClass::ScopedName, s[0]));
        assert(crate::text::in_class(crate::text::CharClass::White, s[0]));
    }
}

/// Nothing is offered and nothing is limited where nothing is said.
pub proof fn law_defaults_offer_nothing()
    ensures
        ({
            let l = hosted_tool_limits_default();
            l.max_uses is None && l.allowed_domains.len() == 0 && l.blocked_domains.len() == 0
        }),
        ({
            let c = hosted_web_search_capability_default();
            &&& c.support == HostedToolSupport::Unsupported
            &&& c.query_visibility == HostedQueryVisibility::Unavailable
            &&& c.source_fidelity == HostedSourceFidelity::Unavailable
            &&& c.citation_fidelity == HostedCitationFidelity::Unavailable
            &&& c.max_uses_enforcement == HostedConstraintEnforcement::Unsupported
            &&& c.domain_filter_enforcement == HostedConstraintEnforcement::Unsupported
        }),
        ({
            let t = default_turn_limits();
            &&& t.total_bytes == 1024 * 1024
            &&& t.text_bytes == 512 * 1024
            &&& t.reasoning_bytes == 512 * 1024
            &&& t.evidence_bytes == 512 * 1024
            &&& t.evidence_items == 256
        }),
{
}

// The buffer of a turn.

/// All that a buffer holds but its texts, its evidence and what it was charged with.
pub open spec fn keeps_the_rest(before: HostedTurnBufferView, after: HostedTurnBufferView) -> bool {
    &&& after.limits == before.limits
    &&& after.usages == before.usages
    &&& after.background_accepted == before.background_accepted
    &&& after.background_statuses == before.background_statuses
    &&& after.response_handles == before.response_handles
    &&& after.continuation_states == before.continuation_states
    &&& after.observed_uses == before.observed_uses
    &&& after.started_invocations == before.started_invocations
    &&& after.failed == before.failed
}

/// A buffer has room for some bytes.
pub open spec fn has_room(b: HostedTurnBufferView, bytes: nat) -> bool {
    &&& b.total_bytes + bytes <= b.limits.total_bytes
    &&& byte_len(b.text) + byte_len(b.reasoning) + b.evidence_bytes + bytes <= b.limits.total_bytes
}

/// Text is taken if and only if the buffer has room for it and its text stays within its own limit;
/// it is then the end of the text, and nothing but the text and the charge changes.
pub proof fn law_texts_are_taken_within_limits(b: HostedTurnBufferView, delta: Seq<char>)
    requires
        b.limits.total_bytes < usize::MAX,
    ensures
        ({
            let r = pushed(b, ProviderChunkView::TextDelta(delta));
            &&& r.result is Ok <==> has_room(b, byte_len(delta)) && byte_len(b.text) + byte_len(delta)
                <= b.limits.text_bytes
            &&& r.result is Err ==> r.result == Err::<(), _>(HostedTurnError::BufferLimitExceeded)
                && r.buffer.text == b.text
            &&& r.result is Ok ==> r.buffer.text == b.text + delta && r.buffer.total_bytes
                == b.total_bytes + byte_len(delta)
            &&& r.buffer.reasoning == b.reasoning
            &&& r.buffer.evidence == b.evidence
            &&& r.buffer.evidence_bytes == b.evidence_bytes
            &&& keeps_the_rest(b, r.buffer)
        }),
{
}

/// The same holds of reasoning, and of summaries of reasoning.
pub proof fn law_reasoning_is_taken_within_limits(b: HostedTurnBufferView, delta: Seq<char>)
    requires
        b.limits.total_bytes < usize::MAX,
    ensures
        ({
            let r = pushed(b, ProviderChunkView::ReasoningDelta(delta));
            &&& r == pushed(b, ProviderChunkView::ReasoningSummaryDelta(delta))
            &&& r.result is Ok <==> has_room(b, byte_len(delta)) && byte_len(b.reasoning) + byte_len(
                delta,
            ) <= b.limits.reasoning_bytes
            &&& r.result is Err ==> r.result == Err::<(), _>(HostedTurnError::BufferLimitExceeded)
                && r.buffer.reasoning == b.reasoning
            &&& r.result is Ok ==> r.buffer.reasoning == b.reasoning + delta && r.buffer.total_bytes
                == b.total_bytes + byte_len(delta)
            &&& r.buffer.text == b.text
            &&& r.buffer.evidence == b.evidence
            &&& r.buffer.evidence_bytes == b.evidence_bytes
            &&& keeps_the_rest(b, r.buffer)
        }),
{
}

/// Evidence is taken if and only if its invocation started, the buffer has room for all its texts,
/// and neither the number nor the bytes of the evidence go over their limits; it is then the last
/// piece.
pub proof fn law_evidence_is_taken_within_limits(
    b: HostedTurnBufferView,
    i: StartedInvocationView,
    e: HostedEvidenceView,
)
    requires
        b.limits.total_bytes < usize::MAX,
    ensures
        ({
            let r = pushed(
                b,
                ProviderChunkView::HostedEvidence {
                    authorization_id: i.authorization_id,
                    invocation_id: i.invocation_id,
                    kind: i.kind,
                    evidence: e,
                },
            );
            let size = match e {
                HostedEvidenceView::Source(s) => byte_len(s.provider_source_id) + byte_len(
                    s.raw_url,
                ) + if s.raw_title is Some {
                    byte_len(s.raw_title->0)
                } else {
                    0
                },
                HostedEvidenceView::Citation(c) => byte_len(c.provider_source_id),
                HostedEvidenceView::QueryObserved(q) => byte_len(q),
            };
            &&& r.result is Ok <==> b.started_invocations.contains(i) && has_room(b, size)
                && b.evidence.len() < b.limits.evidence_items && b.evidence_bytes + size
                <= b.limits.evidence_bytes
            &&& r.result == Err::<(), _>(HostedTurnError::InvalidInvocationCorrelation)
                <==> !b.started_invocations.contains(i)
            &&& r.result is Err ==> r.buffer.evidence == b.evidence && r.buffer.evidence_bytes
                == b.evidence_bytes
            &&& r.result is Ok ==> r.buffer.evidence == b.evidence.push(e) && r.buffer.evidence_bytes
                == b.evidence_bytes + size && r.buffer.total_bytes == b.total_bytes + size
            &&& r.buffer.text == b.text
            &&& r.buffer.reasoning == b.reasoning
            &&& keeps_the_rest(b, r.buffer)
        }),
{
}

/// An invocation starts if and only if its identities are good and it did not start before. It can
/// fail only once it started, and uses are reported only of an authorization and a kind of an
/// invocation that started: the largest number counts.
pub proof fn law_invocations_are_correlated(b: HostedTurnBufferView, i: StartedInvocationView, n: u32)
    ensures
        ({
            let r = pushed(
                b,
                ProviderChunkView::HostedToolStarted {
                    authorization_id: i.authorization_id,
                    invocation_id: i.invocation_id,
                    kind: i.kind,
                },
            );
            &&& r.result is Ok <==> is_hosted_identity(i.authorization_id) && is_hosted_identity(
                i.invocation_id,
            ) && !b.started_invocations.contains(i)
            &&& r.result is Ok ==> r.buffer == (HostedTurnBufferView {
                started_invocations: b.started_invocations.push(i),
                ..b
            })
            &&& r.result is Err ==> r.buffer == b && r.result == Err::<(), _>(
                HostedTurnError::InvalidInvocationCorrelation,
            )
        }),
        ({
            let r = pushed(
                b,
                ProviderChunkView::HostedToolFailed {
                    authorization_id: i.authorization_id,
                    invocation_id: i.invocation_id,
                    kind: i.kind,
                },
            );
            &&& r.result is Ok <==> b.started_invocations.contains(i)
            &&& r.result is Ok ==> r.buffer == (HostedTurnBufferView { failed: true, ..b })
            &&& r.result is Err ==> r.buffer == b
        }),
        ({
            let r = pushed(
                b,
                ProviderChunkView::HostedRequestUsage {
                    authorization_id: i.authorization_id,
                    kind: i.kind,
                    observed_uses: n,
                },
            );
            &&& r.result is Ok <==> exists|k: int|
                0 <= k < b.started_invocations.len() && (
                #[trigger] b.started_invocations[k]).authorization_id == i.authorization_id
                    && b.started_invocations[k].kind == i.kind
            &&& r.result is Err ==> r.buffer == b
            &&& r.result is Ok ==> r.buffer == (HostedTurnBufferView {
                observed_uses: r.buffer.observed_uses,
                ..b
            }) && (r.buffer.observed_uses matches Some(m) && m >= n && (b.observed_uses matches Some(
                o,
            ) ==> m >= o) && (m == n || b.observed_uses == Some(m)))
        }),
{
    let p = crate::hosted::is_started_under(i.authorization_id, i.kind);
    if any_where(b.started_invocations, p) {
        let k = choose|k: int|
            0 <= k < b.started_invocations.len() && p(#[trigger] b.started_invocations[k]);
        assert(b.started_invocations[k].authorization_id == i.authorization_id);
    }
    if exists|k: int|
        0 <= k < b.started_invocations.len() && (
        #[trigger] b.started_invocations[k]).authorization_id == i.authorization_id
            && b.started_invocations[k].kind == i.kind {
        let k = choose|k: int|
            0 <= k < b.started_invocations.len() && (
            #[trigger] b.started_invocations[k]).authorization_id == i.authorization_id
                && b.started_invocations[k].kind == i.kind;
        assert(p(b.started_invocations[k]));
    }
}

/// A call of a local tool has no place in a hosted turn, and changes nothing in its buffer.
pub proof fn law_local_tools_are_refused(b: HostedTurnBufferView, chunk: ProviderChunkView)
    ensures
        chunk is ToolCallStart || chunk is ToolCallArgsDelta || chunk is ToolCallComplete
            || chunk is ToolCallStreamError ==> pushed(b, chunk).buffer == b && pushed(b, chunk).result
            == Err::<(), _>(HostedTurnError::UnsupportedLocalToolChunk),
        chunk is Done || chunk is ReasoningArtifact ==> pushed(b, chunk).buffer == b && pushed(
            b,
            chunk,
        ).result is Ok,
        chunk matches ProviderChunkView::Usage(x) ==> pushed(b, chunk).result is Ok && pushed(
            b,
            chunk,
        ).buffer == (HostedTurnBufferView { usages: b.usages.push(x), ..b }),
        chunk matches ProviderChunkView::ContinuationState(x) ==> pushed(b, chunk).result is Ok
            && pushed(b, chunk).buffer == (HostedTurnBufferView {
            continuation_states: b.continuation_states.push(x),
            ..b
        }),
        chunk matches ProviderChunkView::ResponseHandle(x) ==> pushed(b, chunk).result is Ok && pushed(
            b,
            chunk,
        ).buffer == (HostedTurnBufferView { response_handles: b.response_handles.push(x), ..b }),
        chunk matches ProviderChunkView::BackgroundTaskAccepted(x) ==> pushed(b, chunk).result is Ok
            && pushed(b, chunk).buffer == (HostedTurnBufferView {
            background_accepted: b.background_accepted.push(x),
            ..b
        }),
        chunk matches ProviderChunkView::BackgroundTaskStatus(x) ==> pushed(b, chunk).result is Ok
            && pushed(b, chunk).buffer == (HostedTurnBufferView {
            background_statuses: b.background_statuses.push(x),
            ..b
        }),
{
}

/// A new buffer holds nothing, and nothing failed in it.
pub proof fn law_new_buffers_are_empty(limits: HostedTurnBufferLimits)
    ensures
        ({
            let b = empty_turn(limits);
            &&& b.limits == limits
            &&& b.text.len() == 0
            &&& b.reasoning.len() == 0
            &&& b.evidence.len() == 0
            &&& b.usages.len() == 0
            &&& b.background_accepted.len() == 0
            &&& b.background_statuses.len() == 0
            &&& b.response_handles.len() == 0
            &&& b.continuation_states.len() == 0
            &&& b.started_invocations.len() == 0
            &&& b.observed_uses is None
            &&& b.total_bytes == 0
            &&& b.evidence_bytes == 0
            &&& !b.failed
        }),
{
}

// What is kept of a turn.

proof fn lemma_supported(
    citations: Seq<FinalizedHostedCitationView>,
    session_scope_id: Seq<char>,
    message_id: Seq<char>,
    text: Seq<char>,
    n: int,
    x: CitationSupportView,
)
    requires
        0 <= n <= citations.len(),
    ensures
        supported_citations(citations, session_scope_id, message_id, text, n).contains(x) == (exists|
            i: int,
        |
            0 <= i < n && citation_support(
                session_scope_id,
                message_id,
                (#[trigger] citations[i]).source_id,
                text,
                citations[i].start_byte,
                citations[i].end_byte,
            ) == Some(x)),
    decreases n,
{
    if n > 0 {
        lemma_supported(citations, session_scope_id, message_id, text, n - 1, x);
        let before = supported_citations(citations, session_scope_id, message_id, text, n - 1);
        match citation_support(
            session_scope_id,
            message_id,
            citations[n - 1].source_id,
            text,
            citations[n - 1].start_byte,
            citations[n - 1].end_byte,
        ) {
            Some(c) => {
                crate::intent_impact::lemma_pushed_members(before, c, x);
            },
            None => {},
        }
    }
}

/// What is kept of a turn is not trusted, has all its sources, and, where the text is still the one
/// that was cited, exactly the citations that the text supports; for another text it has none.
pub proof fn law_provenance_is_exact(
    turn: FinalizedHostedTurnView,
    session_scope_id: Seq<char>,
    message_id: Seq<char>,
    text: Seq<char>,
    x: CitationSupportView,
)
    ensures
        ({
            let p = provenance_of(turn, session_scope_id, message_id, text);
            &&& p.trust == ExternalTrust::ExternalUntrusted
            &&& p.session_scope_id == session_scope_id
            &&& p.message_id == message_id
            &&& p.sources == turn.sources
            &&& p.citations.contains(x) <==> text == turn.assistant_text && exists|i: int|
                0 <= i < turn.citations.len() && citation_support(
                    session_scope_id,
                    message_id,
                    (#[trigger] turn.citations[i]).source_id,
                    text,
                    turn.citations[i].start_byte,
                    turn.citations[i].end_byte,
                ) == Some(x)
            &&& text != turn.assistant_text ==> p.citations.len() == 0
        }),
{
    lemma_supported(
        turn.citations,
        session_scope_id,
        message_id,
        text,
        turn.citations.len() as int,
        x,
    );
}

// Extensions.

/// A decision lets the process of an extension start if and only if it is a durable grant for
/// exactly the plan; a denial is told as a grant that no longer holds, and a question as one that
/// nobody can answer.
pub proof fn law_authorizations_are_exact(
    decision: ExtensionProcessDecisionV1View,
    plan: ExtensionProcessPlanV1View,
)
    ensures
        authorized(decision, plan) is Ok <==> decision.authorization is AllowByDurableConfigGrant
            && plan.extension_plan_hash == decision.extension_plan_hash,
        authorized(decision, plan) matches Ok(a) ==> a == decision.authorization,
        authorized(decision, plan) == Err::<ExtensionApprovalDecisionV1View, _>(
            ExtensionAdmissionErrorV1::AdmissionDrift,
        ) <==> decision.authorization is AllowByDurableConfigGrant && plan.extension_plan_hash
            != decision.extension_plan_hash,
        authorized(decision, plan) == Err::<ExtensionApprovalDecisionV1View, _>(
            ExtensionAdmissionErrorV1::ConfigGrantDrift,
        ) <==> decision.authorization is Deny,
        authorized(decision, plan) == Err::<ExtensionApprovalDecisionV1View, _>(
            ExtensionAdmissionErrorV1::AskUnsupported,
        ) <==> decision.authorization is AskUnsupported,
{
}

/// A token is signed if and only if the decision is a durable grant for the plan, the admission is
/// one of that plan under that decision, and nobody claimed it before.
pub proof fn law_signatures_are_exact(
    claimed: Seq<Seq<char>>,
    admission: ExtensionProcessAdmissionV1View,
    decision: ExtensionProcessDecisionV1View,
    plan: ExtensionProcessPlanV1View,
)
    ensures
        signature_verdict(claimed, admission, decision, plan) is Ok <==> {
            &&& decision.authorization is AllowByDurableConfigGrant
            &&& plan.extension_plan_hash == decision.extension_plan_hash
            &&& admission.extension_plan_hash == plan.extension_plan_hash
            &&& admission.decision_hash == decision.decision_hash
            &&& forall|i: int|
                0 <= i < claimed.len() ==> #[trigger] claimed[i] != admission.admission_id
        },
{
    if claimed.contains(admission.admission_id) {
        let i = choose|i: int| 0 <= i < claimed.len() && claimed[i] == admission.admission_id;
        assert(claimed[i] == admission.admission_id);
    }
}

// Commands and environments.

/// The bytes of a command are those of its words: one word more adds its bytes, wherever it stands.
pub proof fn law_words_add_up(a: Seq<Seq<u8>>, b: Seq<Seq<u8>>, word: Seq<u8>)
    ensures
        argv_total(a + b) == argv_total(a) + argv_total(b),
        argv_total(seq![word]) == word.len(),
        argv_total(Seq::empty()) == 0,
    decreases b.len(),
{
    let one = seq![word];
    assert(one.drop_last() =~= Seq::<Seq<u8>>::empty());
    assert(argv_total(one.drop_last()) == 0);
    assert(one.last() == word);
    if b.len() == 0 {
        assert(a + b =~= a);
    } else {
        law_words_add_up(a, b.drop_last(), word);
        assert((a + b).drop_last() =~= a + b.drop_last());
        assert((a + b).last() == b.last());
    }
}

/// The text of an environment is made entry by entry: a key, an equals sign, a value and a zero
/// byte.
pub proof fn law_environments_are_written_entry_by_entry(
    entries: Seq<EnvironmentBindingView>,
    e: EnvironmentBindingView,
)
    ensures
        entry_bytes(Seq::empty()).len() == 0,
        entry_bytes(entries.push(e)) == entry_bytes(entries) + e.key + seq![61u8] + e.value + seq![0u8],
{
    assert(entries.push(e).drop_last() =~= entries);
    assert(entry_bytes(entries.push(e)) =~= entry_bytes(entries) + e.key + seq![61u8] + e.value
        + seq![0u8]);
}

} // verus!
