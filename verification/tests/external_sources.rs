//! External sources, citations and the text that comes from outside.

use sigil_kernel::external::{
    check_display_url, is_rfc3339_timestamp, collapse_external_text, is_unsafe_external_control,
    sha256_hex, strip_terminal_control_sequences, CitationSupport, ExternalEvidenceLevel,
    ExternalProvenanceEntry, ExternalSourceFacts, ExternalSourceRecord, ExternalTrust, ParsedUrl,
    SourceCacheStatus, SourceFreshness, ToolRestartPolicy, UrlFact, UrlProjectionOutcome,
    WebUrlProjection,
    MAX_EXTERNAL_PROVENANCE_CITATIONS, MAX_EXTERNAL_PROVENANCE_SOURCES,
};
use sigil_kernel::image_attachment::{MessageRole, ModelMessage};
use sigil_kernel::value::KernelError;

const SOURCE: &str = "src_0123456789abcdef0123456789ABCDEF";
const URL: &str = "https://example.com/docs";

fn text(value: &str) -> String {
    value.to_owned()
}

fn projected(url: &str, restart_policy: ToolRestartPolicy) -> UrlFact {
    let found = WebUrlProjection { safe_display_url: text(url), restart_policy };
    UrlFact { url: text(url), outcome: UrlProjectionOutcome::Projected(found) }
}

fn facts(title: Option<&str>) -> ExternalSourceFacts {
    ExternalSourceFacts {
        observed_url: projected(URL, ToolRestartPolicy::Replayable),
        display_url: projected(URL, ToolRestartPolicy::Replayable),
        stripped_title: title.map(strip_terminal_control_sequences),
        safe_title: title.map(strip_terminal_control_sequences),
    }
}

fn candidate(
    title: Option<&str>,
    retrieved_at: &str,
    facts: &ExternalSourceFacts,
) -> Result<ExternalSourceRecord, KernelError> {
    ExternalSourceRecord::from_remote_candidate(
        "session-1",
        Some("remote-7"),
        ExternalEvidenceLevel::FetchedPage,
        URL,
        "web.search",
        title.map(text),
        None,
        retrieved_at,
        None,
        Some(1),
        SourceFreshness::Fresh,
        SourceCacheStatus::Miss,
        ToolRestartPolicy::Replayable,
        facts,
    )
}

fn source(id: &str) -> ExternalSourceRecord {
    ExternalSourceRecord {
        session_scope_id: text("session-1"),
        source_id: text(id),
        evidence_level: ExternalEvidenceLevel::SearchSnippet,
        safe_display_url: text(URL),
        safe_display_url_sha256: sha256_hex(URL.as_bytes()),
        origin: text("web"),
        title: None,
        published_at: None,
        retrieved_at: text("2026-01-02T03:04:05Z"),
        content_sha256: None,
        rank: None,
        freshness: SourceFreshness::default(),
        cache_status: SourceCacheStatus::default(),
        url_restart_policy: ToolRestartPolicy::Replayable,
    }
}

fn message(content: &str) -> ModelMessage {
    ModelMessage {
        id: text("message-1"),
        role: MessageRole::Assistant,
        content: Some(text(content)),
        image_attachments: vec![],
    }
}

fn citation(content: &str, start: usize, end: usize) -> CitationSupport {
    CitationSupport::for_final_safe_text("session-1", "message-1", SOURCE, content, start, end)
        .unwrap()
}

fn entry(content: &str) -> ExternalProvenanceEntry {
    ExternalProvenanceEntry {
        session_scope_id: text("session-1"),
        message_id: text("message-1"),
        trust: ExternalTrust::ExternalUntrusted,
        sources: vec![source(SOURCE)],
        citations: vec![citation(content, 0, 5)],
    }
}

fn provenance_failure(entry: &ExternalProvenanceEntry, content: &str) -> String {
    let known: Vec<ExternalSourceFacts> = entry.sources.iter().map(|_| facts(None)).collect();
    entry.validate_against_message(&message(content), &known).unwrap_err().message
}

fn parsed(url: &str) -> Result<ParsedUrl, KernelError> {
    Ok(ParsedUrl {
        canonical: text(url),
        path: text("/docs"),
        query: None,
        fragment: None,
    })
}

#[test]
fn digests_are_lower_case_hexadecimal() {
    assert_eq!(
        sha256_hex(b"abc"),
        "ba7816bf8f01cfea414140de5dae2223b00361a396177a9cb410ff61f20015ad",
    );
    assert_eq!(
        sha256_hex(b""),
        "e3b0c44298fc1c149afbf4c8996fb92427ae41e4649b934ca495991b7852b855",
    );
}

#[test]
fn terminal_sequences_are_taken_out() {
    assert_eq!(strip_terminal_control_sequences("plain"), "plain");
    assert_eq!(strip_terminal_control_sequences("a\u{1b}[31mred\u{1b}[0m"), "ared");
    assert_eq!(strip_terminal_control_sequences("a\u{1b}]0;title\u{7}b"), "ab");
    assert_eq!(strip_terminal_control_sequences("a\u{1b}]0;t\u{1b}\\b"), "ab");
    assert_eq!(strip_terminal_control_sequences("a\u{1b}]0;t\u{1b}xb\u{7}c"), "ac");
    assert_eq!(strip_terminal_control_sequences("a\u{9b}31mb"), "ab");
    assert_eq!(strip_terminal_control_sequences("a\u{1b}cb"), "ab");
    assert_eq!(strip_terminal_control_sequences("a\u{1b}"), "a");
    assert_eq!(strip_terminal_control_sequences("a\u{1b}[31"), "a");
}

#[test]
fn unsafe_controls_are_recognized() {
    assert!(is_unsafe_external_control('\u{7}'));
    assert!(is_unsafe_external_control('\u{85}'));
    assert!(is_unsafe_external_control('\u{202e}'));
    assert!(is_unsafe_external_control('\u{2066}'));
    assert!(!is_unsafe_external_control('a'));
    assert!(!is_unsafe_external_control('\u{200b}'));
}

#[test]
fn kept_text_is_collapsed_and_bounded() {
    assert_eq!(collapse_external_text("  a \t\u{202e} b\n", 16), "a b");
    assert_eq!(collapse_external_text("\n\t", 16), "");
    assert_eq!(collapse_external_text("abcdef", 3), "abc");
    assert_eq!(collapse_external_text("a b", 2), "a ");
    assert_eq!(collapse_external_text("a b", 1), "a");
    assert_eq!(collapse_external_text("a\u{e9}", 2), "a");
}

#[test]
fn timestamps_are_canonical() {
    for good in [
        "2026-01-02T03:04:05Z",
        "2024-02-29T23:59:59.123456789Z",
        "2026-01-02T03:04:05+05:30",
        "2000-02-29T00:00:00.5-23:59",
    ] {
        assert!(is_rfc3339_timestamp(good), "{good}");
    }
    for bad in [
        "",
        "2026-01-02 03:04:05Z",
        "2026-13-02T03:04:05Z",
        "1900-02-29T03:04:05Z",
        "0000-01-01T03:04:05Z",
        "2026-04-31T03:04:05Z",
        "2026-01-02T24:04:05Z",
        "2026-01-02T03:04:60Z",
        "2026-01-02T03:04:05",
        "2026-01-02T03:04:05.Z",
        "2026-01-02T03:04:05.1234567890Z",
        "2026-01-02T03:04:05+24:00",
        "2026-01-02T03:04:05+0530",
        "2026-0a-02T03:04:05Z",
    ] {
        assert!(!is_rfc3339_timestamp(bad), "{bad}");
    }
}

#[test]
fn candidates_get_a_fresh_local_identity() {
    let title = Some("Docs\u{202e} and\nmore");
    let record = candidate(title, "2026-01-02T03:04:05Z", &facts(title)).unwrap();
    let other = candidate(title, "2026-01-02T03:04:05Z", &facts(title)).unwrap();
    assert_ne!(record.source_id, other.source_id);
    assert_ne!(record.source_id, "remote-7");
    assert!(record.source_id.starts_with("src_"));
    assert_eq!(record.source_id.len(), 36);
    assert!(record.source_id[4..].chars().all(|c| c.is_ascii_digit() || ('a'..='f').contains(&c)));
    assert_eq!(record.safe_display_url, URL);
    assert_eq!(
        record.safe_display_url_sha256,
        "de106e607d0e711199de3fb7eb98fe5d412ee49ac326eadd3db848ee272ad2cb",
    );
    assert_eq!(record.title, Some(text("Docs and more")));
    assert_eq!(record.validate(&facts(Some("Docs and more"))), Ok(()));
}

#[test]
fn blank_titles_are_dropped() {
    let record = candidate(Some(" \n"), "2026-01-02T03:04:05Z", &facts(Some(" \n"))).unwrap();
    assert_eq!(record.title, None);
    assert_eq!(candidate(None, "2026-01-02T03:04:05Z", &facts(None)).unwrap().title, None);
}

#[test]
fn unsound_candidates_are_refused() {
    assert_eq!(
        candidate(None, "yesterday", &facts(None)).unwrap_err().message,
        "external source retrieved_at must be a canonical RFC 3339 timestamp",
    );
    let rejected = ExternalSourceFacts {
        observed_url: UrlFact {
            url: text(URL),
            outcome: UrlProjectionOutcome::Rejected(text("not a web address")),
        },
        ..facts(None)
    };
    assert_eq!(
        candidate(None, "2026-01-02T03:04:05Z", &rejected).unwrap_err().message,
        "not a web address",
    );
    let other_policy = ExternalSourceFacts {
        observed_url: projected(URL, ToolRestartPolicy::InterruptOnRestart),
        ..facts(None)
    };
    assert_eq!(
        candidate(None, "2026-01-02T03:04:05Z", &other_policy).unwrap_err().message,
        "external source URL restart policy contradicts the observed URL",
    );
    let scope = ExternalSourceRecord::with_source_id(
        text(SOURCE),
        " ",
        ExternalEvidenceLevel::FetchedPage,
        URL,
        "web",
        None,
        None,
        "2026-01-02T03:04:05Z",
        None,
        None,
        SourceFreshness::Fresh,
        SourceCacheStatus::Miss,
        ToolRestartPolicy::Replayable,
        &facts(None),
    );
    assert_eq!(
        scope.unwrap_err().message,
        "external source session scope id is invalid or oversized",
    );
    let long = "u".repeat(8 * 1024 + 1);
    let oversized = ExternalSourceRecord::with_source_id(
        text(SOURCE),
        "session-1",
        ExternalEvidenceLevel::FetchedPage,
        &long,
        "web",
        None,
        None,
        "2026-01-02T03:04:05Z",
        None,
        None,
        SourceFreshness::Fresh,
        SourceCacheStatus::Miss,
        ToolRestartPolicy::Replayable,
        &facts(None),
    );
    assert_eq!(
        oversized.unwrap_err().message,
        "external source observed URL exceeds the transient input limit",
    );
}

#[test]
fn unsound_records_are_refused() {
    let mut record = source("src_zz");
    assert_eq!(
        record.validate(&facts(None)).unwrap_err().message,
        "external source id is not session-local",
    );
    record = source(SOURCE);
    record.safe_display_url_sha256 = sha256_hex(b"other");
    assert_eq!(
        record.validate(&facts(None)).unwrap_err().message,
        "external source safe display URL digest does not match",
    );
    record = source(SOURCE);
    record.origin = text("Web");
    assert_eq!(
        record.validate(&facts(None)).unwrap_err().message,
        "external source origin must match [a-z0-9][a-z0-9_.-]{0,63}",
    );
    record = source(SOURCE);
    record.title = Some(text("two  blanks"));
    assert_eq!(
        record.validate(&facts(Some("two  blanks"))).unwrap_err().message,
        "external source title is not in canonical safe-text form",
    );
    record = source(SOURCE);
    record.content_sha256 = Some(text("ABC"));
    assert_eq!(
        record.validate(&facts(None)).unwrap_err().message,
        "external source content_sha256 must be 64 lowercase hexadecimal bytes",
    );
    record = source(SOURCE);
    record.published_at = Some(text("2026"));
    assert_eq!(
        record.validate(&facts(None)).unwrap_err().message,
        "external source published_at must be a canonical RFC 3339 timestamp",
    );
    assert_eq!(source(SOURCE).validate(&facts(None)), Ok(()));
}

#[test]
fn titles_lose_their_terminal_sequences() {
    let given = Some("\u{1b}[31mRed\u{1b}[0m title");
    let record = candidate(given, "2026-01-02T03:04:05Z", &facts(given)).unwrap();
    assert_eq!(record.title, Some(text("Red title")));
}

#[test]
fn facts_on_another_title_are_refused() {
    let refused = candidate(Some("One"), "2026-01-02T03:04:05Z", &facts(Some("Two")));
    assert_eq!(refused.unwrap_err().message, "external source facts belong to another title");
    let mut record = source(SOURCE);
    record.title = Some(text("One"));
    assert_eq!(
        record.validate(&facts(None)).unwrap_err().message,
        "external source facts belong to another title",
    );
    assert_eq!(record.validate(&facts(Some("One"))), Ok(()));
}

#[test]
fn made_records_pass_their_own_check() {
    let given = "  A\ttitle  of words ";
    let made = candidate(Some(given), "2026-01-02T03:04:05Z", &facts(Some(given))).unwrap();
    assert_eq!(made.title, Some(text("A title of words")));
    assert!(made.validate(&facts(made.title.as_deref())).is_ok());
}

#[test]
fn titles_cut_behind_a_blank_are_not_canonical() {
    let given = format!("{} end", "t".repeat(511));
    let made = candidate(Some(&given), "2026-01-02T03:04:05Z", &facts(Some(&given))).unwrap();
    assert_eq!(made.title, Some(format!("{} ", "t".repeat(511))));
    assert_eq!(
        made.validate(&facts(made.title.as_deref())).unwrap_err().message,
        "external source title is not in canonical safe-text form",
    );
}

#[test]
fn addresses_are_parsed_before_they_are_kept() {
    let shown = "HTTPS://Example.com/docs";
    let mut record = source(SOURCE);
    record.safe_display_url = text(shown);
    record.safe_display_url_sha256 = sha256_hex(shown.as_bytes());
    let known = ExternalSourceFacts {
        display_url: projected(shown, ToolRestartPolicy::Replayable),
        ..facts(None)
    };
    assert_eq!(
        record.validate(&known).unwrap_err().message,
        "external source safe display URL must use canonical URL serialization",
    );
}

#[test]
fn displayed_addresses_hold_no_raw_material() {
    let here = projected(URL, ToolRestartPolicy::Replayable);
    let replay = ToolRestartPolicy::Replayable;
    assert_eq!(check_display_url(URL, replay, &here, &parsed(URL)), Ok(()));
    let refused = |found: ParsedUrl, policy: ToolRestartPolicy| {
        check_display_url(URL, policy, &here, &Ok(found)).unwrap_err().message
    };
    let base = parsed(URL).unwrap();
    assert_eq!(
        refused(ParsedUrl { fragment: Some(text("top")), ..base.clone() }, replay),
        "external source safe display URL must not contain a fragment",
    );
    assert_eq!(
        refused(ParsedUrl { query: Some(text("q=1")), ..base.clone() }, replay),
        "external source safe display URL contains raw query material",
    );
    assert_eq!(
        refused(ParsedUrl { path: text("/a/[redacted]"), ..base.clone() }, replay),
        "external source safe display URL has an invalid redacted path",
    );
    assert_eq!(
        refused(ParsedUrl { query: Some(text("[redacted]")), ..base.clone() }, replay),
        "redacted external source URL must interrupt on restart",
    );
    assert_eq!(
        refused(base.clone(), ToolRestartPolicy::InterruptOnRestart),
        "external source safe display URL is not canonical or safely projected",
    );
    let failed: Result<ParsedUrl, KernelError> = Err(KernelError { message: text("no host") });
    assert_eq!(check_display_url(URL, replay, &here, &failed).unwrap_err().message, "no host");
    assert_eq!(
        check_display_url("", replay, &here, &parsed("")).unwrap_err().message,
        "external source safe display URL contains unsafe text",
    );
    let redacted = ParsedUrl { path: text("/[redacted]"), ..base };
    assert_eq!(
        check_display_url(URL, ToolRestartPolicy::InterruptOnRestart, &here, &Ok(redacted)),
        Ok(()),
    );
}

#[test]
fn citations_cover_whole_characters() {
    let content = "caf\u{e9} news";
    let support = citation(content, 0, 5);
    assert_eq!(
        support.output_text_sha256,
        "7277528f2cc21141821e15d01b59d35ad7cc68b19f3f2dc514ebfb73d8e56373",
    );
    let refused = |source: &str, start: usize, end: usize| {
        CitationSupport::for_final_safe_text("session-1", "message-1", source, content, start, end)
            .is_none()
    };
    assert!(refused(SOURCE, 0, 4));
    assert!(refused(SOURCE, 4, 6));
    assert!(refused(SOURCE, 3, 3));
    assert!(refused(SOURCE, 0, 11));
    assert!(refused("remote-7", 0, 5));
    assert!(!refused(SOURCE, 3, 5));
}

#[test]
fn provenance_is_bound_to_its_message() {
    let content = "caf\u{e9} news";
    let sound = entry(content);
    assert_eq!(sound.validate_against_message(&message(content), &vec![facts(None)]), Ok(()));
    assert_eq!(
        provenance_failure(&sound, "other text"),
        "citation is not bound to a valid final safe text span",
    );
    let elsewhere = ExternalProvenanceEntry { message_id: text("message-2"), ..sound.clone() };
    assert_eq!(
        provenance_failure(&elsewhere, content),
        "external provenance message id does not match persisted message",
    );
    let nameless = ExternalProvenanceEntry { session_scope_id: text(""), ..sound.clone() };
    assert_eq!(
        provenance_failure(&nameless, content),
        "external provenance session or message identity is invalid or oversized",
    );
    let mut foreign = sound.clone();
    foreign.sources[0].session_scope_id = text("session-2");
    assert_eq!(
        provenance_failure(&foreign, content),
        "external source belongs to a different session scope",
    );
    let mut twice = sound.clone();
    twice.sources.push(source(SOURCE));
    assert_eq!(
        provenance_failure(&twice, content),
        "external provenance contains duplicate source ids",
    );
    let mut stray = sound.clone();
    stray.citations[0].message_id = text("message-2");
    assert_eq!(
        provenance_failure(&stray, content),
        "citation belongs to a different session or assistant message",
    );
    let mut unknown = sound.clone();
    unknown.citations[0].source_id = text("src_ffffffffffffffffffffffffffffffff");
    assert_eq!(
        provenance_failure(&unknown, content),
        "citation references an unknown external source id",
    );
    let mut malformed = sound.clone();
    malformed.citations[0].output_text_sha256 = text("AA");
    assert_eq!(
        provenance_failure(&malformed, content),
        "citation contains an invalid source id or output digest",
    );
    let mut many = sound.clone();
    many.citations = vec![citation(content, 0, 5); MAX_EXTERNAL_PROVENANCE_CITATIONS + 1];
    assert_eq!(
        provenance_failure(&many, content),
        "external provenance exceeds the durable citation limit",
    );
    let mut crowded = sound;
    crowded.sources = vec![source(SOURCE); MAX_EXTERNAL_PROVENANCE_SOURCES + 1];
    assert_eq!(
        provenance_failure(&crowded, content),
        "external provenance exceeds the durable source limit",
    );
}

#[test]
fn facts_on_another_address_are_refused() {
    let elsewhere = projected("https://example.com/other", ToolRestartPolicy::Replayable);
    let observed = ExternalSourceFacts { observed_url: elsewhere.clone(), ..facts(None) };
    assert_eq!(
        candidate(None, "2026-01-02T03:04:05Z", &observed).unwrap_err().message,
        "external source facts belong to another URL",
    );
    let shown = ExternalSourceFacts { display_url: elsewhere, ..facts(None) };
    assert_eq!(
        candidate(None, "2026-01-02T03:04:05Z", &shown).unwrap_err().message,
        "external source facts belong to another URL",
    );
    assert_eq!(
        source(SOURCE).validate(&shown).unwrap_err().message,
        "external source facts belong to another URL",
    );
}
