//! Evidence from outside of the workspace: sources, the citations of them, and the text rules that
//! keep both safe.

use vstd::prelude::*;

use crate::digest::{sha256_hex_of, sha256_lower_hex};
use crate::image_attachment::{ModelMessage, ModelMessageView};
use crate::text::{
    all_of, blank, byte_len, byte_length, characters, control, in_class, is_blank, is_control,
    is_lower_hex, is_white_space, joined, lemma_byte_len_adds, lemma_byte_len_push, same_text,
    text_of, white_space, width_of, CharClass,
};
use crate::value::{
    chain, check, first_failure, holds, lemma_failures_begin, lemma_failures_end,
    lemma_failures_step, lemma_push_view, outcome, reject, repeated_at, repeats, verdict, yields,
    KernelError, Value, Verdict,
};

verus! {

/// The most bytes of a title.
pub const EXTERNAL_TITLE_MAX_BYTES: usize = 512;

/// The most bytes of an origin.
pub const EXTERNAL_ORIGIN_MAX_BYTES: usize = 64;

/// The most bytes of a timestamp.
pub const EXTERNAL_TIMESTAMP_MAX_BYTES: usize = 35;

/// The most bytes of the identity of a session scope.
pub const EXTERNAL_SESSION_SCOPE_ID_MAX_BYTES: usize = 256;

/// The most bytes of the identity of a message.
pub const EXTERNAL_MESSAGE_ID_MAX_BYTES: usize = 512;

/// The most bytes of an address that was observed.
pub const EXTERNAL_OBSERVED_URL_MAX_BYTES: usize = 8_192;

/// The most bytes of an address that is displayed.
pub const EXTERNAL_SAFE_DISPLAY_URL_MAX_BYTES: usize = 2_048;

/// The most sources of one entry.
pub const MAX_EXTERNAL_PROVENANCE_SOURCES: usize = 64;

/// The most citations of one entry.
pub const MAX_EXTERNAL_PROVENANCE_CITATIONS: usize = 256;

/// Trust marker applied to text and evidence that originated outside the local workspace.
#[derive(Debug, Clone, Copy, PartialEq, Eq, Structural)]
pub enum ExternalTrust {
    ExternalUntrusted,
}

impl DeepView for ExternalTrust {
    type V = ExternalTrust;

    open spec fn deep_view(&self) -> ExternalTrust {
        *self
    }
}

impl Value for ExternalTrust {
    fn same(&self, other: &Self) -> (r: bool) {
        *self == *other
    }

    fn duplicate(&self) -> (r: Self) {
        *self
    }
}

/// Whether a live URL capability can survive a process restart.
#[derive(Debug, Clone, Copy, PartialEq, Eq, Structural)]
pub enum ToolRestartPolicy {
    Replayable,
    InterruptOnRestart,
}

impl DeepView for ToolRestartPolicy {
    type V = ToolRestartPolicy;

    open spec fn deep_view(&self) -> ToolRestartPolicy {
        *self
    }
}

impl Value for ToolRestartPolicy {
    fn same(&self, other: &Self) -> (r: bool) {
        *self == *other
    }

    fn duplicate(&self) -> (r: Self) {
        *self
    }
}

/// Fidelity of one normalized external source.
#[derive(Debug, Clone, Copy, PartialEq, Eq, Structural)]
pub enum ExternalEvidenceLevel {
    SearchSnippet,
    ProviderGroundingSource,
    FetchedPage,
}

impl DeepView for ExternalEvidenceLevel {
    type V = ExternalEvidenceLevel;

    open spec fn deep_view(&self) -> ExternalEvidenceLevel {
        *self
    }
}

impl Value for ExternalEvidenceLevel {
    fn same(&self, other: &Self) -> (r: bool) {
        *self == *other
    }

    fn duplicate(&self) -> (r: Self) {
        *self
    }
}

/// Freshness claim carried by a normalized source.
#[derive(Debug, Clone, Copy, PartialEq, Eq, Structural)]
pub enum SourceFreshness {
    Fresh,
    Stale,
    Unknown,
}

impl DeepView for SourceFreshness {
    type V = SourceFreshness;

    open spec fn deep_view(&self) -> SourceFreshness {
        *self
    }
}

impl Value for SourceFreshness {
    fn same(&self, other: &Self) -> (r: bool) {
        *self == *other
    }

    fn duplicate(&self) -> (r: Self) {
        *self
    }
}

/// Cache observation carried by a normalized source.
#[derive(Debug, Clone, Copy, PartialEq, Eq, Structural)]
pub enum SourceCacheStatus {
    Hit,
    Miss,
    NotApplicable,
}

impl DeepView for SourceCacheStatus {
    type V = SourceCacheStatus;

    open spec fn deep_view(&self) -> SourceCacheStatus {
        *self
    }
}

impl Value for SourceCacheStatus {
    fn same(&self, other: &Self) -> (r: bool) {
        *self == *other
    }

    fn duplicate(&self) -> (r: Self) {
        *self
    }
}

/// Secret-safe, provider-neutral evidence describing one external source.
#[derive(Debug, Clone, PartialEq, Eq)]
pub struct ExternalSourceRecord {
    pub session_scope_id: String,
    pub source_id: String,
    pub evidence_level: ExternalEvidenceLevel,
    pub safe_display_url: String,
    pub safe_display_url_sha256: String,
    pub origin: String,
    pub title: Option<String>,
    pub published_at: Option<String>,
    pub retrieved_at: String,
    pub content_sha256: Option<String>,
    pub rank: Option<usize>,
    pub freshness: SourceFreshness,
    pub cache_status: SourceCacheStatus,
    pub url_restart_policy: ToolRestartPolicy,
}

/// What a [`ExternalSourceRecord`] holds.
#[verifier::ext_equal]
pub struct ExternalSourceRecordView {
    pub session_scope_id: Seq<char>,
    pub source_id: Seq<char>,
    pub evidence_level: ExternalEvidenceLevel,
    pub safe_display_url: Seq<char>,
    pub safe_display_url_sha256: Seq<char>,
    pub origin: Seq<char>,
    pub title: Option<Seq<char>>,
    pub published_at: Option<Seq<char>>,
    pub retrieved_at: Seq<char>,
    pub content_sha256: Option<Seq<char>>,
    pub rank: Option<usize>,
    pub freshness: SourceFreshness,
    pub cache_status: SourceCacheStatus,
    pub url_restart_policy: ToolRestartPolicy,
}

impl DeepView for ExternalSourceRecord {
    type V = ExternalSourceRecordView;

    open spec fn deep_view(&self) -> ExternalSourceRecordView {
        ExternalSourceRecordView {
            session_scope_id: self.session_scope_id.deep_view(),
            source_id: self.source_id.deep_view(),
            evidence_level: self.evidence_level.deep_view(),
            safe_display_url: self.safe_display_url.deep_view(),
            safe_display_url_sha256: self.safe_display_url_sha256.deep_view(),
            origin: self.origin.deep_view(),
            title: self.title.deep_view(),
            published_at: self.published_at.deep_view(),
            retrieved_at: self.retrieved_at.deep_view(),
            content_sha256: self.content_sha256.deep_view(),
            rank: self.rank.deep_view(),
            freshness: self.freshness.deep_view(),
            cache_status: self.cache_status.deep_view(),
            url_restart_policy: self.url_restart_policy.deep_view(),
        }
    }
}

impl Value for ExternalSourceRecord {
    fn same(&self, other: &Self) -> (r: bool) {
        self.session_scope_id.same(&other.session_scope_id)
            && self.source_id.same(&other.source_id)
            && self.evidence_level.same(&other.evidence_level)
            && self.safe_display_url.same(&other.safe_display_url)
            && self.safe_display_url_sha256.same(&other.safe_display_url_sha256)
            && self.origin.same(&other.origin)
            && self.title.same(&other.title)
            && self.published_at.same(&other.published_at)
            && self.retrieved_at.same(&other.retrieved_at)
            && self.content_sha256.same(&other.content_sha256)
            && self.rank.same(&other.rank)
            && self.freshness.same(&other.freshness)
            && self.cache_status.same(&other.cache_status)
            && self.url_restart_policy.same(&other.url_restart_policy)
    }

    fn duplicate(&self) -> (r: Self) {
        ExternalSourceRecord {
            session_scope_id: self.session_scope_id.duplicate(),
            source_id: self.source_id.duplicate(),
            evidence_level: self.evidence_level.duplicate(),
            safe_display_url: self.safe_display_url.duplicate(),
            safe_display_url_sha256: self.safe_display_url_sha256.duplicate(),
            origin: self.origin.duplicate(),
            title: self.title.duplicate(),
            published_at: self.published_at.duplicate(),
            retrieved_at: self.retrieved_at.duplicate(),
            content_sha256: self.content_sha256.duplicate(),
            rank: self.rank.duplicate(),
            freshness: self.freshness.duplicate(),
            cache_status: self.cache_status.duplicate(),
            url_restart_policy: self.url_restart_policy.duplicate(),
        }
    }
}

/// Claim-level relation between final safe assistant text and one normalized source.
#[derive(Debug, Clone, PartialEq, Eq)]
pub struct CitationSupport {
    pub session_scope_id: String,
    pub message_id: String,
    pub source_id: String,
    pub output_text_sha256: String,
    pub start_byte: usize,
    pub end_byte: usize,
}

/// What a [`CitationSupport`] holds.
#[verifier::ext_equal]
pub struct CitationSupportView {
    pub session_scope_id: Seq<char>,
    pub message_id: Seq<char>,
    pub source_id: Seq<char>,
    pub output_text_sha256: Seq<char>,
    pub start_byte: usize,
    pub end_byte: usize,
}

impl DeepView for CitationSupport {
    type V = CitationSupportView;

    open spec fn deep_view(&self) -> CitationSupportView {
        CitationSupportView {
            session_scope_id: self.session_scope_id.deep_view(),
            message_id: self.message_id.deep_view(),
            source_id: self.source_id.deep_view(),
            output_text_sha256: self.output_text_sha256.deep_view(),
            start_byte: self.start_byte.deep_view(),
            end_byte: self.end_byte.deep_view(),
        }
    }
}

impl Value for CitationSupport {
    fn same(&self, other: &Self) -> (r: bool) {
        self.session_scope_id.same(&other.session_scope_id)
            && self.message_id.same(&other.message_id)
            && self.source_id.same(&other.source_id)
            && self.output_text_sha256.same(&other.output_text_sha256)
            && self.start_byte.same(&other.start_byte)
            && self.end_byte.same(&other.end_byte)
    }

    fn duplicate(&self) -> (r: Self) {
        CitationSupport {
            session_scope_id: self.session_scope_id.duplicate(),
            message_id: self.message_id.duplicate(),
            source_id: self.source_id.duplicate(),
            output_text_sha256: self.output_text_sha256.duplicate(),
            start_byte: self.start_byte.duplicate(),
            end_byte: self.end_byte.duplicate(),
        }
    }
}

/// Durable sidecar associated with one safe provider-visible message.
#[derive(Debug, Clone, PartialEq, Eq)]
pub struct ExternalProvenanceEntry {
    pub session_scope_id: String,
    pub message_id: String,
    pub trust: ExternalTrust,
    pub sources: Vec<ExternalSourceRecord>,
    pub citations: Vec<CitationSupport>,
}

/// What a [`ExternalProvenanceEntry`] holds.
#[verifier::ext_equal]
pub struct ExternalProvenanceEntryView {
    pub session_scope_id: Seq<char>,
    pub message_id: Seq<char>,
    pub trust: ExternalTrust,
    pub sources: Seq<ExternalSourceRecordView>,
    pub citations: Seq<CitationSupportView>,
}

impl DeepView for ExternalProvenanceEntry {
    type V = ExternalProvenanceEntryView;

    open spec fn deep_view(&self) -> ExternalProvenanceEntryView {
        ExternalProvenanceEntryView {
            session_scope_id: self.session_scope_id.deep_view(),
            message_id: self.message_id.deep_view(),
            trust: self.trust.deep_view(),
            sources: self.sources.deep_view(),
            citations: self.citations.deep_view(),
        }
    }
}

impl Value for ExternalProvenanceEntry {
    fn same(&self, other: &Self) -> (r: bool) {
        self.session_scope_id.same(&other.session_scope_id)
            && self.message_id.same(&other.message_id)
            && self.trust.same(&other.trust)
            && self.sources.same(&other.sources)
            && self.citations.same(&other.citations)
    }

    fn duplicate(&self) -> (r: Self) {
        ExternalProvenanceEntry {
            session_scope_id: self.session_scope_id.duplicate(),
            message_id: self.message_id.duplicate(),
            trust: self.trust.duplicate(),
            sources: self.sources.duplicate(),
            citations: self.citations.duplicate(),
        }
    }
}

/// A web address as it may be kept: its safe form, and whether it can be used again after a
/// restart.
#[derive(Debug, Clone, PartialEq, Eq)]
pub struct WebUrlProjection {
    pub safe_display_url: String,
    pub restart_policy: ToolRestartPolicy,
}

/// What a [`WebUrlProjection`] holds.
#[verifier::ext_equal]
pub struct WebUrlProjectionView {
    pub safe_display_url: Seq<char>,
    pub restart_policy: ToolRestartPolicy,
}

impl DeepView for WebUrlProjection {
    type V = WebUrlProjectionView;

    open spec fn deep_view(&self) -> WebUrlProjectionView {
        WebUrlProjectionView {
            safe_display_url: self.safe_display_url.deep_view(),
            restart_policy: self.restart_policy.deep_view(),
        }
    }
}

impl Value for WebUrlProjection {
    fn same(&self, other: &Self) -> (r: bool) {
        self.safe_display_url.same(&other.safe_display_url)
            && self.restart_policy.same(&other.restart_policy)
    }

    fn duplicate(&self) -> (r: Self) {
        WebUrlProjection {
            safe_display_url: self.safe_display_url.duplicate(),
            restart_policy: self.restart_policy.duplicate(),
        }
    }
}

/// What the projection of a web address came to.
#[derive(Debug, Clone, PartialEq, Eq)]
pub enum UrlProjectionOutcome {
    Projected(WebUrlProjection),
    Rejected(String),
}

/// What a [`UrlProjectionOutcome`] holds.
#[verifier::ext_equal]
pub enum UrlProjectionOutcomeView {
    Projected(WebUrlProjectionView),
    Rejected(Seq<char>),
}

impl DeepView for UrlProjectionOutcome {
    type V = UrlProjectionOutcomeView;

    open spec fn deep_view(&self) -> UrlProjectionOutcomeView {
        match self {
            UrlProjectionOutcome::Projected(x) => UrlProjectionOutcomeView::Projected(x.deep_view()),
            UrlProjectionOutcome::Rejected(x) => UrlProjectionOutcomeView::Rejected(x.deep_view()),
        }
    }
}

impl Value for UrlProjectionOutcome {
    fn same(&self, other: &Self) -> (r: bool) {
        match (self, other) {
            (
                UrlProjectionOutcome::Projected(x),
                UrlProjectionOutcome::Projected(x2),
            ) => x.same(x2),
            (
                UrlProjectionOutcome::Rejected(x),
                UrlProjectionOutcome::Rejected(x2),
            ) => x.same(x2),
            _ => false,
        }
    }

    fn duplicate(&self) -> (r: Self) {
        match self {
            UrlProjectionOutcome::Projected(x) => UrlProjectionOutcome::Projected(x.duplicate()),
            UrlProjectionOutcome::Rejected(x) => UrlProjectionOutcome::Rejected(x.duplicate()),
        }
    }
}

/// A web address, and what its projection came to.
#[derive(Debug, Clone, PartialEq, Eq)]
pub struct UrlFact {
    pub url: String,
    pub outcome: UrlProjectionOutcome,
}

/// What a [`UrlFact`] holds.
#[verifier::ext_equal]
pub struct UrlFactView {
    pub url: Seq<char>,
    pub outcome: UrlProjectionOutcomeView,
}

impl DeepView for UrlFact {
    type V = UrlFactView;

    open spec fn deep_view(&self) -> UrlFactView {
        UrlFactView { url: self.url.deep_view(), outcome: self.outcome.deep_view() }
    }
}

impl Value for UrlFact {
    fn same(&self, other: &Self) -> (r: bool) {
        self.url.same(&other.url)
            && self.outcome.same(&other.outcome)
    }

    fn duplicate(&self) -> (r: Self) {
        UrlFact { url: self.url.duplicate(), outcome: self.outcome.duplicate() }
    }
}

/// What is known of a source from outside of this library: the address that was observed and the address
/// that is displayed, each with its projection, and the title: the text without terminal control
/// sequences that secrets were taken out of, and what was left of it.
#[derive(Debug, Clone, PartialEq, Eq)]
pub struct ExternalSourceFacts {
    pub observed_url: UrlFact,
    pub display_url: UrlFact,
    pub stripped_title: Option<String>,
    pub safe_title: Option<String>,
}

/// What a [`ExternalSourceFacts`] holds.
#[verifier::ext_equal]
pub struct ExternalSourceFactsView {
    pub observed_url: UrlFactView,
    pub display_url: UrlFactView,
    pub stripped_title: Option<Seq<char>>,
    pub safe_title: Option<Seq<char>>,
}

impl DeepView for ExternalSourceFacts {
    type V = ExternalSourceFactsView;

    open spec fn deep_view(&self) -> ExternalSourceFactsView {
        ExternalSourceFactsView {
            observed_url: self.observed_url.deep_view(),
            display_url: self.display_url.deep_view(),
            stripped_title: self.stripped_title.deep_view(),
            safe_title: self.safe_title.deep_view(),
        }
    }
}

impl Value for ExternalSourceFacts {
    fn same(&self, other: &Self) -> (r: bool) {
        self.observed_url.same(&other.observed_url)
            && self.display_url.same(&other.display_url)
            && self.stripped_title.same(&other.stripped_title)
            && self.safe_title.same(&other.safe_title)
    }

    fn duplicate(&self) -> (r: Self) {
        ExternalSourceFacts {
            observed_url: self.observed_url.duplicate(),
            display_url: self.display_url.duplicate(),
            stripped_title: self.stripped_title.duplicate(),
            safe_title: self.safe_title.duplicate(),
        }
    }
}

/// The parts of a web address: its canonical text, its path, and its query and fragment where it
/// has them.
#[derive(Debug, Clone, PartialEq, Eq)]
pub struct ParsedUrl {
    pub canonical: String,
    pub path: String,
    pub query: Option<String>,
    pub fragment: Option<String>,
}

/// What a [`ParsedUrl`] holds.
#[verifier::ext_equal]
pub struct ParsedUrlView {
    pub canonical: Seq<char>,
    pub path: Seq<char>,
    pub query: Option<Seq<char>>,
    pub fragment: Option<Seq<char>>,
}

impl DeepView for ParsedUrl {
    type V = ParsedUrlView;

    open spec fn deep_view(&self) -> ParsedUrlView {
        ParsedUrlView {
            canonical: self.canonical.deep_view(),
            path: self.path.deep_view(),
            query: self.query.deep_view(),
            fragment: self.fragment.deep_view(),
        }
    }
}

impl Value for ParsedUrl {
    fn same(&self, other: &Self) -> (r: bool) {
        self.canonical.same(&other.canonical)
            && self.path.same(&other.path)
            && self.query.same(&other.query)
            && self.fragment.same(&other.fragment)
    }

    fn duplicate(&self) -> (r: Self) {
        ParsedUrl {
            canonical: self.canonical.duplicate(),
            path: self.path.duplicate(),
            query: self.query.duplicate(),
            fragment: self.fragment.duplicate(),
        }
    }
}

impl Default for SourceFreshness {
    fn default() -> (r: Self)
        ensures
            r == SourceFreshness::Unknown,
    {
        SourceFreshness::Unknown
    }
}

impl Default for SourceCacheStatus {
    fn default() -> (r: Self)
        ensures
            r == SourceCacheStatus::NotApplicable,
    {
        SourceCacheStatus::NotApplicable
    }
}

/// The SHA-256 digest of some bytes, as lowercase hexadecimal digits.
pub fn sha256_hex(value: &[u8]) -> (r: String)
    ensures
        r@ == sha256_hex_of(value@),
        r@.len() == 64,
        is_lower_hex(r@),
{
    sha256_lower_hex(value)
}

// Characters.

/// A character that must not come from outside: a control character, or one that changes the
/// direction of text.
pub open spec fn is_unsafe_control(c: char) -> bool {
    is_control(c) || c == '\u{061c}' || c == '\u{200e}' || c == '\u{200f}' || '\u{202a}' <= c
        <= '\u{202e}' || '\u{2066}' <= c <= '\u{2069}'
}

/// Tells whether a character must not come from outside.
pub fn is_unsafe_external_control(character: char) -> (r: bool)
    ensures
        r == is_unsafe_control(character),
{
    control(character) || character == '\u{061c}' || character == '\u{200e}' || character
        == '\u{200f}' || ('\u{202a}' <= character && character <= '\u{202e}') || ('\u{2066}'
        <= character && character <= '\u{2069}')
}

/// A text holds a character that must not come from outside.
pub open spec fn has_unsafe_control(s: Seq<char>) -> bool {
    exists|i: int| 0 <= i < s.len() && is_unsafe_control(#[trigger] s[i])
}

fn unsafe_text(s: &str) -> (r: bool)
    ensures
        r == has_unsafe_control(s@),
{
    let chars = characters(s);
    let mut i: usize = 0;
    while i < chars.len()
        invariant
            i <= chars.len(),
            chars@ == s@,
            forall|j: int| 0 <= j < i ==> !is_unsafe_control(#[trigger] s@[j]),
        decreases chars.len() - i,
    {
        if is_unsafe_external_control(chars[i]) {
            assert(is_unsafe_control(s@[i as int]));
            return true;
        }
        i = i + 1;
    }
    false
}

// Terminal control sequences.

/// The character that starts an escape sequence.
pub open spec fn escape() -> char {
    '\u{1b}'
}

/// The character that starts a control sequence by itself.
pub open spec fn control_introducer() -> char {
    '\u{9b}'
}

/// Where a control sequence that is being read at `i` is over: behind its first character from `@` to
/// `~`.
pub open spec fn control_sequence_end(s: Seq<char>, i: int) -> int
    decreases s.len() - i,
{
    if i >= s.len() {
        s.len() as int
    } else if '@' <= s[i] <= '~' {
        i + 1
    } else {
        control_sequence_end(s, i + 1)
    }
}

/// Where a command to the operating system that is being read at `i` is over: behind a bell, or behind
/// an escape with a backslash.
pub open spec fn command_end(s: Seq<char>, i: int) -> int
    decreases s.len() - i,
{
    if i >= s.len() {
        s.len() as int
    } else if s[i] == '\u{7}' {
        i + 1
    } else if s[i] == escape() && i + 1 < s.len() && s[i + 1] == '\\' {
        i + 2
    } else {
        command_end(s, i + 1)
    }
}

proof fn lemma_ends(s: Seq<char>, i: int)
    requires
        0 <= i <= s.len(),
    ensures
        i <= control_sequence_end(s, i) <= s.len(),
        i <= command_end(s, i) <= s.len(),
    decreases s.len() - i,
{
    if i < s.len() {
        lemma_ends(s, i + 1);
    }
}

/// Where the terminal control sequence that starts at `i` is over.
pub open spec fn sequence_end(s: Seq<char>, i: int) -> int {
    if s[i] == control_introducer() {
        control_sequence_end(s, i + 1)
    } else if i + 1 >= s.len() {
        s.len() as int
    } else if s[i + 1] == ']' {
        command_end(s, i + 2)
    } else if s[i + 1] == '[' {
        control_sequence_end(s, i + 2)
    } else {
        i + 2
    }
}

/// The text from `i` on without its terminal control sequences.
pub open spec fn without_sequences(s: Seq<char>, i: int) -> Seq<char>
    decreases s.len() - i,
    via without_sequences_decreases
{
    if i < 0 || i >= s.len() {
        Seq::empty()
    } else if s[i] == escape() || s[i] == control_introducer() {
        without_sequences(s, sequence_end(s, i))
    } else {
        seq![s[i]] + without_sequences(s, i + 1)
    }
}

#[via_fn]
proof fn without_sequences_decreases(s: Seq<char>, i: int) {
    if 0 <= i < s.len() {
        lemma_ends(s, i + 1);
        if i + 2 <= s.len() {
            lemma_ends(s, i + 2);
        }
    }
}

fn skip_control_sequence(chars: &Vec<char>, from: usize) -> (r: usize)
    requires
        from <= chars.len(),
    ensures
        r == control_sequence_end(chars@, from as int),
        from <= r <= chars.len(),
{
    let mut i: usize = from;
    while i < chars.len()
        invariant
            from <= i <= chars.len(),
            control_sequence_end(chars@, from as int) == control_sequence_end(chars@, i as int),
        decreases chars.len() - i,
    {
        if '@' <= chars[i] && chars[i] <= '~' {
            return i + 1;
        }
        i = i + 1;
    }
    i
}

fn skip_command(chars: &Vec<char>, from: usize) -> (r: usize)
    requires
        from <= chars.len(),
    ensures
        r == command_end(chars@, from as int),
        from <= r <= chars.len(),
{
    let mut i: usize = from;
    while i < chars.len()
        invariant
            from <= i <= chars.len(),
            command_end(chars@, from as int) == command_end(chars@, i as int),
        decreases chars.len() - i,
    {
        if chars[i] == '\u{7}' {
            return i + 1;
        }
        if chars[i] == '\u{1b}' && chars.len() - i > 1 && chars[i + 1] == '\\' {
            return i + 2;
        }
        i = i + 1;
    }
    i
}

/// Takes the terminal control sequences out of a text.
pub fn strip_terminal_control_sequences(value: &str) -> (r: String)
    ensures
        r@ == without_sequences(value@, 0),
{
    let chars = characters(value);
    let ghost s = value@;
    let mut r = String::new();
    let mut i: usize = 0;
    assert(r@ + without_sequences(s, 0) =~= without_sequences(s, 0));
    while i < chars.len()
        invariant
            i <= chars.len(),
            chars@ == s,
            r@ + without_sequences(s, i as int) == without_sequences(s, 0),
        decreases chars.len() - i,
    {
        let c = chars[i];
        if c == '\u{9b}' {
            i = skip_control_sequence(&chars, i + 1);
        } else if c == '\u{1b}' {
            if chars.len() - i < 2 {
                i = chars.len();
            } else if chars[i + 1] == ']' {
                i = skip_command(&chars, i + 2);
            } else if chars[i + 1] == '[' {
                i = skip_control_sequence(&chars, i + 2);
            } else {
                i = i + 2;
            }
        } else {
            let ghost had = r@;
            r.push(c);
            assert(r@ + without_sequences(s, i + 1) =~= had + (seq![c] + without_sequences(
                s,
                i + 1,
            )));
            i = i + 1;
        }
    }
    assert(r@ + without_sequences(s, i as int) =~= r@);
    r
}

// Safe text.

/// A character that separates words: white space, or one that must not come from outside.
pub open spec fn separates(c: char) -> bool {
    is_unsafe_control(c) || is_white_space(c)
}

/// The words of a text with one blank between them.
pub open spec fn collapsed(s: Seq<char>) -> Seq<char>
    decreases s.len(),
{
    if s.len() == 0 {
        Seq::empty()
    } else {
        let rest = s.drop_last();
        let before = collapsed(rest);
        if separates(s.last()) {
            before
        } else if before.len() > 0 && separates(rest.last()) {
            before.push(' ').push(s.last())
        } else {
            before.push(s.last())
        }
    }
}

/// As many characters at the start of a text as fit in some bytes.
pub open spec fn fitting(t: Seq<char>, max_bytes: nat) -> Seq<char>
    decreases t.len(),
{
    if t.len() == 0 || byte_len(t) <= max_bytes {
        t
    } else {
        fitting(t.drop_last(), max_bytes)
    }
}

/// What is kept of a text: its words with one blank between them, as far as they fit in some bytes.
pub open spec fn kept_words(s: Seq<char>, max_bytes: nat) -> Seq<char> {
    fitting(collapsed(s), max_bytes)
}

/// One text is the start of another.
pub open spec fn starts(p: Seq<char>, t: Seq<char>) -> bool {
    p.len() <= t.len() && t.take(p.len() as int) == p
}

proof fn lemma_starts_transitive(a: Seq<char>, b: Seq<char>, c: Seq<char>)
    requires
        starts(a, b),
        starts(b, c),
    ensures
        starts(a, c),
{
    assert(c.take(a.len() as int) =~= b.take(a.len() as int));
}

proof fn lemma_collapsed_grows(s: Seq<char>, i: int)
    requires
        0 <= i <= s.len(),
    ensures
        starts(collapsed(s.take(i)), collapsed(s)),
    decreases s.len() - i,
{
    if i == s.len() {
        assert(s.take(i) =~= s);
        assert(collapsed(s).take(collapsed(s).len() as int) =~= collapsed(s));
    } else {
        lemma_collapsed_grows(s, i + 1);
        let t = s.take(i + 1);
        assert(t.drop_last() =~= s.take(i));
        let a = collapsed(s.take(i));
        let b = collapsed(t);
        assert(b.take(a.len() as int) =~= a);
        lemma_starts_transitive(a, b, collapsed(s));
    }
}

proof fn lemma_byte_len_grows(p: Seq<char>, t: Seq<char>)
    requires
        starts(p, t),
    ensures
        byte_len(p) <= byte_len(t),
{
    let rest = t.skip(p.len() as int);
    assert(t =~= p + rest);
    lemma_byte_len_adds(p, rest);
}

proof fn lemma_fitting(t: Seq<char>, p: Seq<char>, max_bytes: nat)
    requires
        starts(p, t),
        byte_len(p) <= max_bytes,
        p.len() < t.len() ==> byte_len(t.take(p.len() + 1int)) > max_bytes,
    ensures
        fitting(t, max_bytes) == p,
    decreases t.len(),
{
    if t.len() == p.len() {
        assert(t =~= p);
    } else {
        let next = t.take(p.len() + 1int);
        assert(t.take(next.len() as int) =~= next);
        lemma_byte_len_grows(next, t);
        let rest = t.drop_last();
        assert(rest.take(p.len() as int) =~= p);
        if p.len() < rest.len() {
            assert(rest.take(p.len() + 1int) =~= next);
        }
        lemma_fitting(rest, p, max_bytes);
    }
}

/// Keeps the words of a text, one blank between them, as far as they fit in some bytes.
pub fn collapse_external_text(value: &str, max_bytes: usize) -> (r: String)
    ensures
        r@ == kept_words(value@, max_bytes as nat),
{
    let chars = characters(value);
    let ghost s = value@;
    let ghost all = collapsed(s);
    let mut safe = String::new();
    let mut length: usize = 0;
    let mut pending = false;
    let mut i: usize = 0;
    assert(s.take(0) =~= Seq::empty());
    while i < chars.len()
        invariant
            i <= chars.len(),
            chars@ == s,
            s == value@,
            all == collapsed(s),
            safe@ == collapsed(s.take(i as int)),
            length == byte_len(safe@),
            length <= max_bytes,
            pending == (safe@.len() > 0 && i > 0 && separates(s[i - 1])),
        decreases chars.len() - i,
    {
        let c = chars[i];
        let ghost t = s.take(i + 1);
        proof {
            assert(t.drop_last() =~= s.take(i as int));
            assert(t.last() == c);
            assert(i > 0 ==> s.take(i as int).last() == s[i - 1]);
            assert(i == 0 ==> s.take(0) =~= Seq::empty());
            lemma_collapsed_grows(s, i + 1);
            lemma_collapsed_grows(s, i as int);
        }
        if is_unsafe_external_control(c) || white_space(c) {
            pending = !safe.as_str().is_empty();
            i = i + 1;
        } else {
            let ghost before = safe@;
            let ghost after = collapsed(t);
            if pending {
                proof {
                    assert(after =~= before.push(' ').push(c));
                    lemma_byte_len_push(before, ' ');
                    assert(all.take(before.len() + 1int) =~= before.push(' ')) by {
                        assert(all.take(after.len() as int) == after);
                        assert(all.take(before.len() + 1int) =~= after.take(before.len() + 1int));
                        assert(after.take(before.len() + 1int) =~= before.push(' '));
                    }
                }
                if length == max_bytes {
                    proof {
                        lemma_fitting(all, before, max_bytes as nat);
                    }
                    return safe;
                }
                safe.push(' ');
                length = length + 1;
            }
            let ghost with_blank = safe@;
            let width = width_of(c);
            proof {
                lemma_byte_len_push(with_blank, c);
                assert(after =~= with_blank.push(c));
                assert(all.take(with_blank.len() + 1int) =~= with_blank.push(c)) by {
                    assert(all.take(after.len() as int) == after);
                }
                assert(all.take(with_blank.len() as int) =~= with_blank) by {
                    assert(all.take(after.len() as int).take(with_blank.len() as int)
                        =~= with_blank);
                    assert(all.take(after.len() as int).take(with_blank.len() as int) =~= all.take(
                        with_blank.len() as int,
                    ));
                }
            }
            if width > max_bytes - length {
                proof {
                    lemma_fitting(all, with_blank, max_bytes as nat);
                }
                return safe;
            }
            safe.push(c);
            length = length + width;
            pending = false;
            i = i + 1;
        }
    }
    proof {
        assert(s.take(i as int) =~= s);
    }
    safe
}

// Identities and origins.

/// An identity that is not blank, not too long and safe.
pub open spec fn is_bounded_identity(s: Seq<char>, max_bytes: nat) -> bool {
    !is_blank(s) && byte_len(s) <= max_bytes && !has_unsafe_control(s)
}

fn valid_bounded_identity(value: &str, max_bytes: usize) -> (r: bool)
    ensures
        r == is_bounded_identity(value@, max_bytes as nat),
{
    !blank(value) && byte_length(value) <= max_bytes && !unsafe_text(value)
}

/// A hexadecimal digit of either case.
pub open spec fn is_hex_digit(c: char) -> bool {
    '0' <= c <= '9' || 'a' <= c <= 'f' || 'A' <= c <= 'F'
}

/// The identity of a source that was given in this session: `src_` and 32 hexadecimal digits.
pub open spec fn is_local_source_id(s: Seq<char>) -> bool {
    &&& s.len() == 36
    &&& s[0] == 's' && s[1] == 'r' && s[2] == 'c' && s[3] == '_'
    &&& forall|i: int| 4 <= i < 36 ==> is_hex_digit(#[trigger] s[i])
}

/// Tells whether a text is the identity of a source that was given in this session.
pub(crate) fn is_session_local_source_id(value: &str) -> (r: bool)
    ensures
        r == is_local_source_id(value@),
{
    let chars = characters(value);
    if chars.len() != 36 || chars[0] != 's' || chars[1] != 'r' || chars[2] != 'c' || chars[3] != '_' {
        return false;
    }
    let mut i: usize = 4;
    while i < 36
        invariant
            4 <= i <= 36,
            chars.len() == 36,
            chars@ == value@,
            forall|j: int| 4 <= j < i ==> is_hex_digit(#[trigger] value@[j]),
        decreases 36 - i,
    {
        let c = chars[i];
        if !(('0' <= c && c <= '9') || ('a' <= c && c <= 'f') || ('A' <= c && c <= 'F')) {
            assert(!is_hex_digit(value@[i as int]));
            return false;
        }
        i = i + 1;
    }
    true
}

/// A lowercase ASCII letter or a digit.
pub open spec fn is_origin_start(c: char) -> bool {
    'a' <= c <= 'z' || '0' <= c <= '9'
}

/// A character of an origin.
pub open spec fn is_origin_character(c: char) -> bool {
    is_origin_start(c) || c == '_' || c == '-' || c == '.'
}

/// The check of an origin.
pub open spec fn origin_verdict(s: Seq<char>) -> Verdict {
    check(
        s.len() > 0 && byte_len(s) <= EXTERNAL_ORIGIN_MAX_BYTES && is_origin_start(s[0]) && forall|
            i: int,
        |
            0 <= i < s.len() ==> is_origin_character(#[trigger] s[i]),
        "external source origin must match [a-z0-9][a-z0-9_.-]{0,63}"@,
    )
}

fn origin_characters(chars: &Vec<char>) -> (r: bool)
    ensures
        r == forall|i: int| 0 <= i < chars.len() ==> is_origin_character(#[trigger] chars@[i]),
{
    let mut i: usize = 0;
    while i < chars.len()
        invariant
            i <= chars.len(),
            forall|j: int| 0 <= j < i ==> is_origin_character(#[trigger] chars@[j]),
        decreases chars.len() - i,
    {
        let c = chars[i];
        if !(('a' <= c && c <= 'z') || ('0' <= c && c <= '9') || c == '_' || c == '-' || c == '.') {
            assert(!is_origin_character(chars@[i as int]));
            return false;
        }
        i = i + 1;
    }
    true
}

fn validate_origin(value: &str) -> (r: Result<(), KernelError>)
    ensures
        verdict(r) == origin_verdict(value@),
{
    let chars = characters(value);
    if chars.len() == 0 || byte_length(value) > EXTERNAL_ORIGIN_MAX_BYTES || !(('a' <= chars[0]
        && chars[0] <= 'z') || ('0' <= chars[0] && chars[0] <= '9')) || !origin_characters(&chars) {
        return reject("external source origin must match [a-z0-9][a-z0-9_.-]{0,63}");
    }
    Ok(())
}

/// The check of a digest, where there is one.
pub open spec fn optional_digest_verdict(digest: Option<Seq<char>>, field: Seq<char>) -> Verdict {
    check(
        digest matches Some(d) ==> is_sha256_text(d),
        "external source "@ + field + " must be 64 lowercase hexadecimal bytes"@,
    )
}

/// A digest as lowercase hexadecimal digits.
pub open spec fn is_sha256_text(s: Seq<char>) -> bool {
    byte_len(s) == 64 && is_lower_hex(s)
}

fn is_sha256_hex(value: &str) -> (r: bool)
    ensures
        r == is_sha256_text(value@),
{
    byte_length(value) == 64 && all_of(CharClass::LowerHex, value)
}

fn validate_optional_sha256(value: &Option<String>, field: &str) -> (r: Result<(), KernelError>)
    ensures
        verdict(r) == optional_digest_verdict(value.deep_view(), field@),
{
    let ok = match value {
        Some(digest) => is_sha256_hex(digest.as_str()),
        None => true,
    };
    if !ok {
        let start = joined("external source ", field);
        return Err(
            KernelError {
                message: joined(start.as_str(), " must be 64 lowercase hexadecimal bytes"),
            },
        );
    }
    Ok(())
}

// Timestamps.

/// One of the digits 0 to 9.
pub open spec fn is_decimal_digit(c: char) -> bool {
    '0' <= c <= '9'
}

/// All characters from `from` up to `to` are digits.
pub open spec fn digits(s: Seq<char>, from: int, to: int) -> bool {
    forall|i: int| from <= i < to ==> is_decimal_digit(#[trigger] s[i])
}

/// The number that two digits write.
pub open spec fn two_digits(s: Seq<char>, at: int) -> int {
    (s[at] as int - '0' as int) * 10 + (s[at + 1] as int - '0' as int)
}

/// The number that four digits write.
pub open spec fn four_digits(s: Seq<char>, at: int) -> int {
    two_digits(s, at) * 100 + two_digits(s, at + 2)
}

/// The days of a month.
pub open spec fn month_days(year: int, month: int) -> int {
    if month == 4 || month == 6 || month == 9 || month == 11 {
        30
    } else if month == 2 {
        if year % 400 == 0 || (year % 4 == 0 && year % 100 != 0) {
            29
        } else {
            28
        }
    } else {
        31
    }
}

/// A difference from universal time from `at` to the end of a text: `Z`, or a sign, hours and minutes.
pub open spec fn is_offset(s: Seq<char>, at: int) -> bool {
    ||| s.len() == at + 1 && s[at] == 'Z'
    ||| {
        &&& s.len() == at + 6
        &&& s[at] == '+' || s[at] == '-'
        &&& digits(s, at + 1, at + 3)
        &&& s[at + 3] == ':'
        &&& digits(s, at + 4, at + 6)
        &&& two_digits(s, at + 1) <= 23
        &&& two_digits(s, at + 4) <= 59
    }
}

/// How many digits stand in a row from `at` on.
pub open spec fn digit_run(s: Seq<char>, at: int) -> int
    decreases s.len() - at,
{
    if 0 <= at < s.len() && is_decimal_digit(s[at]) {
        1 + digit_run(s, at + 1)
    } else {
        0
    }
}

/// Fractions of a second, one to nine digits, where there are any, and then a difference from
/// universal time, to the end of a text.
pub open spec fn is_time_suffix(s: Seq<char>) -> bool {
    if s[19] == '.' {
        1 <= digit_run(s, 20) <= 9 && is_offset(s, 20 + digit_run(s, 20))
    } else {
        is_offset(s, 19)
    }
}

/// The date at the start of a text is one of the calendar, and the time one of a day.
pub open spec fn is_date_and_time(s: Seq<char>) -> bool {
    &&& digits(s, 0, 4) && s[4] == '-' && digits(s, 5, 7) && s[7] == '-' && digits(s, 8, 10)
    &&& s[10] == 'T' && digits(s, 11, 13) && s[13] == ':' && digits(s, 14, 16) && s[16] == ':'
        && digits(s, 17, 19)
    &&& four_digits(s, 0) != 0
    &&& 1 <= two_digits(s, 5) <= 12
    &&& 1 <= two_digits(s, 8) <= month_days(four_digits(s, 0), two_digits(s, 5))
    &&& two_digits(s, 11) <= 23 && two_digits(s, 14) <= 59 && two_digits(s, 17) <= 59
}

/// A canonical timestamp: date, `T`, time, fractions of a second where there are any, and the
/// difference from universal time.
pub open spec fn is_timestamp(s: Seq<char>) -> bool {
    &&& vstd::utf8::is_ascii_chars(s)
    &&& 20 <= s.len() <= EXTERNAL_TIMESTAMP_MAX_BYTES
    &&& is_date_and_time(s)
    &&& is_time_suffix(s)
}

fn all_digits(s: &Vec<char>, from: usize, to: usize) -> (r: bool)
    requires
        from <= to <= s.len(),
    ensures
        r == digits(s@, from as int, to as int),
{
    let mut i: usize = from;
    while i < to
        invariant
            from <= i <= to <= s.len(),
            forall|j: int| from <= j < i ==> is_decimal_digit(#[trigger] s@[j]),
        decreases to - i,
    {
        if !('0' <= s[i] && s[i] <= '9') {
            assert(!is_decimal_digit(s@[i as int]));
            return false;
        }
        i = i + 1;
    }
    true
}

fn number_at(s: &Vec<char>, at: usize) -> (r: u32)
    requires
        at + 2 <= s.len(),
        digits(s@, at as int, at + 2),
    ensures
        r == two_digits(s@, at as int),
        r <= 99,
{
    assert(is_decimal_digit(s@[at as int]));
    assert(is_decimal_digit(s@[at + 1]));
    (s[at] as u32 - '0' as u32) * 10 + (s[at + 1] as u32 - '0' as u32)
}

fn days_in_month(year: u32, month: u32) -> (r: u32)
    ensures
        r == month_days(year as int, month as int),
{
    if month == 4 || month == 6 || month == 9 || month == 11 {
        30
    } else if month == 2 {
        if year % 400 == 0 || (year % 4 == 0 && year % 100 != 0) {
            29
        } else {
            28
        }
    } else {
        31
    }
}

fn offset_at(s: &Vec<char>, at: usize) -> (r: bool)
    requires
        at <= s.len() <= 35,
    ensures
        r == is_offset(s@, at as int),
{
    if s.len() == at + 1 && s[at] == 'Z' {
        return true;
    }
    if s.len() != at + 6 || !(s[at] == '+' || s[at] == '-') || s[at + 3] != ':' || !all_digits(
        s,
        at + 1,
        at + 3,
    ) || !all_digits(s, at + 4, at + 6) {
        return false;
    }
    number_at(s, at + 1) <= 23 && number_at(s, at + 4) <= 59
}

fn count_digits(s: &Vec<char>, at: usize) -> (r: usize)
    requires
        at <= s.len(),
    ensures
        r == digit_run(s@, at as int),
        at + r <= s.len(),
{
    let mut i: usize = at;
    while i < s.len() && '0' <= s[i] && s[i] <= '9'
        invariant
            at <= i <= s.len(),
            digit_run(s@, at as int) == (i - at) + digit_run(s@, i as int),
        decreases s.len() - i,
    {
        i = i + 1;
    }
    i - at
}

fn date_and_time(s: &Vec<char>) -> (r: bool)
    requires
        s.len() >= 20,
    ensures
        r == is_date_and_time(s@),
{
    if s[4] != '-' || s[7] != '-' || s[10] != 'T' || s[13] != ':' || s[16] != ':' || !all_digits(
        s,
        0,
        4,
    ) || !all_digits(s, 5, 7) || !all_digits(s, 8, 10) || !all_digits(s, 11, 13) || !all_digits(
        s,
        14,
        16,
    ) || !all_digits(s, 17, 19) {
        return false;
    }
    assert(digits(s@, 0, 2));
    assert(digits(s@, 2, 4));
    let year = number_at(s, 0) * 100 + number_at(s, 2);
    let month = number_at(s, 5);
    let day = number_at(s, 8);
    year != 0 && 1 <= month && month <= 12 && 1 <= day && day <= days_in_month(year, month)
        && number_at(s, 11) <= 23 && number_at(s, 14) <= 59 && number_at(s, 17) <= 59
}

/// Tells whether a text is a canonical timestamp.
pub fn is_rfc3339_timestamp(value: &str) -> (r: bool)
    ensures
        r == is_timestamp(value@),
{
    if !value.is_ascii() {
        return false;
    }
    let chars = characters(value);
    if chars.len() < 20 || chars.len() > EXTERNAL_TIMESTAMP_MAX_BYTES || !date_and_time(&chars) {
        return false;
    }
    if chars[19] == '.' {
        let count = count_digits(&chars, 20);
        if count == 0 || count > 9 {
            return false;
        }
        return offset_at(&chars, 20 + count);
    }
    offset_at(&chars, 19)
}

/// The check of a timestamp.
pub open spec fn timestamp_verdict(s: Seq<char>, field: Seq<char>) -> Verdict {
    check(
        is_timestamp(s),
        "external source "@ + field + " must be a canonical RFC 3339 timestamp"@,
    )
}

/// The check of a timestamp, where there is one.
pub open spec fn optional_timestamp_verdict(s: Option<Seq<char>>, field: Seq<char>) -> Verdict {
    match s {
        Some(s) => timestamp_verdict(s, field),
        None => Ok(()),
    }
}

fn validate_timestamp(value: &str, field: &str) -> (r: Result<(), KernelError>)
    ensures
        verdict(r) == timestamp_verdict(value@, field@),
{
    if !is_rfc3339_timestamp(value) {
        let start = joined("external source ", field);
        return Err(
            KernelError {
                message: joined(start.as_str(), " must be a canonical RFC 3339 timestamp"),
            },
        );
    }
    Ok(())
}

fn validate_optional_timestamp(value: &Option<String>, field: &str) -> (r: Result<(), KernelError>)
    ensures
        verdict(r) == optional_timestamp_verdict(value.deep_view(), field@),
{
    match value {
        Some(s) => validate_timestamp(s.as_str(), field),
        None => Ok(()),
    }
}

// Addresses.

/// What `url` finds in a text: the parts of an address, or the message of its failure. The parts are
/// the canonical text, the path, and query and fragment where there are any.
pub uninterp spec fn parsed_url_of(text: Seq<char>) -> Result<
    (Seq<char>, Seq<char>, Option<Seq<char>>, Option<Seq<char>>),
    Seq<char>,
>;

/// Calls `url::Url::parse` and reads the parts of the address with `as_str`, `path`, `query` and
/// `fragment`. The contract claims that parts and failure depend on the text alone.
#[verifier::external_body]
pub(crate) fn parse_url(text: &str) -> (r: Result<ParsedUrl, KernelError>)
    ensures
        match r {
            Ok(p) => parsed_url_of(text@) == Ok::<
                (Seq<char>, Seq<char>, Option<Seq<char>>, Option<Seq<char>>),
                Seq<char>,
            >((p.canonical@, p.path@, p.query.deep_view(), p.fragment.deep_view())),
            Err(e) => parsed_url_of(text@) == Err::<
                (Seq<char>, Seq<char>, Option<Seq<char>>, Option<Seq<char>>),
                Seq<char>,
            >(e.message@),
        },
{
    let parsed = url::Url::parse(text).map_err(|e| KernelError { message: e.to_string() })?;
    Ok(
        ParsedUrl {
            canonical: parsed.as_str().to_owned(),
            path: parsed.path().to_owned(),
            query: parsed.query().map(|q| q.to_owned()),
            fragment: parsed.fragment().map(|f| f.to_owned()),
        },
    )
}

/// What was found in a text.
pub open spec fn found_url(r: Result<ParsedUrl, KernelError>) -> Result<
    (Seq<char>, Seq<char>, Option<Seq<char>>, Option<Seq<char>>),
    Seq<char>,
> {
    match r {
        Ok(p) => Ok((p.canonical@, p.path@, p.query.deep_view(), p.fragment.deep_view())),
        Err(e) => Err(e.message@),
    }
}

/// `[redacted]` stands in a text.
pub open spec fn holds_redaction(s: Seq<char>) -> bool {
    exists|i: int|
        0 <= i && i + 10 <= s.len() && #[trigger] s.subrange(i, i + 10) == "[redacted]"@
}

fn has_redaction(s: &str) -> (r: bool)
    ensures
        r == holds_redaction(s@),
{
    let chars = characters(s);
    let mut i: usize = 0;
    if chars.len() < 10 {
        return false;
    }
    while i <= chars.len() - 10
        invariant
            10 <= chars.len(),
            i <= chars.len() - 9,
            chars@ == s@,
            forall|j: int| 0 <= j < i ==> #[trigger] s@.subrange(j, j + 10) != "[redacted]"@,
        decreases chars.len() - i,
    {
        let part = text_of(&chars, i, i + 10);
        if same_text(part.as_str(), "[redacted]") {
            assert(s@.subrange(i as int, i + 10) == "[redacted]"@);
            return true;
        }
        i = i + 1;
    }
    false
}

/// The check of an address that is displayed, given its projection and what was found in it: the
/// projection is one of this address, which is in canonical form, has no fragment and no query but a redacted one, and a redacted address is not
/// used again after a restart.
pub open spec fn display_url_verdict(
    value: Seq<char>,
    policy: ToolRestartPolicy,
    projection: UrlFactView,
    found: Result<(Seq<char>, Seq<char>, Option<Seq<char>>, Option<Seq<char>>), Seq<char>>,
) -> Verdict {
    if value.len() == 0 || byte_len(value) > EXTERNAL_SAFE_DISPLAY_URL_MAX_BYTES
        || has_unsafe_control(value) {
        Err("external source safe display URL contains unsafe text"@)
    } else if projection.url != value {
        Err("external source facts belong to another URL"@)
    } else {
        match projection.outcome {
            UrlProjectionOutcomeView::Rejected(m) => Err(m),
            UrlProjectionOutcomeView::Projected(p) => match found {
                Err(m) => Err(m),
                Ok((canonical, path, query, fragment)) => {
                    let redacted_query = query == Some("[redacted]"@);
                    let redacted_path = path == "/[redacted]"@;
                    if canonical != value {
                        Err(
                            "external source safe display URL must use canonical URL serialization"@,
                        )
                    } else if fragment is Some {
                        Err("external source safe display URL must not contain a fragment"@)
                    } else if query is Some && !redacted_query {
                        Err("external source safe display URL contains raw query material"@)
                    } else if holds_redaction(path) && !redacted_path {
                        Err("external source safe display URL has an invalid redacted path"@)
                    } else if redacted_query || redacted_path {
                        check(
                            policy == ToolRestartPolicy::InterruptOnRestart,
                            "redacted external source URL must interrupt on restart"@,
                        )
                    } else {
                        check(
                            p.safe_display_url == value && p.restart_policy == policy,
                            "external source safe display URL is not canonical or safely projected"@,
                        )
                    }
                },
            },
        }
    }
}

/// Checks an address that is displayed, given its projection and what was found in it.
pub fn check_display_url(
    value: &str,
    policy: ToolRestartPolicy,
    projection: &UrlFact,
    found: &Result<ParsedUrl, KernelError>,
) -> (r: Result<(), KernelError>)
    ensures
        verdict(r) == display_url_verdict(
            value@,
            policy,
            projection.deep_view(),
            found_url(*found),
        ),
{
    if value.is_empty() || byte_length(value) > EXTERNAL_SAFE_DISPLAY_URL_MAX_BYTES || unsafe_text(
        value,
    ) {
        return reject("external source safe display URL contains unsafe text");
    }
    if !same_text(projection.url.as_str(), value) {
        return reject("external source facts belong to another URL");
    }
    let projected = match &projection.outcome {
        UrlProjectionOutcome::Rejected(m) => {
            return Err(KernelError { message: m.duplicate() });
        },
        UrlProjectionOutcome::Projected(p) => p,
    };
    let parsed = match found {
        Err(e) => {
            return Err(KernelError { message: e.message.duplicate() });
        },
        Ok(p) => p,
    };
    if !same_text(parsed.canonical.as_str(), value) {
        return reject("external source safe display URL must use canonical URL serialization");
    }
    if parsed.fragment.is_some() {
        return reject("external source safe display URL must not contain a fragment");
    }
    let redacted_query = match &parsed.query {
        Some(q) => same_text(q.as_str(), "[redacted]"),
        None => false,
    };
    if parsed.query.is_some() && !redacted_query {
        return reject("external source safe display URL contains raw query material");
    }
    let redacted_path = same_text(parsed.path.as_str(), "/[redacted]");
    if has_redaction(parsed.path.as_str()) && !redacted_path {
        return reject("external source safe display URL has an invalid redacted path");
    }
    if redacted_query || redacted_path {
        if policy != ToolRestartPolicy::InterruptOnRestart {
            return reject("redacted external source URL must interrupt on restart");
        }
    } else if !same_text(projected.safe_display_url.as_str(), value) || projected.restart_policy
        != policy {
        return reject("external source safe display URL is not canonical or safely projected");
    }
    Ok(())
}

fn validate_safe_display_url(
    value: &str,
    policy: ToolRestartPolicy,
    projection: &UrlFact,
) -> (r: Result<(), KernelError>)
    ensures
        verdict(r) == display_url_verdict(
            value@,
            policy,
            projection.deep_view(),
            parsed_url_of(value@),
        ),
{
    let found = parse_url(value);
    check_display_url(value, policy, projection, &found)
}

// Sources.

/// What is known of a title belongs to it: it was found in the title without its terminal control
/// sequences.
pub open spec fn is_title_known(title: Option<Seq<char>>, facts: ExternalSourceFactsView) -> bool {
    title matches Some(t) ==> facts.stripped_title == Some(without_sequences(t, 0))
        && facts.safe_title is Some
}

fn title_known(title: &Option<String>, facts: &ExternalSourceFacts) -> (r: bool)
    ensures
        r == is_title_known(title.deep_view(), facts.deep_view()),
{
    match title {
        None => true,
        Some(t) => {
            let stripped = Some(strip_terminal_control_sequences(t.as_str()));
            facts.stripped_title.same(&stripped) && facts.safe_title.is_some()
        },
    }
}

/// The title that is kept: the words that are left of it without its terminal control sequences and
/// its secrets, where there are any.
pub open spec fn kept_title(title: Option<Seq<char>>, facts: ExternalSourceFactsView) -> Option<
    Seq<char>,
> {
    match (title, facts.safe_title) {
        (Some(_), Some(found)) => {
            let safe = kept_words(found, EXTERNAL_TITLE_MAX_BYTES as nat);
            if safe.len() > 0 {
                Some(safe)
            } else {
                None
            }
        },
        _ => None,
    }
}

/// The check of a candidate: it is bounded, its projection agrees with what is said of it, and its
/// parts are canonical.
pub open spec fn candidate_verdict(
    session_scope_id: Seq<char>,
    observed_url: Seq<char>,
    origin: Seq<char>,
    title: Option<Seq<char>>,
    published_at: Option<Seq<char>>,
    retrieved_at: Seq<char>,
    content_sha256: Option<Seq<char>>,
    policy: ToolRestartPolicy,
    facts: ExternalSourceFactsView,
) -> Verdict {
    if !is_bounded_identity(session_scope_id, EXTERNAL_SESSION_SCOPE_ID_MAX_BYTES as nat) {
        Err("external source session scope id is invalid or oversized"@)
    } else if byte_len(observed_url) > EXTERNAL_OBSERVED_URL_MAX_BYTES {
        Err("external source observed URL exceeds the transient input limit"@)
    } else if facts.observed_url.url != observed_url {
        Err("external source facts belong to another URL"@)
    } else {
        match facts.observed_url.outcome {
            UrlProjectionOutcomeView::Rejected(m) => Err(m),
            UrlProjectionOutcomeView::Projected(p) => if p.restart_policy != policy {
                Err("external source URL restart policy contradicts the observed URL"@)
            } else {
                chain(
                    display_url_verdict(
                        p.safe_display_url,
                        policy,
                        facts.display_url,
                        parsed_url_of(p.safe_display_url),
                    ),
                    chain(
                        origin_verdict(origin),
                        chain(
                            optional_timestamp_verdict(published_at, "published_at"@),
                            chain(
                                timestamp_verdict(retrieved_at, "retrieved_at"@),
                                chain(
                                    optional_digest_verdict(content_sha256, "content_sha256"@),
                                    check(
                                        is_title_known(title, facts),
                                        "external source facts belong to another title"@,
                                    ),
                                ),
                            ),
                        ),
                    ),
                )
            },
        }
    }
}

/// The check of a record: it holds a local identity, a consistent safe address and canonical parts.
pub open spec fn source_verdict(v: ExternalSourceRecordView, facts: ExternalSourceFactsView) -> Verdict {
    chain(
        check(
            is_bounded_identity(v.session_scope_id, EXTERNAL_SESSION_SCOPE_ID_MAX_BYTES as nat),
            "external source session scope id is invalid or oversized"@,
        ),
        chain(
            check(is_local_source_id(v.source_id), "external source id is not session-local"@),
            chain(
                display_url_verdict(
                    v.safe_display_url,
                    v.url_restart_policy,
                    facts.display_url,
                    parsed_url_of(v.safe_display_url),
                ),
                chain(
                    check(
                        is_sha256_text(v.safe_display_url_sha256) && v.safe_display_url_sha256
                            == sha256_hex_of(vstd::utf8::encode_utf8(v.safe_display_url)),
                        "external source safe display URL digest does not match"@,
                    ),
                    chain(
                        origin_verdict(v.origin),
                        chain(
                            check(
                                is_title_known(v.title, facts),
                                "external source facts belong to another title"@,
                            ),
                            chain(
                                check(
                                    v.title matches Some(title) ==> title.len() > 0 && byte_len(
                                        title,
                                    ) <= EXTERNAL_TITLE_MAX_BYTES && kept_title(v.title, facts)
                                        == v.title,
                                    "external source title is not in canonical safe-text form"@,
                                ),
                                chain(
                                    optional_timestamp_verdict(v.published_at, "published_at"@),
                                    chain(
                                        timestamp_verdict(v.retrieved_at, "retrieved_at"@),
                                        optional_digest_verdict(
                                            v.content_sha256,
                                            "content_sha256"@,
                                        ),
                                    ),
                                ),
                            ),
                        ),
                    ),
                ),
            ),
        ),
    )
}

fn keep_title(title: &Option<String>, facts: &ExternalSourceFacts) -> (r: Option<String>)
    ensures
        r.deep_view() == kept_title(title.deep_view(), facts.deep_view()),
{
    match (title, &facts.safe_title) {
        (Some(_), Some(found)) => {
            let safe = collapse_external_text(found.as_str(), EXTERNAL_TITLE_MAX_BYTES);
            if safe.as_str().is_empty() {
                None
            } else {
                Some(safe)
            }
        },
        _ => None,
    }
}

/// Makes an identity: calls `uuid::Uuid::new_v4` and writes it in its simple form. Nothing is claimed
/// but that this form is 32 lowercase hexadecimal digits: which ones is left to chance. The call panics
/// where the random source of the system fails, and on no other account.
#[verifier::external_body]
pub(crate) fn random_hex_id() -> (r: String)
    ensures
        r@.len() == 32,
        is_lower_hex(r@),
{
    uuid::Uuid::new_v4().simple().to_string()
}

/// The record of a candidate under an identity.
pub open spec fn record_of(
    source_id: Seq<char>,
    session_scope_id: Seq<char>,
    evidence_level: ExternalEvidenceLevel,
    origin: Seq<char>,
    title: Option<Seq<char>>,
    published_at: Option<Seq<char>>,
    retrieved_at: Seq<char>,
    content_sha256: Option<Seq<char>>,
    rank: Option<usize>,
    freshness: SourceFreshness,
    cache_status: SourceCacheStatus,
    policy: ToolRestartPolicy,
    facts: ExternalSourceFactsView,
) -> ExternalSourceRecordView {
    let url = match facts.observed_url.outcome {
        UrlProjectionOutcomeView::Projected(p) => p.safe_display_url,
        UrlProjectionOutcomeView::Rejected(_) => Seq::empty(),
    };
    ExternalSourceRecordView {
        session_scope_id,
        source_id,
        evidence_level,
        safe_display_url: url,
        safe_display_url_sha256: sha256_hex_of(vstd::utf8::encode_utf8(url)),
        origin,
        title: kept_title(title, facts),
        published_at,
        retrieved_at,
        content_sha256,
        rank,
        freshness,
        cache_status,
        url_restart_policy: policy,
    }
}

proof fn lemma_new_id_is_local(suffix: Seq<char>, id: Seq<char>)
    requires
        suffix.len() == 32,
        is_lower_hex(suffix),
        id == "src_"@ + suffix,
    ensures
        is_local_source_id(id),
{
    reveal_strlit("src_");
    assert forall|i: int| 4 <= i < 36 implies is_hex_digit(#[trigger] id[i]) by {
        assert(id[i] == suffix[i - 4]);
        assert(in_class(CharClass::LowerHex, suffix[i - 4]));
    }
}

impl ExternalSourceRecord {
    /// Records a candidate from outside under a given local identity. What is known of the candidate
    /// from outside of this library comes as facts: its address is projected, and so is the safe
    /// address, and secrets are taken out of what `strip_terminal_control_sequences` leaves of its
    /// title. Facts on another address or on another title are refused.
    pub fn with_source_id(
        source_id: String,
        session_scope_id: &str,
        evidence_level: ExternalEvidenceLevel,
        observed_url: &str,
        origin: &str,
        title: Option<String>,
        published_at: Option<String>,
        retrieved_at: &str,
        content_sha256: Option<String>,
        rank: Option<usize>,
        freshness: SourceFreshness,
        cache_status: SourceCacheStatus,
        url_restart_policy: ToolRestartPolicy,
        facts: &ExternalSourceFacts,
    ) -> (r: Result<Self, KernelError>)
        ensures
            outcome(r) == yields(
                candidate_verdict(
                    session_scope_id@,
                    observed_url@,
                    origin@,
                    title.deep_view(),
                    published_at.deep_view(),
                    retrieved_at@,
                    content_sha256.deep_view(),
                    url_restart_policy,
                    facts.deep_view(),
                ),
                record_of(
                    source_id@,
                    session_scope_id@,
                    evidence_level,
                    origin@,
                    title.deep_view(),
                    published_at.deep_view(),
                    retrieved_at@,
                    content_sha256.deep_view(),
                    rank,
                    freshness,
                    cache_status,
                    url_restart_policy,
                    facts.deep_view(),
                ),
            ),
    {
        if !valid_bounded_identity(session_scope_id, EXTERNAL_SESSION_SCOPE_ID_MAX_BYTES) {
            return Err(
                KernelError::new("external source session scope id is invalid or oversized"),
            );
        }
        if byte_length(observed_url) > EXTERNAL_OBSERVED_URL_MAX_BYTES {
            return Err(
                KernelError::new("external source observed URL exceeds the transient input limit"),
            );
        }
        if !same_text(facts.observed_url.url.as_str(), observed_url) {
            return Err(KernelError::new("external source facts belong to another URL"));
        }
        let projection = match &facts.observed_url.outcome {
            UrlProjectionOutcome::Rejected(m) => {
                return Err(KernelError { message: m.duplicate() });
            },
            UrlProjectionOutcome::Projected(p) => p,
        };
        if projection.restart_policy != url_restart_policy {
            return Err(
                KernelError::new("external source URL restart policy contradicts the observed URL"),
            );
        }
        let safe_display_url = projection.safe_display_url.duplicate();
        validate_safe_display_url(
            safe_display_url.as_str(),
            url_restart_policy,
            &facts.display_url,
        )?;
        validate_origin(origin)?;
        validate_optional_timestamp(&published_at, "published_at")?;
        validate_timestamp(retrieved_at, "retrieved_at")?;
        validate_optional_sha256(&content_sha256, "content_sha256")?;
        if !title_known(&title, facts) {
            return Err(KernelError::new("external source facts belong to another title"));
        }
        let title = keep_title(&title, facts);
        Ok(
            ExternalSourceRecord {
                session_scope_id: session_scope_id.to_owned(),
                source_id,
                evidence_level,
                safe_display_url_sha256: sha256_hex(safe_display_url.as_str().as_bytes()),
                safe_display_url,
                origin: origin.to_owned(),
                title,
                published_at,
                retrieved_at: retrieved_at.to_owned(),
                content_sha256,
                rank,
                freshness,
                cache_status,
                url_restart_policy,
            },
        )
    }

    /// Records a candidate from outside under a fresh local identity. An identity that the outside gave
    /// it is not kept.
    pub fn from_remote_candidate(
        session_scope_id: &str,
        _remote_source_id: Option<&str>,
        evidence_level: ExternalEvidenceLevel,
        observed_url: &str,
        origin: &str,
        title: Option<String>,
        published_at: Option<String>,
        retrieved_at: &str,
        content_sha256: Option<String>,
        rank: Option<usize>,
        freshness: SourceFreshness,
        cache_status: SourceCacheStatus,
        url_restart_policy: ToolRestartPolicy,
        facts: &ExternalSourceFacts,
    ) -> (r: Result<Self, KernelError>)
        ensures
            match r {
                Ok(v) => candidate_verdict(
                    session_scope_id@,
                    observed_url@,
                    origin@,
                    title.deep_view(),
                    published_at.deep_view(),
                    retrieved_at@,
                    content_sha256.deep_view(),
                    url_restart_policy,
                    facts.deep_view(),
                ) is Ok && is_local_source_id(v.source_id@) && v.deep_view() == record_of(
                    v.source_id@,
                    session_scope_id@,
                    evidence_level,
                    origin@,
                    title.deep_view(),
                    published_at.deep_view(),
                    retrieved_at@,
                    content_sha256.deep_view(),
                    rank,
                    freshness,
                    cache_status,
                    url_restart_policy,
                    facts.deep_view(),
                ),
                Err(e) => candidate_verdict(
                    session_scope_id@,
                    observed_url@,
                    origin@,
                    title.deep_view(),
                    published_at.deep_view(),
                    retrieved_at@,
                    content_sha256.deep_view(),
                    url_restart_policy,
                    facts.deep_view(),
                ) == Err::<(), Seq<char>>(e.deep_view()),
            },
    {
        let suffix = random_hex_id();
        let source_id = joined("src_", suffix.as_str());
        proof {
            lemma_new_id_is_local(suffix@, source_id@);
        }
        ExternalSourceRecord::with_source_id(
            source_id,
            session_scope_id,
            evidence_level,
            observed_url,
            origin,
            title,
            published_at,
            retrieved_at,
            content_sha256,
            rank,
            freshness,
            cache_status,
            url_restart_policy,
            facts,
        )
    }

    /// Checks the record: it holds a local identity and a consistent safe address. What is known of it
    /// from outside of this library comes as facts, of which only those on the displayed address and
    /// on the title count.
    pub fn validate(&self, facts: &ExternalSourceFacts) -> (r: Result<(), KernelError>)
        ensures
            verdict(r) == source_verdict(self.deep_view(), facts.deep_view()),
    {
        if !valid_bounded_identity(
            self.session_scope_id.as_str(),
            EXTERNAL_SESSION_SCOPE_ID_MAX_BYTES,
        ) {
            return reject("external source session scope id is invalid or oversized");
        }
        if !is_session_local_source_id(self.source_id.as_str()) {
            return reject("external source id is not session-local");
        }
        validate_safe_display_url(
            self.safe_display_url.as_str(),
            self.url_restart_policy,
            &facts.display_url,
        )?;
        let digest = sha256_hex(self.safe_display_url.as_str().as_bytes());
        if !is_sha256_hex(self.safe_display_url_sha256.as_str()) || self.safe_display_url_sha256
            != digest {
            return reject("external source safe display URL digest does not match");
        }
        validate_origin(self.origin.as_str())?;
        if !title_known(&self.title, facts) {
            return reject("external source facts belong to another title");
        }
        if let Some(title) = &self.title {
            let kept = keep_title(&self.title, facts);
            if title.as_str().is_empty() || byte_length(title.as_str()) > EXTERNAL_TITLE_MAX_BYTES
                || !kept.same(&self.title) {
                return reject("external source title is not in canonical safe-text form");
            }
        }
        validate_optional_timestamp(&self.published_at, "published_at")?;
        validate_timestamp(self.retrieved_at.as_str(), "retrieved_at")?;
        validate_optional_sha256(&self.content_sha256, "content_sha256")
    }
}

// Citations.

/// A span of a text that holds something and starts and ends with whole characters.
pub open spec fn is_span(text: Seq<char>, start: usize, end: usize) -> bool {
    let bytes = vstd::utf8::encode_utf8(text);
    &&& start < end
    &&& end <= bytes.len()
    &&& vstd::utf8::is_char_boundary(bytes, start as int)
    &&& vstd::utf8::is_char_boundary(bytes, end as int)
}

fn valid_span(text: &str, start: usize, end: usize) -> (r: bool)
    ensures
        r == is_span(text@, start, end),
{
    start < end && end <= byte_length(text) && text.is_char_boundary(start) && text.is_char_boundary(
        end,
    )
}

/// The support that a source gives a span of a final text.
pub open spec fn citation_support(
    session_scope_id: Seq<char>,
    message_id: Seq<char>,
    source_id: Seq<char>,
    text: Seq<char>,
    start_byte: usize,
    end_byte: usize,
) -> Option<CitationSupportView> {
    if is_span(text, start_byte, end_byte) && is_bounded_identity(
        session_scope_id,
        EXTERNAL_SESSION_SCOPE_ID_MAX_BYTES as nat,
    ) && is_bounded_identity(message_id, EXTERNAL_MESSAGE_ID_MAX_BYTES as nat)
        && is_local_source_id(source_id) {
        Some(
            CitationSupportView {
                session_scope_id,
                message_id,
                source_id,
                output_text_sha256: sha256_hex_of(vstd::utf8::encode_utf8(text)),
                start_byte,
                end_byte,
            },
        )
    } else {
        None
    }
}

impl CitationSupport {
    /// The support that a source gives a span of a final text: only for a real span that holds
    /// something.
    pub fn for_final_safe_text(
        session_scope_id: &str,
        message_id: &str,
        source_id: &str,
        final_safe_text: &str,
        start_byte: usize,
        end_byte: usize,
    ) -> (r: Option<Self>)
        ensures
            r.deep_view() == citation_support(
                session_scope_id@,
                message_id@,
                source_id@,
                final_safe_text@,
                start_byte,
                end_byte,
            ),
    {
        if !valid_span(final_safe_text, start_byte, end_byte) {
            return None;
        }
        if !valid_bounded_identity(session_scope_id, EXTERNAL_SESSION_SCOPE_ID_MAX_BYTES)
            || !valid_bounded_identity(message_id, EXTERNAL_MESSAGE_ID_MAX_BYTES)
            || !is_session_local_source_id(source_id) {
            return None;
        }
        Some(
            CitationSupport {
                session_scope_id: session_scope_id.to_owned(),
                message_id: message_id.to_owned(),
                source_id: source_id.to_owned(),
                output_text_sha256: sha256_hex(final_safe_text.as_bytes()),
                start_byte,
                end_byte,
            },
        )
    }
}

/// The identities of sources.
pub open spec fn source_ids(s: Seq<ExternalSourceRecordView>) -> Seq<Seq<char>> {
    Seq::new(s.len(), |i: int| s[i].source_id)
}

/// The checks of the sources of an entry.
pub open spec fn source_verdicts(
    v: ExternalProvenanceEntryView,
    facts: Seq<ExternalSourceFactsView>,
) -> Seq<Verdict> {
    Seq::new(
        v.sources.len(),
        |i: int|
            chain(
                source_verdict(v.sources[i], facts[i]),
                chain(
                    check(
                        v.sources[i].session_scope_id == v.session_scope_id,
                        "external source belongs to a different session scope"@,
                    ),
                    check(
                        !repeats(source_ids(v.sources), i),
                        "external provenance contains duplicate source ids"@,
                    ),
                ),
            ),
    )
}

/// The check of one citation of an entry.
pub open spec fn citation_verdict(
    v: ExternalProvenanceEntryView,
    c: CitationSupportView,
    text: Seq<char>,
) -> Verdict {
    chain(
        check(
            c.session_scope_id == v.session_scope_id && c.message_id == v.message_id,
            "citation belongs to a different session or assistant message"@,
        ),
        chain(
            check(
                is_local_source_id(c.source_id) && is_sha256_text(c.output_text_sha256),
                "citation contains an invalid source id or output digest"@,
            ),
            chain(
                check(
                    source_ids(v.sources).contains(c.source_id),
                    "citation references an unknown external source id"@,
                ),
                check(
                    c.output_text_sha256 == sha256_hex_of(vstd::utf8::encode_utf8(text)) && is_span(
                        text,
                        c.start_byte,
                        c.end_byte,
                    ),
                    "citation is not bound to a valid final safe text span"@,
                ),
            ),
        ),
    )
}

/// The checks of the citations of an entry.
pub open spec fn citation_verdicts(v: ExternalProvenanceEntryView, text: Seq<char>) -> Seq<Verdict> {
    Seq::new(v.citations.len(), |i: int| citation_verdict(v, v.citations[i], text))
}

/// The final text of a message.
pub open spec fn final_text(m: ModelMessageView) -> Seq<char> {
    match m.content {
        Some(text) => text,
        None => Seq::empty(),
    }
}

/// The check of an entry against the message that it stands beside.
pub open spec fn provenance_verdict_for(
    v: ExternalProvenanceEntryView,
    m: ModelMessageView,
    facts: Seq<ExternalSourceFactsView>,
) -> Verdict {
    chain(
        check(
            is_bounded_identity(v.session_scope_id, EXTERNAL_SESSION_SCOPE_ID_MAX_BYTES as nat)
                && is_bounded_identity(v.message_id, EXTERNAL_MESSAGE_ID_MAX_BYTES as nat),
            "external provenance session or message identity is invalid or oversized"@,
        ),
        chain(
            check(
                v.message_id == m.id,
                "external provenance message id does not match persisted message"@,
            ),
            chain(
                check(
                    v.sources.len() <= MAX_EXTERNAL_PROVENANCE_SOURCES,
                    "external provenance exceeds the durable source limit"@,
                ),
                chain(
                    check(
                        v.citations.len() <= MAX_EXTERNAL_PROVENANCE_CITATIONS,
                        "external provenance exceeds the durable citation limit"@,
                    ),
                    chain(
                        first_failure(source_verdicts(v, facts)),
                        first_failure(citation_verdicts(v, final_text(m))),
                    ),
                ),
            ),
        ),
    )
}

fn ids_of_sources(s: &Vec<ExternalSourceRecord>) -> (r: Vec<String>)
    ensures
        r.deep_view() == source_ids(s.deep_view()),
{
    let ghost all = source_ids(s.deep_view());
    let mut r: Vec<String> = Vec::new();
    let mut i: usize = 0;
    while i < s.len()
        invariant
            i <= s.len(),
            all == source_ids(s.deep_view()),
            r.deep_view() =~= all.take(i as int),
        decreases s.len() - i,
    {
        let ghost had = r;
        let id = s[i].source_id.duplicate();
        assert(all[i as int] == id@);
        r.push(id);
        proof {
            lemma_push_view(had, id, r);
        }
        i = i + 1;
    }
    assert(r.deep_view() =~= all);
    r
}

impl ExternalProvenanceEntry {
    fn validate_sources(&self, facts: &Vec<ExternalSourceFacts>, ids: &Vec<String>) -> (r: Result<
        (),
        KernelError,
    >)
        requires
            facts.len() == self.sources.len(),
            ids.deep_view() == source_ids(self.deep_view().sources),
        ensures
            verdict(r) == first_failure(source_verdicts(self.deep_view(), facts.deep_view())),
    {
        let ghost v = self.deep_view();
        let ghost all = source_verdicts(v, facts.deep_view());
        let mut i: usize = 0;
        proof {
            lemma_failures_begin(all);
        }
        while i < self.sources.len()
            invariant
                i <= self.sources.len(),
                facts.len() == self.sources.len(),
                v == self.deep_view(),
                ids.deep_view() == source_ids(v.sources),
                all == source_verdicts(v, facts.deep_view()),
                first_failure(all) == first_failure(all.skip(i as int)),
            decreases self.sources.len() - i,
        {
            proof {
                lemma_failures_step(all, i as int);
                assert(v.sources[i as int] == self.sources@[i as int].deep_view());
                assert(facts.deep_view()[i as int] == facts@[i as int].deep_view());
                assert(ids.deep_view().len() == v.sources.len());
            }
            self.sources[i].validate(&facts[i])?;
            if self.sources[i].session_scope_id != self.session_scope_id {
                return reject("external source belongs to a different session scope");
            }
            if repeated_at(ids, i) {
                return reject("external provenance contains duplicate source ids");
            }
            i = i + 1;
        }
        proof {
            lemma_failures_end(all);
        }
        Ok(())
    }

    fn validate_citation(&self, c: &CitationSupport, text: &str, ids: &Vec<String>, digest: &String) -> (r:
        Result<(), KernelError>)
        requires
            ids.deep_view() == source_ids(self.deep_view().sources),
            digest@ == sha256_hex_of(vstd::utf8::encode_utf8(text@)),
        ensures
            verdict(r) == citation_verdict(self.deep_view(), c.deep_view(), text@),
    {
        if c.session_scope_id != self.session_scope_id || c.message_id != self.message_id {
            return reject("citation belongs to a different session or assistant message");
        }
        if !is_session_local_source_id(c.source_id.as_str()) || !is_sha256_hex(
            c.output_text_sha256.as_str(),
        ) {
            return reject("citation contains an invalid source id or output digest");
        }
        if !holds(ids, &c.source_id) {
            return reject("citation references an unknown external source id");
        }
        if c.output_text_sha256 != *digest || !valid_span(text, c.start_byte, c.end_byte) {
            return reject("citation is not bound to a valid final safe text span");
        }
        Ok(())
    }

    fn validate_citations(&self, text: &str, ids: &Vec<String>, digest: &String) -> (r: Result<
        (),
        KernelError,
    >)
        requires
            ids.deep_view() == source_ids(self.deep_view().sources),
            digest@ == sha256_hex_of(vstd::utf8::encode_utf8(text@)),
        ensures
            verdict(r) == first_failure(citation_verdicts(self.deep_view(), text@)),
    {
        let ghost v = self.deep_view();
        let ghost all = citation_verdicts(v, text@);
        let mut i: usize = 0;
        proof {
            lemma_failures_begin(all);
        }
        while i < self.citations.len()
            invariant
                i <= self.citations.len(),
                v == self.deep_view(),
                ids.deep_view() == source_ids(v.sources),
                digest@ == sha256_hex_of(vstd::utf8::encode_utf8(text@)),
                all == citation_verdicts(v, text@),
                first_failure(all) == first_failure(all.skip(i as int)),
            decreases self.citations.len() - i,
        {
            proof {
                lemma_failures_step(all, i as int);
                assert(v.citations[i as int] == self.citations@[i as int].deep_view());
            }
            self.validate_citation(&self.citations[i], text, ids, digest)?;
            i = i + 1;
        }
        proof {
            lemma_failures_end(all);
        }
        Ok(())
    }

    /// Checks the sources and the citations of the entry against the message as it was kept. What is
    /// known of the sources from outside of this library comes as facts, one for each of them.
    pub fn validate_against_message(
        &self,
        message: &ModelMessage,
        facts: &Vec<ExternalSourceFacts>,
    ) -> (r: Result<(), KernelError>)
        requires
            facts.len() == self.sources.len(),
        ensures
            verdict(r) == provenance_verdict_for(
                self.deep_view(),
                message.deep_view(),
                facts.deep_view(),
            ),
    {
        if !valid_bounded_identity(
            self.session_scope_id.as_str(),
            EXTERNAL_SESSION_SCOPE_ID_MAX_BYTES,
        ) || !valid_bounded_identity(self.message_id.as_str(), EXTERNAL_MESSAGE_ID_MAX_BYTES) {
            return reject(
                "external provenance session or message identity is invalid or oversized",
            );
        }
        if self.message_id != message.id {
            return reject("external provenance message id does not match persisted message");
        }
        if self.sources.len() > MAX_EXTERNAL_PROVENANCE_SOURCES {
            return reject("external provenance exceeds the durable source limit");
        }
        if self.citations.len() > MAX_EXTERNAL_PROVENANCE_CITATIONS {
            return reject("external provenance exceeds the durable citation limit");
        }
        let text = match &message.content {
            Some(text) => text.duplicate(),
            None => String::new(),
        };
        assert(text@ =~= final_text(message.deep_view()));
        let digest = sha256_hex(text.as_str().as_bytes());
        let ids = ids_of_sources(&self.sources);
        self.validate_sources(facts, &ids)?;
        self.validate_citations(text.as_str(), &ids, &digest)
    }
}

// Laws.

/// No terminal control sequence is left in a text once they are taken out.
pub proof fn law_stripped_text_has_no_sequences(s: Seq<char>, i: int)
    ensures
        forall|k: int|
            0 <= k < without_sequences(s, i).len() ==> #[trigger] without_sequences(s, i)[k]
                != escape() && without_sequences(s, i)[k] != control_introducer(),
    decreases s.len() - i,
{
    if 0 <= i < s.len() {
        lemma_ends(s, i + 1);
        if i + 2 <= s.len() {
            lemma_ends(s, i + 2);
        }
        if s[i] == escape() || s[i] == control_introducer() {
            law_stripped_text_has_no_sequences(s, sequence_end(s, i));
            assert(without_sequences(s, i) == without_sequences(s, sequence_end(s, i)));
        } else {
            law_stripped_text_has_no_sequences(s, i + 1);
            let rest = without_sequences(s, i + 1);
            let all = without_sequences(s, i);
            assert forall|k: int| 0 <= k < all.len() implies #[trigger] all[k] != escape() && all[k]
                != control_introducer() by {
                if k > 0 {
                    assert(all[k] == rest[k - 1]);
                }
            }
        }
    }
}

/// A text without terminal control sequences stays as it is.
pub proof fn law_plain_text_is_kept(s: Seq<char>, i: int)
    requires
        0 <= i <= s.len(),
        forall|k: int| i <= k < s.len() ==> #[trigger] s[k] != escape() && s[k] != control_introducer(),
    ensures
        without_sequences(s, i) == s.skip(i),
    decreases s.len() - i,
{
    if i < s.len() {
        law_plain_text_is_kept(s, i + 1);
        assert(seq![s[i]] + s.skip(i + 1) =~= s.skip(i));
    } else {
        assert(s.skip(i) =~= Seq::empty());
    }
}

/// Safe text takes no more than its bytes, and holds neither characters that must not come from outside
/// nor white space but single blanks.
pub proof fn law_kept_words_are_safe(s: Seq<char>, max_bytes: nat)
    ensures
        byte_len(kept_words(s, max_bytes)) <= max_bytes,
        !has_unsafe_control(kept_words(s, max_bytes)),
        kept_words(s, max_bytes).len() > 0 ==> kept_words(s, max_bytes)[0] != ' ',
        forall|k: int|
            0 <= k < kept_words(s, max_bytes).len() && is_white_space(
                #[trigger] kept_words(s, max_bytes)[k],
            ) ==> kept_words(s, max_bytes)[k] == ' ' && (k + 1 < kept_words(s, max_bytes).len()
                ==> kept_words(s, max_bytes)[k + 1] != ' '),
{
    lemma_collapsed_is_safe(s);
    lemma_fitting_is_a_start(collapsed(s), max_bytes);
    let t = collapsed(s);
    let p = kept_words(s, max_bytes);
    assert forall|k: int| 0 <= k < p.len() implies #[trigger] p[k] == t[k] by {
        assert(t.take(p.len() as int)[k] == t[k]);
    }
    if has_unsafe_control(p) {
        let k = choose|k: int| 0 <= k < p.len() && is_unsafe_control(#[trigger] p[k]);
        assert(is_unsafe_control(t[k]));
    }
}

proof fn lemma_fitting_is_a_start(t: Seq<char>, max_bytes: nat)
    ensures
        starts(fitting(t, max_bytes), t),
        byte_len(fitting(t, max_bytes)) <= max_bytes,
    decreases t.len(),
{
    if t.len() == 0 || byte_len(t) <= max_bytes {
        assert(t.take(t.len() as int) =~= t);
        if t.len() == 0 {
            assert(t =~= Seq::empty());
        }
    } else {
        let rest = t.drop_last();
        lemma_fitting_is_a_start(rest, max_bytes);
        assert(t.take(rest.len() as int) =~= rest);
        lemma_starts_transitive(fitting(rest, max_bytes), rest, t);
    }
}

proof fn lemma_collapsed_is_safe(s: Seq<char>)
    ensures
        forall|k: int|
            0 <= k < collapsed(s).len() ==> (#[trigger] collapsed(s)[k] == ' ' || !separates(
                collapsed(s)[k],
            )) && (collapsed(s)[k] == ' ' ==> k > 0 && k + 1 < collapsed(s).len()
                && collapsed(s)[k + 1] != ' '),
        !has_unsafe_control(collapsed(s)),
    decreases s.len(),
{
    if s.len() > 0 {
        let rest = s.drop_last();
        lemma_collapsed_is_safe(rest);
        let a = collapsed(rest);
        let b = collapsed(s);
        assert forall|k: int| 0 <= k < b.len() implies (#[trigger] b[k] == ' ' || !separates(b[k]))
            && (b[k] == ' ' ==> k > 0 && k + 1 < b.len() && b[k + 1] != ' ') by {
            if k < a.len() {
                assert(b[k] == a[k]);
                if k + 1 < a.len() {
                    assert(b[k + 1] == a[k + 1]);
                }
            }
        }
    }
}

proof fn lemma_collapsing_again(t: Seq<char>)
    requires
        forall|k: int|
            0 <= k < t.len() ==> (#[trigger] t[k] == ' ' || !separates(t[k])) && (t[k] == ' ' ==> k > 0
                && (k + 1 < t.len() ==> t[k + 1] != ' ')),
    ensures
        collapsed(t) == (if t.len() > 0 && t.last() == ' ' {
            t.drop_last()
        } else {
            t
        }),
    decreases t.len(),
{
    assert(separates(' '));
    if t.len() > 0 {
        let rest = t.drop_last();
        assert forall|k: int| 0 <= k < rest.len() implies (#[trigger] rest[k] == ' ' || !separates(
            rest[k],
        )) && (rest[k] == ' ' ==> k > 0 && (k + 1 < rest.len() ==> rest[k + 1] != ' ')) by {
            assert(rest[k] == t[k]);
            if k + 1 < rest.len() {
                assert(rest[k + 1] == t[k + 1]);
            }
        }
        lemma_collapsing_again(rest);
        assert(t[t.len() - 1] == t.last());
        if rest.len() > 0 {
            assert(t[rest.len() - 1] == rest.last());
        }
        if t.last() == ' ' {
            assert(rest.len() > 0 && rest.last() != ' ');
        } else if rest.len() > 0 && rest.last() == ' ' {
            assert(rest.len() > 1);
            assert(rest.drop_last().push(' ').push(t.last()) =~= t);
        } else {
            assert(rest.push(t.last()) =~= t);
        }
    }
}

/// Safe text that does not end in a blank stays as it is when it is made safe again.
pub proof fn law_kept_words_stay(s: Seq<char>, max_bytes: nat)
    requires
        kept_words(s, max_bytes).len() > 0 ==> kept_words(s, max_bytes).last() != ' ',
    ensures
        kept_words(kept_words(s, max_bytes), max_bytes) == kept_words(s, max_bytes),
{
    lemma_collapsed_is_safe(s);
    lemma_fitting_is_a_start(collapsed(s), max_bytes);
    let t = collapsed(s);
    let p = kept_words(s, max_bytes);
    assert forall|k: int| 0 <= k < p.len() implies (#[trigger] p[k] == ' ' || !separates(p[k])) && (
    p[k] == ' ' ==> k > 0 && (k + 1 < p.len() ==> p[k + 1] != ' ')) by {
        assert(t.take(p.len() as int)[k] == t[k]);
        if k + 1 < p.len() {
            assert(t.take(p.len() as int)[k + 1] == t[k + 1]);
        }
    }
    lemma_collapsing_again(p);
}

/// A record that was made of a candidate under a local identity passes its own check, where its
/// address is projected as before, the title that was kept holds nothing that must be taken out, and
/// that title was not cut right behind a blank.
pub proof fn law_made_records_are_valid(
    source_id: Seq<char>,
    session_scope_id: Seq<char>,
    evidence_level: ExternalEvidenceLevel,
    observed_url: Seq<char>,
    origin: Seq<char>,
    title: Option<Seq<char>>,
    published_at: Option<Seq<char>>,
    retrieved_at: Seq<char>,
    content_sha256: Option<Seq<char>>,
    rank: Option<usize>,
    freshness: SourceFreshness,
    cache_status: SourceCacheStatus,
    policy: ToolRestartPolicy,
    facts: ExternalSourceFactsView,
    later: ExternalSourceFactsView,
    v: ExternalSourceRecordView,
)
    requires
        candidate_verdict(
            session_scope_id,
            observed_url,
            origin,
            title,
            published_at,
            retrieved_at,
            content_sha256,
            policy,
            facts,
        ) is Ok,
        is_local_source_id(source_id),
        v == record_of(
            source_id,
            session_scope_id,
            evidence_level,
            origin,
            title,
            published_at,
            retrieved_at,
            content_sha256,
            rank,
            freshness,
            cache_status,
            policy,
            facts,
        ),
        is_sha256_text(v.safe_display_url_sha256),
        later.display_url == facts.display_url,
        is_title_known(v.title, later),
        v.title matches Some(kept) ==> later.safe_title == Some(kept) && kept.last() != ' ',
    ensures
        source_verdict(v, later) is Ok,
{
    if v.title is Some {
        let safe = facts.safe_title->0;
        law_kept_words_stay(safe, EXTERNAL_TITLE_MAX_BYTES as nat);
        lemma_fitting_is_a_start(collapsed(safe), EXTERNAL_TITLE_MAX_BYTES as nat);
    }
}

/// A citation that was made for a text passes the check against a message with that text, where its
/// source is one of the entry.
pub proof fn law_made_citations_are_valid(
    v: ExternalProvenanceEntryView,
    source_id: Seq<char>,
    text: Seq<char>,
    start_byte: usize,
    end_byte: usize,
    c: CitationSupportView,
)
    requires
        citation_support(v.session_scope_id, v.message_id, source_id, text, start_byte, end_byte)
            == Some(c),
        source_ids(v.sources).contains(source_id),
        is_sha256_text(c.output_text_sha256),
    ensures
        citation_verdict(v, c, text) is Ok,
{
}

} // verus!
