//! Execution backends: what they can enforce, what a configuration asks of them, and which launches
//! of extension processes are let through.

use vstd::prelude::*;

use crate::order::{lemma_insert_ordered, lemma_put_place, put, put_item};
use crate::text::{
    ascending, blank, decimal, decimal_text, is_blank, joined, precedes, text_precedes, trim, trimmed,
};
use crate::value::{
    chain, check, distinct, find_key, holds, lemma_find_key, lemma_push_view, lemma_update_view,
    outcome, position_by_key, reject, verdict, yields, KernelError, Keyed, Value, Verdict,
};

verus! {

/// Version of the schema of bounded process-output evidence in an execution receipt.
pub const EXECUTION_OUTPUT_RECEIPT_SCHEMA_VERSION: u8 = 1;

/// The policy under which the environment of a process is made, by its stable name.
#[derive(Debug, Clone, PartialEq, Eq)]
pub struct ProcessEnvironmentPolicy {
    pub name: String,
}

/// What a [`ProcessEnvironmentPolicy`] holds.
#[verifier::ext_equal]
pub struct ProcessEnvironmentPolicyView {
    pub name: Seq<char>,
}

impl DeepView for ProcessEnvironmentPolicy {
    type V = ProcessEnvironmentPolicyView;

    open spec fn deep_view(&self) -> ProcessEnvironmentPolicyView {
        ProcessEnvironmentPolicyView {
            name: self.name.deep_view(),
        }
    }
}

impl Value for ProcessEnvironmentPolicy {
    fn same(&self, other: &Self) -> (r: bool) {
        self.name.same(&other.name)
    }

    fn duplicate(&self) -> (r: Self) {
        ProcessEnvironmentPolicy {
            name: self.name.duplicate(),
        }
    }
}

/// One entry of the environment of a process.
#[derive(Debug, Clone, PartialEq, Eq)]
pub struct EnvironmentEntry {
    pub name: String,
    pub value: String,
}

/// What a [`EnvironmentEntry`] holds.
#[verifier::ext_equal]
pub struct EnvironmentEntryView {
    pub name: Seq<char>,
    pub value: Seq<char>,
}

impl DeepView for EnvironmentEntry {
    type V = EnvironmentEntryView;

    open spec fn deep_view(&self) -> EnvironmentEntryView {
        EnvironmentEntryView {
            name: self.name.deep_view(),
            value: self.value.deep_view(),
        }
    }
}

impl Keyed for EnvironmentEntry {
    open spec fn key(v: EnvironmentEntryView) -> Seq<char> {
        v.name
    }

    fn key_text(&self) -> (r: &str) {
        self.name.as_str()
    }
}

impl Value for EnvironmentEntry {
    fn same(&self, other: &Self) -> (r: bool) {
        self.name.same(&other.name)
            && self.value.same(&other.value)
    }

    fn duplicate(&self) -> (r: Self) {
        EnvironmentEntry {
            name: self.name.duplicate(),
            value: self.value.duplicate(),
        }
    }
}

/// What the permission policy says of network access.
#[derive(Debug, Clone, Copy, PartialEq, Eq, Structural)]
pub enum NetworkPolicy {
    Allow,
    Ask,
    Deny,
}

impl DeepView for NetworkPolicy {
    type V = NetworkPolicy;

    open spec fn deep_view(&self) -> NetworkPolicy {
        *self
    }
}

impl Value for NetworkPolicy {
    fn same(&self, other: &Self) -> (r: bool) {
        *self == *other
    }

    fn duplicate(&self) -> (r: Self) {
        *self
    }
}

/// The network effect that a tool declares: its stable label, and its name in diagnostics.
#[derive(Debug, Clone, PartialEq, Eq)]
pub struct NetworkEffect {
    pub label: String,
    pub name: String,
}

/// What a [`NetworkEffect`] holds.
#[verifier::ext_equal]
pub struct NetworkEffectView {
    pub label: Seq<char>,
    pub name: Seq<char>,
}

impl DeepView for NetworkEffect {
    type V = NetworkEffectView;

    open spec fn deep_view(&self) -> NetworkEffectView {
        NetworkEffectView {
            label: self.label.deep_view(),
            name: self.name.deep_view(),
        }
    }
}

impl Value for NetworkEffect {
    fn same(&self, other: &Self) -> (r: bool) {
        self.label.same(&other.label)
            && self.name.same(&other.name)
    }

    fn duplicate(&self) -> (r: Self) {
        NetworkEffect {
            label: self.label.duplicate(),
            name: self.name.duplicate(),
        }
    }
}

/// The kinds of tools.
#[derive(Debug, Clone, Copy, PartialEq, Eq, Structural)]
pub enum ToolCategory {
    File,
    Search,
    Shell,
    Agent,
    Mcp,
    Custom,
}

impl DeepView for ToolCategory {
    type V = ToolCategory;

    open spec fn deep_view(&self) -> ToolCategory {
        *self
    }
}

impl Value for ToolCategory {
    fn same(&self, other: &Self) -> (r: bool) {
        *self == *other
    }

    fn duplicate(&self) -> (r: Self) {
        *self
    }
}

/// Why an extension process was not launched, or its receipt not accepted.
#[derive(Debug, Clone, Copy, PartialEq, Eq, Structural)]
pub enum ExtensionProcessLaunchErrorCode {
    ProcessIsolationUnavailable,
    NetworkIsolationUnavailable,
    NetworkApprovalRequired,
    BackendReceiptInvalid,
}

impl DeepView for ExtensionProcessLaunchErrorCode {
    type V = ExtensionProcessLaunchErrorCode;

    open spec fn deep_view(&self) -> ExtensionProcessLaunchErrorCode {
        *self
    }
}

impl Value for ExtensionProcessLaunchErrorCode {
    fn same(&self, other: &Self) -> (r: bool) {
        *self == *other
    }

    fn duplicate(&self) -> (r: Self) {
        *self
    }
}

/// The failure of the launch of an extension process.
#[derive(Debug, Clone, PartialEq, Eq)]
pub struct ExtensionProcessLaunchError {
    pub code: ExtensionProcessLaunchErrorCode,
    pub subject: String,
    pub message: String,
}

/// What a [`ExtensionProcessLaunchError`] holds.
#[verifier::ext_equal]
pub struct ExtensionProcessLaunchErrorView {
    pub code: ExtensionProcessLaunchErrorCode,
    pub subject: Seq<char>,
    pub message: Seq<char>,
}

impl DeepView for ExtensionProcessLaunchError {
    type V = ExtensionProcessLaunchErrorView;

    open spec fn deep_view(&self) -> ExtensionProcessLaunchErrorView {
        ExtensionProcessLaunchErrorView {
            code: self.code.deep_view(),
            subject: self.subject.deep_view(),
            message: self.message.deep_view(),
        }
    }
}

impl Value for ExtensionProcessLaunchError {
    fn same(&self, other: &Self) -> (r: bool) {
        self.code.same(&other.code)
            && self.subject.same(&other.subject)
            && self.message.same(&other.message)
    }

    fn duplicate(&self) -> (r: Self) {
        ExtensionProcessLaunchError {
            code: self.code.duplicate(),
            subject: self.subject.duplicate(),
            message: self.message.duplicate(),
        }
    }
}

/// A span of time: whole seconds, and milliseconds below one second.
#[derive(Debug, Clone, Copy, PartialEq, Eq, Structural)]
pub struct ExecutionTimeout {
    pub seconds: u64,
    pub subsec_millis: u32,
}

impl DeepView for ExecutionTimeout {
    type V = ExecutionTimeout;

    open spec fn deep_view(&self) -> ExecutionTimeout {
        *self
    }
}

impl Value for ExecutionTimeout {
    fn same(&self, other: &Self) -> (r: bool) {
        *self == *other
    }

    fn duplicate(&self) -> (r: Self) {
        *self
    }
}

/// Stable identifier for an execution backend implementation.
#[derive(Debug, Clone, Copy, PartialEq, Eq, Structural)]
pub enum ExecutionBackendKind {
    Local,
    MacosSeatbelt,
    LinuxBubblewrap,
    Docker,
}

impl DeepView for ExecutionBackendKind {
    type V = ExecutionBackendKind;

    open spec fn deep_view(&self) -> ExecutionBackendKind {
        *self
    }
}

impl Value for ExecutionBackendKind {
    fn same(&self, other: &Self) -> (r: bool) {
        *self == *other
    }

    fn duplicate(&self) -> (r: Self) {
        *self
    }
}

/// One thing that an execution backend can enforce or offer.
#[derive(Debug, Clone, Copy, PartialEq, Eq, Structural)]
pub enum ExecutionCapability {
    FilesystemIsolation,
    NetworkIsolation,
    ProcessIsolation,
    ResourceLimits,
    PersistentPty,
    WorkspaceSnapshot,
}

impl DeepView for ExecutionCapability {
    type V = ExecutionCapability;

    open spec fn deep_view(&self) -> ExecutionCapability {
        *self
    }
}

impl Value for ExecutionCapability {
    fn same(&self, other: &Self) -> (r: bool) {
        *self == *other
    }

    fn duplicate(&self) -> (r: Self) {
        *self
    }
}

/// The capabilities that an execution needs.
#[derive(Debug, Clone, Copy, PartialEq, Eq, Structural)]
pub struct ExecutionCapabilityRequirements {
    pub filesystem_isolation: bool,
    pub network_isolation: bool,
    pub process_isolation: bool,
    pub resource_limits: bool,
    pub persistent_pty: bool,
    pub workspace_snapshot: bool,
}

impl DeepView for ExecutionCapabilityRequirements {
    type V = ExecutionCapabilityRequirements;

    open spec fn deep_view(&self) -> ExecutionCapabilityRequirements {
        *self
    }
}

impl Value for ExecutionCapabilityRequirements {
    fn same(&self, other: &Self) -> (r: bool) {
        *self == *other
    }

    fn duplicate(&self) -> (r: Self) {
        *self
    }
}

/// Capability summary for an execution backend.  These flags describe what the backend can enforce.
/// They are intentionally separate from permission policy: policy decides whether execution is
/// allowed, while backend capabilities describe what is actually isolated once execution starts.
#[derive(Debug, Clone, Copy, PartialEq, Eq, Structural)]
pub struct ExecutionBackendCapabilities {
    pub filesystem_isolation: bool,
    pub network_isolation: bool,
    pub process_isolation: bool,
    pub resource_limits: bool,
    pub persistent_pty: bool,
    pub workspace_snapshot: bool,
}

impl DeepView for ExecutionBackendCapabilities {
    type V = ExecutionBackendCapabilities;

    open spec fn deep_view(&self) -> ExecutionBackendCapabilities {
        *self
    }
}

impl Value for ExecutionBackendCapabilities {
    fn same(&self, other: &Self) -> (r: bool) {
        *self == *other
    }

    fn duplicate(&self) -> (r: Self) {
        *self
    }
}

/// Network policy outcome reported by an execution backend for a single command.
#[derive(Debug, Clone, Copy, PartialEq, Eq, Structural)]
pub enum ExecutionNetworkPolicy {
    /// Network access was intentionally allowed for this execution.
    Allowed,
    /// Network access was denied by a backend with network enforcement.
    Denied,
    /// The backend cannot enforce the requested network policy.
    Unsupported,
    /// No reliable network policy information was available.
    Unknown,
}

impl DeepView for ExecutionNetworkPolicy {
    type V = ExecutionNetworkPolicy;

    open spec fn deep_view(&self) -> ExecutionNetworkPolicy {
        *self
    }
}

impl Value for ExecutionNetworkPolicy {
    fn same(&self, other: &Self) -> (r: bool) {
        *self == *other
    }

    fn duplicate(&self) -> (r: Self) {
        *self
    }
}

/// Auditable network policy receipt attached to an execution receipt.
#[derive(Debug, Clone, PartialEq, Eq)]
pub struct ExecutionNetworkReceipt {
    pub policy: ExecutionNetworkPolicy,
    pub reason: Option<String>,
}

/// What a [`ExecutionNetworkReceipt`] holds.
#[verifier::ext_equal]
pub struct ExecutionNetworkReceiptView {
    pub policy: ExecutionNetworkPolicy,
    pub reason: Option<Seq<char>>,
}

impl DeepView for ExecutionNetworkReceipt {
    type V = ExecutionNetworkReceiptView;

    open spec fn deep_view(&self) -> ExecutionNetworkReceiptView {
        ExecutionNetworkReceiptView {
            policy: self.policy.deep_view(),
            reason: self.reason.deep_view(),
        }
    }
}

impl Value for ExecutionNetworkReceipt {
    fn same(&self, other: &Self) -> (r: bool) {
        self.policy.same(&other.policy)
            && self.reason.same(&other.reason)
    }

    fn duplicate(&self) -> (r: Self) {
        ExecutionNetworkReceipt {
            policy: self.policy.duplicate(),
            reason: self.reason.duplicate(),
        }
    }
}

/// What a limit on resources bounds.
#[derive(Debug, Clone, Copy, PartialEq, Eq, Structural)]
pub enum ExecutionResourceLimitKind {
    WallClockTimeout,
    CpuTime,
    Memory,
    ProcessCount,
}

impl DeepView for ExecutionResourceLimitKind {
    type V = ExecutionResourceLimitKind;

    open spec fn deep_view(&self) -> ExecutionResourceLimitKind {
        *self
    }
}

impl Value for ExecutionResourceLimitKind {
    fn same(&self, other: &Self) -> (r: bool) {
        *self == *other
    }

    fn duplicate(&self) -> (r: Self) {
        *self
    }
}

/// One limit on resources, as it was applied or as it could not be.
#[derive(Debug, Clone, PartialEq, Eq)]
pub struct ExecutionResourceLimitReceipt {
    pub kind: ExecutionResourceLimitKind,
    pub value: String,
}

/// What a [`ExecutionResourceLimitReceipt`] holds.
#[verifier::ext_equal]
pub struct ExecutionResourceLimitReceiptView {
    pub kind: ExecutionResourceLimitKind,
    pub value: Seq<char>,
}

impl DeepView for ExecutionResourceLimitReceipt {
    type V = ExecutionResourceLimitReceiptView;

    open spec fn deep_view(&self) -> ExecutionResourceLimitReceiptView {
        ExecutionResourceLimitReceiptView {
            kind: self.kind.deep_view(),
            value: self.value.deep_view(),
        }
    }
}

impl Value for ExecutionResourceLimitReceipt {
    fn same(&self, other: &Self) -> (r: bool) {
        self.kind.same(&other.kind)
            && self.value.same(&other.value)
    }

    fn duplicate(&self) -> (r: Self) {
        ExecutionResourceLimitReceipt {
            kind: self.kind.duplicate(),
            value: self.value.duplicate(),
        }
    }
}

/// What ended an execution for want of time.
#[derive(Debug, Clone, Copy, PartialEq, Eq, Structural)]
pub enum ExecutionTimeoutSource {
    NoTimeout,
    WallClock,
}

impl DeepView for ExecutionTimeoutSource {
    type V = ExecutionTimeoutSource;

    open spec fn deep_view(&self) -> ExecutionTimeoutSource {
        *self
    }
}

impl Value for ExecutionTimeoutSource {
    fn same(&self, other: &Self) -> (r: bool) {
        *self == *other
    }

    fn duplicate(&self) -> (r: Self) {
        *self
    }
}

/// How the cleanup after an execution went.
#[derive(Debug, Clone, Copy, PartialEq, Eq, Structural)]
pub enum ExecutionCleanupStatus {
    NotNeeded,
    Completed,
    Failed,
    Unsupported,
    Unknown,
}

impl DeepView for ExecutionCleanupStatus {
    type V = ExecutionCleanupStatus;

    open spec fn deep_view(&self) -> ExecutionCleanupStatus {
        *self
    }
}

impl Value for ExecutionCleanupStatus {
    fn same(&self, other: &Self) -> (r: bool) {
        *self == *other
    }

    fn duplicate(&self) -> (r: Self) {
        *self
    }
}

/// Evidence of the cleanup after an execution.
#[derive(Debug, Clone, PartialEq, Eq)]
pub struct ExecutionCleanupReceipt {
    pub status: ExecutionCleanupStatus,
    pub reason: Option<String>,
}

/// What a [`ExecutionCleanupReceipt`] holds.
#[verifier::ext_equal]
pub struct ExecutionCleanupReceiptView {
    pub status: ExecutionCleanupStatus,
    pub reason: Option<Seq<char>>,
}

impl DeepView for ExecutionCleanupReceipt {
    type V = ExecutionCleanupReceiptView;

    open spec fn deep_view(&self) -> ExecutionCleanupReceiptView {
        ExecutionCleanupReceiptView {
            status: self.status.deep_view(),
            reason: self.reason.deep_view(),
        }
    }
}

impl Value for ExecutionCleanupReceipt {
    fn same(&self, other: &Self) -> (r: bool) {
        self.status.same(&other.status)
            && self.reason.same(&other.reason)
    }

    fn duplicate(&self) -> (r: Self) {
        ExecutionCleanupReceipt {
            status: self.status.duplicate(),
            reason: self.reason.duplicate(),
        }
    }
}

/// Evidence of the limits on resources that an execution ran under.
#[derive(Debug, Clone, PartialEq, Eq)]
pub struct ExecutionResourceReceipt {
    pub applied_limits: Vec<ExecutionResourceLimitReceipt>,
    pub unsupported_limits: Vec<ExecutionResourceLimitReceipt>,
    pub timeout_source: ExecutionTimeoutSource,
    pub cleanup: ExecutionCleanupReceipt,
}

/// What a [`ExecutionResourceReceipt`] holds.
#[verifier::ext_equal]
pub struct ExecutionResourceReceiptView {
    pub applied_limits: Seq<ExecutionResourceLimitReceiptView>,
    pub unsupported_limits: Seq<ExecutionResourceLimitReceiptView>,
    pub timeout_source: ExecutionTimeoutSource,
    pub cleanup: ExecutionCleanupReceiptView,
}

impl DeepView for ExecutionResourceReceipt {
    type V = ExecutionResourceReceiptView;

    open spec fn deep_view(&self) -> ExecutionResourceReceiptView {
        ExecutionResourceReceiptView {
            applied_limits: self.applied_limits.deep_view(),
            unsupported_limits: self.unsupported_limits.deep_view(),
            timeout_source: self.timeout_source.deep_view(),
            cleanup: self.cleanup.deep_view(),
        }
    }
}

impl Value for ExecutionResourceReceipt {
    fn same(&self, other: &Self) -> (r: bool) {
        self.applied_limits.same(&other.applied_limits)
            && self.unsupported_limits.same(&other.unsupported_limits)
            && self.timeout_source.same(&other.timeout_source)
            && self.cleanup.same(&other.cleanup)
    }

    fn duplicate(&self) -> (r: Self) {
        ExecutionResourceReceipt {
            applied_limits: self.applied_limits.duplicate(),
            unsupported_limits: self.unsupported_limits.duplicate(),
            timeout_source: self.timeout_source.duplicate(),
            cleanup: self.cleanup.duplicate(),
        }
    }
}

/// Process output stream that caused a collection or framing terminal condition.
#[derive(Debug, Clone, Copy, PartialEq, Eq, Structural)]
pub enum ExecutionOutputStream {
    /// Standard output (`stdout`).
    Stdout,
    /// Standard error (`stderr`).
    Stderr,
    /// Aggregate limit or failure shared by both output streams.
    Combined,
}

impl DeepView for ExecutionOutputStream {
    type V = ExecutionOutputStream;

    open spec fn deep_view(&self) -> ExecutionOutputStream {
        *self
    }
}

impl Value for ExecutionOutputStream {
    fn same(&self, other: &Self) -> (r: bool) {
        *self == *other
    }

    fn duplicate(&self) -> (r: Self) {
        *self
    }
}

/// Bounded capture statistics for one process output stream.
#[derive(Debug, Clone, PartialEq, Eq)]
pub struct ExecutionStreamCapture {
    /// Bytes observed from the pipe before it closed or the reader failed.
    pub total_bytes: u64,
    /// Bytes retained in the receipt head/tail buffer.
    pub returned_bytes: u64,
    /// Observed bytes not retained in the receipt.
    pub omitted_bytes: u64,
    /// Prefix bytes retained before any omitted region.
    pub retained_head_bytes: u64,
    /// Suffix bytes retained after any omitted region.
    pub retained_tail_bytes: u64,
    /// Maximum bytes retained in memory for this stream.
    pub retained_limit_bytes: u64,
    /// Maximum observed bytes allowed before forced process-tree cleanup.
    pub hard_limit_bytes: u64,
    /// Lines observed in the original byte stream.
    pub total_lines: u64,
    /// Whether observed bytes were omitted from the receipt.
    pub truncated: bool,
}

/// What a [`ExecutionStreamCapture`] holds.
#[verifier::ext_equal]
pub struct ExecutionStreamCaptureView {
    pub total_bytes: u64,
    pub returned_bytes: u64,
    pub omitted_bytes: u64,
    pub retained_head_bytes: u64,
    pub retained_tail_bytes: u64,
    pub retained_limit_bytes: u64,
    pub hard_limit_bytes: u64,
    pub total_lines: u64,
    pub truncated: bool,
}

impl DeepView for ExecutionStreamCapture {
    type V = ExecutionStreamCaptureView;

    open spec fn deep_view(&self) -> ExecutionStreamCaptureView {
        ExecutionStreamCaptureView {
            total_bytes: self.total_bytes.deep_view(),
            returned_bytes: self.returned_bytes.deep_view(),
            omitted_bytes: self.omitted_bytes.deep_view(),
            retained_head_bytes: self.retained_head_bytes.deep_view(),
            retained_tail_bytes: self.retained_tail_bytes.deep_view(),
            retained_limit_bytes: self.retained_limit_bytes.deep_view(),
            hard_limit_bytes: self.hard_limit_bytes.deep_view(),
            total_lines: self.total_lines.deep_view(),
            truncated: self.truncated.deep_view(),
        }
    }
}

impl Value for ExecutionStreamCapture {
    fn same(&self, other: &Self) -> (r: bool) {
        self.total_bytes.same(&other.total_bytes)
            && self.returned_bytes.same(&other.returned_bytes)
            && self.omitted_bytes.same(&other.omitted_bytes)
            && self.retained_head_bytes.same(&other.retained_head_bytes)
            && self.retained_tail_bytes.same(&other.retained_tail_bytes)
            && self.retained_limit_bytes.same(&other.retained_limit_bytes)
            && self.hard_limit_bytes.same(&other.hard_limit_bytes)
            && self.total_lines.same(&other.total_lines)
            && self.truncated.same(&other.truncated)
    }

    fn duplicate(&self) -> (r: Self) {
        ExecutionStreamCapture {
            total_bytes: self.total_bytes.duplicate(),
            returned_bytes: self.returned_bytes.duplicate(),
            omitted_bytes: self.omitted_bytes.duplicate(),
            retained_head_bytes: self.retained_head_bytes.duplicate(),
            retained_tail_bytes: self.retained_tail_bytes.duplicate(),
            retained_limit_bytes: self.retained_limit_bytes.duplicate(),
            hard_limit_bytes: self.hard_limit_bytes.duplicate(),
            total_lines: self.total_lines.duplicate(),
            truncated: self.truncated.duplicate(),
        }
    }
}

/// Terminal reason selected once by the process supervisor.
#[derive(Debug, Clone, PartialEq, Eq)]
pub enum ExecutionTerminationCause {
    /// The supervised process exited without an output-supervisor terminal condition.
    Exited,
    /// The configured absolute wall-clock deadline elapsed.
    TimedOut,
    /// Cooperative run cancellation selected process-tree cleanup.
    Cancelled,
    /// A per-stream or combined hard output limit was exceeded.
    OutputLimit {
        stream: ExecutionOutputStream,
        limit_bytes: u64,
        observed_bytes: u64,
    },
    /// A pipe reader failed before the stream reached EOF.
    ReaderFailed {
        stream: ExecutionOutputStream,
        reason: String,
    },
}

/// What a [`ExecutionTerminationCause`] holds.
#[verifier::ext_equal]
pub enum ExecutionTerminationCauseView {
    /// The supervised process exited without an output-supervisor terminal condition.
    Exited,
    /// The configured absolute wall-clock deadline elapsed.
    TimedOut,
    /// Cooperative run cancellation selected process-tree cleanup.
    Cancelled,
    /// A per-stream or combined hard output limit was exceeded.
    OutputLimit {
        stream: ExecutionOutputStream,
        limit_bytes: u64,
        observed_bytes: u64,
    },
    /// A pipe reader failed before the stream reached EOF.
    ReaderFailed {
        stream: ExecutionOutputStream,
        reason: Seq<char>,
    },
}

impl DeepView for ExecutionTerminationCause {
    type V = ExecutionTerminationCauseView;

    open spec fn deep_view(&self) -> ExecutionTerminationCauseView {
        match self {
            ExecutionTerminationCause::Exited => ExecutionTerminationCauseView::Exited,
            ExecutionTerminationCause::TimedOut => ExecutionTerminationCauseView::TimedOut,
            ExecutionTerminationCause::Cancelled => ExecutionTerminationCauseView::Cancelled,
            ExecutionTerminationCause::OutputLimit { stream, limit_bytes, observed_bytes } => ExecutionTerminationCauseView::OutputLimit {
                stream: stream.deep_view(),
                limit_bytes: limit_bytes.deep_view(),
                observed_bytes: observed_bytes.deep_view(),
            },
            ExecutionTerminationCause::ReaderFailed { stream, reason } => ExecutionTerminationCauseView::ReaderFailed {
                stream: stream.deep_view(),
                reason: reason.deep_view(),
            },
        }
    }
}

impl Value for ExecutionTerminationCause {
    fn same(&self, other: &Self) -> (r: bool) {
        match (self, other) {
            (
                ExecutionTerminationCause::Exited,
                ExecutionTerminationCause::Exited,
            ) => true,
            (
                ExecutionTerminationCause::TimedOut,
                ExecutionTerminationCause::TimedOut,
            ) => true,
            (
                ExecutionTerminationCause::Cancelled,
                ExecutionTerminationCause::Cancelled,
            ) => true,
            (
                ExecutionTerminationCause::OutputLimit { stream, limit_bytes, observed_bytes },
                ExecutionTerminationCause::OutputLimit { stream: stream2, limit_bytes: limit_bytes2, observed_bytes: observed_bytes2 },
            ) => stream.same(stream2)
                && limit_bytes.same(limit_bytes2)
                && observed_bytes.same(observed_bytes2),
            (
                ExecutionTerminationCause::ReaderFailed { stream, reason },
                ExecutionTerminationCause::ReaderFailed { stream: stream2, reason: reason2 },
            ) => stream.same(stream2)
                && reason.same(reason2),
            _ => false,
        }
    }

    fn duplicate(&self) -> (r: Self) {
        match self {
            ExecutionTerminationCause::Exited => ExecutionTerminationCause::Exited,
            ExecutionTerminationCause::TimedOut => ExecutionTerminationCause::TimedOut,
            ExecutionTerminationCause::Cancelled => ExecutionTerminationCause::Cancelled,
            ExecutionTerminationCause::OutputLimit { stream, limit_bytes, observed_bytes } => ExecutionTerminationCause::OutputLimit {
                stream: stream.duplicate(),
                limit_bytes: limit_bytes.duplicate(),
                observed_bytes: observed_bytes.duplicate(),
            },
            ExecutionTerminationCause::ReaderFailed { stream, reason } => ExecutionTerminationCause::ReaderFailed {
                stream: stream.duplicate(),
                reason: reason.duplicate(),
            },
        }
    }
}

/// Provider-neutral evidence for bounded stdout/stderr collection.
#[derive(Debug, Clone, PartialEq, Eq)]
pub struct ExecutionOutputReceipt {
    /// Schema version for this evidence.
    pub schema_version: u8,
    /// Stdout collection evidence.
    pub stdout: ExecutionStreamCapture,
    /// Stderr collection evidence.
    pub stderr: ExecutionStreamCapture,
    /// Total bytes observed across stdout and stderr.
    pub combined_total_bytes: u64,
    /// Combined hard ceiling applied across stdout and stderr.
    pub combined_hard_limit_bytes: u64,
    /// Single terminal cause selected by the process supervisor.
    pub termination: ExecutionTerminationCause,
}

/// What a [`ExecutionOutputReceipt`] holds.
#[verifier::ext_equal]
pub struct ExecutionOutputReceiptView {
    pub schema_version: u8,
    pub stdout: ExecutionStreamCaptureView,
    pub stderr: ExecutionStreamCaptureView,
    pub combined_total_bytes: u64,
    pub combined_hard_limit_bytes: u64,
    pub termination: ExecutionTerminationCauseView,
}

impl DeepView for ExecutionOutputReceipt {
    type V = ExecutionOutputReceiptView;

    open spec fn deep_view(&self) -> ExecutionOutputReceiptView {
        ExecutionOutputReceiptView {
            schema_version: self.schema_version.deep_view(),
            stdout: self.stdout.deep_view(),
            stderr: self.stderr.deep_view(),
            combined_total_bytes: self.combined_total_bytes.deep_view(),
            combined_hard_limit_bytes: self.combined_hard_limit_bytes.deep_view(),
            termination: self.termination.deep_view(),
        }
    }
}

impl Value for ExecutionOutputReceipt {
    fn same(&self, other: &Self) -> (r: bool) {
        self.schema_version.same(&other.schema_version)
            && self.stdout.same(&other.stdout)
            && self.stderr.same(&other.stderr)
            && self.combined_total_bytes.same(&other.combined_total_bytes)
            && self.combined_hard_limit_bytes.same(&other.combined_hard_limit_bytes)
            && self.termination.same(&other.termination)
    }

    fn duplicate(&self) -> (r: Self) {
        ExecutionOutputReceipt {
            schema_version: self.schema_version.duplicate(),
            stdout: self.stdout.duplicate(),
            stderr: self.stderr.duplicate(),
            combined_total_bytes: self.combined_total_bytes.duplicate(),
            combined_hard_limit_bytes: self.combined_hard_limit_bytes.duplicate(),
            termination: self.termination.duplicate(),
        }
    }
}

/// What a sandbox lets a command do.
#[derive(Debug, Clone, Copy, PartialEq, Eq, Structural)]
pub enum ExecutionSandboxProfile {
    /// Preserve current execution behavior. This is not a sandbox profile.
    Unconfined,
    /// Commands may write the workspace but should not mutate user state outside it.
    WorkspaceWrite,
    /// Build-like commands may read dependency caches but must not use the network.
    BuildOffline,
    /// Build-like commands may read dependency caches and use the network.
    BuildNetworked,
}

impl DeepView for ExecutionSandboxProfile {
    type V = ExecutionSandboxProfile;

    open spec fn deep_view(&self) -> ExecutionSandboxProfile {
        *self
    }
}

impl Value for ExecutionSandboxProfile {
    fn same(&self, other: &Self) -> (r: bool) {
        *self == *other
    }

    fn duplicate(&self) -> (r: Self) {
        *self
    }
}

/// What to do when the requested backend cannot satisfy the requested profile.
#[derive(Debug, Clone, Copy, PartialEq, Eq, Structural)]
pub enum ExecutionSandboxFallback {
    /// Fail closed. This is the only fallback that preserves sandbox invariants without UI input.
    Deny,
    /// Ask the user before relaxing enforcement. Non-interactive entrypoints should treat this as
    /// deny.
    Prompt,
    /// Explicitly relax to unconfined local execution. This is an advanced escape hatch.
    Unconfined,
}

impl DeepView for ExecutionSandboxFallback {
    type V = ExecutionSandboxFallback;

    open spec fn deep_view(&self) -> ExecutionSandboxFallback {
        *self
    }
}

impl Value for ExecutionSandboxFallback {
    fn same(&self, other: &Self) -> (r: bool) {
        *self == *other
    }

    fn duplicate(&self) -> (r: Self) {
        *self
    }
}

/// Advanced sandbox backend configuration used only when `execution.strategy = "sandbox"`.
#[derive(Debug, Clone, PartialEq, Eq)]
pub struct ExecutionSandboxStrategyConfig {
    pub backend: ExecutionBackendKind,
    pub profile: ExecutionSandboxProfile,
    pub fallback: ExecutionSandboxFallback,
    pub container_image: Option<String>,
}

/// What a [`ExecutionSandboxStrategyConfig`] holds.
#[verifier::ext_equal]
pub struct ExecutionSandboxStrategyConfigView {
    pub backend: ExecutionBackendKind,
    pub profile: ExecutionSandboxProfile,
    pub fallback: ExecutionSandboxFallback,
    pub container_image: Option<Seq<char>>,
}

impl DeepView for ExecutionSandboxStrategyConfig {
    type V = ExecutionSandboxStrategyConfigView;

    open spec fn deep_view(&self) -> ExecutionSandboxStrategyConfigView {
        ExecutionSandboxStrategyConfigView {
            backend: self.backend.deep_view(),
            profile: self.profile.deep_view(),
            fallback: self.fallback.deep_view(),
            container_image: self.container_image.deep_view(),
        }
    }
}

impl Value for ExecutionSandboxStrategyConfig {
    fn same(&self, other: &Self) -> (r: bool) {
        self.backend.same(&other.backend)
            && self.profile.same(&other.profile)
            && self.fallback.same(&other.fallback)
            && self.container_image.same(&other.container_image)
    }

    fn duplicate(&self) -> (r: Self) {
        ExecutionSandboxStrategyConfig {
            backend: self.backend.duplicate(),
            profile: self.profile.duplicate(),
            fallback: self.fallback.duplicate(),
            container_image: self.container_image.duplicate(),
        }
    }
}

/// Top-level execution strategy. Local preserves ordinary process behavior; sandbox requires an
/// explicit sandbox backend config.
#[derive(Debug, Clone, PartialEq, Eq)]
pub enum ExecutionStrategyConfig {
    Local,
    Sandbox(ExecutionSandboxStrategyConfig),
}

/// What a [`ExecutionStrategyConfig`] holds.
#[verifier::ext_equal]
pub enum ExecutionStrategyConfigView {
    Local,
    Sandbox(ExecutionSandboxStrategyConfigView),
}

impl DeepView for ExecutionStrategyConfig {
    type V = ExecutionStrategyConfigView;

    open spec fn deep_view(&self) -> ExecutionStrategyConfigView {
        match self {
            ExecutionStrategyConfig::Local => ExecutionStrategyConfigView::Local,
            ExecutionStrategyConfig::Sandbox(x) => ExecutionStrategyConfigView::Sandbox(x.deep_view()),
        }
    }
}

impl Value for ExecutionStrategyConfig {
    fn same(&self, other: &Self) -> (r: bool) {
        match (self, other) {
            (
                ExecutionStrategyConfig::Local,
                ExecutionStrategyConfig::Local,
            ) => true,
            (
                ExecutionStrategyConfig::Sandbox(x),
                ExecutionStrategyConfig::Sandbox(x2),
            ) => x.same(x2),
            _ => false,
        }
    }

    fn duplicate(&self) -> (r: Self) {
        match self {
            ExecutionStrategyConfig::Local => ExecutionStrategyConfig::Local,
            ExecutionStrategyConfig::Sandbox(x) => ExecutionStrategyConfig::Sandbox(x.duplicate()),
        }
    }
}

/// User-configurable execution policy.
#[derive(Debug, Clone, PartialEq, Eq)]
pub struct ExecutionConfig {
    pub strategy: ExecutionStrategyConfig,
}

/// What a [`ExecutionConfig`] holds.
#[verifier::ext_equal]
pub struct ExecutionConfigView {
    pub strategy: ExecutionStrategyConfigView,
}

impl DeepView for ExecutionConfig {
    type V = ExecutionConfigView;

    open spec fn deep_view(&self) -> ExecutionConfigView {
        ExecutionConfigView {
            strategy: self.strategy.deep_view(),
        }
    }
}

impl Value for ExecutionConfig {
    fn same(&self, other: &Self) -> (r: bool) {
        self.strategy.same(&other.strategy)
    }

    fn duplicate(&self) -> (r: Self) {
        ExecutionConfig {
            strategy: self.strategy.duplicate(),
        }
    }
}

/// The name of an execution strategy.
#[derive(Debug, Clone, Copy, PartialEq, Eq, Structural)]
pub enum ExecutionStrategyMode {
    Local,
    Sandbox,
}

impl DeepView for ExecutionStrategyMode {
    type V = ExecutionStrategyMode;

    open spec fn deep_view(&self) -> ExecutionStrategyMode {
        *self
    }
}

impl Value for ExecutionStrategyMode {
    fn same(&self, other: &Self) -> (r: bool) {
        *self == *other
    }

    fn duplicate(&self) -> (r: Self) {
        *self
    }
}

/// The execution policy as it is written down: the name of the strategy, and a sandbox table where
/// there is one.
#[derive(Debug, Clone, PartialEq, Eq)]
pub struct ExecutionConfigWire {
    pub strategy: ExecutionStrategyMode,
    pub sandbox: Option<ExecutionSandboxStrategyConfig>,
}

/// What a [`ExecutionConfigWire`] holds.
#[verifier::ext_equal]
pub struct ExecutionConfigWireView {
    pub strategy: ExecutionStrategyMode,
    pub sandbox: Option<ExecutionSandboxStrategyConfigView>,
}

impl DeepView for ExecutionConfigWire {
    type V = ExecutionConfigWireView;

    open spec fn deep_view(&self) -> ExecutionConfigWireView {
        ExecutionConfigWireView {
            strategy: self.strategy.deep_view(),
            sandbox: self.sandbox.deep_view(),
        }
    }
}

impl Value for ExecutionConfigWire {
    fn same(&self, other: &Self) -> (r: bool) {
        self.strategy.same(&other.strategy)
            && self.sandbox.same(&other.sandbox)
    }

    fn duplicate(&self) -> (r: Self) {
        ExecutionConfigWire {
            strategy: self.strategy.duplicate(),
            sandbox: self.sandbox.duplicate(),
        }
    }
}

/// Required isolation level for command execution.
#[derive(Debug, Clone, Copy, PartialEq, Eq, Structural)]
pub enum ExecutionIsolationPolicy {
    /// Preserve current local process behavior. This is not a sandbox.
    AllowLocal,
    /// Require a backend that can enforce filesystem and process isolation.
    RequireSandbox,
}

impl DeepView for ExecutionIsolationPolicy {
    type V = ExecutionIsolationPolicy;

    open spec fn deep_view(&self) -> ExecutionIsolationPolicy {
        *self
    }
}

impl Value for ExecutionIsolationPolicy {
    fn same(&self, other: &Self) -> (r: bool) {
        *self == *other
    }

    fn duplicate(&self) -> (r: Self) {
        *self
    }
}

/// Ephemeral network authorization carried to an extension process pre-spawn boundary.  This value
/// is intentionally neither configuration nor durable state. The effective policy is resolved for
/// one execution, while `explicit_approval` is supplied only after the agent observes a user
/// approval for an `ask` network facet.
#[derive(Debug, Clone, Copy, PartialEq, Eq, Structural)]
pub struct ExtensionProcessNetworkAdmission {
    pub policy: NetworkPolicy,
    pub explicit_approval: bool,
}

impl DeepView for ExtensionProcessNetworkAdmission {
    type V = ExtensionProcessNetworkAdmission;

    open spec fn deep_view(&self) -> ExtensionProcessNetworkAdmission {
        *self
    }
}

impl Value for ExtensionProcessNetworkAdmission {
    fn same(&self, other: &Self) -> (r: bool) {
        *self == *other
    }

    fn duplicate(&self) -> (r: Self) {
        *self
    }
}

/// What a sandbox profile asks for and allows.
#[derive(Debug, Clone, Copy, PartialEq, Eq)]
pub struct ExecutionSandboxProfileSpec {
    pub profile: ExecutionSandboxProfile,
    pub summary: &'static str,
    pub requires_sandbox: bool,
    pub requirements: ExecutionCapabilityRequirements,
    pub requires_network_isolation: bool,
    pub network_allowed: bool,
    pub dependency_caches_read_only: bool,
}

/// What a [`ExecutionSandboxProfileSpec`] holds.
#[verifier::ext_equal]
pub struct ExecutionSandboxProfileSpecView {
    pub profile: ExecutionSandboxProfile,
    pub summary: Seq<char>,
    pub requires_sandbox: bool,
    pub requirements: ExecutionCapabilityRequirements,
    pub requires_network_isolation: bool,
    pub network_allowed: bool,
    pub dependency_caches_read_only: bool,
}

impl DeepView for ExecutionSandboxProfileSpec {
    type V = ExecutionSandboxProfileSpecView;

    open spec fn deep_view(&self) -> ExecutionSandboxProfileSpecView {
        ExecutionSandboxProfileSpecView {
            profile: self.profile.deep_view(),
            summary: self.summary.deep_view(),
            requires_sandbox: self.requires_sandbox.deep_view(),
            requirements: self.requirements.deep_view(),
            requires_network_isolation: self.requires_network_isolation.deep_view(),
            network_allowed: self.network_allowed.deep_view(),
            dependency_caches_read_only: self.dependency_caches_read_only.deep_view(),
        }
    }
}

impl Value for ExecutionSandboxProfileSpec {
    fn same(&self, other: &Self) -> (r: bool) {
        self.profile.same(&other.profile)
            && self.summary.same(&other.summary)
            && self.requires_sandbox.same(&other.requires_sandbox)
            && self.requirements.same(&other.requirements)
            && self.requires_network_isolation.same(&other.requires_network_isolation)
            && self.network_allowed.same(&other.network_allowed)
            && self.dependency_caches_read_only.same(&other.dependency_caches_read_only)
    }

    fn duplicate(&self) -> (r: Self) {
        ExecutionSandboxProfileSpec {
            profile: self.profile.duplicate(),
            summary: self.summary.duplicate(),
            requires_sandbox: self.requires_sandbox.duplicate(),
            requirements: self.requirements.duplicate(),
            requires_network_isolation: self.requires_network_isolation.duplicate(),
            network_allowed: self.network_allowed.duplicate(),
            dependency_caches_read_only: self.dependency_caches_read_only.duplicate(),
        }
    }
}

/// What came of the selection of a backend.
#[derive(Debug, Clone, Copy, PartialEq, Eq, Structural)]
pub enum ExecutionBackendSelectionDecision {
    Selected,
    Unavailable,
    MissingCapabilities,
    FallbackDenied,
    FallbackPromptRequired,
    FallbackUnconfined,
}

impl DeepView for ExecutionBackendSelectionDecision {
    type V = ExecutionBackendSelectionDecision;

    open spec fn deep_view(&self) -> ExecutionBackendSelectionDecision {
        *self
    }
}

impl Value for ExecutionBackendSelectionDecision {
    fn same(&self, other: &Self) -> (r: bool) {
        *self == *other
    }

    fn duplicate(&self) -> (r: Self) {
        *self
    }
}

/// Why a backend was selected, or was not.
#[derive(Debug, Clone, PartialEq, Eq)]
pub struct ExecutionBackendSelectionDiagnostic {
    pub requested_backend: ExecutionBackendKind,
    pub selected_backend: Option<ExecutionBackendKind>,
    pub requested_profile: ExecutionSandboxProfile,
    pub fallback: ExecutionSandboxFallback,
    pub requirements: ExecutionCapabilityRequirements,
    pub capabilities: Option<ExecutionBackendCapabilities>,
    pub missing_capabilities: Vec<ExecutionCapability>,
    pub platform_available: bool,
    pub availability_reason: Option<String>,
    pub decision: ExecutionBackendSelectionDecision,
}

/// What a [`ExecutionBackendSelectionDiagnostic`] holds.
#[verifier::ext_equal]
pub struct ExecutionBackendSelectionDiagnosticView {
    pub requested_backend: ExecutionBackendKind,
    pub selected_backend: Option<ExecutionBackendKind>,
    pub requested_profile: ExecutionSandboxProfile,
    pub fallback: ExecutionSandboxFallback,
    pub requirements: ExecutionCapabilityRequirements,
    pub capabilities: Option<ExecutionBackendCapabilities>,
    pub missing_capabilities: Seq<ExecutionCapability>,
    pub platform_available: bool,
    pub availability_reason: Option<Seq<char>>,
    pub decision: ExecutionBackendSelectionDecision,
}

impl DeepView for ExecutionBackendSelectionDiagnostic {
    type V = ExecutionBackendSelectionDiagnosticView;

    open spec fn deep_view(&self) -> ExecutionBackendSelectionDiagnosticView {
        ExecutionBackendSelectionDiagnosticView {
            requested_backend: self.requested_backend.deep_view(),
            selected_backend: self.selected_backend.deep_view(),
            requested_profile: self.requested_profile.deep_view(),
            fallback: self.fallback.deep_view(),
            requirements: self.requirements.deep_view(),
            capabilities: self.capabilities.deep_view(),
            missing_capabilities: self.missing_capabilities.deep_view(),
            platform_available: self.platform_available.deep_view(),
            availability_reason: self.availability_reason.deep_view(),
            decision: self.decision.deep_view(),
        }
    }
}

impl Value for ExecutionBackendSelectionDiagnostic {
    fn same(&self, other: &Self) -> (r: bool) {
        self.requested_backend.same(&other.requested_backend)
            && self.selected_backend.same(&other.selected_backend)
            && self.requested_profile.same(&other.requested_profile)
            && self.fallback.same(&other.fallback)
            && self.requirements.same(&other.requirements)
            && self.capabilities.same(&other.capabilities)
            && self.missing_capabilities.same(&other.missing_capabilities)
            && self.platform_available.same(&other.platform_available)
            && self.availability_reason.same(&other.availability_reason)
            && self.decision.same(&other.decision)
    }

    fn duplicate(&self) -> (r: Self) {
        ExecutionBackendSelectionDiagnostic {
            requested_backend: self.requested_backend.duplicate(),
            selected_backend: self.selected_backend.duplicate(),
            requested_profile: self.requested_profile.duplicate(),
            fallback: self.fallback.duplicate(),
            requirements: self.requirements.duplicate(),
            capabilities: self.capabilities.duplicate(),
            missing_capabilities: self.missing_capabilities.duplicate(),
            platform_available: self.platform_available.duplicate(),
            availability_reason: self.availability_reason.duplicate(),
            decision: self.decision.duplicate(),
        }
    }
}

/// Whose boundary covers an execution.
#[derive(Debug, Clone, Copy, PartialEq, Eq, Structural)]
pub enum ExecutionCoverageLabel {
    KernelMediated,
    LocalBackendEnforced,
    ExternalMcpServer,
    PluginManaged,
    RemoteService,
    UnknownExternal,
}

impl DeepView for ExecutionCoverageLabel {
    type V = ExecutionCoverageLabel;

    open spec fn deep_view(&self) -> ExecutionCoverageLabel {
        *self
    }
}

impl Value for ExecutionCoverageLabel {
    fn same(&self, other: &Self) -> (r: bool) {
        *self == *other
    }

    fn duplicate(&self) -> (r: Self) {
        *self
    }
}

/// Whose boundary covers an execution, in words for the user.
#[derive(Debug, Clone, Copy, PartialEq, Eq)]
pub struct ExecutionCoverageSummary {
    pub label: ExecutionCoverageLabel,
    pub local_backend_controls_execution: bool,
    pub user_copy: &'static str,
}

/// What a [`ExecutionCoverageSummary`] holds.
#[verifier::ext_equal]
pub struct ExecutionCoverageSummaryView {
    pub label: ExecutionCoverageLabel,
    pub local_backend_controls_execution: bool,
    pub user_copy: Seq<char>,
}

impl DeepView for ExecutionCoverageSummary {
    type V = ExecutionCoverageSummaryView;

    open spec fn deep_view(&self) -> ExecutionCoverageSummaryView {
        ExecutionCoverageSummaryView {
            label: self.label.deep_view(),
            local_backend_controls_execution: self.local_backend_controls_execution.deep_view(),
            user_copy: self.user_copy.deep_view(),
        }
    }
}

impl Value for ExecutionCoverageSummary {
    fn same(&self, other: &Self) -> (r: bool) {
        self.label.same(&other.label)
            && self.local_backend_controls_execution.same(&other.local_backend_controls_execution)
            && self.user_copy.same(&other.user_copy)
    }

    fn duplicate(&self) -> (r: Self) {
        ExecutionCoverageSummary {
            label: self.label.duplicate(),
            local_backend_controls_execution: self.local_backend_controls_execution.duplicate(),
            user_copy: self.user_copy.duplicate(),
        }
    }
}

/// One non-interactive process execution request.
#[derive(Debug, Clone, PartialEq, Eq)]
pub struct ExecutionRequest {
    pub program: String,
    pub args: Vec<String>,
    pub cwd: String,
    pub env: Vec<EnvironmentEntry>,
    pub environment_policy: ProcessEnvironmentPolicy,
    pub timeout_ms: Option<u64>,
    pub timeout_secs: u64,
    pub cpu_time_ms: Option<u64>,
    pub memory_limit_bytes: Option<u64>,
    pub process_count_limit: Option<u32>,
}

/// What a [`ExecutionRequest`] holds.
#[verifier::ext_equal]
pub struct ExecutionRequestView {
    pub program: Seq<char>,
    pub args: Seq<Seq<char>>,
    pub cwd: Seq<char>,
    pub env: Seq<EnvironmentEntryView>,
    pub environment_policy: ProcessEnvironmentPolicyView,
    pub timeout_ms: Option<u64>,
    pub timeout_secs: u64,
    pub cpu_time_ms: Option<u64>,
    pub memory_limit_bytes: Option<u64>,
    pub process_count_limit: Option<u32>,
}

impl DeepView for ExecutionRequest {
    type V = ExecutionRequestView;

    open spec fn deep_view(&self) -> ExecutionRequestView {
        ExecutionRequestView {
            program: self.program.deep_view(),
            args: self.args.deep_view(),
            cwd: self.cwd.deep_view(),
            env: self.env.deep_view(),
            environment_policy: self.environment_policy.deep_view(),
            timeout_ms: self.timeout_ms.deep_view(),
            timeout_secs: self.timeout_secs.deep_view(),
            cpu_time_ms: self.cpu_time_ms.deep_view(),
            memory_limit_bytes: self.memory_limit_bytes.deep_view(),
            process_count_limit: self.process_count_limit.deep_view(),
        }
    }
}

impl Value for ExecutionRequest {
    fn same(&self, other: &Self) -> (r: bool) {
        self.program.same(&other.program)
            && self.args.same(&other.args)
            && self.cwd.same(&other.cwd)
            && self.env.same(&other.env)
            && self.environment_policy.same(&other.environment_policy)
            && self.timeout_ms.same(&other.timeout_ms)
            && self.timeout_secs.same(&other.timeout_secs)
            && self.cpu_time_ms.same(&other.cpu_time_ms)
            && self.memory_limit_bytes.same(&other.memory_limit_bytes)
            && self.process_count_limit.same(&other.process_count_limit)
    }

    fn duplicate(&self) -> (r: Self) {
        ExecutionRequest {
            program: self.program.duplicate(),
            args: self.args.duplicate(),
            cwd: self.cwd.duplicate(),
            env: self.env.duplicate(),
            environment_policy: self.environment_policy.duplicate(),
            timeout_ms: self.timeout_ms.duplicate(),
            timeout_secs: self.timeout_secs.duplicate(),
            cpu_time_ms: self.cpu_time_ms.duplicate(),
            memory_limit_bytes: self.memory_limit_bytes.duplicate(),
            process_count_limit: self.process_count_limit.duplicate(),
        }
    }
}

/// Result captured by an execution backend.
#[derive(Debug, Clone, PartialEq, Eq)]
pub struct ExecutionReceipt {
    pub backend: ExecutionBackendKind,
    pub capabilities: ExecutionBackendCapabilities,
    pub network: ExecutionNetworkReceipt,
    pub resources: ExecutionResourceReceipt,
    pub environment_policy: ProcessEnvironmentPolicy,
    pub exit_code: Option<i32>,
    pub stdout: Vec<u8>,
    pub stderr: Vec<u8>,
    /// Bounded collection statistics and the single supervisor-selected terminal cause.
    pub output: ExecutionOutputReceipt,
    pub timed_out: bool,
}

/// What a [`ExecutionReceipt`] holds.
#[verifier::ext_equal]
pub struct ExecutionReceiptView {
    pub backend: ExecutionBackendKind,
    pub capabilities: ExecutionBackendCapabilities,
    pub network: ExecutionNetworkReceiptView,
    pub resources: ExecutionResourceReceiptView,
    pub environment_policy: ProcessEnvironmentPolicyView,
    pub exit_code: Option<i32>,
    pub stdout: Seq<u8>,
    pub stderr: Seq<u8>,
    pub output: ExecutionOutputReceiptView,
    pub timed_out: bool,
}

impl DeepView for ExecutionReceipt {
    type V = ExecutionReceiptView;

    open spec fn deep_view(&self) -> ExecutionReceiptView {
        ExecutionReceiptView {
            backend: self.backend.deep_view(),
            capabilities: self.capabilities.deep_view(),
            network: self.network.deep_view(),
            resources: self.resources.deep_view(),
            environment_policy: self.environment_policy.deep_view(),
            exit_code: self.exit_code.deep_view(),
            stdout: self.stdout.deep_view(),
            stderr: self.stderr.deep_view(),
            output: self.output.deep_view(),
            timed_out: self.timed_out.deep_view(),
        }
    }
}

impl Value for ExecutionReceipt {
    fn same(&self, other: &Self) -> (r: bool) {
        self.backend.same(&other.backend)
            && self.capabilities.same(&other.capabilities)
            && self.network.same(&other.network)
            && self.resources.same(&other.resources)
            && self.environment_policy.same(&other.environment_policy)
            && self.exit_code.same(&other.exit_code)
            && self.stdout.same(&other.stdout)
            && self.stderr.same(&other.stderr)
            && self.output.same(&other.output)
            && self.timed_out.same(&other.timed_out)
    }

    fn duplicate(&self) -> (r: Self) {
        ExecutionReceipt {
            backend: self.backend.duplicate(),
            capabilities: self.capabilities.duplicate(),
            network: self.network.duplicate(),
            resources: self.resources.duplicate(),
            environment_policy: self.environment_policy.duplicate(),
            exit_code: self.exit_code.duplicate(),
            stdout: self.stdout.duplicate(),
            stderr: self.stderr.duplicate(),
            output: self.output.duplicate(),
            timed_out: self.timed_out.duplicate(),
        }
    }
}

impl Default for ExecutionBackendKind {
    fn default() -> (r: Self)
        ensures
            r == ExecutionBackendKind::Local,
    {
        ExecutionBackendKind::Local
    }
}

impl Default for ExecutionNetworkPolicy {
    fn default() -> (r: Self)
        ensures
            r == ExecutionNetworkPolicy::Unknown,
    {
        ExecutionNetworkPolicy::Unknown
    }
}

impl Default for ExecutionTimeoutSource {
    fn default() -> (r: Self)
        ensures
            r == ExecutionTimeoutSource::NoTimeout,
    {
        ExecutionTimeoutSource::NoTimeout
    }
}

impl Default for ExecutionCleanupStatus {
    fn default() -> (r: Self)
        ensures
            r == ExecutionCleanupStatus::NotNeeded,
    {
        ExecutionCleanupStatus::NotNeeded
    }
}

impl Default for ExecutionStrategyMode {
    fn default() -> (r: Self)
        ensures
            r == ExecutionStrategyMode::Local,
    {
        ExecutionStrategyMode::Local
    }
}

impl Default for ExecutionIsolationPolicy {
    fn default() -> (r: Self)
        ensures
            r == ExecutionIsolationPolicy::AllowLocal,
    {
        ExecutionIsolationPolicy::AllowLocal
    }
}

impl Default for ExecutionSandboxFallback {
    fn default() -> (r: Self)
        ensures
            r == ExecutionSandboxFallback::Deny,
    {
        ExecutionSandboxFallback::Deny
    }
}

impl Default for ExecutionSandboxProfile {
    fn default() -> (r: Self)
        ensures
            r == ExecutionSandboxProfile::Unconfined,
    {
        ExecutionSandboxProfile::Unconfined
    }
}

impl Default for ExecutionTerminationCause {
    fn default() -> (r: Self)
        ensures
            r.deep_view() == ExecutionTerminationCauseView::Exited,
    {
        ExecutionTerminationCause::Exited
    }
}

/// The default of [`ExecutionCapabilityRequirements`].
pub open spec fn execution_capability_requirements_default() -> ExecutionCapabilityRequirements {
    ExecutionCapabilityRequirements {
        filesystem_isolation: false,
        network_isolation: false,
        process_isolation: false,
        resource_limits: false,
        persistent_pty: false,
        workspace_snapshot: false,
    }
}

impl Default for ExecutionCapabilityRequirements {
    fn default() -> (r: Self)
        ensures
            r == execution_capability_requirements_default(),
    {
        ExecutionCapabilityRequirements {
            filesystem_isolation: false,
            network_isolation: false,
            process_isolation: false,
            resource_limits: false,
            persistent_pty: false,
            workspace_snapshot: false,
        }
    }
}

/// The default of [`ExecutionBackendCapabilities`].
pub open spec fn execution_backend_capabilities_default() -> ExecutionBackendCapabilities {
    ExecutionBackendCapabilities {
        filesystem_isolation: false,
        network_isolation: false,
        process_isolation: false,
        resource_limits: false,
        persistent_pty: false,
        workspace_snapshot: false,
    }
}

impl Default for ExecutionBackendCapabilities {
    fn default() -> (r: Self)
        ensures
            r == execution_backend_capabilities_default(),
    {
        ExecutionBackendCapabilities {
            filesystem_isolation: false,
            network_isolation: false,
            process_isolation: false,
            resource_limits: false,
            persistent_pty: false,
            workspace_snapshot: false,
        }
    }
}

/// The default of [`ExecutionNetworkReceipt`].
pub open spec fn execution_network_receipt_default() -> ExecutionNetworkReceiptView {
    ExecutionNetworkReceiptView {
        policy: ExecutionNetworkPolicy::Unknown,
        reason: None,
    }
}

impl Default for ExecutionNetworkReceipt {
    fn default() -> (r: Self)
        ensures
            r.deep_view() == execution_network_receipt_default(),
    {
        let r = ExecutionNetworkReceipt {
            policy: ExecutionNetworkPolicy::Unknown,
            reason: None,
        };
        assert(r.deep_view() =~= execution_network_receipt_default());
        r
    }
}

/// The default of [`ExecutionCleanupReceipt`].
pub open spec fn execution_cleanup_receipt_default() -> ExecutionCleanupReceiptView {
    ExecutionCleanupReceiptView {
        status: ExecutionCleanupStatus::NotNeeded,
        reason: None,
    }
}

impl Default for ExecutionCleanupReceipt {
    fn default() -> (r: Self)
        ensures
            r.deep_view() == execution_cleanup_receipt_default(),
    {
        let r = ExecutionCleanupReceipt {
            status: ExecutionCleanupStatus::NotNeeded,
            reason: None,
        };
        assert(r.deep_view() =~= execution_cleanup_receipt_default());
        r
    }
}

/// The default of [`ExecutionResourceReceipt`].
pub open spec fn execution_resource_receipt_default() -> ExecutionResourceReceiptView {
    ExecutionResourceReceiptView {
        applied_limits: Seq::empty(),
        unsupported_limits: Seq::empty(),
        timeout_source: ExecutionTimeoutSource::NoTimeout,
        cleanup: execution_cleanup_receipt_default(),
    }
}

impl Default for ExecutionResourceReceipt {
    fn default() -> (r: Self)
        ensures
            r.deep_view() == execution_resource_receipt_default(),
    {
        let r = ExecutionResourceReceipt {
            applied_limits: Vec::new(),
            unsupported_limits: Vec::new(),
            timeout_source: ExecutionTimeoutSource::NoTimeout,
            cleanup: ExecutionCleanupReceipt::default(),
        };
        assert(r.deep_view() =~= execution_resource_receipt_default());
        r
    }
}

/// The default of [`ExecutionStreamCapture`].
pub open spec fn execution_stream_capture_default() -> ExecutionStreamCaptureView {
    ExecutionStreamCaptureView {
        total_bytes: 0,
        returned_bytes: 0,
        omitted_bytes: 0,
        retained_head_bytes: 0,
        retained_tail_bytes: 0,
        retained_limit_bytes: 0,
        hard_limit_bytes: 0,
        total_lines: 0,
        truncated: false,
    }
}

impl Default for ExecutionStreamCapture {
    fn default() -> (r: Self)
        ensures
            r.deep_view() == execution_stream_capture_default(),
    {
        let r = ExecutionStreamCapture {
            total_bytes: 0,
            returned_bytes: 0,
            omitted_bytes: 0,
            retained_head_bytes: 0,
            retained_tail_bytes: 0,
            retained_limit_bytes: 0,
            hard_limit_bytes: 0,
            total_lines: 0,
            truncated: false,
        };
        assert(r.deep_view() =~= execution_stream_capture_default());
        r
    }
}

/// The stable label of a backend.
pub open spec fn backend_label(v: ExecutionBackendKind) -> Seq<char> {
    match v {
        ExecutionBackendKind::Local => "local"@,
        ExecutionBackendKind::MacosSeatbelt => "macos_seatbelt"@,
        ExecutionBackendKind::LinuxBubblewrap => "linux_bubblewrap"@,
        ExecutionBackendKind::Docker => "docker"@,
    }
}

impl ExecutionBackendKind {
    /// The stable label of a backend.
    pub fn as_str(self) -> (r: &'static str)
        ensures
            r@ == backend_label(self),
    {
        match self {
            ExecutionBackendKind::Local => "local",
            ExecutionBackendKind::MacosSeatbelt => "macos_seatbelt",
            ExecutionBackendKind::LinuxBubblewrap => "linux_bubblewrap",
            ExecutionBackendKind::Docker => "docker",
        }
    }
}

/// The stable label of a capability.
pub open spec fn capability_label(v: ExecutionCapability) -> Seq<char> {
    match v {
        ExecutionCapability::FilesystemIsolation => "filesystem_isolation"@,
        ExecutionCapability::NetworkIsolation => "network_isolation"@,
        ExecutionCapability::ProcessIsolation => "process_isolation"@,
        ExecutionCapability::ResourceLimits => "resource_limits"@,
        ExecutionCapability::PersistentPty => "persistent_pty"@,
        ExecutionCapability::WorkspaceSnapshot => "workspace_snapshot"@,
    }
}

impl ExecutionCapability {
    /// The stable label of a capability.
    pub fn as_str(self) -> (r: &'static str)
        ensures
            r@ == capability_label(self),
    {
        match self {
            ExecutionCapability::FilesystemIsolation => "filesystem_isolation",
            ExecutionCapability::NetworkIsolation => "network_isolation",
            ExecutionCapability::ProcessIsolation => "process_isolation",
            ExecutionCapability::ResourceLimits => "resource_limits",
            ExecutionCapability::PersistentPty => "persistent_pty",
            ExecutionCapability::WorkspaceSnapshot => "workspace_snapshot",
        }
    }
}

/// The stable label of a network policy.
pub open spec fn network_label(v: ExecutionNetworkPolicy) -> Seq<char> {
    match v {
        ExecutionNetworkPolicy::Allowed => "allowed"@,
        ExecutionNetworkPolicy::Denied => "denied"@,
        ExecutionNetworkPolicy::Unsupported => "unsupported"@,
        ExecutionNetworkPolicy::Unknown => "unknown"@,
    }
}

impl ExecutionNetworkPolicy {
    /// The stable label of a network policy.
    pub fn as_str(self) -> (r: &'static str)
        ensures
            r@ == network_label(self),
    {
        match self {
            ExecutionNetworkPolicy::Allowed => "allowed",
            ExecutionNetworkPolicy::Denied => "denied",
            ExecutionNetworkPolicy::Unsupported => "unsupported",
            ExecutionNetworkPolicy::Unknown => "unknown",
        }
    }
}

/// The stable label of an output stream, for diagnostics and metadata of tool results.
pub open spec fn stream_label(v: ExecutionOutputStream) -> Seq<char> {
    match v {
        ExecutionOutputStream::Stdout => "stdout"@,
        ExecutionOutputStream::Stderr => "stderr"@,
        ExecutionOutputStream::Combined => "combined"@,
    }
}

impl ExecutionOutputStream {
    /// The stable label of an output stream, for diagnostics and metadata of tool results.
    pub fn as_str(self) -> (r: &'static str)
        ensures
            r@ == stream_label(self),
    {
        match self {
            ExecutionOutputStream::Stdout => "stdout",
            ExecutionOutputStream::Stderr => "stderr",
            ExecutionOutputStream::Combined => "combined",
        }
    }
}

/// The stable label of a terminal cause, for diagnostics.
pub open spec fn termination_label(v: ExecutionTerminationCauseView) -> Seq<char> {
    match v {
        ExecutionTerminationCauseView::Exited => "exited"@,
        ExecutionTerminationCauseView::TimedOut => "timed_out"@,
        ExecutionTerminationCauseView::Cancelled => "cancelled"@,
        ExecutionTerminationCauseView::OutputLimit { .. } => "output_limit"@,
        ExecutionTerminationCauseView::ReaderFailed { .. } => "reader_failed"@,
    }
}

impl ExecutionTerminationCause {
    /// The stable label of a terminal cause, for diagnostics.
    pub fn as_str(&self) -> (r: &'static str)
        ensures
            r@ == termination_label(self.deep_view()),
    {
        match self {
            ExecutionTerminationCause::Exited => "exited",
            ExecutionTerminationCause::TimedOut => "timed_out",
            ExecutionTerminationCause::Cancelled => "cancelled",
            ExecutionTerminationCause::OutputLimit { .. } => "output_limit",
            ExecutionTerminationCause::ReaderFailed { .. } => "reader_failed",
        }
    }
}

/// The stable label of a strategy.
pub open spec fn strategy_label(v: ExecutionStrategyMode) -> Seq<char> {
    match v {
        ExecutionStrategyMode::Local => "local"@,
        ExecutionStrategyMode::Sandbox => "sandbox"@,
    }
}

impl ExecutionStrategyMode {
    /// The stable label of a strategy.
    pub fn as_str(self) -> (r: &'static str)
        ensures
            r@ == strategy_label(self),
    {
        match self {
            ExecutionStrategyMode::Local => "local",
            ExecutionStrategyMode::Sandbox => "sandbox",
        }
    }
}

/// The stable label of a fallback.
pub open spec fn fallback_label(v: ExecutionSandboxFallback) -> Seq<char> {
    match v {
        ExecutionSandboxFallback::Deny => "deny"@,
        ExecutionSandboxFallback::Prompt => "prompt"@,
        ExecutionSandboxFallback::Unconfined => "unconfined"@,
    }
}

impl ExecutionSandboxFallback {
    /// The stable label of a fallback.
    pub fn as_str(self) -> (r: &'static str)
        ensures
            r@ == fallback_label(self),
    {
        match self {
            ExecutionSandboxFallback::Deny => "deny",
            ExecutionSandboxFallback::Prompt => "prompt",
            ExecutionSandboxFallback::Unconfined => "unconfined",
        }
    }
}

/// The stable label of a profile.
pub open spec fn profile_label(v: ExecutionSandboxProfile) -> Seq<char> {
    match v {
        ExecutionSandboxProfile::Unconfined => "unconfined"@,
        ExecutionSandboxProfile::WorkspaceWrite => "workspace_write"@,
        ExecutionSandboxProfile::BuildOffline => "build_offline"@,
        ExecutionSandboxProfile::BuildNetworked => "build_networked"@,
    }
}

impl ExecutionSandboxProfile {
    /// The stable label of a profile.
    pub fn as_str(self) -> (r: &'static str)
        ensures
            r@ == profile_label(self),
    {
        match self {
            ExecutionSandboxProfile::Unconfined => "unconfined",
            ExecutionSandboxProfile::WorkspaceWrite => "workspace_write",
            ExecutionSandboxProfile::BuildOffline => "build_offline",
            ExecutionSandboxProfile::BuildNetworked => "build_networked",
        }
    }
}

/// The stable label of a coverage.
pub open spec fn coverage_label(v: ExecutionCoverageLabel) -> Seq<char> {
    match v {
        ExecutionCoverageLabel::KernelMediated => "kernel_mediated"@,
        ExecutionCoverageLabel::LocalBackendEnforced => "local_backend_enforced"@,
        ExecutionCoverageLabel::ExternalMcpServer => "external_mcp_server"@,
        ExecutionCoverageLabel::PluginManaged => "plugin_managed"@,
        ExecutionCoverageLabel::RemoteService => "remote_service"@,
        ExecutionCoverageLabel::UnknownExternal => "unknown_external"@,
    }
}

impl ExecutionCoverageLabel {
    /// The stable label of a coverage.
    pub fn as_str(self) -> (r: &'static str)
        ensures
            r@ == coverage_label(self),
    {
        match self {
            ExecutionCoverageLabel::KernelMediated => "kernel_mediated",
            ExecutionCoverageLabel::LocalBackendEnforced => "local_backend_enforced",
            ExecutionCoverageLabel::ExternalMcpServer => "external_mcp_server",
            ExecutionCoverageLabel::PluginManaged => "plugin_managed",
            ExecutionCoverageLabel::RemoteService => "remote_service",
            ExecutionCoverageLabel::UnknownExternal => "unknown_external",
        }
    }
}

// Capabilities.

/// A capability is among those that an execution needs.
pub open spec fn requires_capability(r: ExecutionCapabilityRequirements, c: ExecutionCapability) -> bool {
    match c {
        ExecutionCapability::FilesystemIsolation => r.filesystem_isolation,
        ExecutionCapability::NetworkIsolation => r.network_isolation,
        ExecutionCapability::ProcessIsolation => r.process_isolation,
        ExecutionCapability::ResourceLimits => r.resource_limits,
        ExecutionCapability::PersistentPty => r.persistent_pty,
        ExecutionCapability::WorkspaceSnapshot => r.workspace_snapshot,
    }
}

/// A capability is among those that a backend has.
pub open spec fn has_capability(b: ExecutionBackendCapabilities, c: ExecutionCapability) -> bool {
    match c {
        ExecutionCapability::FilesystemIsolation => b.filesystem_isolation,
        ExecutionCapability::NetworkIsolation => b.network_isolation,
        ExecutionCapability::ProcessIsolation => b.process_isolation,
        ExecutionCapability::ResourceLimits => b.resource_limits,
        ExecutionCapability::PersistentPty => b.persistent_pty,
        ExecutionCapability::WorkspaceSnapshot => b.workspace_snapshot,
    }
}

/// An execution needs a capability that a backend lacks.
pub open spec fn lacks(
    b: ExecutionBackendCapabilities,
    r: ExecutionCapabilityRequirements,
    c: ExecutionCapability,
) -> bool {
    requires_capability(r, c) && !has_capability(b, c)
}

/// A list with one more item where a condition holds.
pub open spec fn with_if<A>(s: Seq<A>, holds: bool, item: A) -> Seq<A> {
    if holds {
        s.push(item)
    } else {
        s
    }
}

/// The capabilities that an execution needs and a backend lacks, in the order of their declaration.
pub open spec fn missing_of(b: ExecutionBackendCapabilities, r: ExecutionCapabilityRequirements) -> Seq<
    ExecutionCapability,
> {
    let m = Seq::<ExecutionCapability>::empty();
    let c = ExecutionCapability::FilesystemIsolation;
    let m = with_if(m, lacks(b, r, c), c);
    let c = ExecutionCapability::NetworkIsolation;
    let m = with_if(m, lacks(b, r, c), c);
    let c = ExecutionCapability::ProcessIsolation;
    let m = with_if(m, lacks(b, r, c), c);
    let c = ExecutionCapability::ResourceLimits;
    let m = with_if(m, lacks(b, r, c), c);
    let c = ExecutionCapability::PersistentPty;
    let m = with_if(m, lacks(b, r, c), c);
    let c = ExecutionCapability::WorkspaceSnapshot;
    with_if(m, lacks(b, r, c), c)
}

impl ExecutionCapabilityRequirements {
    /// Tells whether a basic sandbox is needed: isolation of the file system and of processes.
    pub fn requires_basic_sandbox(self) -> (r: bool)
        ensures
            r == (self.filesystem_isolation && self.process_isolation),
    {
        self.filesystem_isolation && self.process_isolation
    }

    /// Tells whether nothing is needed.
    pub fn is_empty(self) -> (r: bool)
        ensures
            r == (forall|c: ExecutionCapability| !requires_capability(self, c)),
    {
        let r = !self.filesystem_isolation && !self.network_isolation && !self.process_isolation
            && !self.resource_limits && !self.persistent_pty && !self.workspace_snapshot;
        if !r {
            assert(requires_capability(self, ExecutionCapability::FilesystemIsolation)
                || requires_capability(self, ExecutionCapability::NetworkIsolation)
                || requires_capability(self, ExecutionCapability::ProcessIsolation)
                || requires_capability(self, ExecutionCapability::ResourceLimits)
                || requires_capability(self, ExecutionCapability::PersistentPty)
                || requires_capability(self, ExecutionCapability::WorkspaceSnapshot));
        }
        r
    }
}

impl ExecutionBackendCapabilities {
    /// Tells whether the backend can enforce a basic sandbox of the operating system.
    pub fn supports_required_sandbox(self) -> (r: bool)
        ensures
            r == (self.filesystem_isolation && self.process_isolation),
    {
        self.filesystem_isolation && self.process_isolation
    }

    /// The capabilities that are needed and that the backend lacks.
    pub fn missing_requirements(self, requirements: ExecutionCapabilityRequirements) -> (r: Vec<
        ExecutionCapability,
    >)
        ensures
            r@ == missing_of(self, requirements),
    {
        let mut missing: Vec<ExecutionCapability> = Vec::new();
        if requirements.filesystem_isolation && !self.filesystem_isolation {
            missing.push(ExecutionCapability::FilesystemIsolation);
        }
        if requirements.network_isolation && !self.network_isolation {
            missing.push(ExecutionCapability::NetworkIsolation);
        }
        if requirements.process_isolation && !self.process_isolation {
            missing.push(ExecutionCapability::ProcessIsolation);
        }
        if requirements.resource_limits && !self.resource_limits {
            missing.push(ExecutionCapability::ResourceLimits);
        }
        if requirements.persistent_pty && !self.persistent_pty {
            missing.push(ExecutionCapability::PersistentPty);
        }
        if requirements.workspace_snapshot && !self.workspace_snapshot {
            missing.push(ExecutionCapability::WorkspaceSnapshot);
        }
        missing
    }
}

// Receipts.

impl ExecutionNetworkReceipt {
    /// Network access was intentionally allowed.
    pub fn allowed(reason: &str) -> (r: Self)
        ensures
            r.policy == ExecutionNetworkPolicy::Allowed,
            r.reason.deep_view() == Some(reason@),
    {
        ExecutionNetworkReceipt {
            policy: ExecutionNetworkPolicy::Allowed,
            reason: Some(reason.to_owned()),
        }
    }

    /// Network access was denied and the denial enforced.
    pub fn denied(reason: &str) -> (r: Self)
        ensures
            r.policy == ExecutionNetworkPolicy::Denied,
            r.reason.deep_view() == Some(reason@),
    {
        ExecutionNetworkReceipt {
            policy: ExecutionNetworkPolicy::Denied,
            reason: Some(reason.to_owned()),
        }
    }

    /// The backend cannot enforce the policy.
    pub fn unsupported(reason: &str) -> (r: Self)
        ensures
            r.policy == ExecutionNetworkPolicy::Unsupported,
            r.reason.deep_view() == Some(reason@),
    {
        ExecutionNetworkReceipt {
            policy: ExecutionNetworkPolicy::Unsupported,
            reason: Some(reason.to_owned()),
        }
    }

    /// Nothing reliable is known.
    pub fn unknown(reason: &str) -> (r: Self)
        ensures
            r.policy == ExecutionNetworkPolicy::Unknown,
            r.reason.deep_view() == Some(reason@),
    {
        ExecutionNetworkReceipt {
            policy: ExecutionNetworkPolicy::Unknown,
            reason: Some(reason.to_owned()),
        }
    }

    /// Tells whether network access was denied and the denial enforced.
    pub fn is_denied(&self) -> (r: bool)
        ensures
            r == (self.policy == ExecutionNetworkPolicy::Denied),
    {
        self.policy == ExecutionNetworkPolicy::Denied
    }
}

/// The receipt that stands for the plan of a backend that declares none.
pub fn undeclared_network_plan() -> (r: ExecutionNetworkReceipt)
    ensures
        r.policy == ExecutionNetworkPolicy::Unknown,
        r.reason.deep_view() == Some(
            "execution backend did not declare a pre-spawn network enforcement plan"@,
        ),
{
    ExecutionNetworkReceipt::unknown(
        "execution backend did not declare a pre-spawn network enforcement plan",
    )
}

impl ExecutionResourceLimitReceipt {
    /// A limit with its value.
    pub fn new(kind: ExecutionResourceLimitKind, value: &str) -> (r: Self)
        ensures
            r.kind == kind,
            r.value@ == value@,
    {
        ExecutionResourceLimitReceipt { kind, value: value.to_owned() }
    }
}

impl ExecutionCleanupReceipt {
    /// There was nothing to clean up.
    pub fn not_needed() -> (r: Self)
        ensures
            r.deep_view() == execution_cleanup_receipt_default(),
    {
        ExecutionCleanupReceipt { status: ExecutionCleanupStatus::NotNeeded, reason: None }
    }

    /// The cleanup is done.
    pub fn completed(reason: &str) -> (r: Self)
        ensures
            r.status == ExecutionCleanupStatus::Completed,
            r.reason.deep_view() == Some(reason@),
    {
        ExecutionCleanupReceipt {
            status: ExecutionCleanupStatus::Completed,
            reason: Some(reason.to_owned()),
        }
    }

    /// The cleanup failed.
    pub fn failed(reason: &str) -> (r: Self)
        ensures
            r.status == ExecutionCleanupStatus::Failed,
            r.reason.deep_view() == Some(reason@),
    {
        ExecutionCleanupReceipt {
            status: ExecutionCleanupStatus::Failed,
            reason: Some(reason.to_owned()),
        }
    }

    /// The backend cannot clean up.
    pub fn unsupported(reason: &str) -> (r: Self)
        ensures
            r.status == ExecutionCleanupStatus::Unsupported,
            r.reason.deep_view() == Some(reason@),
    {
        ExecutionCleanupReceipt {
            status: ExecutionCleanupStatus::Unsupported,
            reason: Some(reason.to_owned()),
        }
    }

    /// It is not known how the cleanup went.
    pub fn unknown(reason: &str) -> (r: Self)
        ensures
            r.status == ExecutionCleanupStatus::Unknown,
            r.reason.deep_view() == Some(reason@),
    {
        ExecutionCleanupReceipt {
            status: ExecutionCleanupStatus::Unknown,
            reason: Some(reason.to_owned()),
        }
    }
}

/// The default output evidence: of the current schema, with nothing observed.
pub open spec fn output_receipt_default() -> ExecutionOutputReceiptView {
    ExecutionOutputReceiptView {
        schema_version: EXECUTION_OUTPUT_RECEIPT_SCHEMA_VERSION,
        stdout: execution_stream_capture_default(),
        stderr: execution_stream_capture_default(),
        combined_total_bytes: 0,
        combined_hard_limit_bytes: 0,
        termination: ExecutionTerminationCauseView::Exited,
    }
}

impl Default for ExecutionOutputReceipt {
    fn default() -> (r: Self)
        ensures
            r.deep_view() == output_receipt_default(),
    {
        ExecutionOutputReceipt {
            schema_version: EXECUTION_OUTPUT_RECEIPT_SCHEMA_VERSION,
            stdout: ExecutionStreamCapture::default(),
            stderr: ExecutionStreamCapture::default(),
            combined_total_bytes: 0,
            combined_hard_limit_bytes: 0,
            termination: ExecutionTerminationCause::Exited,
        }
    }
}

/// The check of output evidence that was read: only the current schema is known.
pub open spec fn output_receipt_verdict(v: ExecutionOutputReceiptView) -> Verdict {
    check(
        v.schema_version == EXECUTION_OUTPUT_RECEIPT_SCHEMA_VERSION,
        "unsupported execution output receipt schema version "@ + decimal(v.schema_version as nat),
    )
}

impl ExecutionOutputReceipt {
    /// Checks output evidence that was read.
    pub fn validate_schema_version(&self) -> (r: Result<(), KernelError>)
        ensures
            verdict(r) == output_receipt_verdict(self.deep_view()),
    {
        if self.schema_version != EXECUTION_OUTPUT_RECEIPT_SCHEMA_VERSION {
            let number = decimal_text(self.schema_version as u64);
            return Err(
                KernelError {
                    message: joined(
                        "unsupported execution output receipt schema version ",
                        number.as_str(),
                    ),
                },
            );
        }
        Ok(())
    }
}

impl ExecutionReceipt {
    /// The output evidence that was captured.
    pub fn effective_output(&self) -> (r: ExecutionOutputReceipt)
        ensures
            r.deep_view() == self.deep_view().output,
    {
        self.output.duplicate()
    }
}

// Configuration.

/// The check of a sandbox table.
pub open spec fn sandbox_verdict(v: ExecutionSandboxStrategyConfigView) -> Verdict {
    let docker = v.backend == ExecutionBackendKind::Docker;
    chain(
        check(
            v.backend != ExecutionBackendKind::Local,
            "execution.strategy \"sandbox\" cannot use execution.sandbox.backend \"local\""@,
        ),
        chain(
            check(
                v.profile != ExecutionSandboxProfile::Unconfined,
                "execution.strategy \"sandbox\" cannot use execution.sandbox.profile \"unconfined\""@,
            ),
            chain(
                check(
                    docker ==> (v.container_image matches Some(image) && !is_blank(image)),
                    "execution.sandbox.backend \"docker\" requires execution.sandbox.container_image"@,
                ),
                check(
                    !docker ==> v.container_image is None,
                    "execution.sandbox.container_image is only valid for docker execution backend"@,
                ),
            ),
        ),
    )
}

/// A sandbox table with nothing said but the backend.
pub open spec fn sandbox_of(backend: ExecutionBackendKind) -> ExecutionSandboxStrategyConfigView {
    ExecutionSandboxStrategyConfigView {
        backend,
        profile: ExecutionSandboxProfile::WorkspaceWrite,
        fallback: ExecutionSandboxFallback::Deny,
        container_image: None,
    }
}

impl ExecutionSandboxStrategyConfig {
    /// A sandbox table with nothing said but the backend.
    pub fn new(backend: ExecutionBackendKind) -> (r: Self)
        ensures
            r.deep_view() == sandbox_of(backend),
    {
        ExecutionSandboxStrategyConfig {
            backend,
            profile: ExecutionSandboxProfile::WorkspaceWrite,
            fallback: ExecutionSandboxFallback::Deny,
            container_image: None,
        }
    }

    /// Checks the table: a real sandbox, and a container image exactly where the backend takes one.
    pub fn validate(&self) -> (r: Result<(), KernelError>)
        ensures
            verdict(r) == sandbox_verdict(self.deep_view()),
    {
        if self.backend == ExecutionBackendKind::Local {
            return reject(
                "execution.strategy \"sandbox\" cannot use execution.sandbox.backend \"local\"",
            );
        }
        if self.profile == ExecutionSandboxProfile::Unconfined {
            return reject(
                "execution.strategy \"sandbox\" cannot use execution.sandbox.profile \"unconfined\"",
            );
        }
        let has_image = match &self.container_image {
            Some(image) => !blank(image.as_str()),
            None => false,
        };
        if self.backend == ExecutionBackendKind::Docker && !has_image {
            return reject(
                "execution.sandbox.backend \"docker\" requires execution.sandbox.container_image",
            );
        }
        if self.backend != ExecutionBackendKind::Docker && self.container_image.is_some() {
            return reject(
                "execution.sandbox.container_image is only valid for docker execution backend",
            );
        }
        Ok(())
    }
}

/// The policy of ordinary local execution.
pub open spec fn local_config() -> ExecutionConfigView {
    ExecutionConfigView { strategy: ExecutionStrategyConfigView::Local }
}

/// The policy with a sandbox.
pub open spec fn sandbox_config(sandbox: ExecutionSandboxStrategyConfigView) -> ExecutionConfigView {
    ExecutionConfigView { strategy: ExecutionStrategyConfigView::Sandbox(sandbox) }
}

/// A policy as it is written down.
pub open spec fn written(c: ExecutionConfigView) -> ExecutionConfigWireView {
    match c.strategy {
        ExecutionStrategyConfigView::Local => ExecutionConfigWireView {
            strategy: ExecutionStrategyMode::Local,
            sandbox: None,
        },
        ExecutionStrategyConfigView::Sandbox(sandbox) => ExecutionConfigWireView {
            strategy: ExecutionStrategyMode::Sandbox,
            sandbox: Some(sandbox),
        },
    }
}

/// The policy that was written down. A sandbox table stands there exactly under the sandbox strategy.
pub open spec fn read_config(w: ExecutionConfigWireView) -> Result<ExecutionConfigView, Seq<char>> {
    match (w.strategy, w.sandbox) {
        (ExecutionStrategyMode::Local, None) => Ok(local_config()),
        (ExecutionStrategyMode::Local, Some(_)) => Err(
            "execution.sandbox is only valid when execution.strategy is \"sandbox\""@,
        ),
        (ExecutionStrategyMode::Sandbox, None) => Err(
            "execution.strategy \"sandbox\" requires an [execution.sandbox] table"@,
        ),
        (ExecutionStrategyMode::Sandbox, Some(sandbox)) => yields(
            sandbox_verdict(sandbox),
            sandbox_config(sandbox),
        ),
    }
}

impl ExecutionConfigWire {
    /// Writes a policy down.
    pub fn from_config(config: &ExecutionConfig) -> (r: Self)
        ensures
            r.deep_view() == written(config.deep_view()),
    {
        match &config.strategy {
            ExecutionStrategyConfig::Local => ExecutionConfigWire {
                strategy: ExecutionStrategyMode::Local,
                sandbox: None,
            },
            ExecutionStrategyConfig::Sandbox(sandbox) => ExecutionConfigWire {
                strategy: ExecutionStrategyMode::Sandbox,
                sandbox: Some(sandbox.duplicate()),
            },
        }
    }

    /// Reads the policy.
    pub fn into_config(self) -> (r: Result<ExecutionConfig, KernelError>)
        ensures
            outcome(r) == read_config(self.deep_view()),
    {
        match (self.strategy, self.sandbox) {
            (ExecutionStrategyMode::Local, None) => Ok(ExecutionConfig::default()),
            (ExecutionStrategyMode::Local, Some(_)) => Err(
                KernelError::new(
                    "execution.sandbox is only valid when execution.strategy is \"sandbox\"",
                ),
            ),
            (ExecutionStrategyMode::Sandbox, None) => Err(
                KernelError::new(
                    "execution.strategy \"sandbox\" requires an [execution.sandbox] table",
                ),
            ),
            (ExecutionStrategyMode::Sandbox, Some(sandbox)) => {
                sandbox.validate()?;
                Ok(ExecutionConfig { strategy: ExecutionStrategyConfig::Sandbox(sandbox) })
            },
        }
    }
}

impl ExecutionIsolationPolicy {
    /// Tells whether a sandbox is needed.
    pub fn requires_sandbox(self) -> (r: bool)
        ensures
            r == (self == ExecutionIsolationPolicy::RequireSandbox),
    {
        match self {
            ExecutionIsolationPolicy::RequireSandbox => true,
            ExecutionIsolationPolicy::AllowLocal => false,
        }
    }
}

// Profiles.

/// The needs of a basic sandbox, with or without isolation of the network.
pub open spec fn sandbox_needs(network: bool) -> ExecutionCapabilityRequirements {
    ExecutionCapabilityRequirements {
        filesystem_isolation: true,
        network_isolation: network,
        process_isolation: true,
        resource_limits: false,
        persistent_pty: false,
        workspace_snapshot: false,
    }
}

/// What a profile asks for and allows.
pub open spec fn profile_spec_of(p: ExecutionSandboxProfile) -> ExecutionSandboxProfileSpecView {
    match p {
        ExecutionSandboxProfile::Unconfined => ExecutionSandboxProfileSpecView {
            profile: p,
            summary: "unconfined local execution"@,
            requires_sandbox: false,
            requirements: execution_capability_requirements_default(),
            requires_network_isolation: false,
            network_allowed: true,
            dependency_caches_read_only: false,
        },
        ExecutionSandboxProfile::WorkspaceWrite => ExecutionSandboxProfileSpecView {
            profile: p,
            summary: "workspace-write sandbox"@,
            requires_sandbox: true,
            requirements: sandbox_needs(false),
            requires_network_isolation: false,
            network_allowed: false,
            dependency_caches_read_only: false,
        },
        ExecutionSandboxProfile::BuildOffline => ExecutionSandboxProfileSpecView {
            profile: p,
            summary: "offline build sandbox with read-only dependency caches"@,
            requires_sandbox: true,
            requirements: sandbox_needs(true),
            requires_network_isolation: true,
            network_allowed: false,
            dependency_caches_read_only: true,
        },
        ExecutionSandboxProfile::BuildNetworked => ExecutionSandboxProfileSpecView {
            profile: p,
            summary: "networked build sandbox with read-only dependency caches"@,
            requires_sandbox: true,
            requirements: sandbox_needs(false),
            requires_network_isolation: false,
            network_allowed: true,
            dependency_caches_read_only: true,
        },
    }
}

/// The name of a profile in diagnostics.
pub open spec fn profile_name(p: ExecutionSandboxProfile) -> Seq<char> {
    match p {
        ExecutionSandboxProfile::Unconfined => "Unconfined"@,
        ExecutionSandboxProfile::WorkspaceWrite => "WorkspaceWrite"@,
        ExecutionSandboxProfile::BuildOffline => "BuildOffline"@,
        ExecutionSandboxProfile::BuildNetworked => "BuildNetworked"@,
    }
}

fn name_of_profile(p: ExecutionSandboxProfile) -> (r: &'static str)
    ensures
        r@ == profile_name(p),
{
    match p {
        ExecutionSandboxProfile::Unconfined => "Unconfined",
        ExecutionSandboxProfile::WorkspaceWrite => "WorkspaceWrite",
        ExecutionSandboxProfile::BuildOffline => "BuildOffline",
        ExecutionSandboxProfile::BuildNetworked => "BuildNetworked",
    }
}

fn basic_needs(network: bool) -> (r: ExecutionCapabilityRequirements)
    ensures
        r == sandbox_needs(network),
{
    ExecutionCapabilityRequirements {
        filesystem_isolation: true,
        network_isolation: network,
        process_isolation: true,
        resource_limits: false,
        persistent_pty: false,
        workspace_snapshot: false,
    }
}

impl ExecutionSandboxProfile {
    /// What the profile asks for and allows.
    pub fn spec(self) -> (r: ExecutionSandboxProfileSpec)
        ensures
            r.deep_view() == profile_spec_of(self),
    {
        match self {
            ExecutionSandboxProfile::Unconfined => ExecutionSandboxProfileSpec {
                profile: self,
                summary: "unconfined local execution",
                requires_sandbox: false,
                requirements: ExecutionCapabilityRequirements::default(),
                requires_network_isolation: false,
                network_allowed: true,
                dependency_caches_read_only: false,
            },
            ExecutionSandboxProfile::WorkspaceWrite => ExecutionSandboxProfileSpec {
                profile: self,
                summary: "workspace-write sandbox",
                requires_sandbox: true,
                requirements: basic_needs(false),
                requires_network_isolation: false,
                network_allowed: false,
                dependency_caches_read_only: false,
            },
            ExecutionSandboxProfile::BuildOffline => ExecutionSandboxProfileSpec {
                profile: self,
                summary: "offline build sandbox with read-only dependency caches",
                requires_sandbox: true,
                requirements: basic_needs(true),
                requires_network_isolation: true,
                network_allowed: false,
                dependency_caches_read_only: true,
            },
            ExecutionSandboxProfile::BuildNetworked => ExecutionSandboxProfileSpec {
                profile: self,
                summary: "networked build sandbox with read-only dependency caches",
                requires_sandbox: true,
                requirements: basic_needs(false),
                requires_network_isolation: false,
                network_allowed: true,
                dependency_caches_read_only: true,
            },
        }
    }
}

// What a configuration asks for.

/// The backend that a policy selects.
pub open spec fn config_backend(c: ExecutionConfigView) -> ExecutionBackendKind {
    match c.strategy {
        ExecutionStrategyConfigView::Local => ExecutionBackendKind::Local,
        ExecutionStrategyConfigView::Sandbox(s) => s.backend,
    }
}

/// The profile that a policy selects.
pub open spec fn config_profile(c: ExecutionConfigView) -> ExecutionSandboxProfile {
    match c.strategy {
        ExecutionStrategyConfigView::Local => ExecutionSandboxProfile::Unconfined,
        ExecutionStrategyConfigView::Sandbox(s) => s.profile,
    }
}

/// The fallback that a policy selects.
pub open spec fn config_fallback(c: ExecutionConfigView) -> ExecutionSandboxFallback {
    match c.strategy {
        ExecutionStrategyConfigView::Local => ExecutionSandboxFallback::Deny,
        ExecutionStrategyConfigView::Sandbox(s) => s.fallback,
    }
}

/// The isolation that a policy needs.
pub open spec fn config_isolation(c: ExecutionConfigView) -> ExecutionIsolationPolicy {
    match c.strategy {
        ExecutionStrategyConfigView::Local => ExecutionIsolationPolicy::AllowLocal,
        ExecutionStrategyConfigView::Sandbox(_) => ExecutionIsolationPolicy::RequireSandbox,
    }
}

/// The container image that a policy names, without the white space around it.
pub open spec fn config_image(c: ExecutionConfigView) -> Option<Seq<char>> {
    match c.strategy {
        ExecutionStrategyConfigView::Local => None,
        ExecutionStrategyConfigView::Sandbox(s) => match s.container_image {
            Some(image) => if trimmed(image).len() > 0 {
                Some(trimmed(image))
            } else {
                None
            },
            None => None,
        },
    }
}

/// The capabilities that a policy needs: those of its profile, and a basic sandbox under the sandbox
/// strategy.
pub open spec fn config_needs(c: ExecutionConfigView) -> ExecutionCapabilityRequirements {
    let needs = profile_spec_of(config_profile(c)).requirements;
    let sandbox = c.strategy is Sandbox;
    ExecutionCapabilityRequirements {
        filesystem_isolation: needs.filesystem_isolation || sandbox,
        process_isolation: needs.process_isolation || sandbox,
        ..needs
    }
}

/// A policy needs a sandbox.
pub open spec fn config_needs_sandbox(c: ExecutionConfigView) -> bool {
    c.strategy is Sandbox || (config_needs(c).filesystem_isolation && config_needs(
        c,
    ).process_isolation)
}

/// The labels of capabilities, with commas between them.
pub open spec fn listed(capabilities: Seq<ExecutionCapability>) -> Seq<char>
    decreases capabilities.len(),
{
    if capabilities.len() == 0 {
        Seq::empty()
    } else if capabilities.len() == 1 {
        capability_label(capabilities[0])
    } else {
        listed(capabilities.drop_last()) + ", "@ + capability_label(capabilities.last())
    }
}

/// The check that a backend has what a policy needs.
pub open spec fn capabilities_verdict(
    c: ExecutionConfigView,
    b: ExecutionBackendCapabilities,
) -> Verdict {
    let profile = config_profile(c);
    let missing = missing_of(b, config_needs(c));
    if missing.len() == 0 {
        Ok(())
    } else if config_needs_sandbox(c) && !(b.filesystem_isolation && b.process_isolation) {
        if c.strategy is Sandbox && !profile_spec_of(profile).requires_sandbox {
            Err("execution isolation require_sandbox requires filesystem and process isolation"@)
        } else {
            Err(
                "execution profile "@ + profile_name(profile)
                    + " requires filesystem and process isolation"@,
            )
        }
    } else if profile_spec_of(profile).requires_network_isolation && missing.contains(
        ExecutionCapability::NetworkIsolation,
    ) {
        Err("execution profile "@ + profile_name(profile) + " requires network isolation"@)
    } else {
        Err(
            "execution profile "@ + profile_name(profile) + " requires missing capabilities: "@
                + listed(missing),
        )
    }
}

fn list_labels(capabilities: &Vec<ExecutionCapability>) -> (r: String)
    ensures
        r@ == listed(capabilities@),
{
    let mut r = String::new();
    let mut i: usize = 0;
    assert(capabilities@.take(0) =~= Seq::empty());
    while i < capabilities.len()
        invariant
            i <= capabilities.len(),
            r@ == listed(capabilities@.take(i as int)),
        decreases capabilities.len() - i,
    {
        let ghost next = capabilities@.take(i + 1);
        assert(next.drop_last() =~= capabilities@.take(i as int));
        assert(next.last() == capabilities@[i as int]);
        if i > 0 {
            r.append(", ");
            r.append(capabilities[i].as_str());
        } else {
            r = capabilities[i].as_str().to_owned();
        }
        i = i + 1;
    }
    assert(capabilities@.take(i as int) =~= capabilities@);
    r
}

fn lists(capabilities: &Vec<ExecutionCapability>, wanted: ExecutionCapability) -> (r: bool)
    ensures
        r == capabilities@.contains(wanted),
{
    let mut i: usize = 0;
    while i < capabilities.len()
        invariant
            i <= capabilities.len(),
            forall|j: int| 0 <= j < i ==> capabilities@[j] != wanted,
        decreases capabilities.len() - i,
    {
        if capabilities[i] == wanted {
            return true;
        }
        i = i + 1;
    }
    false
}

impl Default for ExecutionConfig {
    fn default() -> (r: Self)
        ensures
            r.deep_view() == local_config(),
    {
        ExecutionConfig { strategy: ExecutionStrategyConfig::Local }
    }
}

impl ExecutionConfig {
    /// The policy of ordinary local execution.
    pub fn local() -> (r: Self)
        ensures
            r.deep_view() == local_config(),
    {
        ExecutionConfig::default()
    }

    /// The policy with a sandbox.
    pub fn sandbox(config: ExecutionSandboxStrategyConfig) -> (r: Self)
        ensures
            r.deep_view() == sandbox_config(config.deep_view()),
    {
        ExecutionConfig { strategy: ExecutionStrategyConfig::Sandbox(config) }
    }

    /// The name of the strategy.
    pub fn strategy_mode(&self) -> (r: ExecutionStrategyMode)
        ensures
            r == written(self.deep_view()).strategy,
    {
        match &self.strategy {
            ExecutionStrategyConfig::Local => ExecutionStrategyMode::Local,
            ExecutionStrategyConfig::Sandbox(_) => ExecutionStrategyMode::Sandbox,
        }
    }

    /// The backend that the policy selects.
    pub fn backend(&self) -> (r: ExecutionBackendKind)
        ensures
            r == config_backend(self.deep_view()),
    {
        match &self.strategy {
            ExecutionStrategyConfig::Local => ExecutionBackendKind::Local,
            ExecutionStrategyConfig::Sandbox(config) => config.backend,
        }
    }

    /// The isolation that the policy needs.
    pub fn isolation(&self) -> (r: ExecutionIsolationPolicy)
        ensures
            r == config_isolation(self.deep_view()),
    {
        match &self.strategy {
            ExecutionStrategyConfig::Local => ExecutionIsolationPolicy::AllowLocal,
            ExecutionStrategyConfig::Sandbox(_) => ExecutionIsolationPolicy::RequireSandbox,
        }
    }

    /// The profile that the policy selects.
    pub fn profile(&self) -> (r: ExecutionSandboxProfile)
        ensures
            r == config_profile(self.deep_view()),
    {
        match &self.strategy {
            ExecutionStrategyConfig::Local => ExecutionSandboxProfile::Unconfined,
            ExecutionStrategyConfig::Sandbox(config) => config.profile,
        }
    }

    /// The fallback that the policy selects.
    pub fn fallback(&self) -> (r: ExecutionSandboxFallback)
        ensures
            r == config_fallback(self.deep_view()),
    {
        match &self.strategy {
            ExecutionStrategyConfig::Local => ExecutionSandboxFallback::Deny,
            ExecutionStrategyConfig::Sandbox(config) => config.fallback,
        }
    }

    /// The container image that the policy names, without the white space around it.
    pub fn container_image(&self) -> (r: Option<String>)
        ensures
            r.deep_view() == config_image(self.deep_view()),
    {
        match &self.strategy {
            ExecutionStrategyConfig::Local => None,
            ExecutionStrategyConfig::Sandbox(config) => match &config.container_image {
                Some(image) => {
                    let name = trim(image.as_str());
                    if name.as_str().is_empty() {
                        None
                    } else {
                        Some(name)
                    }
                },
                None => None,
            },
        }
    }

    /// What the profile of the policy asks for and allows.
    pub fn profile_spec(&self) -> (r: ExecutionSandboxProfileSpec)
        ensures
            r.deep_view() == profile_spec_of(config_profile(self.deep_view())),
    {
        self.profile().spec()
    }

    /// The capabilities that the policy needs.
    pub fn required_capabilities(&self) -> (r: ExecutionCapabilityRequirements)
        ensures
            r == config_needs(self.deep_view()),
    {
        let mut requirements = self.profile_spec().requirements;
        if self.isolation().requires_sandbox() {
            requirements.filesystem_isolation = true;
            requirements.process_isolation = true;
        }
        requirements
    }

    /// The capabilities that the policy needs for a persistent terminal.
    pub fn required_capabilities_for_persistent_pty(&self) -> (r: ExecutionCapabilityRequirements)
        ensures
            r == (ExecutionCapabilityRequirements {
                persistent_pty: true,
                ..config_needs(self.deep_view())
            }),
    {
        let mut requirements = self.required_capabilities();
        requirements.persistent_pty = true;
        requirements
    }

    /// Tells whether the policy needs a sandbox.
    pub fn requires_sandbox(&self) -> (r: bool)
        ensures
            r == config_needs_sandbox(self.deep_view()),
    {
        self.isolation().requires_sandbox() || self.required_capabilities().requires_basic_sandbox()
    }

    /// Checks that a backend has what the policy needs.
    pub fn validate_profile_capabilities(&self, capabilities: ExecutionBackendCapabilities) -> (r:
        Result<(), KernelError>)
        ensures
            verdict(r) == capabilities_verdict(self.deep_view(), capabilities),
    {
        let spec = self.profile_spec();
        let requirements = self.required_capabilities();
        let missing = capabilities.missing_requirements(requirements);
        if missing.len() == 0 {
            return Ok(());
        }
        let name = joined("execution profile ", name_of_profile(self.profile()));
        if self.requires_sandbox() && !capabilities.supports_required_sandbox() {
            if self.isolation().requires_sandbox() && !spec.requires_sandbox {
                return reject(
                    "execution isolation require_sandbox requires filesystem and process isolation",
                );
            }
            return Err(
                KernelError {
                    message: joined(
                        name.as_str(),
                        " requires filesystem and process isolation",
                    ),
                },
            );
        }
        if spec.requires_network_isolation && lists(&missing, ExecutionCapability::NetworkIsolation) {
            return Err(
                KernelError { message: joined(name.as_str(), " requires network isolation") },
            );
        }
        let list = list_labels(&missing);
        let start = joined(name.as_str(), " requires missing capabilities: ");
        Err(KernelError { message: joined(start.as_str(), list.as_str()) })
    }
}

// Launches of extension processes.

/// The failure of a launch.
pub open spec fn launch_failure(
    code: ExtensionProcessLaunchErrorCode,
    subject: Seq<char>,
    message: Seq<char>,
) -> Result<(), ExtensionProcessLaunchErrorView> {
    Err(ExtensionProcessLaunchErrorView { code, subject, message })
}

/// What a check of a launch came to.
pub open spec fn launch_outcome(r: Result<(), ExtensionProcessLaunchError>) -> Result<
    (),
    ExtensionProcessLaunchErrorView,
> {
    match r {
        Ok(_) => Ok(()),
        Err(e) => Err(e.deep_view()),
    }
}

/// The backend can isolate network and process tree, and plans to deny network access.
pub open spec fn denies_network(
    b: ExecutionBackendCapabilities,
    planned: ExecutionNetworkReceiptView,
) -> bool {
    b.network_isolation && b.process_isolation && planned.policy == ExecutionNetworkPolicy::Denied
}

/// The check that the profile of an extension process can be enforced before it is spawned.
pub open spec fn isolation_verdict(
    profile: ExecutionSandboxProfile,
    b: ExecutionBackendCapabilities,
    planned: ExecutionNetworkReceiptView,
    subject: Seq<char>,
) -> Result<(), ExtensionProcessLaunchErrorView> {
    let spec = profile_spec_of(profile);
    if spec.requires_sandbox && !b.process_isolation {
        launch_failure(
            ExtensionProcessLaunchErrorCode::ProcessIsolationUnavailable,
            subject,
            "extension process profile "@ + profile_label(profile)
                + " requires process-tree isolation before spawn"@,
        )
    } else if !spec.network_allowed && !denies_network(b, planned) {
        launch_failure(
            ExtensionProcessLaunchErrorCode::NetworkIsolationUnavailable,
            subject,
            "extension process profile "@ + profile_label(profile)
                + " denies network access but the backend launch plan is "@ + network_label(
                planned.policy,
            ) + " and cannot prove network and process-tree isolation"@,
        )
    } else {
        Ok(())
    }
}

/// The check that a network admission can be enforced before an extension process is spawned.
pub open spec fn network_admission_verdict(
    profile: ExecutionSandboxProfile,
    effect: Option<NetworkEffectView>,
    admission: ExtensionProcessNetworkAdmission,
    b: ExecutionBackendCapabilities,
    planned: ExecutionNetworkReceiptView,
    subject: Seq<char>,
) -> Result<(), ExtensionProcessLaunchErrorView> {
    if effect is Some && admission.policy == NetworkPolicy::Ask && !admission.explicit_approval {
        launch_failure(
            ExtensionProcessLaunchErrorCode::NetworkApprovalRequired,
            subject,
            "extension "@ + effect->0.label
                + " network effect requires explicit user approval before spawn"@,
        )
    } else {
        match isolation_verdict(profile, b, planned, subject) {
            Err(e) => Err(e),
            Ok(_) => if effect is Some && admission.policy == NetworkPolicy::Deny
                && !denies_network(b, planned) {
                launch_failure(
                    ExtensionProcessLaunchErrorCode::NetworkIsolationUnavailable,
                    subject,
                    "extension network policy denies "@ + effect->0.label
                        + " effect but the backend launch plan is "@ + network_label(planned.policy)
                        + " and cannot prove network and process-tree isolation"@,
                )
            } else {
                Ok(())
            },
        }
    }
}

/// The check of the receipt of an extension process that ran.
pub open spec fn network_receipt_verdict(
    profile: ExecutionSandboxProfile,
    receipt: ExecutionNetworkReceiptView,
    subject: Seq<char>,
) -> Result<(), ExtensionProcessLaunchErrorView> {
    if !profile_spec_of(profile).network_allowed && receipt.policy
        != ExecutionNetworkPolicy::Denied {
        launch_failure(
            ExtensionProcessLaunchErrorCode::BackendReceiptInvalid,
            subject,
            "extension process profile "@ + profile_label(profile)
                + " requires a denied network receipt, observed "@ + network_label(receipt.policy),
        )
    } else {
        Ok(())
    }
}

/// The check of the receipt of an extension process that ran under a network policy of its own.
pub open spec fn policy_receipt_verdict(
    profile: ExecutionSandboxProfile,
    effect: Option<NetworkEffectView>,
    policy: NetworkPolicy,
    receipt: ExecutionNetworkReceiptView,
    subject: Seq<char>,
) -> Result<(), ExtensionProcessLaunchErrorView> {
    match network_receipt_verdict(profile, receipt, subject) {
        Err(e) => Err(e),
        Ok(_) => if effect is Some && policy == NetworkPolicy::Deny && receipt.policy
            != ExecutionNetworkPolicy::Denied {
            launch_failure(
                ExtensionProcessLaunchErrorCode::BackendReceiptInvalid,
                subject,
                "extension network policy denies Some("@ + effect->0.name + ") effect, observed "@
                    + network_label(receipt.policy) + " receipt"@,
            )
        } else {
            Ok(())
        },
    }
}

impl ExtensionProcessLaunchError {
    /// The launch cannot be isolated as it must be, or was not.
    pub fn isolation_unavailable(
        code: ExtensionProcessLaunchErrorCode,
        subject: &str,
        message: String,
    ) -> (r: Self)
        ensures
            r.code == code,
            r.subject@ == subject@,
            r.message@ == message@,
    {
        ExtensionProcessLaunchError { code, subject: subject.to_owned(), message }
    }

    /// The launch needs the explicit approval of the user.
    pub fn network_approval_required(subject: &str, message: String) -> (r: Self)
        ensures
            r.code == ExtensionProcessLaunchErrorCode::NetworkApprovalRequired,
            r.subject@ == subject@,
            r.message@ == message@,
    {
        ExtensionProcessLaunchError {
            code: ExtensionProcessLaunchErrorCode::NetworkApprovalRequired,
            subject: subject.to_owned(),
            message,
        }
    }
}

impl ExtensionProcessNetworkAdmission {
    /// A policy, with the word whether the user approved explicitly.
    pub fn new(policy: NetworkPolicy, explicit_approval: bool) -> (r: Self)
        ensures
            r.policy == policy,
            r.explicit_approval == explicit_approval,
    {
        ExtensionProcessNetworkAdmission { policy, explicit_approval }
    }
}

fn three(a: &str, b: &str, c: &str) -> (r: String)
    ensures
        r@ == a@ + b@ + c@,
{
    let mut r = a.to_owned();
    r.append(b);
    r.append(c);
    r
}

fn five(a: &str, b: &str, c: &str, d: &str, e: &str) -> (r: String)
    ensures
        r@ == a@ + b@ + c@ + d@ + e@,
{
    let mut r = three(a, b, c);
    r.append(d);
    r.append(e);
    r
}

fn can_deny_network(
    capabilities: ExecutionBackendCapabilities,
    planned_network: &ExecutionNetworkReceipt,
) -> (r: bool)
    ensures
        r == denies_network(capabilities, planned_network.deep_view()),
{
    capabilities.network_isolation && capabilities.process_isolation && planned_network.is_denied()
}

/// Checks that the process tree of an extension can be isolated before a backend may spawn it. Both
/// what the backend can do and what it plans for the network are asked: a backend that could isolate
/// the network but is set to allow it does not pass where network access is denied.
pub fn validate_extension_process_isolation(
    profile: ExecutionSandboxProfile,
    capabilities: ExecutionBackendCapabilities,
    planned_network: &ExecutionNetworkReceipt,
    subject: &str,
) -> (r: Result<(), ExtensionProcessLaunchError>)
    ensures
        launch_outcome(r) == isolation_verdict(
            profile,
            capabilities,
            planned_network.deep_view(),
            subject@,
        ),
{
    let spec = profile.spec();
    if spec.requires_sandbox && !capabilities.process_isolation {
        return Err(
            ExtensionProcessLaunchError::isolation_unavailable(
                ExtensionProcessLaunchErrorCode::ProcessIsolationUnavailable,
                subject,
                three(
                    "extension process profile ",
                    profile.as_str(),
                    " requires process-tree isolation before spawn",
                ),
            ),
        );
    }
    if !spec.network_allowed && !can_deny_network(capabilities, planned_network) {
        return Err(
            ExtensionProcessLaunchError::isolation_unavailable(
                ExtensionProcessLaunchErrorCode::NetworkIsolationUnavailable,
                subject,
                five(
                    "extension process profile ",
                    profile.as_str(),
                    " denies network access but the backend launch plan is ",
                    planned_network.policy.as_str(),
                    " and cannot prove network and process-tree isolation",
                ),
            ),
        );
    }
    Ok(())
}

/// Checks a launch against a network policy of its own. Under a policy that denies, a process with a
/// network effect may still be launched where the backend proves that it is cut off.
pub fn validate_extension_process_isolation_with_network_policy(
    profile: ExecutionSandboxProfile,
    network_effect: Option<&NetworkEffect>,
    network_policy: NetworkPolicy,
    capabilities: ExecutionBackendCapabilities,
    planned_network: &ExecutionNetworkReceipt,
    subject: &str,
) -> (r: Result<(), ExtensionProcessLaunchError>)
    ensures
        launch_outcome(r) == network_admission_verdict(
            profile,
            network_effect.deep_view(),
            ExtensionProcessNetworkAdmission { policy: network_policy, explicit_approval: false },
            capabilities,
            planned_network.deep_view(),
            subject@,
        ),
{
    validate_extension_process_network_admission(
        profile,
        network_effect,
        ExtensionProcessNetworkAdmission::new(network_policy, false),
        capabilities,
        planned_network,
        subject,
    )
}

/// Checks a launch against one resolved network admission. A declared network effect that is to be
/// asked for needs the explicit approval of the user. A tool without a declared effect adds no check
/// of its own, but the profile is always checked.
pub fn validate_extension_process_network_admission(
    profile: ExecutionSandboxProfile,
    network_effect: Option<&NetworkEffect>,
    admission: ExtensionProcessNetworkAdmission,
    capabilities: ExecutionBackendCapabilities,
    planned_network: &ExecutionNetworkReceipt,
    subject: &str,
) -> (r: Result<(), ExtensionProcessLaunchError>)
    ensures
        launch_outcome(r) == network_admission_verdict(
            profile,
            network_effect.deep_view(),
            admission,
            capabilities,
            planned_network.deep_view(),
            subject@,
        ),
{
    if let Some(effect) = network_effect {
        if admission.policy == NetworkPolicy::Ask && !admission.explicit_approval {
            return Err(
                ExtensionProcessLaunchError::network_approval_required(
                    subject,
                    three(
                        "extension ",
                        effect.label.as_str(),
                        " network effect requires explicit user approval before spawn",
                    ),
                ),
            );
        }
    }
    validate_extension_process_isolation(profile, capabilities, planned_network, subject)?;
    if let Some(effect) = network_effect {
        if admission.policy == NetworkPolicy::Deny && !can_deny_network(
            capabilities,
            planned_network,
        ) {
            return Err(
                ExtensionProcessLaunchError::isolation_unavailable(
                    ExtensionProcessLaunchErrorCode::NetworkIsolationUnavailable,
                    subject,
                    five(
                        "extension network policy denies ",
                        effect.label.as_str(),
                        " effect but the backend launch plan is ",
                        planned_network.policy.as_str(),
                        " and cannot prove network and process-tree isolation",
                    ),
                ),
            );
        }
    }
    Ok(())
}

/// Checks the receipt of an extension process that ran: a profile that denies network access needs a
/// receipt of the denial.
pub fn validate_extension_process_network_receipt(
    profile: ExecutionSandboxProfile,
    receipt: &ExecutionNetworkReceipt,
    subject: &str,
) -> (r: Result<(), ExtensionProcessLaunchError>)
    ensures
        launch_outcome(r) == network_receipt_verdict(profile, receipt.deep_view(), subject@),
{
    if !profile.spec().network_allowed && !receipt.is_denied() {
        let start = three(
            "extension process profile ",
            profile.as_str(),
            " requires a denied network receipt, observed ",
        );
        return Err(
            ExtensionProcessLaunchError::isolation_unavailable(
                ExtensionProcessLaunchErrorCode::BackendReceiptInvalid,
                subject,
                joined(start.as_str(), receipt.policy.as_str()),
            ),
        );
    }
    Ok(())
}

/// Checks the receipt of an extension process that ran against a network policy of its own.
pub fn validate_extension_process_network_receipt_with_policy(
    profile: ExecutionSandboxProfile,
    network_effect: Option<&NetworkEffect>,
    network_policy: NetworkPolicy,
    receipt: &ExecutionNetworkReceipt,
    subject: &str,
) -> (r: Result<(), ExtensionProcessLaunchError>)
    ensures
        launch_outcome(r) == policy_receipt_verdict(
            profile,
            network_effect.deep_view(),
            network_policy,
            receipt.deep_view(),
            subject@,
        ),
{
    validate_extension_process_network_receipt(profile, receipt, subject)?;
    if let Some(effect) = network_effect {
        if network_policy == NetworkPolicy::Deny && !receipt.is_denied() {
            return Err(
                ExtensionProcessLaunchError::isolation_unavailable(
                    ExtensionProcessLaunchErrorCode::BackendReceiptInvalid,
                    subject,
                    five(
                        "extension network policy denies Some(",
                        effect.name.as_str(),
                        ") effect, observed ",
                        receipt.policy.as_str(),
                        " receipt",
                    ),
                ),
            );
        }
    }
    Ok(())
}

// Selection of a backend.

/// What a policy says of a backend that cannot be had.
pub open spec fn fallback_decision(f: ExecutionSandboxFallback) -> ExecutionBackendSelectionDecision {
    match f {
        ExecutionSandboxFallback::Deny => ExecutionBackendSelectionDecision::FallbackDenied,
        ExecutionSandboxFallback::Prompt => {
            ExecutionBackendSelectionDecision::FallbackPromptRequired
        },
        ExecutionSandboxFallback::Unconfined => {
            ExecutionBackendSelectionDecision::FallbackUnconfined
        },
    }
}

/// A diagnostic of a selection, with all that the policy asks for.
pub open spec fn selection_of(
    c: ExecutionConfigView,
    selected: bool,
    capabilities: Option<ExecutionBackendCapabilities>,
    missing: Seq<ExecutionCapability>,
    reason: Option<Seq<char>>,
) -> ExecutionBackendSelectionDiagnosticView {
    ExecutionBackendSelectionDiagnosticView {
        requested_backend: config_backend(c),
        selected_backend: if selected {
            Some(config_backend(c))
        } else {
            None
        },
        requested_profile: config_profile(c),
        fallback: config_fallback(c),
        requirements: config_needs(c),
        capabilities,
        missing_capabilities: missing,
        platform_available: capabilities is Some,
        availability_reason: reason,
        decision: if selected {
            ExecutionBackendSelectionDecision::Selected
        } else {
            fallback_decision(config_fallback(c))
        },
    }
}

fn decide_fallback(f: ExecutionSandboxFallback) -> (r: ExecutionBackendSelectionDecision)
    ensures
        r == fallback_decision(f),
{
    match f {
        ExecutionSandboxFallback::Deny => ExecutionBackendSelectionDecision::FallbackDenied,
        ExecutionSandboxFallback::Prompt => {
            ExecutionBackendSelectionDecision::FallbackPromptRequired
        },
        ExecutionSandboxFallback::Unconfined => {
            ExecutionBackendSelectionDecision::FallbackUnconfined
        },
    }
}

impl ExecutionBackendSelectionDiagnostic {
    /// The requested backend was selected.
    pub fn selected(config: &ExecutionConfig, capabilities: ExecutionBackendCapabilities) -> (r: Self)
        ensures
            r.deep_view() == selection_of(
                config.deep_view(),
                true,
                Some(capabilities),
                Seq::empty(),
                None,
            ),
    {
        let r = ExecutionBackendSelectionDiagnostic {
            requested_backend: config.backend(),
            selected_backend: Some(config.backend()),
            requested_profile: config.profile(),
            fallback: config.fallback(),
            requirements: config.required_capabilities(),
            capabilities: Some(capabilities),
            missing_capabilities: Vec::new(),
            platform_available: true,
            availability_reason: None,
            decision: ExecutionBackendSelectionDecision::Selected,
        };
        assert(r.deep_view().missing_capabilities =~= Seq::empty());
        r
    }

    /// The requested backend is not to be had on this platform.
    pub fn unavailable(config: &ExecutionConfig, availability_reason: &str) -> (r: Self)
        ensures
            r.deep_view() == selection_of(
                config.deep_view(),
                false,
                None,
                Seq::empty(),
                Some(availability_reason@),
            ),
    {
        let r = ExecutionBackendSelectionDiagnostic {
            requested_backend: config.backend(),
            selected_backend: None,
            requested_profile: config.profile(),
            fallback: config.fallback(),
            requirements: config.required_capabilities(),
            capabilities: None,
            missing_capabilities: Vec::new(),
            platform_available: false,
            availability_reason: Some(availability_reason.to_owned()),
            decision: decide_fallback(config.fallback()),
        };
        assert(r.deep_view().missing_capabilities =~= Seq::empty());
        r
    }

    /// The requested backend lacks what the policy needs.
    pub fn missing_capabilities(
        config: &ExecutionConfig,
        capabilities: ExecutionBackendCapabilities,
    ) -> (r: Self)
        ensures
            r.deep_view() == selection_of(
                config.deep_view(),
                false,
                Some(capabilities),
                missing_of(capabilities, config_needs(config.deep_view())),
                None,
            ),
    {
        let r = ExecutionBackendSelectionDiagnostic {
            requested_backend: config.backend(),
            selected_backend: None,
            requested_profile: config.profile(),
            fallback: config.fallback(),
            requirements: config.required_capabilities(),
            capabilities: Some(capabilities),
            missing_capabilities: capabilities.missing_requirements(config.required_capabilities()),
            platform_available: true,
            availability_reason: None,
            decision: decide_fallback(config.fallback()),
        };
        assert(r.deep_view().missing_capabilities =~= r.missing_capabilities@);
        r
    }

    /// The labels of the missing capabilities.
    pub fn missing_capability_labels(&self) -> (r: Vec<&'static str>)
        ensures
            r.deep_view() == Seq::new(
                self.deep_view().missing_capabilities.len(),
                |i: int| capability_label(self.deep_view().missing_capabilities[i]),
            ),
    {
        let mut r: Vec<&'static str> = Vec::new();
        let mut i: usize = 0;
        while i < self.missing_capabilities.len()
            invariant
                i <= self.missing_capabilities.len(),
                r.len() == i,
                forall|j: int|
                    0 <= j < i ==> r.deep_view()[j] == capability_label(
                        self.missing_capabilities@[j],
                    ),
            decreases self.missing_capabilities.len() - i,
        {
            let ghost had = r;
            let label = self.missing_capabilities[i].as_str();
            r.push(label);
            proof {
                lemma_push_view(had, label, r);
            }
            i = i + 1;
        }
        assert(r.deep_view() =~= Seq::new(
            self.deep_view().missing_capabilities.len(),
            |i: int| capability_label(self.deep_view().missing_capabilities[i]),
        ));
        r
    }
}

// Coverage.

/// Whose boundary covers the tools of a category.
pub open spec fn coverage_of(category: ToolCategory) -> ExecutionCoverageSummaryView {
    match category {
        ToolCategory::Shell => ExecutionCoverageSummaryView {
            label: ExecutionCoverageLabel::LocalBackendEnforced,
            local_backend_controls_execution: true,
            user_copy: "shell commands use the configured local execution backend"@,
        },
        ToolCategory::Mcp => ExecutionCoverageSummaryView {
            label: ExecutionCoverageLabel::ExternalMcpServer,
            local_backend_controls_execution: false,
            user_copy: "MCP tools run in their server boundary; local shell sandbox does not cover them"@,
        },
        ToolCategory::Custom => ExecutionCoverageSummaryView {
            label: ExecutionCoverageLabel::UnknownExternal,
            local_backend_controls_execution: false,
            user_copy: "custom tools must declare their own execution boundary"@,
        },
        ToolCategory::File | ToolCategory::Search | ToolCategory::Agent => {
            ExecutionCoverageSummaryView {
                label: ExecutionCoverageLabel::KernelMediated,
                local_backend_controls_execution: false,
                user_copy: "kernel-mediated tool; local shell sandbox is not the execution boundary"@,
            }
        },
    }
}

impl ExecutionCoverageSummary {
    /// Whose boundary covers the tools of a category.
    pub fn for_tool_category(category: ToolCategory) -> (r: Self)
        ensures
            r.deep_view() == coverage_of(category),
    {
        match category {
            ToolCategory::Shell => ExecutionCoverageSummary {
                label: ExecutionCoverageLabel::LocalBackendEnforced,
                local_backend_controls_execution: true,
                user_copy: "shell commands use the configured local execution backend",
            },
            ToolCategory::Mcp => ExecutionCoverageSummary {
                label: ExecutionCoverageLabel::ExternalMcpServer,
                local_backend_controls_execution: false,
                user_copy: "MCP tools run in their server boundary; local shell sandbox does not cover them",
            },
            ToolCategory::Custom => ExecutionCoverageSummary {
                label: ExecutionCoverageLabel::UnknownExternal,
                local_backend_controls_execution: false,
                user_copy: "custom tools must declare their own execution boundary",
            },
            ToolCategory::File | ToolCategory::Search | ToolCategory::Agent => {
                ExecutionCoverageSummary {
                    label: ExecutionCoverageLabel::KernelMediated,
                    local_backend_controls_execution: false,
                    user_copy: "kernel-mediated tool; local shell sandbox is not the execution boundary",
                }
            },
        }
    }

    /// What plugins do is governed by the trust in them.
    pub fn plugin_managed() -> (r: Self)
        ensures
            r.label == ExecutionCoverageLabel::PluginManaged,
            !r.local_backend_controls_execution,
            r.user_copy@
                == "plugin capability is governed by plugin trust; local shell sandbox does not cover plugin code"@,
    {
        ExecutionCoverageSummary {
            label: ExecutionCoverageLabel::PluginManaged,
            local_backend_controls_execution: false,
            user_copy: "plugin capability is governed by plugin trust; local shell sandbox does not cover plugin code",
        }
    }

    /// What runs elsewhere is outside of the local sandbox.
    pub fn remote_service() -> (r: Self)
        ensures
            r.label == ExecutionCoverageLabel::RemoteService,
            !r.local_backend_controls_execution,
            r.user_copy@ == "remote execution is outside the local shell sandbox"@,
    {
        ExecutionCoverageSummary {
            label: ExecutionCoverageLabel::RemoteService,
            local_backend_controls_execution: false,
            user_copy: "remote execution is outside the local shell sandbox",
        }
    }
}

// Requests.

/// The timeout of a request: milliseconds where they are given, else seconds, of which zero means
/// that there is none.
pub open spec fn timeout_of(v: ExecutionRequestView) -> Option<ExecutionTimeout> {
    match v.timeout_ms {
        Some(ms) => Some(
            ExecutionTimeout { seconds: ms / 1000, subsec_millis: (ms % 1000) as u32 },
        ),
        None => if v.timeout_secs > 0 {
            Some(ExecutionTimeout { seconds: v.timeout_secs, subsec_millis: 0 })
        } else {
            None
        },
    }
}

/// The timeout of a request in milliseconds, or the largest number where that is too small.
pub open spec fn timeout_millis_of(v: ExecutionRequestView) -> Option<u64> {
    match timeout_of(v) {
        Some(t) => {
            let ms = t.seconds * 1000 + t.subsec_millis;
            Some(
                if ms > u64::MAX {
                    u64::MAX
                } else {
                    ms as u64
                },
            )
        },
        None => None,
    }
}

/// The names in an environment.
pub open spec fn env_names(env: Seq<EnvironmentEntryView>) -> Seq<Seq<char>> {
    Seq::new(env.len(), |i: int| env[i].name)
}

/// Entries are ordered by their names.
pub open spec fn env_order() -> spec_fn(EnvironmentEntryView, EnvironmentEntryView) -> bool {
    |a: EnvironmentEntryView, b: EnvironmentEntryView| precedes(a.name, b.name)
}

/// An environment with one more entry, or with another value under its name.
pub open spec fn with_env(env: Seq<EnvironmentEntryView>, entry: EnvironmentEntryView) -> Seq<
    EnvironmentEntryView,
> {
    match find_key::<EnvironmentEntry>(env, entry.name) {
        Some(i) => env.update(i, entry),
        None => put(env, entry, env_order()),
    }
}

impl ExecutionRequest {
    /// The environment has each name once, in ascending order.
    pub open spec fn well_formed(&self) -> bool {
        ascending(env_names(self.deep_view().env))
    }

    /// Sets an entry of the environment. Everything else stays.
    pub fn set_env(&mut self, name: String, value: String)
        ensures
            final(self).deep_view() == (ExecutionRequestView {
                env: with_env(
                    old(self).deep_view().env,
                    (EnvironmentEntryView { name: name@, value: value@ }),
                ),
                ..old(self).deep_view()
            }),
            old(self).well_formed() ==> final(self).well_formed(),
    {
        let ghost before = self.env;
        let found = position_by_key(&self.env, name.as_str());
        let entry = EnvironmentEntry { name, value };
        proof {
            if self.well_formed() {
                law_environments_stay_ordered(self.env.deep_view(), entry.deep_view());
            }
        }
        match found {
            Some(i) => {
                self.env.set(i, entry);
                proof {
                    lemma_update_view(before, i as int, entry, self.env);
                }
            },
            None => {
                let ghost p = env_order();
                put_item(
                    &mut self.env,
                    entry,
                    &|a: &EnvironmentEntry, b: &EnvironmentEntry| -> (o: bool)
                        ensures
                            o == p(a.deep_view(), b.deep_view())
                        { text_precedes(a.name.as_str(), b.name.as_str()) },
                    Ghost(p),
                );
            },
        }
    }

    /// The timeout of the request. Milliseconds count where they are given; zero seconds without them
    /// mean that the caller wants no timeout.
    pub fn timeout_duration(&self) -> (r: Option<ExecutionTimeout>)
        ensures
            r == timeout_of(self.deep_view()),
    {
        if let Some(ms) = self.timeout_ms {
            return Some(
                ExecutionTimeout { seconds: ms / 1000, subsec_millis: (ms % 1000) as u32 },
            );
        }
        if self.timeout_secs > 0 {
            Some(ExecutionTimeout { seconds: self.timeout_secs, subsec_millis: 0 })
        } else {
            None
        }
    }

    /// The timeout of the request in milliseconds.
    pub fn timeout_millis(&self) -> (r: Option<u64>)
        ensures
            r == timeout_millis_of(self.deep_view()),
    {
        if let Some(ms) = self.timeout_ms {
            return Some(ms);
        }
        if self.timeout_secs > 0 {
            if self.timeout_secs > u64::MAX / 1000 {
                Some(u64::MAX)
            } else {
                Some(self.timeout_secs * 1000)
            }
        } else {
            None
        }
    }
}

// Laws.

/// A capability is reported as missing exactly if it is needed and the backend lacks it, and none is
/// reported twice.
pub proof fn law_missing_capabilities_are_exact(
    b: ExecutionBackendCapabilities,
    r: ExecutionCapabilityRequirements,
)
    ensures
        forall|c: ExecutionCapability| #[trigger]
            missing_of(b, r).contains(c) == lacks(b, r, c),
        distinct(missing_of(b, r)),
{
    let e = Seq::<ExecutionCapability>::empty();
    let c1 = ExecutionCapability::FilesystemIsolation;
    let c2 = ExecutionCapability::NetworkIsolation;
    let c3 = ExecutionCapability::ProcessIsolation;
    let c4 = ExecutionCapability::ResourceLimits;
    let c5 = ExecutionCapability::PersistentPty;
    let c6 = ExecutionCapability::WorkspaceSnapshot;
    let m1 = with_if(e, lacks(b, r, c1), c1);
    let m2 = with_if(m1, lacks(b, r, c2), c2);
    let m3 = with_if(m2, lacks(b, r, c3), c3);
    let m4 = with_if(m3, lacks(b, r, c4), c4);
    let m5 = with_if(m4, lacks(b, r, c5), c5);
    assert forall|c: ExecutionCapability| #[trigger]
        missing_of(b, r).contains(c) == lacks(b, r, c) by {
        lemma_with_if(e, lacks(b, r, c1), c1, c);
        lemma_with_if(m1, lacks(b, r, c2), c2, c);
        lemma_with_if(m2, lacks(b, r, c3), c3, c);
        lemma_with_if(m3, lacks(b, r, c4), c4, c);
        lemma_with_if(m4, lacks(b, r, c5), c5, c);
        lemma_with_if(m5, lacks(b, r, c6), c6, c);
    }
}

proof fn lemma_with_if<A>(s: Seq<A>, holds: bool, item: A, c: A)
    ensures
        with_if(s, holds, item).contains(c) == (s.contains(c) || (holds && c == item)),
{
    let t = s.push(item);
    if s.contains(c) {
        let i = choose|i: int| 0 <= i < s.len() && s[i] == c;
        assert(t[i] == c);
    }
    assert(t[s.len() as int] == item);
    if t.contains(c) && c != item {
        let i = choose|i: int| 0 <= i < t.len() && t[i] == c;
        assert(s[i] == c);
    }
}

/// A backend is accepted for a policy exactly if it has every capability that the policy needs.
pub proof fn law_accepted_backends_have_what_is_needed(
    c: ExecutionConfigView,
    b: ExecutionBackendCapabilities,
)
    ensures
        (capabilities_verdict(c, b) is Ok) == (forall|x: ExecutionCapability|
            requires_capability(config_needs(c), x) ==> #[trigger] has_capability(b, x)),
{
    let missing = missing_of(b, config_needs(c));
    law_missing_capabilities_are_exact(b, config_needs(c));
    if missing.len() == 0 {
        assert forall|x: ExecutionCapability| requires_capability(
            config_needs(c),
            x,
        ) implies #[trigger] has_capability(b, x) by {
            assert(!missing.contains(x));
        }
    } else {
        assert(missing.contains(missing[0]));
        assert(lacks(b, config_needs(c), missing[0]));
    }
}

/// The sandbox strategy always asks for a real sandbox: no backend without isolation of file system
/// and processes is accepted for it.
pub proof fn law_sandboxes_isolate(
    sandbox: ExecutionSandboxStrategyConfigView,
    b: ExecutionBackendCapabilities,
)
    requires
        capabilities_verdict(sandbox_config(sandbox), b) is Ok,
    ensures
        b.filesystem_isolation,
        b.process_isolation,
{
    let c = sandbox_config(sandbox);
    law_accepted_backends_have_what_is_needed(c, b);
    assert(requires_capability(config_needs(c), ExecutionCapability::FilesystemIsolation));
    assert(has_capability(b, ExecutionCapability::FilesystemIsolation));
    assert(requires_capability(config_needs(c), ExecutionCapability::ProcessIsolation));
    assert(has_capability(b, ExecutionCapability::ProcessIsolation));
}

/// What is written down is read back, for every policy whose sandbox passes its check.
pub proof fn law_policies_are_read_back(c: ExecutionConfigView)
    requires
        c.strategy matches ExecutionStrategyConfigView::Sandbox(s) ==> sandbox_verdict(s) is Ok,
    ensures
        read_config(written(c)) == Ok::<ExecutionConfigView, Seq<char>>(c),
{
}

/// A policy that was read never sends a sandbox to the local backend or to the unconfined profile.
pub proof fn law_read_sandboxes_are_confined(w: ExecutionConfigWireView)
    requires
        read_config(w) is Ok,
        w.strategy == ExecutionStrategyMode::Sandbox,
    ensures
        config_backend(read_config(w)->Ok_0) != ExecutionBackendKind::Local,
        config_profile(read_config(w)->Ok_0) != ExecutionSandboxProfile::Unconfined,
{
}

/// An extension process that is let through without network access is cut off: its backend isolates
/// network and process tree and plans to deny network access. That holds for a profile that denies
/// network access, and for a declared network effect under a policy that denies it.
pub proof fn law_denied_networks_are_cut_off(
    profile: ExecutionSandboxProfile,
    effect: Option<NetworkEffectView>,
    admission: ExtensionProcessNetworkAdmission,
    b: ExecutionBackendCapabilities,
    planned: ExecutionNetworkReceiptView,
    subject: Seq<char>,
)
    requires
        network_admission_verdict(profile, effect, admission, b, planned, subject) is Ok,
        !profile_spec_of(profile).network_allowed || (effect is Some && admission.policy
            == NetworkPolicy::Deny),
    ensures
        denies_network(b, planned),
{
}

/// A declared network effect that is to be asked for is let through only with explicit approval.
pub proof fn law_asked_networks_are_approved(
    profile: ExecutionSandboxProfile,
    effect: Option<NetworkEffectView>,
    admission: ExtensionProcessNetworkAdmission,
    b: ExecutionBackendCapabilities,
    planned: ExecutionNetworkReceiptView,
    subject: Seq<char>,
)
    requires
        network_admission_verdict(profile, effect, admission, b, planned, subject) is Ok,
        effect is Some,
        admission.policy == NetworkPolicy::Ask,
    ensures
        admission.explicit_approval,
{
}

/// An environment that has each name once, in ascending order, keeps that whatever is set in it.
pub proof fn law_environments_stay_ordered(
    env: Seq<EnvironmentEntryView>,
    entry: EnvironmentEntryView,
)
    requires
        ascending(env_names(env)),
    ensures
        ascending(env_names(with_env(env, entry))),
{
    let names = env_names(env);
    lemma_find_key::<EnvironmentEntry>(env, entry.name);
    match find_key::<EnvironmentEntry>(env, entry.name) {
        Some(i) => {
            assert(env_names(with_env(env, entry)) =~= names);
        },
        None => {
            let k = lemma_put_place(env, entry, env_order());
            assert forall|j: int| 0 <= j < names.len() implies #[trigger] names[j] != entry.name by {
                assert(EnvironmentEntry::key(env[j]) != entry.name);
            }
            lemma_insert_ordered(names, k, entry.name);
            assert(env_names(with_env(env, entry)) =~= names.insert(k, entry.name));
        },
    }
}

} // verus!
