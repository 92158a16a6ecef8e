//! Execution backends: what they can enforce, what a configuration asks of them, and which
//! launches are refused.

use sigil_kernel::execution_backend::{
    undeclared_network_plan, validate_extension_process_isolation,
    validate_extension_process_isolation_with_network_policy,
    validate_extension_process_network_admission, validate_extension_process_network_receipt,
    validate_extension_process_network_receipt_with_policy, ExecutionBackendCapabilities,
    ExecutionBackendKind, ExecutionBackendSelectionDecision, ExecutionBackendSelectionDiagnostic,
    ExecutionCapability, ExecutionCapabilityRequirements, ExecutionCleanupReceipt,
    ExecutionCleanupStatus, ExecutionConfig, ExecutionConfigWire, ExecutionCoverageLabel,
    ExecutionCoverageSummary, ExecutionNetworkPolicy, ExecutionNetworkReceipt,
    ExecutionOutputReceipt, ExecutionOutputStream, ExecutionReceipt, ExecutionRequest,
    ExecutionResourceLimitKind, ExecutionResourceLimitReceipt, ExecutionResourceReceipt,
    ExecutionSandboxFallback, ExecutionSandboxProfile, ExecutionSandboxStrategyConfig,
    ExecutionStrategyMode, ExecutionTerminationCause, ExecutionTimeout, ExecutionTimeoutSource,
    ExtensionProcessLaunchErrorCode, ExtensionProcessNetworkAdmission, NetworkEffect, NetworkPolicy,
    ProcessEnvironmentPolicy, ToolCategory,
};

fn text(value: &str) -> String {
    value.to_owned()
}

fn isolating() -> ExecutionBackendCapabilities {
    ExecutionBackendCapabilities {
        filesystem_isolation: true,
        process_isolation: true,
        network_isolation: true,
        ..ExecutionBackendCapabilities::default()
    }
}

fn docker(image: Option<&str>) -> ExecutionSandboxStrategyConfig {
    ExecutionSandboxStrategyConfig {
        container_image: image.map(text),
        ..ExecutionSandboxStrategyConfig::new(ExecutionBackendKind::Docker)
    }
}

fn sandboxed(
    profile: ExecutionSandboxProfile,
    fallback: ExecutionSandboxFallback,
) -> ExecutionConfig {
    ExecutionConfig::sandbox(ExecutionSandboxStrategyConfig {
        profile,
        fallback,
        ..ExecutionSandboxStrategyConfig::new(ExecutionBackendKind::LinuxBubblewrap)
    })
}

fn request(timeout_ms: Option<u64>, timeout_secs: u64) -> ExecutionRequest {
    ExecutionRequest {
        program: text("cargo"),
        args: vec![text("test")],
        cwd: text("/work"),
        env: vec![],
        environment_policy: ProcessEnvironmentPolicy { name: text("inherit") },
        timeout_ms,
        timeout_secs,
        cpu_time_ms: None,
        memory_limit_bytes: None,
        process_count_limit: None,
    }
}

#[test]
fn environments_hold_each_name_once_in_order() {
    let mut made = request(None, 0);
    made.set_env(text("PATH"), text("/bin"));
    made.set_env(text("HOME"), text("/root"));
    made.set_env(text("PATH"), text("/usr/bin"));
    let held: Vec<(&str, &str)> =
        made.env.iter().map(|entry| (entry.name.as_str(), entry.value.as_str())).collect();
    assert_eq!(held, vec![("HOME", "/root"), ("PATH", "/usr/bin")]);
}

fn effect() -> NetworkEffect {
    NetworkEffect { label: text("outbound"), name: text("Outbound") }
}

#[test]
fn labels_are_stable() {
    assert_eq!(ExecutionBackendKind::Local.as_str(), "local");
    assert_eq!(ExecutionBackendKind::MacosSeatbelt.as_str(), "macos_seatbelt");
    assert_eq!(ExecutionBackendKind::LinuxBubblewrap.as_str(), "linux_bubblewrap");
    assert_eq!(ExecutionBackendKind::Docker.as_str(), "docker");
    assert_eq!(ExecutionCapability::FilesystemIsolation.as_str(), "filesystem_isolation");
    assert_eq!(ExecutionCapability::PersistentPty.as_str(), "persistent_pty");
    assert_eq!(ExecutionCapability::WorkspaceSnapshot.as_str(), "workspace_snapshot");
    assert_eq!(ExecutionNetworkPolicy::Unsupported.as_str(), "unsupported");
    assert_eq!(ExecutionOutputStream::Combined.as_str(), "combined");
    assert_eq!(ExecutionStrategyMode::Sandbox.as_str(), "sandbox");
    assert_eq!(ExecutionSandboxFallback::Prompt.as_str(), "prompt");
    assert_eq!(ExecutionSandboxProfile::BuildNetworked.as_str(), "build_networked");
    assert_eq!(ExecutionCoverageLabel::ExternalMcpServer.as_str(), "external_mcp_server");
    let limit = ExecutionTerminationCause::OutputLimit {
        stream: ExecutionOutputStream::Stdout,
        limit_bytes: 8,
        observed_bytes: 9,
    };
    assert_eq!(limit.as_str(), "output_limit");
    let failed = ExecutionTerminationCause::ReaderFailed {
        stream: ExecutionOutputStream::Stderr,
        reason: text("closed"),
    };
    assert_eq!(failed.as_str(), "reader_failed");
    assert_eq!(ExecutionTerminationCause::TimedOut.as_str(), "timed_out");
}

#[test]
fn defaults_are_the_least_confined_choice() {
    assert_eq!(ExecutionBackendKind::default(), ExecutionBackendKind::Local);
    assert_eq!(ExecutionNetworkPolicy::default(), ExecutionNetworkPolicy::Unknown);
    assert_eq!(ExecutionTimeoutSource::default(), ExecutionTimeoutSource::NoTimeout);
    assert_eq!(ExecutionCleanupStatus::default(), ExecutionCleanupStatus::NotNeeded);
    assert_eq!(ExecutionSandboxFallback::default(), ExecutionSandboxFallback::Deny);
    assert_eq!(ExecutionSandboxProfile::default(), ExecutionSandboxProfile::Unconfined);
    assert_eq!(ExecutionTerminationCause::default(), ExecutionTerminationCause::Exited);
    assert!(ExecutionCapabilityRequirements::default().is_empty());
    assert_eq!(ExecutionConfig::default(), ExecutionConfig::local());
    assert_eq!(ExecutionOutputReceipt::default().schema_version, 1);
    assert_eq!(ExecutionCleanupReceipt::default(), ExecutionCleanupReceipt::not_needed());
    assert_eq!(ExecutionResourceReceipt::default().applied_limits.len(), 0);
}

#[test]
fn receipts_carry_their_reason() {
    let receipt = ExecutionNetworkReceipt::denied("seatbelt denies sockets");
    assert_eq!(receipt.policy, ExecutionNetworkPolicy::Denied);
    assert_eq!(receipt.reason, Some(text("seatbelt denies sockets")));
    assert!(receipt.is_denied());
    assert!(!ExecutionNetworkReceipt::allowed("asked").is_denied());
    assert_eq!(
        ExecutionNetworkReceipt::unsupported("local").policy,
        ExecutionNetworkPolicy::Unsupported,
    );
    assert_eq!(
        undeclared_network_plan(),
        ExecutionNetworkReceipt::unknown(
            "execution backend did not declare a pre-spawn network enforcement plan",
        ),
    );
    assert_eq!(
        ExecutionCleanupReceipt::failed("busy"),
        ExecutionCleanupReceipt {
            status: ExecutionCleanupStatus::Failed,
            reason: Some(text("busy")),
        },
    );
    assert_eq!(
        ExecutionCleanupReceipt::completed("done").status,
        ExecutionCleanupStatus::Completed,
    );
    assert_eq!(
        ExecutionCleanupReceipt::unsupported("none").status,
        ExecutionCleanupStatus::Unsupported,
    );
    assert_eq!(ExecutionCleanupReceipt::unknown("lost").status, ExecutionCleanupStatus::Unknown);
    assert_eq!(
        ExecutionResourceLimitReceipt::new(ExecutionResourceLimitKind::Memory, "64MiB").value,
        "64MiB",
    );
}

#[test]
fn missing_requirements_are_named_in_order() {
    let wanted = ExecutionCapabilityRequirements {
        filesystem_isolation: true,
        network_isolation: true,
        process_isolation: true,
        resource_limits: true,
        persistent_pty: true,
        workspace_snapshot: true,
    };
    assert_eq!(
        isolating().missing_requirements(wanted),
        vec![
            ExecutionCapability::ResourceLimits,
            ExecutionCapability::PersistentPty,
            ExecutionCapability::WorkspaceSnapshot,
        ],
    );
    assert_eq!(
        ExecutionBackendCapabilities::default().missing_requirements(wanted).len(),
        6,
    );
    assert!(wanted.requires_basic_sandbox());
    assert!(isolating().supports_required_sandbox());
    assert!(!ExecutionBackendCapabilities::default().supports_required_sandbox());
}

#[test]
fn sandbox_configurations_are_validated() {
    let local = ExecutionSandboxStrategyConfig::new(ExecutionBackendKind::Local);
    assert_eq!(
        local.validate().unwrap_err().message,
        "execution.strategy \"sandbox\" cannot use execution.sandbox.backend \"local\"",
    );
    let unconfined = ExecutionSandboxStrategyConfig {
        profile: ExecutionSandboxProfile::Unconfined,
        ..ExecutionSandboxStrategyConfig::new(ExecutionBackendKind::MacosSeatbelt)
    };
    assert_eq!(
        unconfined.validate().unwrap_err().message,
        "execution.strategy \"sandbox\" cannot use execution.sandbox.profile \"unconfined\"",
    );
    assert_eq!(
        docker(Some("  \t")).validate().unwrap_err().message,
        "execution.sandbox.backend \"docker\" requires execution.sandbox.container_image",
    );
    assert_eq!(
        docker(None).validate().unwrap_err().message,
        "execution.sandbox.backend \"docker\" requires execution.sandbox.container_image",
    );
    let image = ExecutionSandboxStrategyConfig {
        container_image: Some(text("")),
        ..ExecutionSandboxStrategyConfig::new(ExecutionBackendKind::MacosSeatbelt)
    };
    assert_eq!(
        image.validate().unwrap_err().message,
        "execution.sandbox.container_image is only valid for docker execution backend",
    );
    assert_eq!(docker(Some(" rust:1 ")).validate(), Ok(()));
}

#[test]
fn configurations_are_written_and_read_back() {
    let config = ExecutionConfig::sandbox(docker(Some(" rust:1 ")));
    let wire = ExecutionConfigWire::from_config(&config);
    assert_eq!(wire.strategy, ExecutionStrategyMode::Sandbox);
    assert_eq!(wire.into_config(), Ok(config.clone()));
    assert_eq!(config.container_image(), Some(text("rust:1")));
    assert_eq!(
        ExecutionConfigWire::from_config(&ExecutionConfig::local()).into_config(),
        Ok(ExecutionConfig::local()),
    );
    let extra = ExecutionConfigWire {
        strategy: ExecutionStrategyMode::Local,
        sandbox: Some(docker(Some("rust:1"))),
    };
    assert_eq!(
        extra.into_config().unwrap_err().message,
        "execution.sandbox is only valid when execution.strategy is \"sandbox\"",
    );
    let missing = ExecutionConfigWire { strategy: ExecutionStrategyMode::Sandbox, sandbox: None };
    assert_eq!(
        missing.into_config().unwrap_err().message,
        "execution.strategy \"sandbox\" requires an [execution.sandbox] table",
    );
}

#[test]
fn profiles_say_what_they_need() {
    let offline = ExecutionSandboxProfile::BuildOffline.spec();
    assert_eq!(offline.summary, "offline build sandbox with read-only dependency caches");
    assert!(offline.requires_network_isolation && !offline.network_allowed);
    assert!(offline.requirements.network_isolation && offline.dependency_caches_read_only);
    let write = ExecutionSandboxProfile::WorkspaceWrite.spec();
    assert!(write.requires_sandbox && !write.requirements.network_isolation);
    assert!(!write.network_allowed && !write.dependency_caches_read_only);
    let open = ExecutionSandboxProfile::Unconfined.spec();
    assert!(!open.requires_sandbox && open.network_allowed && open.requirements.is_empty());
    let config = sandboxed(ExecutionSandboxProfile::WorkspaceWrite, ExecutionSandboxFallback::Deny);
    assert!(config.requires_sandbox());
    assert!(!ExecutionConfig::local().requires_sandbox());
    assert!(config.required_capabilities_for_persistent_pty().persistent_pty);
    assert_eq!(config.backend(), ExecutionBackendKind::LinuxBubblewrap);
    assert_eq!(config.strategy_mode(), ExecutionStrategyMode::Sandbox);
    assert_eq!(config.container_image(), None);
}

#[test]
fn missing_capabilities_are_explained() {
    let config = sandboxed(ExecutionSandboxProfile::BuildOffline, ExecutionSandboxFallback::Deny);
    assert_eq!(config.validate_profile_capabilities(isolating()), Ok(()));
    let open = ExecutionBackendCapabilities { network_isolation: false, ..isolating() };
    assert_eq!(
        config.validate_profile_capabilities(open).unwrap_err().message,
        "execution profile BuildOffline requires network isolation",
    );
    let shared = ExecutionBackendCapabilities { process_isolation: false, ..isolating() };
    assert_eq!(
        config.validate_profile_capabilities(shared).unwrap_err().message,
        "execution profile BuildOffline requires filesystem and process isolation",
    );
    let unconfined =
        sandboxed(ExecutionSandboxProfile::Unconfined, ExecutionSandboxFallback::Deny);
    assert_eq!(
        unconfined.validate_profile_capabilities(shared).unwrap_err().message,
        "execution isolation require_sandbox requires filesystem and process isolation",
    );
    assert_eq!(ExecutionConfig::local().validate_profile_capabilities(shared), Ok(()));
}

#[test]
fn fallbacks_decide_the_selection() {
    let deny = sandboxed(ExecutionSandboxProfile::BuildOffline, ExecutionSandboxFallback::Deny);
    let selected = ExecutionBackendSelectionDiagnostic::selected(&deny, isolating());
    assert_eq!(selected.decision, ExecutionBackendSelectionDecision::Selected);
    assert_eq!(selected.selected_backend, Some(ExecutionBackendKind::LinuxBubblewrap));
    let gone = ExecutionBackendSelectionDiagnostic::unavailable(&deny, "bwrap is not installed");
    assert_eq!(gone.decision, ExecutionBackendSelectionDecision::FallbackDenied);
    assert_eq!(gone.selected_backend, None);
    assert_eq!(gone.availability_reason, Some(text("bwrap is not installed")));
    assert!(!gone.platform_available);
    let prompt = sandboxed(ExecutionSandboxProfile::BuildOffline, ExecutionSandboxFallback::Prompt);
    let lacking = ExecutionBackendSelectionDiagnostic::missing_capabilities(
        &prompt,
        ExecutionBackendCapabilities { network_isolation: false, ..isolating() },
    );
    assert_eq!(lacking.decision, ExecutionBackendSelectionDecision::FallbackPromptRequired);
    assert_eq!(lacking.missing_capability_labels(), vec!["network_isolation"]);
    let relaxed =
        sandboxed(ExecutionSandboxProfile::BuildOffline, ExecutionSandboxFallback::Unconfined);
    assert_eq!(
        ExecutionBackendSelectionDiagnostic::unavailable(&relaxed, "gone").decision,
        ExecutionBackendSelectionDecision::FallbackUnconfined,
    );
}

#[test]
fn coverage_is_told_by_category() {
    let shell = ExecutionCoverageSummary::for_tool_category(ToolCategory::Shell);
    assert_eq!(shell.label, ExecutionCoverageLabel::LocalBackendEnforced);
    assert!(shell.local_backend_controls_execution);
    let mcp = ExecutionCoverageSummary::for_tool_category(ToolCategory::Mcp);
    assert_eq!(
        mcp.user_copy,
        "MCP tools run in their server boundary; local shell sandbox does not cover them",
    );
    assert_eq!(
        ExecutionCoverageSummary::for_tool_category(ToolCategory::Search).label,
        ExecutionCoverageLabel::KernelMediated,
    );
    assert_eq!(
        ExecutionCoverageSummary::for_tool_category(ToolCategory::Custom).label,
        ExecutionCoverageLabel::UnknownExternal,
    );
    assert_eq!(
        ExecutionCoverageSummary::plugin_managed().label,
        ExecutionCoverageLabel::PluginManaged,
    );
    assert_eq!(
        ExecutionCoverageSummary::remote_service().user_copy,
        "remote execution is outside the local shell sandbox",
    );
}

#[test]
fn processes_that_cannot_be_isolated_are_not_launched() {
    let denied = ExecutionNetworkReceipt::denied("namespace");
    let shared = ExecutionBackendCapabilities { process_isolation: false, ..isolating() };
    let refusal = validate_extension_process_isolation(
        ExecutionSandboxProfile::BuildNetworked,
        shared,
        &denied,
        "mcp:search",
    )
    .unwrap_err();
    assert_eq!(refusal.code, ExtensionProcessLaunchErrorCode::ProcessIsolationUnavailable);
    assert_eq!(refusal.subject, "mcp:search");
    assert_eq!(
        refusal.message,
        "extension process profile build_networked requires process-tree isolation before spawn",
    );
    let open = validate_extension_process_isolation(
        ExecutionSandboxProfile::WorkspaceWrite,
        isolating(),
        &ExecutionNetworkReceipt::allowed("configured"),
        "mcp:search",
    )
    .unwrap_err();
    assert_eq!(open.code, ExtensionProcessLaunchErrorCode::NetworkIsolationUnavailable);
    assert_eq!(
        open.message,
        "extension process profile workspace_write denies network access but the backend launch \
         plan is allowed and cannot prove network and process-tree isolation",
    );
    assert_eq!(
        validate_extension_process_isolation(
            ExecutionSandboxProfile::WorkspaceWrite,
            isolating(),
            &denied,
            "mcp:search",
        ),
        Ok(()),
    );
}

#[test]
fn network_effects_need_an_approval_or_a_wall() {
    let allowed = ExecutionNetworkReceipt::allowed("open");
    let denied = ExecutionNetworkReceipt::denied("namespace");
    let ask = validate_extension_process_isolation_with_network_policy(
        ExecutionSandboxProfile::Unconfined,
        Some(&effect()),
        NetworkPolicy::Ask,
        isolating(),
        &allowed,
        "plugin",
    )
    .unwrap_err();
    assert_eq!(ask.code, ExtensionProcessLaunchErrorCode::NetworkApprovalRequired);
    assert_eq!(
        ask.message,
        "extension outbound network effect requires explicit user approval before spawn",
    );
    assert_eq!(
        validate_extension_process_network_admission(
            ExecutionSandboxProfile::Unconfined,
            Some(&effect()),
            ExtensionProcessNetworkAdmission::new(NetworkPolicy::Ask, true),
            isolating(),
            &allowed,
            "plugin",
        ),
        Ok(()),
    );
    let wall = validate_extension_process_network_admission(
        ExecutionSandboxProfile::Unconfined,
        Some(&effect()),
        ExtensionProcessNetworkAdmission::new(NetworkPolicy::Deny, true),
        isolating(),
        &allowed,
        "plugin",
    )
    .unwrap_err();
    assert_eq!(wall.code, ExtensionProcessLaunchErrorCode::NetworkIsolationUnavailable);
    assert_eq!(
        wall.message,
        "extension network policy denies outbound effect but the backend launch plan is allowed \
         and cannot prove network and process-tree isolation",
    );
    assert_eq!(
        validate_extension_process_network_admission(
            ExecutionSandboxProfile::Unconfined,
            Some(&effect()),
            ExtensionProcessNetworkAdmission::new(NetworkPolicy::Deny, false),
            isolating(),
            &denied,
            "plugin",
        ),
        Ok(()),
    );
    assert_eq!(
        validate_extension_process_network_admission(
            ExecutionSandboxProfile::Unconfined,
            None,
            ExtensionProcessNetworkAdmission::new(NetworkPolicy::Deny, false),
            ExecutionBackendCapabilities::default(),
            &allowed,
            "plugin",
        ),
        Ok(()),
    );
}

#[test]
fn receipts_are_held_to_the_denial() {
    let allowed = ExecutionNetworkReceipt::allowed("open");
    let wrong = validate_extension_process_network_receipt(
        ExecutionSandboxProfile::BuildOffline,
        &allowed,
        "plugin",
    )
    .unwrap_err();
    assert_eq!(wrong.code, ExtensionProcessLaunchErrorCode::BackendReceiptInvalid);
    assert_eq!(
        wrong.message,
        "extension process profile build_offline requires a denied network receipt, observed \
         allowed",
    );
    let policy = validate_extension_process_network_receipt_with_policy(
        ExecutionSandboxProfile::Unconfined,
        Some(&effect()),
        NetworkPolicy::Deny,
        &allowed,
        "plugin",
    )
    .unwrap_err();
    assert_eq!(
        policy.message,
        "extension network policy denies Some(Outbound) effect, observed allowed receipt",
    );
    assert_eq!(
        validate_extension_process_network_receipt_with_policy(
            ExecutionSandboxProfile::Unconfined,
            Some(&effect()),
            NetworkPolicy::Allow,
            &allowed,
            "plugin",
        ),
        Ok(()),
    );
}

#[test]
fn timeouts_prefer_milliseconds() {
    assert_eq!(
        request(Some(1500), 9).timeout_duration(),
        Some(ExecutionTimeout { seconds: 1, subsec_millis: 500 }),
    );
    assert_eq!(request(Some(0), 9).timeout_millis(), Some(0));
    assert_eq!(
        request(None, 9).timeout_duration(),
        Some(ExecutionTimeout { seconds: 9, subsec_millis: 0 }),
    );
    assert_eq!(request(None, 9).timeout_millis(), Some(9000));
    assert_eq!(request(None, u64::MAX).timeout_millis(), Some(u64::MAX));
    assert_eq!(request(None, 0).timeout_duration(), None);
    assert_eq!(request(None, 0).timeout_millis(), None);
}

#[test]
fn output_evidence_has_one_schema() {
    let mut output = ExecutionOutputReceipt::default();
    assert_eq!(output.validate_schema_version(), Ok(()));
    output.schema_version = 2;
    assert_eq!(
        output.validate_schema_version().unwrap_err().message,
        "unsupported execution output receipt schema version 2",
    );
    let receipt = ExecutionReceipt {
        backend: ExecutionBackendKind::Local,
        capabilities: ExecutionBackendCapabilities::default(),
        network: ExecutionNetworkReceipt::default(),
        resources: ExecutionResourceReceipt::default(),
        environment_policy: ProcessEnvironmentPolicy { name: text("inherit") },
        exit_code: Some(0),
        stdout: vec![111, 107],
        stderr: vec![],
        output: output.clone(),
        timed_out: false,
    };
    assert_eq!(receipt.effective_output(), output);
}
