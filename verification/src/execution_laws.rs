//! What decides whether a command or an extension process may run: which profile asks for what,
//! which backend is good enough, and what happens where none is.

use vstd::prelude::*;

use crate::execution_backend::{
    capabilities_verdict, config_backend, config_fallback, config_image, config_isolation,
    config_needs, config_needs_sandbox, config_profile, coverage_of, env_names, env_order,
    isolation_verdict, law_accepted_backends_have_what_is_needed,
    law_missing_capabilities_are_exact, missing_of, network_admission_verdict,
    network_receipt_verdict, policy_receipt_verdict, profile_spec_of, read_config,
    requires_capability, has_capability, sandbox_of, sandbox_verdict, selection_of,
    timeout_millis_of, timeout_of, with_env, EnvironmentEntry, EnvironmentEntryView,
    ExecutionBackendCapabilities, ExecutionBackendKind, ExecutionBackendSelectionDecision,
    ExecutionCapability, ExecutionCapabilityRequirements, ExecutionConfigView,
    ExecutionConfigWireView, ExecutionCoverageLabel, ExecutionIsolationPolicy,
    ExecutionNetworkPolicy, ExecutionNetworkReceiptView, ExecutionRequestView,
    ExecutionSandboxFallback, ExecutionSandboxProfile, ExecutionSandboxStrategyConfigView,
    ExecutionStrategyConfigView, ExecutionStrategyMode, ExtensionProcessLaunchErrorCode,
    ExtensionProcessNetworkAdmission, NetworkEffectView, NetworkPolicy, ToolCategory,
};
use crate::order::lemma_put_place;
use crate::text::{ascending, is_blank, trimmed};
use crate::value::{find_key, lemma_find_key, Keyed};

verus! {

// Profiles.

/// What the profiles differ in. Only the unconfined profile does without a sandbox. Network access
/// is allowed under it and under the networked build alone, and must be isolated by the backend for
/// the offline build alone. The two builds alone read dependency caches without writing them.
pub proof fn law_profiles_differ(p: ExecutionSandboxProfile)
    ensures
        profile_spec_of(p).profile == p,
        profile_spec_of(p).requires_sandbox <==> p != ExecutionSandboxProfile::Unconfined,
        profile_spec_of(p).network_allowed <==> (p == ExecutionSandboxProfile::Unconfined || p
            == ExecutionSandboxProfile::BuildNetworked),
        profile_spec_of(p).requires_network_isolation <==> p == ExecutionSandboxProfile::BuildOffline,
        profile_spec_of(p).dependency_caches_read_only <==> (p
            == ExecutionSandboxProfile::BuildOffline || p == ExecutionSandboxProfile::BuildNetworked),
        forall|x: ExecutionCapability| #[trigger]
            requires_capability(profile_spec_of(p).requirements, x) <==> match x {
                ExecutionCapability::FilesystemIsolation => p != ExecutionSandboxProfile::Unconfined,
                ExecutionCapability::ProcessIsolation => p != ExecutionSandboxProfile::Unconfined,
                ExecutionCapability::NetworkIsolation => p == ExecutionSandboxProfile::BuildOffline,
                _ => false,
            },
{
}

/// A backend is asked for a capability by the field of that name, and has it by the field of that
/// name.
pub proof fn law_capabilities_are_their_fields(
    b: ExecutionBackendCapabilities,
    r: ExecutionCapabilityRequirements,
)
    ensures
        ({
            let missing = missing_of(b, r);
            &&& missing.contains(ExecutionCapability::FilesystemIsolation) <==> (
            r.filesystem_isolation && !b.filesystem_isolation)
            &&& missing.contains(ExecutionCapability::NetworkIsolation) <==> (r.network_isolation
                && !b.network_isolation)
            &&& missing.contains(ExecutionCapability::ProcessIsolation) <==> (r.process_isolation
                && !b.process_isolation)
            &&& missing.contains(ExecutionCapability::ResourceLimits) <==> (r.resource_limits
                && !b.resource_limits)
            &&& missing.contains(ExecutionCapability::PersistentPty) <==> (r.persistent_pty
                && !b.persistent_pty)
            &&& missing.contains(ExecutionCapability::WorkspaceSnapshot) <==> (r.workspace_snapshot
                && !b.workspace_snapshot)
            &&& missing.len() <= 6
        }),
{
    law_missing_capabilities_are_exact(b, r);
}

// Policies.

/// Local execution takes any backend. A sandbox takes exactly the backends that isolate file system
/// and processes and, for the offline build, the network.
pub proof fn law_backends_are_good_enough(c: ExecutionConfigView, b: ExecutionBackendCapabilities)
    ensures
        capabilities_verdict(c, b) is Ok <==> match c.strategy {
            ExecutionStrategyConfigView::Local => true,
            ExecutionStrategyConfigView::Sandbox(s) => b.filesystem_isolation && b.process_isolation
                && (s.profile == ExecutionSandboxProfile::BuildOffline ==> b.network_isolation),
        },
        config_needs_sandbox(c) <==> c.strategy is Sandbox,
{
    law_accepted_backends_have_what_is_needed(c, b);
    law_profiles_differ(config_profile(c));
    let needs = config_needs(c);
    assert(requires_capability(needs, ExecutionCapability::FilesystemIsolation)
        == needs.filesystem_isolation);
    assert(has_capability(b, ExecutionCapability::FilesystemIsolation) == b.filesystem_isolation);
    assert(has_capability(b, ExecutionCapability::ProcessIsolation) == b.process_isolation);
    assert(has_capability(b, ExecutionCapability::NetworkIsolation) == b.network_isolation);
    assert(requires_capability(
        profile_spec_of(config_profile(c)).requirements,
        ExecutionCapability::FilesystemIsolation,
    ) == profile_spec_of(config_profile(c)).requirements.filesystem_isolation);
    if capabilities_verdict(c, b) is Ok {
        assert(requires_capability(needs, ExecutionCapability::FilesystemIsolation) ==> has_capability(
            b,
            ExecutionCapability::FilesystemIsolation,
        ));
    } else {
        let x = choose|x: ExecutionCapability|
            requires_capability(needs, x) && !#[trigger] has_capability(b, x);
        assert(requires_capability(needs, x) && !has_capability(b, x));
    }
}

/// What a policy says of itself: local execution is the unconfined local backend without a sandbox,
/// and a sandbox is what its table says, and always asks for one.
pub proof fn law_policies_say_what_they_are(c: ExecutionConfigView)
    ensures
        c.strategy is Local ==> config_backend(c) == ExecutionBackendKind::Local && config_profile(c)
            == ExecutionSandboxProfile::Unconfined && config_fallback(c)
            == ExecutionSandboxFallback::Deny && config_isolation(c)
            == ExecutionIsolationPolicy::AllowLocal && config_image(c) is None,
        c.strategy matches ExecutionStrategyConfigView::Sandbox(s) ==> config_backend(c) == s.backend
            && config_profile(c) == s.profile && config_fallback(c) == s.fallback && config_isolation(c)
            == ExecutionIsolationPolicy::RequireSandbox && config_image(c) == (
        match s.container_image {
            Some(image) => if trimmed(image) == Seq::<char>::empty() {
                None
            } else {
                Some(trimmed(image))
            },
            None => None,
        }),
{
    if let ExecutionStrategyConfigView::Sandbox(s) = c.strategy {
        if let Some(image) = s.container_image {
            assert((trimmed(image).len() == 0) == (trimmed(image) =~= Seq::<char>::empty()));
        }
    }
}

/// A sandbox table is accepted exactly if it names a backend that is not the local one and a
/// profile that is not the unconfined one, and a container image exactly where the backend is
/// Docker, which must not be blank. A table of which only the backend was said denies what it
/// cannot have and lets nothing be written but the workspace.
pub proof fn law_sandbox_tables_are_checked(s: ExecutionSandboxStrategyConfigView)
    ensures
        sandbox_verdict(s) is Ok <==> s.backend != ExecutionBackendKind::Local && s.profile
            != ExecutionSandboxProfile::Unconfined && (match s.container_image {
            Some(image) => s.backend == ExecutionBackendKind::Docker && !is_blank(image),
            None => s.backend != ExecutionBackendKind::Docker,
        }),
        sandbox_of(s.backend).backend == s.backend,
        sandbox_of(s.backend).profile == ExecutionSandboxProfile::WorkspaceWrite,
        sandbox_of(s.backend).fallback == ExecutionSandboxFallback::Deny,
        sandbox_of(s.backend).container_image is None,
{
}

/// A policy is read exactly if a sandbox table stands under the sandbox strategy and nowhere else,
/// and is accepted; what is read is what was written.
pub proof fn law_policies_are_read_exactly(w: ExecutionConfigWireView)
    ensures
        read_config(w) is Ok <==> match w.sandbox {
            Some(s) => w.strategy == ExecutionStrategyMode::Sandbox && sandbox_verdict(s) is Ok,
            None => w.strategy == ExecutionStrategyMode::Local,
        },
        read_config(w) matches Ok(c) ==> match w.sandbox {
            Some(s) => c.strategy == ExecutionStrategyConfigView::Sandbox(s),
            None => c.strategy is Local,
        },
{
}

// Selection.

/// What becomes of a backend that was asked for. Where it was selected it is the one that was asked
/// for. Where it was not, no other is taken by itself: the policy denies the execution, asks the
/// user, or lets it run unconfined, exactly as its table says, and local execution denies it.
pub proof fn law_backends_are_never_replaced(
    c: ExecutionConfigView,
    selected: bool,
    capabilities: Option<ExecutionBackendCapabilities>,
    missing: Seq<ExecutionCapability>,
    reason: Option<Seq<char>>,
)
    ensures
        ({
            let d = selection_of(c, selected, capabilities, missing, reason);
            let fallback = match c.strategy {
                ExecutionStrategyConfigView::Local => ExecutionSandboxFallback::Deny,
                ExecutionStrategyConfigView::Sandbox(s) => s.fallback,
            };
            &&& d.requested_backend == config_backend(c)
            &&& d.requested_profile == config_profile(c)
            &&& d.fallback == fallback
            &&& d.requirements == config_needs(c)
            &&& d.selected_backend == (if selected {
                Some(d.requested_backend)
            } else {
                None
            })
            &&& d.decision == ExecutionBackendSelectionDecision::Selected <==> selected
            &&& d.decision == ExecutionBackendSelectionDecision::FallbackDenied <==> !selected
                && fallback == ExecutionSandboxFallback::Deny
            &&& d.decision == ExecutionBackendSelectionDecision::FallbackPromptRequired <==> !selected
                && fallback == ExecutionSandboxFallback::Prompt
            &&& d.decision == ExecutionBackendSelectionDecision::FallbackUnconfined <==> !selected
                && fallback == ExecutionSandboxFallback::Unconfined
            &&& d.platform_available <==> capabilities is Some
            &&& d.capabilities == capabilities
            &&& d.missing_capabilities == missing
            &&& d.availability_reason == reason
        }),
{
}

// Extension processes.

/// An extension process may be spawned under a profile exactly if the backend isolates processes,
/// unless the profile is the unconfined one, and if network access is cut off, unless the profile
/// allows it. What is missing is told: isolation of processes first, then that of the network.
pub proof fn law_extensions_are_isolated(
    profile: ExecutionSandboxProfile,
    b: ExecutionBackendCapabilities,
    planned: ExecutionNetworkReceiptView,
    subject: Seq<char>,
)
    ensures
        ({
            let v = isolation_verdict(profile, b, planned, subject);
            let open = profile == ExecutionSandboxProfile::Unconfined || profile
                == ExecutionSandboxProfile::BuildNetworked;
            let cut_off = b.network_isolation && b.process_isolation && planned.policy
                == ExecutionNetworkPolicy::Denied;
            &&& v is Ok <==> (profile == ExecutionSandboxProfile::Unconfined || b.process_isolation)
                && (open || cut_off)
            &&& v matches Err(e) ==> e.subject == subject && (if profile
                != ExecutionSandboxProfile::Unconfined && !b.process_isolation {
                e.code == ExtensionProcessLaunchErrorCode::ProcessIsolationUnavailable
            } else {
                e.code == ExtensionProcessLaunchErrorCode::NetworkIsolationUnavailable
            })
        }),
{
    law_profiles_differ(profile);
}

/// A network effect that was declared is let through exactly if its policy allows it, if it is to
/// be asked for and the user has approved, or if it is denied and network access is cut off; and
/// the profile must let the process through in any case. Without such an effect the profile alone
/// decides.
pub proof fn law_network_effects_are_admitted(
    profile: ExecutionSandboxProfile,
    effect: Option<NetworkEffectView>,
    admission: ExtensionProcessNetworkAdmission,
    b: ExecutionBackendCapabilities,
    planned: ExecutionNetworkReceiptView,
    subject: Seq<char>,
)
    ensures
        ({
            let v = network_admission_verdict(profile, effect, admission, b, planned, subject);
            let isolated = isolation_verdict(profile, b, planned, subject);
            let cut_off = b.network_isolation && b.process_isolation && planned.policy
                == ExecutionNetworkPolicy::Denied;
            &&& effect is None ==> v == isolated
            &&& effect is Some ==> (v is Ok <==> isolated is Ok && (match admission.policy {
                NetworkPolicy::Allow => true,
                NetworkPolicy::Ask => admission.explicit_approval,
                NetworkPolicy::Deny => cut_off,
            }))
            &&& v matches Err(e) ==> e.subject == subject && (e.code
                == ExtensionProcessLaunchErrorCode::NetworkApprovalRequired <==> effect is Some
                && admission.policy == NetworkPolicy::Ask && !admission.explicit_approval)
            &&& v matches Err(e) ==> e.code != ExtensionProcessLaunchErrorCode::BackendReceiptInvalid
        }),
{
    law_extensions_are_isolated(profile, b, planned, subject);
}

/// The receipt of an extension process that ran is accepted exactly if it says that network access
/// was denied, unless the profile allows it; and where a declared network effect is denied by its
/// policy, it must say so in any case.
pub proof fn law_network_receipts_are_checked(
    profile: ExecutionSandboxProfile,
    effect: Option<NetworkEffectView>,
    policy: NetworkPolicy,
    receipt: ExecutionNetworkReceiptView,
    subject: Seq<char>,
)
    ensures
        ({
            let denied = receipt.policy == ExecutionNetworkPolicy::Denied;
            let open = profile == ExecutionSandboxProfile::Unconfined || profile
                == ExecutionSandboxProfile::BuildNetworked;
            &&& network_receipt_verdict(profile, receipt, subject) is Ok <==> (open || denied)
            &&& policy_receipt_verdict(profile, effect, policy, receipt, subject) is Ok <==> (denied
                || (open && !(effect is Some && policy == NetworkPolicy::Deny)))
            &&& policy_receipt_verdict(profile, effect, policy, receipt, subject) matches Err(e)
                ==> e.code == ExtensionProcessLaunchErrorCode::BackendReceiptInvalid && e.subject
                == subject
        }),
{
    law_profiles_differ(profile);
}

// Coverage.

/// The local backend controls what runs in a shell, and nothing else; what runs in an external
/// server and what is not known are told apart from what the kernel itself runs.
pub proof fn law_shells_alone_are_covered(category: ToolCategory)
    ensures
        coverage_of(category).local_backend_controls_execution <==> category == ToolCategory::Shell,
        coverage_of(category).label == ExecutionCoverageLabel::LocalBackendEnforced <==> category
            == ToolCategory::Shell,
        coverage_of(category).label == ExecutionCoverageLabel::ExternalMcpServer <==> category
            == ToolCategory::Mcp,
        coverage_of(category).label == ExecutionCoverageLabel::UnknownExternal <==> category
            == ToolCategory::Custom,
        coverage_of(category).label == ExecutionCoverageLabel::KernelMediated <==> (category
            == ToolCategory::File || category == ToolCategory::Search || category
            == ToolCategory::Agent),
{
}

// Requests.

/// The timeout of a request is that in milliseconds where it is given, else that in seconds, where
/// zero means that there is none; both ways of asking for it agree, as far as the number has room.
pub proof fn law_timeouts_agree(v: ExecutionRequestView)
    ensures
        timeout_of(v) is None <==> v.timeout_ms is None && v.timeout_secs == 0,
        timeout_millis_of(v) is None <==> timeout_of(v) is None,
        timeout_of(v) matches Some(t) ==> t.subsec_millis < 1000 && t.seconds * 1000 + t.subsec_millis
            == (match v.timeout_ms {
            Some(ms) => ms as int,
            None => v.timeout_secs * 1000,
        }),
        v.timeout_ms matches Some(ms) ==> timeout_millis_of(v) == Some(ms),
        v.timeout_ms is None && 0 < v.timeout_secs && v.timeout_secs * 1000 <= u64::MAX
            ==> timeout_millis_of(v) == Some((v.timeout_secs * 1000) as u64),
        v.timeout_ms is None && v.timeout_secs * 1000 > u64::MAX ==> timeout_millis_of(v) == Some(
            u64::MAX,
        ),
{
    if let Some(ms) = v.timeout_ms {
        assert(ms == (ms / 1000) * 1000 + ms % 1000) by (nonlinear_arith);
    }
}

/// The value of a name in an environment that has each name once.
pub open spec fn has_value(env: Seq<EnvironmentEntryView>, name: Seq<char>, value: Seq<char>) -> bool {
    exists|i: int| 0 <= i < env.len() && (#[trigger] env[i]).name == name && env[i].value == value
}

/// What is set in an environment is what the environment has, and nothing else changes.
pub proof fn law_environments_have_what_is_set(
    env: Seq<EnvironmentEntryView>,
    entry: EnvironmentEntryView,
    name: Seq<char>,
    value: Seq<char>,
)
    requires
        ascending(env_names(env)),
    ensures
        has_value(with_env(env, entry), name, value) <==> (if name == entry.name {
            value == entry.value
        } else {
            has_value(env, name, value)
        }),
{
    let after = with_env(env, entry);
    let names = env_names(env);
    lemma_find_key::<EnvironmentEntry>(env, entry.name);
    match find_key::<EnvironmentEntry>(env, entry.name) {
        Some(k) => {
            assert(after[k] == entry);
            assert forall|i: int| 0 <= i < env.len() && i != k implies (#[trigger] env[i]).name
                != entry.name by {
                assert(names[i] == env[i].name && names[k] == env[k].name);
                crate::text::lemma_precedes_irreflexive(names[k]);
                if i < k {
                    assert(crate::text::precedes(names[i], names[k]));
                } else {
                    assert(crate::text::precedes(names[k], names[i]));
                }
            }
            if has_value(env, name, value) {
                let i = choose|i: int|
                    0 <= i < env.len() && (#[trigger] env[i]).name == name && env[i].value == value;
                if name != entry.name {
                    assert(after[i] == env[i]);
                }
            }
            if has_value(after, name, value) {
                let i = choose|i: int|
                    0 <= i < after.len() && (#[trigger] after[i]).name == name && after[i].value
                        == value;
                if i != k {
                    assert(env[i] == after[i]);
                }
            }
        },
        None => {
            let k = lemma_put_place(env, entry, env_order());
            assert(after[k] == entry);
            assert forall|i: int| 0 <= i < env.len() implies (#[trigger] env[i]).name != entry.name by {
                assert(EnvironmentEntry::key(env[i]) != entry.name);
            }
            if has_value(env, name, value) {
                let i = choose|i: int|
                    0 <= i < env.len() && (#[trigger] env[i]).name == name && env[i].value == value;
                if i < k {
                    assert(after[i] == env[i]);
                } else {
                    assert(after[i + 1] == env[i]);
                }
            }
            if has_value(after, name, value) {
                let i = choose|i: int|
                    0 <= i < after.len() && (#[trigger] after[i]).name == name && after[i].value
                        == value;
                if i < k {
                    assert(env[i] == after[i]);
                } else if i > k {
                    assert(env[i - 1] == after[i]);
                }
            }
        },
    }
}

} // verus!
