//! How a user is started: in which tier, with which tools, from which start-up data.

use crate::browser;
use crate::browser::{build_browser_env, BrowserBridge, BrowserModel, BrowserToolConfig};
use crate::docker::RunnerResourceLimits;
use crate::guest::RunnerLaunchHandle;
use crate::launch::{LaunchReport, SandboxLaunchRequest};
use crate::paths;
use crate::paths::join_path;
use crate::sandbox;
use crate::sandbox::{
    clone_reasons, EndpointModel, ReasonModel, RunnerError, RunnerGuestImages, SandboxTier,
    SidecarEndpoint, SidecarTransport, StartupDegradedReason, StartupDegradedReasonCode,
    StartupStatusReport, StatusModel, PROCESS_TIER_WARNING,
};
use crate::text;
use crate::text::{concat, concat3, same_text, split_once, strip_prefix};
use crate::text_map::TextMap;
use crate::workspace;
use crate::workspace::{
    resolve_effective_mount_paths, validate_user_id, EffectiveMountPaths, MountsModel,
    RunnerMountPaths, UserWorkspace,
};
use vstd::prelude::*;

verus! {

/// How a user's guests are to behave.
#[derive(Debug, Clone, Copy, PartialEq, Eq, Structural, Default)]
pub struct RunnerUserBehavior {
    pub sandbox_tier: Option<SandboxTier>,
    pub shell_enabled: Option<bool>,
    pub browser_enabled: Option<bool>,
}

/// The configuration of a user.
#[derive(Debug, PartialEq, Eq)]
pub struct RunnerUserConfig {
    pub mounts: RunnerMountPaths,
    pub resources: RunnerResourceLimits,
    pub credential_refs: TextMap<String>,
    pub behavior: RunnerUserBehavior,
}

/// The configuration of the runner.
#[derive(Debug, PartialEq, Eq)]
pub struct RunnerGlobalConfig {
    pub workspace_root: String,
    pub default_tier: SandboxTier,
    pub guest_images: RunnerGuestImages,
    /// The configuration file of each user.
    pub users: TextMap<String>,
}

/// A request to start a user.
#[derive(Debug, PartialEq, Eq)]
pub struct RunnerStartRequest {
    pub user_id: String,
    pub insecure: bool,
    /// Variables for the guests, each as `KEY=VALUE`. Those whose key starts with
    /// `SHELL_` are for the sidecar.
    pub extra_env: Vec<String>,
}

impl RunnerStartRequest {
    pub fn new(user_id: &str) -> (r: Self)
        ensures
            r.user_id@ == user_id@,
            !r.insecure,
            r.extra_env@.len() == 0,
    {
        RunnerStartRequest { user_id: user_id.to_owned(), insecure: false, extra_env: Vec::new() }
    }
}

/// A request to connect a terminal to a user's running guest.
#[derive(Debug, PartialEq, Eq)]
pub struct RunnerTuiConnectRequest {
    pub user_id: String,
}

impl RunnerTuiConnectRequest {
    pub fn new(user_id: &str) -> (r: Self)
        ensures
            r.user_id@ == user_id@,
    {
        RunnerTuiConnectRequest { user_id: user_id.to_owned() }
    }
}

pub open spec fn tier_of(
    default_tier: SandboxTier,
    behavior: RunnerUserBehavior,
    insecure: bool,
) -> SandboxTier {
    if insecure {
        SandboxTier::Process
    } else {
        match behavior.sandbox_tier {
            Some(tier) => tier,
            None => default_tier,
        }
    }
}

/// In which tier a user is started: as a plain process where the user insists, or else
/// as the user's configuration says, or else as the runner's does.
pub fn resolve_sandbox_tier(
    global_config: &RunnerGlobalConfig,
    user_config: &RunnerUserConfig,
    insecure: bool,
) -> (r: SandboxTier)
    ensures
        r == tier_of(global_config.default_tier, user_config.behavior, insecure),
{
    if insecure {
        SandboxTier::Process
    } else {
        match user_config.behavior.sandbox_tier {
            Some(tier) => tier,
            None => global_config.default_tier,
        }
    }
}

/// The tools that are asked for.
#[derive(Debug, Clone, Copy, PartialEq, Eq, Structural)]
pub struct RequestedCapabilities {
    pub shell: bool,
    pub browser: bool,
}

pub open spec fn capabilities_of(tier: SandboxTier, behavior: RunnerUserBehavior) ->
    RequestedCapabilities {
    RequestedCapabilities {
        shell: tier != SandboxTier::Process && behavior.shell_enabled != Some(false),
        browser: tier != SandboxTier::Process && behavior.browser_enabled != Some(false),
    }
}

/// Which tools are asked for: all, unless the user switched one off; none in a plain
/// process.
pub fn resolve_requested_capabilities(tier: SandboxTier, behavior: RunnerUserBehavior) -> (r:
    RequestedCapabilities)
    ensures
        r == capabilities_of(tier, behavior),
{
    let isolated = tier != SandboxTier::Process;
    RequestedCapabilities {
        shell: isolated && match behavior.shell_enabled {
            Some(enabled) => enabled,
            None => true,
        },
        browser: isolated && match behavior.browser_enabled {
            Some(enabled) => enabled,
            None => true,
        },
    }
}

/// Whoever insists on a plain process gets one, without shell and browser.
pub proof fn law_insecure_start_has_no_tools(
    default_tier: SandboxTier,
    behavior: RunnerUserBehavior,
)
    ensures
        tier_of(default_tier, behavior, true) == SandboxTier::Process,
        capabilities_of(tier_of(default_tier, behavior, true), behavior) == (
        RequestedCapabilities { shell: false, browser: false }),
{
}

/// Where the sidecar will be reached.
pub open spec fn expected_sidecar(tier: SandboxTier, host_os: Seq<char>, ipc: Seq<char>) ->
    EndpointModel {
    if tier == SandboxTier::MicroVm && host_os == "linux"@ {
        EndpointModel {
            transport: SidecarTransport::Vsock,
            address: "unix://"@ + paths::joined_path(ipc, "shell-daemon-vsock.sock"@),
        }
    } else {
        EndpointModel {
            transport: SidecarTransport::Unix,
            address: paths::joined_path(ipc, "shell-daemon.sock"@),
        }
    }
}

/// Where the sidecar will be reached. The start-up data has to say so before the sidecar
/// runs.
pub fn pre_compute_sidecar_endpoint(tier: SandboxTier, host_os: &str, workspace: &UserWorkspace) ->
    (r: SidecarEndpoint)
    ensures
        r.deep_view() == expected_sidecar(tier, host_os@, workspace.ipc@),
{
    if tier == SandboxTier::MicroVm && same_text(host_os, "linux") {
        let socket = join_path(workspace.ipc.as_str(), "shell-daemon-vsock.sock");
        SidecarEndpoint {
            transport: SidecarTransport::Vsock,
            address: concat("unix://", socket.as_str()),
        }
    } else {
        SidecarEndpoint {
            transport: SidecarTransport::Unix,
            address: join_path(workspace.ipc.as_str(), "shell-daemon.sock"),
        }
    }
}

/// What a user is started with.
pub open spec fn status_report(
    tier: SandboxTier,
    capabilities: RequestedCapabilities,
    shell_available: bool,
    browser_available: bool,
    sidecar_available: bool,
    reasons: Seq<ReasonModel>,
) -> StatusModel {
    let plain = StatusModel {
        sandbox_tier: tier,
        sidecar_available,
        shell_available,
        browser_available,
        degraded_reasons: reasons,
    };
    let warned = if tier == SandboxTier::Process && !sandbox::has_code(
        reasons,
        StartupDegradedReasonCode::InsecureProcessTier,
    ) {
        plain.with_reason(StartupDegradedReasonCode::InsecureProcessTier, PROCESS_TIER_WARNING@)
    } else {
        plain
    };
    if (capabilities.shell || capabilities.browser) && !sidecar_available {
        warned.with_reason(
            StartupDegradedReasonCode::SidecarUnavailable,
            "shell/browser capabilities were requested but no sidecar endpoint is available"@,
        )
    } else {
        warned
    }
}

/// What a user is started with, and why that may be less than what was asked for.
pub fn build_startup_status_report(
    tier: SandboxTier,
    capabilities: RequestedCapabilities,
    shell_available: bool,
    browser_available: bool,
    sidecar_available: bool,
    degraded_reasons: &Vec<StartupDegradedReason>,
) -> (r: StartupStatusReport)
    ensures
        r.deep_view() == status_report(
            tier,
            capabilities,
            shell_available,
            browser_available,
            sidecar_available,
            degraded_reasons.deep_view(),
        ),
{
    let mut status = StartupStatusReport {
        sandbox_tier: tier,
        sidecar_available,
        shell_available,
        browser_available,
        degraded_reasons: clone_reasons(degraded_reasons),
    };
    if tier == SandboxTier::Process && !status.has_reason_code(
        StartupDegradedReasonCode::InsecureProcessTier,
    ) {
        status.push_reason(
            StartupDegradedReasonCode::InsecureProcessTier,
            PROCESS_TIER_WARNING,
        );
    }
    if (capabilities.shell || capabilities.browser) && !sidecar_available {
        status.push_reason(
            StartupDegradedReasonCode::SidecarUnavailable,
            "shell/browser capabilities were requested but no sidecar endpoint is available",
        );
    }
    status
}

/// A plain process is always reported as insecure, whatever else is.
pub proof fn law_process_tier_is_reported(
    capabilities: RequestedCapabilities,
    shell_available: bool,
    browser_available: bool,
    sidecar_available: bool,
    reasons: Seq<ReasonModel>,
)
    ensures
        sandbox::has_code(
            status_report(
                SandboxTier::Process,
                capabilities,
                shell_available,
                browser_available,
                sidecar_available,
                reasons,
            ).degraded_reasons,
            StartupDegradedReasonCode::InsecureProcessTier,
        ),
{
    let code = StartupDegradedReasonCode::InsecureProcessTier;
    let after = status_report(
        SandboxTier::Process,
        capabilities,
        shell_available,
        browser_available,
        sidecar_available,
        reasons,
    ).degraded_reasons;
    if sandbox::has_code(reasons, code) {
        let i = choose|i: int| 0 <= i < reasons.len() && (#[trigger] reasons[i]).code == code;
        assert(after[i].code == code);
    } else {
        assert(after[reasons.len() as int].code == code);
    }
}

/// The mounts, limits and credentials of a start.
#[derive(Debug, PartialEq, Eq)]
pub struct EffectiveLaunchSettings {
    pub mounts: EffectiveMountPaths,
    pub resources: RunnerResourceLimits,
    pub credential_refs: TextMap<String>,
}

/// What a guest may use.
#[derive(Debug, PartialEq, Eq)]
pub struct RunnerRuntimePolicy {
    pub mounts: EffectiveMountPaths,
    pub resources: RunnerResourceLimits,
    pub credential_refs: TextMap<String>,
}

/// The model of a [`RunnerRuntimePolicy`].
pub struct PolicyModel {
    pub mounts: MountsModel,
    pub resources: RunnerResourceLimits,
    pub credential_refs: Seq<(Seq<char>, Seq<char>)>,
}

impl DeepView for RunnerRuntimePolicy {
    type V = PolicyModel;

    open spec fn deep_view(&self) -> PolicyModel {
        PolicyModel {
            mounts: self.mounts.deep_view(),
            resources: self.resources,
            credential_refs: self.credential_refs.entries.deep_view(),
        }
    }
}

/// Copies a map of texts.
fn clone_refs(refs: &TextMap<String>) -> (r: TextMap<String>)
    ensures
        r.entries.deep_view() == refs.entries.deep_view(),
{
    let mut entries: Vec<(String, String)> = Vec::new();
    let mut i: usize = 0;
    while i < refs.entries.len()
        invariant
            i <= refs.entries.len(),
            entries.len() == i,
            forall|k: int|
                0 <= k < i ==> (#[trigger] entries@[k]).0@ == refs.entries@[k].0@ && entries@[k].1@
                    == refs.entries@[k].1@,
        decreases refs.entries.len() - i,
    {
        entries.push((refs.entries[i].0.clone(), refs.entries[i].1.clone()));
        i += 1;
    }
    proof {
        assert(entries.deep_view() =~= refs.entries.deep_view());
    }
    TextMap { entries }
}

impl EffectiveLaunchSettings {
    /// What the guest is told that it may use.
    pub fn runtime_policy(&self) -> (r: RunnerRuntimePolicy)
        ensures
            r.deep_view() == (PolicyModel {
                mounts: self.mounts.deep_view(),
                resources: self.resources,
                credential_refs: self.credential_refs.entries.deep_view(),
            }),
    {
        RunnerRuntimePolicy {
            mounts: self.mounts.clone(),
            resources: self.resources,
            credential_refs: clone_refs(&self.credential_refs),
        }
    }
}

/// What a guest starts up from.
#[derive(Debug, PartialEq, Eq)]
pub struct RunnerBootstrapEnvelope {
    pub user_id: String,
    pub sandbox_tier: SandboxTier,
    pub workspace_root: String,
    pub sidecar_endpoint: Option<SidecarEndpoint>,
    pub runtime_policy: Option<RunnerRuntimePolicy>,
    pub startup_status: Option<StartupStatusReport>,
    pub browser_config: Option<BrowserToolConfig>,
}

/// The model of a [`RunnerBootstrapEnvelope`].
pub struct EnvelopeModel {
    pub user_id: Seq<char>,
    pub sandbox_tier: SandboxTier,
    pub workspace_root: Seq<char>,
    pub sidecar_endpoint: Option<EndpointModel>,
    pub runtime_policy: Option<PolicyModel>,
    pub startup_status: Option<StatusModel>,
    pub browser_config: Option<BrowserModel>,
}

impl DeepView for RunnerBootstrapEnvelope {
    type V = EnvelopeModel;

    open spec fn deep_view(&self) -> EnvelopeModel {
        EnvelopeModel {
            user_id: self.user_id@,
            sandbox_tier: self.sandbox_tier,
            workspace_root: self.workspace_root@,
            sidecar_endpoint: self.sidecar_endpoint.deep_view(),
            runtime_policy: self.runtime_policy.deep_view(),
            startup_status: self.startup_status.deep_view(),
            browser_config: self.browser_config.deep_view(),
        }
    }
}

/// What is decided before anything is launched.
#[derive(Debug, PartialEq, Eq)]
pub struct StartPlan {
    pub user_id: String,
    pub host_os: String,
    pub sandbox_tier: SandboxTier,
    pub capabilities: RequestedCapabilities,
    pub workspace: UserWorkspace,
    pub settings: EffectiveLaunchSettings,
    pub bootstrap: RunnerBootstrapEnvelope,
    /// The bridge of a browser, where one was asked for and can be had.
    pub browser: Option<BrowserBridge>,
}

/// What the guest is told of a browser.
pub open spec fn browser_config_of(browser: Option<BrowserBridge>) -> Option<BrowserModel> {
    match browser {
        Some(bridge) => Some(
            BrowserModel {
                pinchtab_base_url: browser::bridge_url(bridge.port),
                bridge_token: Some(bridge.token@),
            },
        ),
        None => None,
    }
}

/// What the guest starts up from. The sidecar is expected to run.
pub open spec fn planned_envelope(
    user_id: Seq<char>,
    tier: SandboxTier,
    capabilities: RequestedCapabilities,
    host_os: Seq<char>,
    workspace: workspace::WorkspaceModel,
    policy: PolicyModel,
    browser: Option<BrowserBridge>,
) -> EnvelopeModel {
    let sidecar = capabilities.shell || capabilities.browser;
    EnvelopeModel {
        user_id,
        sandbox_tier: tier,
        workspace_root: workspace.root,
        sidecar_endpoint: if sidecar {
            Some(expected_sidecar(tier, host_os, workspace.ipc))
        } else {
            None
        },
        runtime_policy: Some(policy),
        startup_status: Some(
            status_report(
                tier,
                capabilities,
                capabilities.shell,
                capabilities.browser,
                sidecar,
                Seq::empty(),
            ),
        ),
        browser_config: browser_config_of(browser),
    }
}

fn browser_config(browser: &Option<BrowserBridge>) -> (r: Option<BrowserToolConfig>)
    ensures
        r.deep_view() == browser_config_of(*browser),
{
    match browser {
        Some(bridge) => {
            let (_, url) = build_browser_env(bridge.port, bridge.token.as_str());
            Some(
                BrowserToolConfig {
                    pinchtab_base_url: url,
                    bridge_token: Some(bridge.token.clone()),
                },
            )
        },
        None => None,
    }
}

/// What is decided before anything is launched for a user, whose workspace is there.
/// `bridge` is where a browser could be reached; without a browser it is not used.
pub fn plan_start(
    request: &RunnerStartRequest,
    host_os: &str,
    global_config: &RunnerGlobalConfig,
    user_config: RunnerUserConfig,
    workspace: UserWorkspace,
    bridge: Option<BrowserBridge>,
) -> (r: Result<StartPlan, RunnerError>)
    ensures
        match r {
            Ok(plan) => {
                let tier = tier_of(
                    global_config.default_tier,
                    user_config.behavior,
                    request.insecure,
                );
                let capabilities = capabilities_of(tier, user_config.behavior);
                &&& workspace::is_valid_user_id(text::trimmed(request.user_id@))
                &&& plan.user_id@ == text::trimmed(request.user_id@)
                &&& plan.host_os@ == host_os@
                &&& plan.sandbox_tier == tier
                &&& plan.capabilities == capabilities
                &&& plan.workspace == workspace
                &&& plan.settings.mounts.deep_view() == workspace::effective_mounts(
                    workspace.deep_view(),
                    user_config.mounts,
                )
                &&& plan.settings.resources == user_config.resources
                &&& plan.settings.credential_refs == user_config.credential_refs
                &&& plan.browser == if capabilities.browser {
                    bridge
                } else {
                    None
                }
                &&& plan.bootstrap.deep_view() == planned_envelope(
                    text::trimmed(request.user_id@),
                    tier,
                    capabilities,
                    host_os@,
                    workspace.deep_view(),
                    (PolicyModel {
                        mounts: plan.settings.mounts.deep_view(),
                        resources: user_config.resources,
                        credential_refs: user_config.credential_refs.entries.deep_view(),
                    }),
                    plan.browser,
                )
            },
            Err(RunnerError::InvalidUserId { user_id }) => user_id@ == text::trimmed(
                request.user_id@,
            ) && !workspace::is_valid_user_id(user_id@),
            Err(_) => false,
        },
{
    let user_id = match validate_user_id(request.user_id.as_str()) {
        Ok(user_id) => user_id,
        Err(error) => {
            return Err(error);
        },
    };
    let sandbox_tier = resolve_sandbox_tier(global_config, &user_config, request.insecure);
    let capabilities = resolve_requested_capabilities(sandbox_tier, user_config.behavior);
    let mounts = resolve_effective_mount_paths(&workspace, &user_config.mounts);
    let settings = EffectiveLaunchSettings {
        mounts,
        resources: user_config.resources,
        credential_refs: user_config.credential_refs,
    };
    let sidecar_expected = capabilities.shell || capabilities.browser;
    let sidecar_endpoint = if sidecar_expected {
        Some(pre_compute_sidecar_endpoint(sandbox_tier, host_os, &workspace))
    } else {
        None
    };
    let no_reasons: Vec<StartupDegradedReason> = Vec::new();
    proof {
        assert(no_reasons.deep_view() =~= Seq::empty());
    }
    let startup_status = build_startup_status_report(
        sandbox_tier,
        capabilities,
        capabilities.shell,
        capabilities.browser,
        sidecar_expected,
        &no_reasons,
    );
    let browser = if capabilities.browser {
        bridge
    } else {
        None
    };
    let bootstrap = RunnerBootstrapEnvelope {
        user_id: user_id.clone(),
        sandbox_tier,
        workspace_root: workspace.root.clone(),
        sidecar_endpoint,
        runtime_policy: Some(settings.runtime_policy()),
        startup_status: Some(startup_status),
        browser_config: browser_config(&browser),
    };
    Ok(
        StartPlan {
            user_id,
            host_os: host_os.to_owned(),
            sandbox_tier,
            capabilities,
            workspace,
            settings,
            bootstrap,
            browser,
        },
    )
}

/// Without a browser the guest is told of none.
pub proof fn law_no_browser_without_capability(
    user_id: Seq<char>,
    tier: SandboxTier,
    host_os: Seq<char>,
    workspace: workspace::WorkspaceModel,
    policy: PolicyModel,
    behavior: RunnerUserBehavior,
    bridge: Option<BrowserBridge>,
)
    requires
        tier == SandboxTier::Process || behavior.browser_enabled == Some(false),
    ensures
        planned_envelope(
            user_id,
            tier,
            capabilities_of(tier, behavior),
            host_os,
            workspace,
            policy,
            if capabilities_of(tier, behavior).browser {
                bridge
            } else {
                None
            },
        ).browser_config is None,
{
}

/// What a variable of a request becomes for the sidecar.
pub open spec fn shell_entry(entry: Seq<char>) -> Option<Seq<char>> {
    match text::split_once_at(entry, '=') {
        Some((key, value)) => if "SHELL_"@.is_prefix_of(key) && key.len() > "SHELL_"@.len() {
            Some(key.skip("SHELL_"@.len() as int) + "="@ + value)
        } else {
            None
        },
        None => None,
    }
}

/// A variable of a request is for the runtime.
pub open spec fn is_runtime_entry(entry: Seq<char>) -> bool {
    text::split_once_at(entry, '=') matches Some((key, _)) && !"SHELL_"@.is_prefix_of(key)
}

/// The variables for the runtime, in order.
pub open spec fn runtime_entries(entries: Seq<Seq<char>>) -> Seq<Seq<char>>
    decreases entries.len(),
{
    if entries.len() == 0 {
        Seq::empty()
    } else if is_runtime_entry(entries.last()) {
        runtime_entries(entries.drop_last()).push(entries.last())
    } else {
        runtime_entries(entries.drop_last())
    }
}

/// The variables for the sidecar, in order.
pub open spec fn shell_entries(entries: Seq<Seq<char>>) -> Seq<Seq<char>>
    decreases entries.len(),
{
    if entries.len() == 0 {
        Seq::empty()
    } else if shell_entry(entries.last()) is Some {
        shell_entries(entries.drop_last()).push(shell_entry(entries.last())->0)
    } else {
        shell_entries(entries.drop_last())
    }
}

/// No variable that is meant for the sidecar reaches the runtime.
pub proof fn law_shell_variables_stay_apart(entries: Seq<Seq<char>>)
    ensures
        forall|i: int|
            0 <= i < runtime_entries(entries).len() ==> is_runtime_entry(
                #[trigger] runtime_entries(entries)[i],
            ) && entries.contains(runtime_entries(entries)[i]),
    decreases entries.len(),
{
    if entries.len() > 0 {
        law_shell_variables_stay_apart(entries.drop_last());
        let shorter = runtime_entries(entries.drop_last());
        assert forall|i: int| 0 <= i < runtime_entries(entries).len() implies is_runtime_entry(
            #[trigger] runtime_entries(entries)[i],
        ) && entries.contains(runtime_entries(entries)[i]) by {
            if i < shorter.len() {
                let k = choose|k: int|
                    0 <= k < entries.drop_last().len() && entries.drop_last()[k] == shorter[i];
                assert(entries[k] == shorter[i]);
            } else {
                assert(entries[entries.len() - 1] == runtime_entries(entries)[i]);
            }
        }
    }
}

/// The sidecar gets nothing of a request but what is meant for it, and of that the
/// runtime gets nothing.
pub proof fn law_shell_gets_only_its_own(entries: Seq<Seq<char>>)
    ensures
        forall|i: int|
            0 <= i < shell_entries(entries).len() ==> exists|j: int|
                0 <= j < entries.len() && #[trigger] shell_entry(entries[j]) == Some(
                    #[trigger] shell_entries(entries)[i],
                ) && !is_runtime_entry(entries[j]),
    decreases entries.len(),
{
    if entries.len() > 0 {
        let rest = entries.drop_last();
        law_shell_gets_only_its_own(rest);
        assert forall|i: int| 0 <= i < shell_entries(entries).len() implies exists|j: int|
            0 <= j < entries.len() && #[trigger] shell_entry(entries[j]) == Some(
                #[trigger] shell_entries(entries)[i],
            ) && !is_runtime_entry(entries[j]) by {
            if i < shell_entries(rest).len() {
                let j = choose|j: int|
                    0 <= j < rest.len() && #[trigger] shell_entry(rest[j]) == Some(
                        shell_entries(rest)[i],
                    ) && !is_runtime_entry(rest[j]);
                assert(shell_entry(entries[j]) == Some(shell_entries(entries)[i]));
            } else {
                let j = entries.len() - 1;
                assert(shell_entry(entries[j]) == Some(shell_entries(entries)[i]));
            }
        }
    }
}

/// Gives each variable of a request to the guest that it is meant for.
fn split_request_env(entries: Vec<String>, runtime: &mut Vec<String>, shell: &mut Vec<String>)
    ensures
        final(runtime).deep_view() == old(runtime).deep_view() + runtime_entries(
            entries.deep_view(),
        ),
        final(shell).deep_view() == old(shell).deep_view() + shell_entries(entries.deep_view()),
{
    let ghost models = entries.deep_view();
    let ghost runtime_start = runtime.deep_view();
    let ghost shell_start = shell.deep_view();
    proof {
        assert(models.take(0) =~= Seq::empty());
        assert(runtime_start + Seq::<Seq<char>>::empty() =~= runtime_start);
        assert(shell_start + Seq::<Seq<char>>::empty() =~= shell_start);
    }
    let ghost all = entries@;
    for entry in it: entries
        invariant
            it.seq() == all,
            models == entries.deep_view(),
            entries@ == all,
            runtime.deep_view() == runtime_start + runtime_entries(
                models.take(it.index() as int),
            ),
            shell.deep_view() == shell_start + shell_entries(models.take(it.index() as int)),
    {
        let ghost n = it.index() as int;
        let ghost runtime_before = runtime.deep_view();
        let ghost shell_before = shell.deep_view();
        proof {
            assert(models.take(n + 1).drop_last() =~= models.take(n));
            assert(models.take(n + 1).last() == entry@);
        }
        match split_once(entry.as_str(), '=') {
            Some((key, value)) => match strip_prefix(key.as_str(), "SHELL_") {
                Some(stripped) => {
                    if !stripped.as_str().is_empty() {
                        let shell_var = concat3(stripped.as_str(), "=", value.as_str());
                        shell.push(shell_var);
                        proof {
                            assert(shell_entry(entry@) == Some(shell_var@));
                            assert(shell.deep_view() =~= shell_before.push(shell_var@));
                            assert(shell.deep_view() =~= shell_start + shell_entries(
                                models.take(n + 1),
                            ));
                        }
                    }
                },
                None => {
                    runtime.push(entry);
                    proof {
                        assert(runtime.deep_view() =~= runtime_before.push(entry@));
                        assert(runtime.deep_view() =~= runtime_start + runtime_entries(
                            models.take(n + 1),
                        ));
                    }
                },
            },
            None => {},
        }
    }
    proof {
        assert(models.take(models.len() as int) =~= models);
    }
}

/// What a browser adds to the runtime's environment.
pub open spec fn runtime_browser_env(browser: Option<BrowserBridge>) -> Seq<Seq<char>> {
    match browser {
        Some(bridge) => seq![
            "PINCHTAB_URL="@ + browser::bridge_url(bridge.port),
            "BRIDGE_TOKEN="@ + bridge.token@,
        ],
        None => Seq::empty(),
    }
}

/// What a browser adds to the sidecar's environment.
pub open spec fn shell_browser_env(browser: Option<BrowserBridge>) -> Seq<Seq<char>> {
    match browser {
        Some(bridge) => browser::browser_env(bridge.port, bridge.token@),
        None => Seq::empty(),
    }
}

fn append_texts(texts: &mut Vec<String>, more: Vec<String>)
    ensures
        final(texts).deep_view() == old(texts).deep_view() + more.deep_view(),
{
    let ghost start = texts.deep_view();
    let ghost added = more.deep_view();
    let mut more = more;
    texts.append(&mut more);
    proof {
        assert(texts.deep_view() =~= start + added);
    }
}

/// What is launched for a plan. `request_env` are the variables of the request, which
/// come behind all others; `config_env` and `shell_config_env` are the variables
/// that the configuration gives to the runtime and to the sidecar; a plain process gets
/// neither, for it has the runner's own environment.
pub fn launch_request(
    plan: &StartPlan,
    request_env: Vec<String>,
    guest_images: RunnerGuestImages,
    bootstrap_file: Option<String>,
    config_env: Vec<String>,
    shell_config_env: Vec<String>,
) -> (r: SandboxLaunchRequest)
    ensures
        r.user_id@ == plan.user_id@,
        r.host_os@ == plan.host_os@,
        r.sandbox_tier == plan.sandbox_tier,
        r.workspace.deep_view() == plan.workspace.deep_view(),
        r.mounts.deep_view() == plan.settings.mounts.deep_view(),
        r.resource_limits == plan.settings.resources,
        r.credential_refs.entries.deep_view() == plan.settings.credential_refs.entries.deep_view(),
        r.guest_images == guest_images,
        r.requested_shell == plan.capabilities.shell,
        r.requested_browser == plan.capabilities.browser,
        r.bootstrap_file == if plan.sandbox_tier != SandboxTier::Process {
            bootstrap_file
        } else {
            None
        },
        r.extra_env.deep_view() == (if plan.sandbox_tier != SandboxTier::Process {
            config_env.deep_view()
        } else {
            Seq::empty()
        }) + runtime_browser_env(plan.browser) + runtime_entries(request_env.deep_view()),
        r.shell_env.deep_view() == (if plan.sandbox_tier != SandboxTier::Process {
            shell_config_env.deep_view()
        } else {
            Seq::empty()
        }) + shell_browser_env(plan.browser) + shell_entries(request_env.deep_view()),
{
    let isolated = plan.sandbox_tier != SandboxTier::Process;
    let mut extra_env = if isolated {
        config_env
    } else {
        Vec::new()
    };
    let mut shell_env = if isolated {
        shell_config_env
    } else {
        Vec::new()
    };
    let ghost runtime_base = extra_env.deep_view();
    let ghost shell_base = shell_env.deep_view();
    proof {
        if !isolated {
            assert(runtime_base =~= Seq::empty());
            assert(shell_base =~= Seq::empty());
        }
    }
    match &plan.browser {
        Some(bridge) => {
            let (env, url) = build_browser_env(bridge.port, bridge.token.as_str());
            extra_env.push(concat("PINCHTAB_URL=", url.as_str()));
            extra_env.push(concat("BRIDGE_TOKEN=", bridge.token.as_str()));
            append_texts(&mut shell_env, env);
        },
        None => {},
    }
    proof {
        assert(extra_env.deep_view() =~= runtime_base + runtime_browser_env(plan.browser));
        assert(shell_env.deep_view() =~= shell_base + shell_browser_env(plan.browser));
    }
    split_request_env(request_env, &mut extra_env, &mut shell_env);
    SandboxLaunchRequest {
        user_id: plan.user_id.clone(),
        host_os: plan.host_os.clone(),
        sandbox_tier: plan.sandbox_tier,
        workspace: plan.workspace.clone(),
        mounts: plan.settings.mounts.clone(),
        resource_limits: plan.settings.resources,
        credential_refs: clone_refs(&plan.settings.credential_refs),
        guest_images,
        requested_shell: plan.capabilities.shell,
        requested_browser: plan.capabilities.browser,
        bootstrap_file: if isolated {
            bootstrap_file
        } else {
            None
        },
        extra_env,
        shell_env,
    }
}

/// A user whose guests run.
#[derive(Debug, PartialEq, Eq)]
pub struct RunnerStartup {
    pub user_id: String,
    pub sandbox_tier: SandboxTier,
    pub workspace: UserWorkspace,
    pub shell_available: bool,
    pub browser_available: bool,
    pub startup_status: StartupStatusReport,
    pub launch: RunnerLaunchHandle,
    pub bootstrap: RunnerBootstrapEnvelope,
    pub warnings: Vec<String>,
    pub shutdown_complete: bool,
}

/// What a user is started with, once the guests run. A sidecar that offers no tool does
/// not count.
pub fn finish_start(plan: StartPlan, launch: RunnerLaunchHandle, report: LaunchReport) -> (r:
    RunnerStartup)
    ensures
        r.user_id == plan.user_id,
        r.sandbox_tier == plan.sandbox_tier,
        r.workspace == plan.workspace,
        r.shell_available == report.shell_available,
        r.browser_available == report.browser_available,
        r.startup_status.deep_view() == status_report(
            plan.sandbox_tier,
            plan.capabilities,
            report.shell_available,
            report.browser_available,
            (report.shell_available || report.browser_available)
                && report.sidecar_endpoint is Some,
            report.degraded_reasons.deep_view(),
        ),
        r.launch == launch,
        r.bootstrap == plan.bootstrap,
        r.warnings == report.warnings,
        !r.shutdown_complete,
        r.well_formed(),
{
    let sidecar_available = (report.shell_available || report.browser_available)
        && report.sidecar_endpoint.is_some();
    let startup_status = build_startup_status_report(
        plan.sandbox_tier,
        plan.capabilities,
        report.shell_available,
        report.browser_available,
        sidecar_available,
        &report.degraded_reasons,
    );
    RunnerStartup {
        user_id: plan.user_id,
        sandbox_tier: plan.sandbox_tier,
        workspace: plan.workspace,
        shell_available: report.shell_available,
        browser_available: report.browser_available,
        startup_status,
        launch,
        bootstrap: plan.bootstrap,
        warnings: report.warnings,
        shutdown_complete: false,
    }
}

/// A user is started as a plain process where they insist, or else in the tier of their
/// own configuration, or else in the runner's; with the tools that they did not switch
/// off, but without any in a plain process.
pub proof fn law_tier_and_tools_of_a_start(
    global_config: RunnerGlobalConfig,
    user_config: RunnerUserConfig,
    insecure: bool,
    tier: SandboxTier,
    tools: RequestedCapabilities,
)
    requires
        call_ensures(resolve_sandbox_tier, (&global_config, &user_config, insecure), tier),
        call_ensures(resolve_requested_capabilities, (tier, user_config.behavior), tools),
    ensures
        insecure ==> tier == SandboxTier::Process,
        !insecure ==> (user_config.behavior.sandbox_tier matches Some(own) ==> tier == own),
        !insecure && user_config.behavior.sandbox_tier is None ==> tier
            == global_config.default_tier,
        tier == SandboxTier::Process ==> !tools.shell && !tools.browser,
        tier != SandboxTier::Process ==> {
            &&& tools.shell <==> user_config.behavior.shell_enabled != Some(false)
            &&& tools.browser <==> user_config.behavior.browser_enabled != Some(false)
        },
{
}

/// What the guest starts up from is what was decided: its user, its tier, its workspace,
/// what it may use, whether and where it finds a sidecar, and the browser's bridge with
/// its token, where there is one.
pub proof fn law_guest_is_told_what_was_decided(
    request: RunnerStartRequest,
    host_os: &str,
    global_config: RunnerGlobalConfig,
    user_config: RunnerUserConfig,
    workspace: UserWorkspace,
    bridge: Option<BrowserBridge>,
    r: Result<StartPlan, RunnerError>,
    tier: SandboxTier,
    tools: RequestedCapabilities,
    mounts: EffectiveMountPaths,
    endpoint: SidecarEndpoint,
)
    requires
        call_ensures(
            plan_start,
            (&request, host_os, &global_config, user_config, workspace, bridge),
            r,
        ),
        call_ensures(
            resolve_sandbox_tier,
            (&global_config, &user_config, request.insecure),
            tier,
        ),
        call_ensures(resolve_requested_capabilities, (tier, user_config.behavior), tools),
        call_ensures(
            resolve_effective_mount_paths,
            (&workspace, &user_config.mounts),
            mounts,
        ),
        call_ensures(pre_compute_sidecar_endpoint, (tier, host_os, &workspace), endpoint),
    ensures
        r matches Ok(plan) ==> {
            let told = plan.bootstrap;
            &&& plan.user_id@ == text::trimmed(request.user_id@)
            &&& plan.host_os@ == host_os@
            &&& plan.sandbox_tier == tier
            &&& plan.capabilities == tools
            &&& plan.settings.mounts.deep_view() == mounts.deep_view()
            &&& plan.settings.resources == user_config.resources
            &&& plan.settings.credential_refs == user_config.credential_refs
            &&& plan.workspace == workspace
            &&& told.user_id@ == plan.user_id@
            &&& told.sandbox_tier == tier
            &&& told.workspace_root@ == workspace.root@
            &&& told.sidecar_endpoint is Some <==> tools.shell || tools.browser
            &&& told.sidecar_endpoint matches Some(reached) ==> reached.transport
                == endpoint.transport && reached.address@ == endpoint.address@
            &&& told.runtime_policy matches Some(policy) && policy.mounts.deep_view()
                == mounts.deep_view() && policy.resources == user_config.resources
                && policy.credential_refs.entries.deep_view()
                == user_config.credential_refs.entries.deep_view()
            &&& told.startup_status matches Some(status) && status.sandbox_tier == tier
                && status.shell_available == tools.shell && status.browser_available
                == tools.browser && status.sidecar_available == (tools.shell || tools.browser)
            &&& plan.browser is Some <==> tools.browser && bridge is Some
            &&& plan.browser is Some ==> plan.browser == bridge
            &&& told.browser_config is Some <==> plan.browser is Some
            &&& told.browser_config matches Some(config) ==> config.pinchtab_base_url@
                == "http://127.0.0.1:"@ + text::decimal(bridge->0.port as nat) && (
            config.bridge_token matches Some(token) && token@ == bridge->0.token@)
        },
        r is Err <==> !workspace::is_valid_user_id(text::trimmed(request.user_id@)),
{
}

/// The sidecar is expected at a socket in the directory for communication: over the
/// virtual machine's own transport on Linux, and over a plain one elsewhere.
pub proof fn law_sidecar_is_expected_in_its_directory(
    tier: SandboxTier,
    host_os: &str,
    workspace: UserWorkspace,
    endpoint: SidecarEndpoint,
)
    requires
        call_ensures(pre_compute_sidecar_endpoint, (tier, host_os, &workspace), endpoint),
    ensures
        tier == SandboxTier::MicroVm && host_os@ == "linux"@ ==> endpoint.transport
            == SidecarTransport::Vsock && endpoint.address@ == "unix://"@ + paths::joined_path(
            workspace.ipc@,
            "shell-daemon-vsock.sock"@,
        ),
        !(tier == SandboxTier::MicroVm && host_os@ == "linux"@) ==> endpoint.transport
            == SidecarTransport::Unix && endpoint.address@ == paths::joined_path(
            workspace.ipc@,
            "shell-daemon.sock"@,
        ),
{
}

/// What a user was started with is reported as it is: the tier, the tools, the sidecar and
/// every reason that was given, in order. To these is added that a plain process is not
/// isolated, unless it was said, and that a sidecar is missing which was asked for.
pub proof fn law_start_is_reported_as_it_is(
    tier: SandboxTier,
    tools: RequestedCapabilities,
    shell_available: bool,
    browser_available: bool,
    sidecar_available: bool,
    reasons: Vec<StartupDegradedReason>,
    report: StartupStatusReport,
    i: int,
)
    requires
        call_ensures(
            build_startup_status_report,
            (
                tier,
                tools,
                shell_available,
                browser_available,
                sidecar_available,
                &reasons,
            ),
            report,
        ),
    ensures
        report.sandbox_tier == tier,
        report.shell_available == shell_available,
        report.browser_available == browser_available,
        report.sidecar_available == sidecar_available,
        report.degraded_reasons@.len() >= reasons@.len(),
        0 <= i < reasons@.len() ==> report.degraded_reasons@[i].code == reasons@[i].code
            && report.degraded_reasons@[i].detail@ == reasons@[i].detail@,
        (tools.shell || tools.browser) && !sidecar_available ==> report.degraded_reasons@.len() > 0
            && report.degraded_reasons@.last().code
            == StartupDegradedReasonCode::SidecarUnavailable,
        tier != SandboxTier::Process && !((tools.shell || tools.browser) && !sidecar_available)
            ==> report.degraded_reasons@.len() == reasons@.len(),
{
    let told = report.degraded_reasons;
    assert(told.deep_view().len() == told@.len());
    assert(reasons.deep_view().len() == reasons@.len());
    if 0 <= i < reasons@.len() {
        assert(told.deep_view()[i] == told@[i].deep_view());
        assert(reasons.deep_view()[i] == reasons@[i].deep_view());
    }
    if told@.len() > 0 {
        assert(told.deep_view().last() == told@.last().deep_view());
    }
}

proof fn lemma_runtime_entry(entries: Seq<Seq<char>>, i: int) -> (at: int)
    requires
        0 <= i < entries.len(),
        is_runtime_entry(entries[i]),
    ensures
        0 <= at < runtime_entries(entries).len(),
        runtime_entries(entries)[at] == entries[i],
    decreases entries.len(),
{
    if i == entries.len() - 1 {
        runtime_entries(entries.drop_last()).len() as int
    } else {
        lemma_runtime_entry(entries.drop_last(), i)
    }
}

proof fn lemma_shell_entry(entries: Seq<Seq<char>>, i: int) -> (at: int)
    requires
        0 <= i < entries.len(),
        shell_entry(entries[i]) is Some,
    ensures
        0 <= at < shell_entries(entries).len(),
        shell_entries(entries)[at] == shell_entry(entries[i])->0,
    decreases entries.len(),
{
    if i == entries.len() - 1 {
        shell_entries(entries.drop_last()).len() as int
    } else {
        lemma_shell_entry(entries.drop_last(), i)
    }
}

/// A launch is what was planned: for the plan's user, tier, workspace, mounts, limits and
/// tools. Variables of the configuration reach their guest first, in their order, outside
/// the process tier; then come those of the browser.
pub proof fn law_launch_is_what_was_planned(
    plan: StartPlan,
    request_env: Vec<String>,
    guest_images: RunnerGuestImages,
    bootstrap_file: Option<String>,
    config_env: Vec<String>,
    shell_config_env: Vec<String>,
    request: SandboxLaunchRequest,
    i: int,
)
    requires
        call_ensures(
            launch_request,
            (
                &plan,
                request_env,
                guest_images,
                bootstrap_file,
                config_env,
                shell_config_env,
            ),
            request,
        ),
    ensures
        request.user_id@ == plan.user_id@,
        request.host_os@ == plan.host_os@,
        request.sandbox_tier == plan.sandbox_tier,
        request.workspace.root@ == plan.workspace.root@,
        request.workspace.tmp@ == plan.workspace.tmp@,
        request.workspace.ipc@ == plan.workspace.ipc@,
        request.mounts.shared@ == plan.settings.mounts.shared@,
        request.mounts.tmp@ == plan.settings.mounts.tmp@,
        request.mounts.vault@ == plan.settings.mounts.vault@,
        request.resource_limits == plan.settings.resources,
        request.guest_images == guest_images,
        request.requested_shell == plan.capabilities.shell,
        request.requested_browser == plan.capabilities.browser,
        plan.sandbox_tier == SandboxTier::Process ==> request.bootstrap_file is None,
        plan.sandbox_tier != SandboxTier::Process ==> request.bootstrap_file == bootstrap_file,
        plan.sandbox_tier != SandboxTier::Process && 0 <= i < config_env@.len()
            ==> request.extra_env@.len() >= config_env@.len() && request.extra_env@[i]@
            == config_env@[i]@,
        plan.sandbox_tier != SandboxTier::Process && 0 <= i < shell_config_env@.len()
            ==> request.shell_env@.len() >= shell_config_env@.len() && request.shell_env@[i]@
            == shell_config_env@[i]@,
        plan.browser matches Some(bridge) ==> {
            let before = if plan.sandbox_tier != SandboxTier::Process {
                config_env@.len() as int
            } else {
                0
            };
            &&& request.extra_env@.len() >= before + 2
            &&& request.extra_env@[before]@ == "PINCHTAB_URL="@ + ("http://127.0.0.1:"@
                + text::decimal(bridge.port as nat))
            &&& request.extra_env@[before + 1]@ == "BRIDGE_TOKEN="@ + bridge.token@
        },
{
    text::lemma_list(request.extra_env);
    text::lemma_list(request.shell_env);
    text::lemma_list(config_env);
    text::lemma_list(shell_config_env);
}

/// A variable of a request reaches the guest that it is meant for: one whose key starts
/// with `SHELL_` the sidecar, without that, and any other the runtime, as it is.
pub proof fn law_request_variables_reach_their_guest(
    plan: StartPlan,
    request_env: Vec<String>,
    guest_images: RunnerGuestImages,
    bootstrap_file: Option<String>,
    config_env: Vec<String>,
    shell_config_env: Vec<String>,
    request: SandboxLaunchRequest,
    i: int,
    key: Seq<char>,
    value: Seq<char>,
) -> (at: int)
    requires
        call_ensures(
            launch_request,
            (
                &plan,
                request_env,
                guest_images,
                bootstrap_file,
                config_env,
                shell_config_env,
            ),
            request,
        ),
        0 <= i < request_env@.len(),
        !key.contains('='),
        request_env@[i]@ == key + "="@ + value,
        key != "SHELL_"@,
    ensures
        !"SHELL_"@.is_prefix_of(key) ==> 0 <= at < request.extra_env@.len()
            && request.extra_env@[at]@ == request_env@[i]@,
        "SHELL_"@.is_prefix_of(key) ==> 0 <= at < request.shell_env@.len()
            && request.shell_env@[at]@ == key.skip(6) + "="@ + value,
{
    reveal_strlit("=");
    reveal_strlit("SHELL_");
    assert("="@ =~= seq!['=']);
    text::law_split_once(key, '=', value);
    text::lemma_list(request_env);
    text::lemma_list(request.extra_env);
    text::lemma_list(request.shell_env);
    let entries = request_env.deep_view();
    assert(entries[i] == key + seq!['='] + value);
    if "SHELL_"@.is_prefix_of(key) {
        if key.len() == 6 {
            assert(key =~= "SHELL_"@);
        }
        let at = lemma_shell_entry(entries, i);
        let place = request.shell_env@.len() - shell_entries(entries).len() + at;
        assert(request.shell_env.deep_view()[place] == shell_entries(entries)[at]);
        place
    } else {
        let at = lemma_runtime_entry(entries, i);
        let place = request.extra_env@.len() - runtime_entries(entries).len() + at;
        assert(request.extra_env.deep_view()[place] == runtime_entries(entries)[at]);
        place
    }
}

/// A user who was started has the tools, the warnings and the guests of the launch, and
/// the start-up data of the plan; a sidecar counts where it offers a tool.
pub proof fn law_start_is_that_of_its_launch(
    plan: StartPlan,
    launch: RunnerLaunchHandle,
    report: LaunchReport,
    startup: RunnerStartup,
)
    requires
        call_ensures(finish_start, (plan, launch, report), startup),
    ensures
        startup.user_id@ == plan.user_id@,
        startup.sandbox_tier == plan.sandbox_tier,
        startup.workspace == plan.workspace,
        startup.launch == launch,
        startup.bootstrap == plan.bootstrap,
        startup.warnings == report.warnings,
        startup.shell_available == report.shell_available,
        startup.browser_available == report.browser_available,
        startup.startup_status.sandbox_tier == plan.sandbox_tier,
        startup.startup_status.shell_available == report.shell_available,
        startup.startup_status.browser_available == report.browser_available,
        startup.startup_status.sidecar_available <==> (report.shell_available
            || report.browser_available) && report.sidecar_endpoint is Some,
        !startup.shutdown_complete,
{
}

/// A guest may use what was settled for its launch.
pub proof fn law_policy_is_what_was_settled(
    settings: EffectiveLaunchSettings,
    r: RunnerRuntimePolicy,
)
    requires
        call_ensures(EffectiveLaunchSettings::runtime_policy, (&settings,), r),
    ensures
        r.mounts.deep_view() == settings.mounts.deep_view(),
        r.resources == settings.resources,
        r.credential_refs.entries.deep_view() == settings.credential_refs.entries.deep_view(),
{
}

} // verus!
