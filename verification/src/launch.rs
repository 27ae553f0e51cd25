//! How the guests of a user are launched, tier by tier.

use crate::docker;
use crate::docker::{
    docker_guest_command_spec, docker_guest_container_name, docker_guest_labels,
    sanitize_container_component, DockerContainerLaunchParams, DockerEndpoint, DockerSandboxVmHandle,
    DockerSandboxVmInfo, RunnerResourceLimits,
};
use crate::guest::{
    RunnerGuestHandle, RunnerGuestLifecycle, RunnerLaunchHandle, RunnerScopeHandle,
};
use crate::paths;
use crate::paths::join_path;
use crate::sandbox;
use crate::sandbox::{
    CommandModel, EndpointModel, ReasonModel, RunnerCommandSpec, RunnerError, RunnerGuestImages,
    RunnerGuestRole, SandboxTier, SidecarEndpoint, SidecarTransport, StartupDegradedReason,
    StartupDegradedReasonCode, PROCESS_TIER_WARNING,
};
use crate::text;
use crate::text::{concat, concat4, same_text, trim};
use crate::text_map::TextMap;
use crate::workspace::{EffectiveMountPaths, UserWorkspace};
use vstd::prelude::*;

verus! {

/// The program that runs micro virtual machines.
pub const FIRECRACKER_BINARY: &'static str = "firecracker";

/// The runtime's program where no other is given.
pub const DEFAULT_PROCESS_EXECUTABLE: &'static str = "oxydra-vm";

/// Where the daemon of Docker's sandboxes listens, from the user's home.
pub const DOCKER_SANDBOXD_SOCKET_RELATIVE_PATH: &'static str = ".docker/sandboxes/sandboxd.sock";

/// What is to be launched.
#[derive(Debug, PartialEq, Eq)]
pub struct SandboxLaunchRequest {
    pub user_id: String,
    pub host_os: String,
    pub sandbox_tier: SandboxTier,
    pub workspace: UserWorkspace,
    pub mounts: EffectiveMountPaths,
    pub resource_limits: RunnerResourceLimits,
    pub credential_refs: TextMap<String>,
    pub guest_images: RunnerGuestImages,
    pub requested_shell: bool,
    pub requested_browser: bool,
    /// The file with the start-up data, outside the process tier.
    pub bootstrap_file: Option<String>,
    /// Variables for the runtime, each as `KEY=VALUE`.
    pub extra_env: Vec<String>,
    /// Variables for the sidecar, each as `KEY=VALUE`.
    pub shell_env: Vec<String>,
}

impl SandboxLaunchRequest {
    pub open spec fn wants_sidecar(self) -> bool {
        self.requested_shell || self.requested_browser
    }

    /// Whether anything is asked for that the sidecar provides.
    pub fn sidecar_requested(&self) -> (r: bool)
        ensures
            r == self.wants_sidecar(),
    {
        self.requested_shell || self.requested_browser
    }
}

/// What came of a launch, apart from the guests themselves.
#[derive(Debug, PartialEq, Eq)]
pub struct LaunchReport {
    pub sidecar_endpoint: Option<SidecarEndpoint>,
    pub shell_available: bool,
    pub browser_available: bool,
    pub degraded_reasons: Vec<StartupDegradedReason>,
    pub warnings: Vec<String>,
}

/// The model of a [`LaunchReport`].
pub struct ReportModel {
    pub sidecar_endpoint: Option<EndpointModel>,
    pub shell_available: bool,
    pub browser_available: bool,
    pub degraded_reasons: Seq<ReasonModel>,
    pub warnings: Seq<Seq<char>>,
}

impl DeepView for LaunchReport {
    type V = ReportModel;

    open spec fn deep_view(&self) -> ReportModel {
        ReportModel {
            sidecar_endpoint: self.sidecar_endpoint.deep_view(),
            shell_available: self.shell_available,
            browser_available: self.browser_available,
            degraded_reasons: self.degraded_reasons.deep_view(),
            warnings: self.warnings.deep_view(),
        }
    }
}

/// A launch with a sidecar at that address.
pub open spec fn report_with_sidecar(
    request: SandboxLaunchRequest,
    endpoint: EndpointModel,
) -> ReportModel {
    ReportModel {
        sidecar_endpoint: Some(endpoint),
        shell_available: request.requested_shell,
        browser_available: request.requested_browser,
        degraded_reasons: Seq::empty(),
        warnings: Seq::empty(),
    }
}

/// A launch in which no sidecar was asked for.
pub open spec fn report_without_sidecar() -> ReportModel {
    ReportModel {
        sidecar_endpoint: None,
        shell_available: false,
        browser_available: false,
        degraded_reasons: Seq::empty(),
        warnings: Seq::empty(),
    }
}

/// A launch that went on without its sidecar, for that reason.
pub open spec fn report_degraded(detail: Seq<char>) -> ReportModel {
    ReportModel {
        sidecar_endpoint: None,
        shell_available: false,
        browser_available: false,
        degraded_reasons: seq![
            ReasonModel { code: StartupDegradedReasonCode::SidecarUnavailable, detail },
        ],
        warnings: seq![detail],
    }
}

fn with_sidecar(request: &SandboxLaunchRequest, endpoint: SidecarEndpoint) -> (r: LaunchReport)
    ensures
        r.deep_view() == report_with_sidecar(*request, endpoint.deep_view()),
{
    let r = LaunchReport {
        sidecar_endpoint: Some(endpoint),
        shell_available: request.requested_shell,
        browser_available: request.requested_browser,
        degraded_reasons: Vec::new(),
        warnings: Vec::new(),
    };
    proof {
        assert(r.degraded_reasons.deep_view() =~= Seq::empty());
        assert(r.warnings.deep_view() =~= Seq::empty());
    }
    r
}

fn without_sidecar() -> (r: LaunchReport)
    ensures
        r.deep_view() == report_without_sidecar(),
{
    let r = LaunchReport {
        sidecar_endpoint: None,
        shell_available: false,
        browser_available: false,
        degraded_reasons: Vec::new(),
        warnings: Vec::new(),
    };
    proof {
        assert(r.degraded_reasons.deep_view() =~= Seq::empty());
        assert(r.warnings.deep_view() =~= Seq::empty());
    }
    r
}

fn degraded(detail: &str) -> (r: LaunchReport)
    ensures
        r.deep_view() == report_degraded(detail@),
{
    let reason = StartupDegradedReason::new(StartupDegradedReasonCode::SidecarUnavailable, detail);
    let r = LaunchReport {
        sidecar_endpoint: None,
        shell_available: false,
        browser_available: false,
        degraded_reasons: vec![reason],
        warnings: vec![detail.to_owned()],
    };
    proof {
        assert(r.degraded_reasons.deep_view() =~= report_degraded(detail@).degraded_reasons);
        assert(r.warnings.deep_view() =~= report_degraded(detail@).warnings);
    }
    r
}

/// What a report of a launch has in common with every other: tools are available only
/// with a sidecar and only where they were asked for, and a sidecar that was asked for
/// and is missing is accounted for.
pub open spec fn is_sound_report(request: SandboxLaunchRequest, report: ReportModel) -> bool {
    &&& report.shell_available ==> request.requested_shell && report.sidecar_endpoint is Some
    &&& report.browser_available ==> request.requested_browser && report.sidecar_endpoint is Some
    &&& report.sidecar_endpoint is Some ==> report.shell_available == request.requested_shell
        && report.browser_available == request.requested_browser
    &&& request.wants_sidecar() && report.sidecar_endpoint is None ==> sandbox::has_code(
        report.degraded_reasons,
        StartupDegradedReasonCode::SidecarUnavailable,
    ) && report.warnings.len() > 0
}

/// Every report of a launch outside the process tier is sound.
pub proof fn law_reports_are_sound(
    request: SandboxLaunchRequest,
    endpoint: EndpointModel,
    detail: Seq<char>,
)
    ensures
        is_sound_report(request, report_with_sidecar(request, endpoint)),
        is_sound_report(request, report_degraded(detail)),
        !request.wants_sidecar() ==> is_sound_report(request, report_without_sidecar()),
{
    let reasons = report_degraded(detail).degraded_reasons;
    assert(reasons[0].code == StartupDegradedReasonCode::SidecarUnavailable);
}

/// Which way guests are launched.
#[derive(Debug, Clone, Copy, PartialEq, Eq, Structural)]
pub enum LaunchRoute {
    LinuxMicroVm,
    MacMicroVm,
    Container,
    Process,
}

pub open spec fn route_of(tier: SandboxTier, host_os: Seq<char>) -> Option<LaunchRoute> {
    match tier {
        SandboxTier::MicroVm => if host_os == "linux"@ {
            Some(LaunchRoute::LinuxMicroVm)
        } else if host_os == "macos"@ {
            Some(LaunchRoute::MacMicroVm)
        } else {
            None
        },
        SandboxTier::Container => Some(LaunchRoute::Container),
        SandboxTier::Process => Some(LaunchRoute::Process),
    }
}

/// The launcher that comes with the runner.
#[derive(Debug, Clone, Copy, PartialEq, Eq, Structural, Default)]
pub struct CrateSandboxBackend;

impl CrateSandboxBackend {
    /// Which way the guests are launched. Micro virtual machines need a host that can
    /// run them.
    pub fn route(&self, tier: SandboxTier, host_os: &str) -> (r: Result<LaunchRoute, RunnerError>)
        ensures
            match r {
                Ok(route) => route_of(tier, host_os@) == Some(route),
                Err(RunnerError::UnsupportedMicroVmHost { os }) => route_of(tier, host_os@) is None
                    && os@ == host_os@,
                Err(_) => false,
            },
    {
        match tier {
            SandboxTier::MicroVm => if same_text(host_os, "linux") {
                Ok(LaunchRoute::LinuxMicroVm)
            } else if same_text(host_os, "macos") {
                Ok(LaunchRoute::MacMicroVm)
            } else {
                Err(RunnerError::UnsupportedMicroVmHost { os: host_os.to_owned() })
            },
            SandboxTier::Container => Ok(LaunchRoute::Container),
            SandboxTier::Process => Ok(LaunchRoute::Process),
        }
    }
}

/// How a step of a launch went.
#[derive(Debug, PartialEq, Eq)]
pub enum LaunchEvent {
    Done,
    Failed(RunnerError),
}

/// How far a launch on Linux has got.
#[derive(Debug, PartialEq, Eq)]
pub enum LinuxStage {
    Begin,
    RuntimeConfig,
    RuntimeSpawn,
    RuntimeApi,
    /// The runtime did not answer and is being stopped.
    RuntimeStop(RunnerError),
    SidecarConfig,
    SidecarSpawn,
    SidecarApi,
    /// The sidecar did not answer and is being stopped.
    SidecarStop(RunnerError),
    Over,
}

/// What is to be done next in a launch on Linux.
#[derive(Debug, PartialEq, Eq)]
pub enum LinuxAction {
    /// Write the configuration of a virtual machine.
    Generate { template: String, bootstrap_file: Option<String>, output: String },
    Spawn { role: RunnerGuestRole, command: RunnerCommandSpec },
    /// Wait for a virtual machine to answer.
    AwaitApi { socket: String },
    Stop { role: RunnerGuestRole },
    /// The guests run: the runtime, and the sidecar if so.
    Launched { sidecar: bool, report: LaunchReport },
    Fail(RunnerError),
    /// The launch is over.
    Nothing,
}

/// A template that is configured.
pub open spec fn configured(template: Option<String>) -> Option<Seq<char>> {
    match template {
        Some(path) => if text::trimmed(path@).len() > 0 {
            Some(path@)
        } else {
            None
        },
        None => None,
    }
}

fn configured_template(template: &Option<String>) -> (r: Option<String>)
    ensures
        r.deep_view() == configured(*template),
{
    match template {
        Some(path) => {
            let trimmed = trim(path.as_str());
            if trimmed.as_str().is_empty() {
                None
            } else {
                Some(path.clone())
            }
        },
        None => None,
    }
}

/// How a virtual machine is started.
pub open spec fn firecracker_command(
    tmp: Seq<char>,
    socket: Seq<char>,
    config: Seq<char>,
) -> CommandModel {
    CommandModel {
        program: "firecracker"@,
        args: seq![
            "--api-sock"@,
            paths::joined_path(tmp, socket),
            "--config-file"@,
            paths::joined_path(tmp, config),
        ],
    }
}

fn firecracker_spec(tmp: &str, socket: &str, config: &str) -> (r: RunnerCommandSpec)
    ensures
        r.deep_view() == firecracker_command(tmp@, socket@, config@),
{
    let r = RunnerCommandSpec::new(
        FIRECRACKER_BINARY,
        vec![
            "--api-sock".to_owned(),
            join_path(tmp, socket),
            "--config-file".to_owned(),
            join_path(tmp, config),
        ],
    );
    proof {
        assert(r.args.deep_view() =~= firecracker_command(tmp@, socket@, config@).args);
    }
    r
}

/// Where the sidecar of a launch on Linux is reached.
pub open spec fn linux_sidecar(request: SandboxLaunchRequest) -> EndpointModel {
    EndpointModel {
        transport: SidecarTransport::Vsock,
        address: "unix://"@ + paths::joined_path(
            request.workspace.tmp@,
            "shell-daemon-vsock.sock"@,
        ),
    }
}

/// The launch ends with this report.
pub open spec fn ends_with(
    stage: LinuxStage,
    action: LinuxAction,
    sidecar: bool,
    report: ReportModel,
) -> bool {
    &&& stage is Over
    &&& action matches LinuxAction::Launched { sidecar: s, report: r } && s == sidecar
        && r.deep_view() == report
}

/// A virtual machine's configuration is to be written.
pub open spec fn generates(
    action: LinuxAction,
    template: Seq<char>,
    bootstrap_file: Option<Seq<char>>,
    output: Seq<char>,
) -> bool {
    action matches LinuxAction::Generate { template: t, bootstrap_file: b, output: o } && t@
        == template && b.deep_view() == bootstrap_file && o@ == output
}

/// What follows a step of a launch on Linux. A runtime that fails fails the launch, and
/// is stopped before if it runs; a sidecar that fails degrades it.
pub open spec fn linux_follows(
    request: SandboxLaunchRequest,
    stage: LinuxStage,
    event: LaunchEvent,
    next: LinuxStage,
    action: LinuxAction,
) -> bool {
    let tmp = request.workspace.tmp@;
    match (stage, event) {
        (LinuxStage::Begin, _) => match configured(
            request.guest_images.firecracker_oxydra_vm_config,
        ) {
            Some(template) => next is RuntimeConfig && generates(
                action,
                template,
                request.bootstrap_file.deep_view(),
                paths::joined_path(tmp, "firecracker-oxydra-vm.json"@),
            ),
            None => next is Over && (action matches LinuxAction::Fail(
                RunnerError::MissingFirecrackerConfig { field },
            ) && field@ == "firecracker_oxydra_vm_config"@),
        },
        (LinuxStage::RuntimeConfig, LaunchEvent::Done) => next is RuntimeSpawn && (
        action matches LinuxAction::Spawn { role, command } && role == RunnerGuestRole::OxydraVm
            && command.deep_view() == firecracker_command(
            tmp,
            "oxydra-vm-firecracker.sock"@,
            "firecracker-oxydra-vm.json"@,
        )),
        (LinuxStage::RuntimeConfig, LaunchEvent::Failed(error)) => next is Over && action
            == LinuxAction::Fail(error),
        (LinuxStage::RuntimeSpawn, LaunchEvent::Done) => next is RuntimeApi && (
        action matches LinuxAction::AwaitApi { socket } && socket@ == paths::joined_path(
            tmp,
            "oxydra-vm-firecracker.sock"@,
        )),
        (LinuxStage::RuntimeSpawn, LaunchEvent::Failed(error)) => next is Over && action
            == LinuxAction::Fail(error),
        (LinuxStage::RuntimeApi, LaunchEvent::Done) => if !request.wants_sidecar() {
            ends_with(next, action, false, report_without_sidecar())
        } else {
            match configured(request.guest_images.firecracker_shell_vm_config) {
                Some(template) => next is SidecarConfig && generates(
                    action,
                    template,
                    None,
                    paths::joined_path(tmp, "firecracker-shell-vm.json"@),
                ),
                None => ends_with(
                    next,
                    action,
                    false,
                    report_degraded(
                        "linux microvm sidecar launch failed: missing firecracker_shell_vm_config"@,
                    ),
                ),
            }
        },
        (LinuxStage::RuntimeApi, LaunchEvent::Failed(error)) => next == LinuxStage::RuntimeStop(
            error,
        ) && (action matches LinuxAction::Stop { role } && role == RunnerGuestRole::OxydraVm),
        (LinuxStage::RuntimeStop(error), _) => next is Over && action == LinuxAction::Fail(error),
        (LinuxStage::SidecarConfig, LaunchEvent::Done) => next is SidecarSpawn && (
        action matches LinuxAction::Spawn { role, command } && role == RunnerGuestRole::ShellVm
            && command.deep_view() == firecracker_command(
            tmp,
            "shell-vm-firecracker.sock"@,
            "firecracker-shell-vm.json"@,
        )),
        (LinuxStage::SidecarConfig, LaunchEvent::Failed(error)) => ends_with(
            next,
            action,
            false,
            report_degraded(
                "linux microvm sidecar config generation failed: "@ + sandbox::error_text(error),
            ),
        ),
        (LinuxStage::SidecarSpawn, LaunchEvent::Done) => next is SidecarApi && (
        action matches LinuxAction::AwaitApi { socket } && socket@ == paths::joined_path(
            tmp,
            "shell-vm-firecracker.sock"@,
        )),
        (LinuxStage::SidecarSpawn, LaunchEvent::Failed(error)) => ends_with(
            next,
            action,
            false,
            report_degraded(
                "linux microvm sidecar launch failed: "@ + sandbox::error_text(error),
            ),
        ),
        (LinuxStage::SidecarApi, LaunchEvent::Done) => ends_with(
            next,
            action,
            true,
            report_with_sidecar(request, linux_sidecar(request)),
        ),
        (LinuxStage::SidecarApi, LaunchEvent::Failed(error)) => next == LinuxStage::SidecarStop(
            error,
        ) && (action matches LinuxAction::Stop { role } && role == RunnerGuestRole::ShellVm),
        (LinuxStage::SidecarStop(error), _) => ends_with(
            next,
            action,
            false,
            report_degraded(
                "linux microvm sidecar launch failed: "@ + sandbox::error_text(error),
            ),
        ),
        (LinuxStage::Over, _) => next is Over && action is Nothing,
    }
}

fn launched(sidecar: bool, report: LaunchReport) -> (r: (LinuxStage, LinuxAction))
    ensures
        r.0 is Over,
        r.1 == (LinuxAction::Launched { sidecar, report }),
{
    (LinuxStage::Over, LinuxAction::Launched { sidecar, report })
}

/// What follows a step of a launch of micro virtual machines on Linux.
pub fn launch_microvm_linux(
    request: &SandboxLaunchRequest,
    stage: LinuxStage,
    event: LaunchEvent,
) -> (r: (LinuxStage, LinuxAction))
    ensures
        linux_follows(*request, stage, event, r.0, r.1),
{
    let tmp = request.workspace.tmp.as_str();
    match (stage, event) {
        (LinuxStage::Begin, _) => match configured_template(
            &request.guest_images.firecracker_oxydra_vm_config,
        ) {
            Some(template) => (
                LinuxStage::RuntimeConfig,
                LinuxAction::Generate {
                    template,
                    bootstrap_file: clone_option(&request.bootstrap_file),
                    output: join_path(tmp, "firecracker-oxydra-vm.json"),
                },
            ),
            None => (
                LinuxStage::Over,
                LinuxAction::Fail(
                    RunnerError::MissingFirecrackerConfig { field: "firecracker_oxydra_vm_config" },
                ),
            ),
        },
        (LinuxStage::RuntimeConfig, LaunchEvent::Done) => (
            LinuxStage::RuntimeSpawn,
            LinuxAction::Spawn {
                role: RunnerGuestRole::OxydraVm,
                command: firecracker_spec(
                    tmp,
                    "oxydra-vm-firecracker.sock",
                    "firecracker-oxydra-vm.json",
                ),
            },
        ),
        (LinuxStage::RuntimeConfig, LaunchEvent::Failed(error)) => (
            LinuxStage::Over,
            LinuxAction::Fail(error),
        ),
        (LinuxStage::RuntimeSpawn, LaunchEvent::Done) => (
            LinuxStage::RuntimeApi,
            LinuxAction::AwaitApi { socket: join_path(tmp, "oxydra-vm-firecracker.sock") },
        ),
        (LinuxStage::RuntimeSpawn, LaunchEvent::Failed(error)) => (
            LinuxStage::Over,
            LinuxAction::Fail(error),
        ),
        (LinuxStage::RuntimeApi, LaunchEvent::Done) => if !request.sidecar_requested() {
            launched(false, without_sidecar())
        } else {
            match configured_template(&request.guest_images.firecracker_shell_vm_config) {
                Some(template) => (
                    LinuxStage::SidecarConfig,
                    LinuxAction::Generate {
                        template,
                        bootstrap_file: None,
                        output: join_path(tmp, "firecracker-shell-vm.json"),
                    },
                ),
                None => launched(
                    false,
                    degraded(
                        "linux microvm sidecar launch failed: missing firecracker_shell_vm_config",
                    ),
                ),
            }
        },
        (LinuxStage::RuntimeApi, LaunchEvent::Failed(error)) => (
            LinuxStage::RuntimeStop(error),
            LinuxAction::Stop { role: RunnerGuestRole::OxydraVm },
        ),
        (LinuxStage::RuntimeStop(error), _) => (LinuxStage::Over, LinuxAction::Fail(error)),
        (LinuxStage::SidecarConfig, LaunchEvent::Done) => (
            LinuxStage::SidecarSpawn,
            LinuxAction::Spawn {
                role: RunnerGuestRole::ShellVm,
                command: firecracker_spec(
                    tmp,
                    "shell-vm-firecracker.sock",
                    "firecracker-shell-vm.json",
                ),
            },
        ),
        (LinuxStage::SidecarConfig, LaunchEvent::Failed(error)) => {
            let detail = concat(
                "linux microvm sidecar config generation failed: ",
                error.to_text().as_str(),
            );
            launched(false, degraded(detail.as_str()))
        },
        (LinuxStage::SidecarSpawn, LaunchEvent::Done) => (
            LinuxStage::SidecarApi,
            LinuxAction::AwaitApi { socket: join_path(tmp, "shell-vm-firecracker.sock") },
        ),
        (LinuxStage::SidecarSpawn, LaunchEvent::Failed(error)) => {
            let detail = concat("linux microvm sidecar launch failed: ", error.to_text().as_str());
            launched(false, degraded(detail.as_str()))
        },
        (LinuxStage::SidecarApi, LaunchEvent::Done) => {
            let socket = join_path(tmp, "shell-daemon-vsock.sock");
            let endpoint = SidecarEndpoint {
                transport: SidecarTransport::Vsock,
                address: concat("unix://", socket.as_str()),
            };
            launched(true, with_sidecar(request, endpoint))
        },
        (LinuxStage::SidecarApi, LaunchEvent::Failed(error)) => (
            LinuxStage::SidecarStop(error),
            LinuxAction::Stop { role: RunnerGuestRole::ShellVm },
        ),
        (LinuxStage::SidecarStop(error), _) => {
            let detail = concat("linux microvm sidecar launch failed: ", error.to_text().as_str());
            launched(false, degraded(detail.as_str()))
        },
        (LinuxStage::Over, _) => (LinuxStage::Over, LinuxAction::Nothing),
    }
}

pub(crate) fn clone_option(value: &Option<String>) -> (r: Option<String>)
    ensures
        r.deep_view() == value.deep_view(),
{
    match value {
        Some(value) => Some(value.clone()),
        None => None,
    }
}

/// How far a launch on Linux is from its end.
pub open spec fn linux_steps_left(stage: LinuxStage) -> nat {
    match stage {
        LinuxStage::Begin => 8,
        LinuxStage::RuntimeConfig => 7,
        LinuxStage::RuntimeSpawn => 6,
        LinuxStage::RuntimeApi => 5,
        LinuxStage::RuntimeStop(_) => 1,
        LinuxStage::SidecarConfig => 4,
        LinuxStage::SidecarSpawn => 3,
        LinuxStage::SidecarApi => 2,
        LinuxStage::SidecarStop(_) => 1,
        LinuxStage::Over => 0,
    }
}

/// Every step brings a launch on Linux nearer to its end, and it ends with guests or
/// with an error, and with nothing else.
pub proof fn law_linux_launch_ends(
    request: SandboxLaunchRequest,
    stage: LinuxStage,
    event: LaunchEvent,
    next: LinuxStage,
    action: LinuxAction,
)
    requires
        linux_follows(request, stage, event, next, action),
        !(stage is Over),
    ensures
        linux_steps_left(next) < linux_steps_left(stage),
        next is Over <==> action is Launched || action is Fail,
{
}

/// What a launch on Linux reports is sound.
pub proof fn law_linux_reports_are_sound(
    request: SandboxLaunchRequest,
    stage: LinuxStage,
    event: LaunchEvent,
    next: LinuxStage,
    action: LinuxAction,
)
    requires
        linux_follows(request, stage, event, next, action),
        stage is SidecarConfig || stage is SidecarSpawn || stage is SidecarApi
            || stage is SidecarStop ==> request.wants_sidecar(),
    ensures
        action matches LinuxAction::Launched { sidecar, report } ==> is_sound_report(
            request,
            report.deep_view(),
        ) && sidecar == (report.deep_view().sidecar_endpoint is Some),
{
    if let LinuxAction::Launched { sidecar, report } = action {
        let model = report.deep_view();
        if model.degraded_reasons.len() > 0 {
            law_reports_are_sound(
                request,
                linux_sidecar(request),
                model.degraded_reasons[0].detail,
            );
        } else {
            law_reports_are_sound(request, linux_sidecar(request), Seq::empty());
        }
    }
}

/// Where containers are started.
#[derive(Debug, PartialEq, Eq)]
pub enum DockerPlace {
    /// By the daemon of the host.
    Host,
    /// By the daemon in a virtual machine, which was made for that agent.
    Vm { agent_name: String, vm: DockerSandboxVmInfo, sandbox_socket_path: String },
}

impl DockerPlace {
    pub open spec fn tier_label(self) -> Seq<char> {
        match self {
            DockerPlace::Host => "container"@,
            DockerPlace::Vm { .. } => "micro_vm"@,
        }
    }

    pub open spec fn tier(self) -> SandboxTier {
        match self {
            DockerPlace::Host => SandboxTier::Container,
            DockerPlace::Vm { .. } => SandboxTier::MicroVm,
        }
    }

    /// The daemon is that one.
    pub open spec fn is_at(self, endpoint: DockerEndpoint) -> bool {
        match self {
            DockerPlace::Host => endpoint is Local,
            DockerPlace::Vm { vm, .. } => endpoint matches DockerEndpoint::UnixSocket(path)
                && path@ == vm.docker_socket_path@,
        }
    }

    /// How the failure of a sidecar is introduced.
    pub open spec fn failure_prefix(self) -> Seq<char> {
        match self {
            DockerPlace::Host => "container sidecar launch failed: "@,
            DockerPlace::Vm { .. } => "macOS microvm sidecar launch failed: "@,
        }
    }

    fn label(&self) -> (r: &'static str)
        ensures
            r@ == self.tier_label(),
    {
        match self {
            DockerPlace::Host => "container",
            DockerPlace::Vm { .. } => "micro_vm",
        }
    }

    fn endpoint(&self) -> (r: DockerEndpoint)
        ensures
            self.is_at(r),
    {
        match self {
            DockerPlace::Host => DockerEndpoint::Local,
            DockerPlace::Vm { vm, .. } => DockerEndpoint::UnixSocket(vm.docker_socket_path.clone()),
        }
    }
}

/// What a guest's container is started from.
pub open spec fn are_guest_params(
    params: DockerContainerLaunchParams,
    place: DockerPlace,
    request: SandboxLaunchRequest,
    role: RunnerGuestRole,
) -> bool {
    &&& place.is_at(params.endpoint)
    &&& params.container_name@ == docker::guest_container_name(
        place.tier_label(),
        request.user_id@,
        role,
    )
    &&& params.image@ == match role {
        RunnerGuestRole::OxydraVm => request.guest_images.oxydra_vm@,
        RunnerGuestRole::ShellVm => request.guest_images.shell_vm@,
    }
    &&& params.role == role
    &&& params.user_id@ == request.user_id@
    &&& params.workspace.deep_view() == request.workspace.deep_view()
    &&& params.mounts.deep_view() == request.mounts.deep_view()
    &&& params.resource_limits == request.resource_limits
    &&& params.labels.well_formed()
    &&& params.labels@.dom() == set![
        "oxydra.sandbox_tier"@,
        "oxydra.user_id"@,
        "oxydra.guest_role"@,
    ]
    &&& params.labels@["oxydra.sandbox_tier"@]@ == place.tier_label()
    &&& params.labels@["oxydra.user_id"@]@ == request.user_id@
    &&& params.labels@["oxydra.guest_role"@]@ == role.label()
    &&& params.bootstrap_file.deep_view() == request.bootstrap_file.deep_view()
    &&& params.extra_env.deep_view() == match role {
        RunnerGuestRole::OxydraVm => request.extra_env.deep_view(),
        RunnerGuestRole::ShellVm => request.shell_env.deep_view(),
    }
}

pub(crate) fn clone_texts(texts: &Vec<String>) -> (r: Vec<String>)
    ensures
        r.deep_view() == texts.deep_view(),
{
    let mut out: Vec<String> = Vec::new();
    let mut i: usize = 0;
    while i < texts.len()
        invariant
            i <= texts.len(),
            out.len() == i,
            forall|k: int| 0 <= k < i ==> (#[trigger] out@[k])@ == texts@[k]@,
        decreases texts.len() - i,
    {
        out.push(texts[i].clone());
        i += 1;
    }
    proof {
        assert(out.deep_view() =~= texts.deep_view());
    }
    out
}

/// What a guest's container is started from: the runtime gets the variables that are
/// meant for it, and the sidecar its own, so that keys of the one do not reach the
/// other.
pub fn docker_guest_params(
    place: &DockerPlace,
    request: &SandboxLaunchRequest,
    role: RunnerGuestRole,
) -> (r: DockerContainerLaunchParams)
    ensures
        are_guest_params(r, *place, *request, role),
{
    let label = place.label();
    DockerContainerLaunchParams {
        endpoint: place.endpoint(),
        container_name: docker_guest_container_name(label, request.user_id.as_str(), role),
        image: match role {
            RunnerGuestRole::OxydraVm => request.guest_images.oxydra_vm.clone(),
            RunnerGuestRole::ShellVm => request.guest_images.shell_vm.clone(),
        },
        role,
        user_id: request.user_id.clone(),
        workspace: request.workspace.clone(),
        mounts: request.mounts.clone(),
        resource_limits: request.resource_limits,
        labels: docker_guest_labels(label, request.user_id.as_str(), role),
        bootstrap_file: clone_option(&request.bootstrap_file),
        extra_env: match role {
            RunnerGuestRole::OxydraVm => clone_texts(&request.extra_env),
            RunnerGuestRole::ShellVm => clone_texts(&request.shell_env),
        },
    }
}

/// The handle of a guest in a container.
pub open spec fn is_docker_guest(
    guest: RunnerGuestHandle,
    place: DockerPlace,
    request: SandboxLaunchRequest,
    role: RunnerGuestRole,
) -> bool {
    let name = docker::guest_container_name(place.tier_label(), request.user_id@, role);
    &&& guest.role == role
    &&& guest.pid is None
    &&& guest.lifecycle matches RunnerGuestLifecycle::DockerContainer(handle) && place.is_at(
        handle.endpoint,
    ) && handle.container_name@ == name && guest.command.deep_view() == (CommandModel {
        program: "bollard"@,
        args: seq!["--endpoint"@, handle.endpoint.name(), "--container"@, name],
    })
}

/// The handle of a guest in a container.
pub fn docker_guest_handle(
    place: &DockerPlace,
    request: &SandboxLaunchRequest,
    role: RunnerGuestRole,
) -> (r: RunnerGuestHandle)
    ensures
        is_docker_guest(r, *place, *request, role),
{
    let name = docker_guest_container_name(place.label(), request.user_id.as_str(), role);
    let endpoint = place.endpoint();
    let command = docker_guest_command_spec(&endpoint, name.as_str());
    RunnerGuestHandle::for_docker(role, command, endpoint, name)
}

/// How far a launch of containers has got.
#[derive(Debug, PartialEq, Eq)]
pub enum DockerStage {
    Begin,
    Runtime,
    /// The runtime failed, and its virtual machine is being deleted.
    VmDelete(RunnerError),
    Sidecar,
    Over,
}

/// What is to be done next in a launch of containers.
#[derive(Debug, PartialEq, Eq)]
pub enum DockerAction {
    StartContainer(DockerContainerLaunchParams),
    DeleteVm { sandbox_socket_path: String, vm_name: String },
    Launched { launch: RunnerLaunchHandle, report: LaunchReport },
    Fail(RunnerError),
    /// The launch is over.
    Nothing,
}

/// Where the sidecar in a container is reached.
pub open spec fn docker_sidecar(request: SandboxLaunchRequest) -> EndpointModel {
    EndpointModel {
        transport: SidecarTransport::Unix,
        address: paths::joined_path(request.workspace.tmp@, "shell-daemon.sock"@),
    }
}

/// The guests of a launch of containers.
pub open spec fn is_docker_launch(
    launch: RunnerLaunchHandle,
    place: DockerPlace,
    request: SandboxLaunchRequest,
    sidecar: bool,
) -> bool {
    &&& launch.tier == place.tier()
    &&& is_docker_guest(launch.runtime, place, request, RunnerGuestRole::OxydraVm)
    &&& match launch.sidecar {
        Some(guest) => sidecar && is_docker_guest(guest, place, request, RunnerGuestRole::ShellVm),
        None => !sidecar,
    }
    &&& match place {
        DockerPlace::Host => launch.scope is None,
        DockerPlace::Vm { vm, sandbox_socket_path, .. } => launch.scope matches Some(
            RunnerScopeHandle::DockerSandboxVm(handle),
        ) && handle.vm_name@ == vm.vm_name@ && handle.sandbox_socket_path@ == sandbox_socket_path@,
    }
}

/// The launch ends with these guests and this report.
pub open spec fn docker_ends_with(
    place: DockerPlace,
    request: SandboxLaunchRequest,
    next: DockerStage,
    action: DockerAction,
    sidecar: bool,
    report: ReportModel,
) -> bool {
    &&& next is Over
    &&& action matches DockerAction::Launched { launch, report: r } && is_docker_launch(
        launch,
        place,
        request,
        sidecar,
    ) && r.deep_view() == report
}

/// What follows a step of a launch of containers. A runtime that fails fails the launch,
/// and takes the virtual machine that was made for it along; a sidecar that fails
/// degrades it.
pub open spec fn docker_follows(
    place: DockerPlace,
    request: SandboxLaunchRequest,
    stage: DockerStage,
    event: LaunchEvent,
    next: DockerStage,
    action: DockerAction,
) -> bool {
    match (stage, event) {
        (DockerStage::Begin, _) => next is Runtime && (action matches DockerAction::StartContainer(
            params,
        ) && are_guest_params(params, place, request, RunnerGuestRole::OxydraVm)),
        (DockerStage::Runtime, LaunchEvent::Failed(error)) => match place {
            DockerPlace::Host => next is Over && action == DockerAction::Fail(error),
            DockerPlace::Vm { agent_name, sandbox_socket_path, .. } => next
                == DockerStage::VmDelete(error) && (action matches DockerAction::DeleteVm {
                sandbox_socket_path: socket,
                vm_name,
            } && socket@ == sandbox_socket_path@ && vm_name@ == agent_name@),
        },
        (DockerStage::Runtime, LaunchEvent::Done) => if request.wants_sidecar() {
            next is Sidecar && (action matches DockerAction::StartContainer(params)
                && are_guest_params(params, place, request, RunnerGuestRole::ShellVm))
        } else {
            docker_ends_with(place, request, next, action, false, report_without_sidecar())
        },
        (DockerStage::VmDelete(error), _) => next is Over && action == DockerAction::Fail(error),
        (DockerStage::Sidecar, LaunchEvent::Done) => docker_ends_with(
            place,
            request,
            next,
            action,
            true,
            report_with_sidecar(request, docker_sidecar(request)),
        ),
        (DockerStage::Sidecar, LaunchEvent::Failed(error)) => docker_ends_with(
            place,
            request,
            next,
            action,
            false,
            report_degraded(place.failure_prefix() + sandbox::error_text(error)),
        ),
        (DockerStage::Over, _) => next is Over && action is Nothing,
    }
}

fn docker_launch(place: &DockerPlace, request: &SandboxLaunchRequest, sidecar: bool) -> (r:
    RunnerLaunchHandle)
    ensures
        is_docker_launch(r, *place, *request, sidecar),
{
    RunnerLaunchHandle {
        tier: match place {
            DockerPlace::Host => SandboxTier::Container,
            DockerPlace::Vm { .. } => SandboxTier::MicroVm,
        },
        runtime: docker_guest_handle(place, request, RunnerGuestRole::OxydraVm),
        sidecar: if sidecar {
            Some(docker_guest_handle(place, request, RunnerGuestRole::ShellVm))
        } else {
            None
        },
        scope: match place {
            DockerPlace::Host => None,
            DockerPlace::Vm { vm, sandbox_socket_path, .. } => Some(
                RunnerScopeHandle::DockerSandboxVm(
                    DockerSandboxVmHandle {
                        vm_name: vm.vm_name.clone(),
                        sandbox_socket_path: sandbox_socket_path.clone(),
                    },
                ),
            ),
        },
    }
}

/// What follows a step of a launch of containers.
pub fn launch_container(
    place: &DockerPlace,
    request: &SandboxLaunchRequest,
    stage: DockerStage,
    event: LaunchEvent,
) -> (r: (DockerStage, DockerAction))
    ensures
        docker_follows(*place, *request, stage, event, r.0, r.1),
{
    match (stage, event) {
        (DockerStage::Begin, _) => (
            DockerStage::Runtime,
            DockerAction::StartContainer(
                docker_guest_params(place, request, RunnerGuestRole::OxydraVm),
            ),
        ),
        (DockerStage::Runtime, LaunchEvent::Failed(error)) => match place {
            DockerPlace::Host => (DockerStage::Over, DockerAction::Fail(error)),
            DockerPlace::Vm { agent_name, sandbox_socket_path, .. } => (
                DockerStage::VmDelete(error),
                DockerAction::DeleteVm {
                    sandbox_socket_path: sandbox_socket_path.clone(),
                    vm_name: agent_name.clone(),
                },
            ),
        },
        (DockerStage::Runtime, LaunchEvent::Done) => if request.sidecar_requested() {
            (
                DockerStage::Sidecar,
                DockerAction::StartContainer(
                    docker_guest_params(place, request, RunnerGuestRole::ShellVm),
                ),
            )
        } else {
            (
                DockerStage::Over,
                DockerAction::Launched {
                    launch: docker_launch(place, request, false),
                    report: without_sidecar(),
                },
            )
        },
        (DockerStage::VmDelete(error), _) => (DockerStage::Over, DockerAction::Fail(error)),
        (DockerStage::Sidecar, LaunchEvent::Done) => {
            let endpoint = SidecarEndpoint {
                transport: SidecarTransport::Unix,
                address: join_path(request.workspace.tmp.as_str(), "shell-daemon.sock"),
            };
            (
                DockerStage::Over,
                DockerAction::Launched {
                    launch: docker_launch(place, request, true),
                    report: with_sidecar(request, endpoint),
                },
            )
        },
        (DockerStage::Sidecar, LaunchEvent::Failed(error)) => {
            let prefix = match place {
                DockerPlace::Host => "container sidecar launch failed: ",
                DockerPlace::Vm { .. } => "macOS microvm sidecar launch failed: ",
            };
            let detail = concat(prefix, error.to_text().as_str());
            (
                DockerStage::Over,
                DockerAction::Launched {
                    launch: docker_launch(place, request, false),
                    report: degraded(detail.as_str()),
                },
            )
        },
        (DockerStage::Over, _) => (DockerStage::Over, DockerAction::Nothing),
    }
}

/// How far a launch of containers is from its end.
pub open spec fn docker_steps_left(stage: DockerStage) -> nat {
    match stage {
        DockerStage::Begin => 3,
        DockerStage::Runtime => 2,
        DockerStage::VmDelete(_) => 1,
        DockerStage::Sidecar => 1,
        DockerStage::Over => 0,
    }
}

/// Every step brings a launch of containers nearer to its end.
pub proof fn law_docker_launch_ends(
    place: DockerPlace,
    request: SandboxLaunchRequest,
    stage: DockerStage,
    event: LaunchEvent,
    next: DockerStage,
    action: DockerAction,
)
    requires
        docker_follows(place, request, stage, event, next, action),
        !(stage is Over),
    ensures
        docker_steps_left(next) < docker_steps_left(stage),
        next is Over <==> action is Launched || action is Fail,
{
}

/// What a launch of containers reports is sound, and the sidecar is there exactly where
/// it has an address.
pub proof fn law_docker_reports_are_sound(
    place: DockerPlace,
    request: SandboxLaunchRequest,
    stage: DockerStage,
    event: LaunchEvent,
    next: DockerStage,
    action: DockerAction,
)
    requires
        docker_follows(place, request, stage, event, next, action),
        stage is Sidecar ==> request.wants_sidecar(),
    ensures
        action matches DockerAction::Launched { launch, report } ==> is_sound_report(
            request,
            report.deep_view(),
        ) && launch.sidecar is Some == (report.deep_view().sidecar_endpoint is Some),
{
    if let DockerAction::Launched { launch, report } = action {
        let model = report.deep_view();
        if model.degraded_reasons.len() > 0 {
            law_reports_are_sound(
                request,
                docker_sidecar(request),
                model.degraded_reasons[0].detail,
            );
        } else {
            law_reports_are_sound(request, docker_sidecar(request), Seq::empty());
        }
    }
}

/// The agent that a user's virtual machine on macOS is made for.
pub fn macos_agent_name(user_id: &str) -> (r: String)
    ensures
        r@ == "oxydra-microvm-"@ + docker::name_component(user_id@),
{
    let component = sanitize_container_component(user_id);
    concat("oxydra-microvm-", component.as_str())
}

/// Where the daemon of Docker's sandboxes listens, in the user's home.
pub fn docker_sandboxd_socket_path(home: Option<&str>) -> (r: Result<String, RunnerError>)
    ensures
        match home {
            Some(home) => r matches Ok(path) && path@ == paths::joined_path(
                home@,
                ".docker/sandboxes/sandboxd.sock"@,
            ),
            None => r matches Err(RunnerError::MissingHomeDirectory),
        },
{
    match home {
        Some(home) => Ok(join_path(home, DOCKER_SANDBOXD_SOCKET_RELATIVE_PATH)),
        None => Err(RunnerError::MissingHomeDirectory),
    }
}

/// The runtime's program: the one that is given, or else the one that comes with the
/// runner, or else the one of that name on the search path.
pub fn resolve_process_tier_executable(explicit: Option<&str>, bundled: Option<&str>) -> (r: String)
    ensures
        r@ == if explicit matches Some(program) && text::trimmed(program@).len() > 0 {
            text::trimmed(explicit->0@)
        } else if bundled is Some {
            bundled->0@
        } else {
            "oxydra-vm"@
        },
{
    if let Some(program) = explicit {
        let program = trim(program);
        if !program.as_str().is_empty() {
            return program;
        }
    }
    match bundled {
        Some(program) => program.to_owned(),
        None => DEFAULT_PROCESS_EXECUTABLE.to_owned(),
    }
}

/// How the runtime is started as a plain process.
pub fn process_command(executable: &str, user_id: &str, workspace: &UserWorkspace) -> (r:
    RunnerCommandSpec)
    ensures
        r.program@ == executable@,
        r.args.deep_view() == seq![
            "--user-id"@,
            user_id@,
            "--workspace-root"@,
            workspace.root@,
            "--bootstrap-stdin"@,
        ],
{
    let r = RunnerCommandSpec::new(
        executable,
        vec![
            "--user-id".to_owned(),
            user_id.to_owned(),
            "--workspace-root".to_owned(),
            workspace.root.clone(),
            "--bootstrap-stdin".to_owned(),
        ],
    );
    proof {
        assert(r.args.deep_view() =~= seq![
            "--user-id"@,
            user_id@,
            "--workspace-root"@,
            workspace.root@,
            "--bootstrap-stdin"@,
        ]);
    }
    r
}

/// An attempt to harden the process that a guest runs in.
#[derive(Debug, PartialEq, Eq)]
pub struct HardeningAttempt {
    pub succeeded: bool,
    /// The name of the outcome.
    pub outcome: String,
    pub detail: String,
}

/// How a limited hardening reads.
pub open spec fn hardening_detail(attempt: HardeningAttempt) -> Seq<char> {
    "process-tier hardening "@ + attempt.outcome@ + ": "@ + attempt.detail@
}

/// What a launch as a plain process reports: no sidecar, the warning about the tier, and
/// what the hardening could not do.
pub open spec fn process_report(attempt: HardeningAttempt) -> ReportModel {
    let insecure = ReasonModel {
        code: StartupDegradedReasonCode::InsecureProcessTier,
        detail: PROCESS_TIER_WARNING@,
    };
    let limited = ReasonModel {
        code: StartupDegradedReasonCode::ProcessHardeningLimited,
        detail: hardening_detail(attempt),
    };
    ReportModel {
        sidecar_endpoint: None,
        shell_available: false,
        browser_available: false,
        degraded_reasons: if attempt.succeeded {
            seq![insecure]
        } else {
            seq![insecure, limited]
        },
        warnings: if attempt.succeeded {
            seq![PROCESS_TIER_WARNING@]
        } else {
            seq![PROCESS_TIER_WARNING@, hardening_detail(attempt)]
        },
    }
}

/// What a launch as a plain process reports.
pub fn launch_process(attempt: &HardeningAttempt) -> (r: LaunchReport)
    ensures
        r.deep_view() == process_report(*attempt),
{
    let mut warnings = vec![PROCESS_TIER_WARNING.to_owned()];
    let mut degraded_reasons = vec![
        StartupDegradedReason::new(
            StartupDegradedReasonCode::InsecureProcessTier,
            PROCESS_TIER_WARNING,
        ),
    ];
    if !attempt.succeeded {
        let detail = concat4(
            "process-tier hardening ",
            attempt.outcome.as_str(),
            ": ",
            attempt.detail.as_str(),
        );
        degraded_reasons.push(
            StartupDegradedReason::new(
                StartupDegradedReasonCode::ProcessHardeningLimited,
                detail.as_str(),
            ),
        );
        warnings.push(detail);
    }
    let r = LaunchReport {
        sidecar_endpoint: None,
        shell_available: false,
        browser_available: false,
        degraded_reasons,
        warnings,
    };
    proof {
        assert(r.degraded_reasons.deep_view() =~= process_report(*attempt).degraded_reasons);
        assert(r.warnings.deep_view() =~= process_report(*attempt).warnings);
    }
    r
}

/// A virtual machine is started on the configuration that was just written, and it is
/// then waited for at the socket that it was told to open: of three actions in a row,
/// the second starts what the first wrote and the third asks what the second started.
pub proof fn law_machine_runs_on_what_was_written(
    request: SandboxLaunchRequest,
    before: (LinuxStage, LaunchEvent),
    written: (LinuxStage, LinuxAction),
    spawned: (LinuxStage, LinuxAction),
    awaited: (LinuxStage, LinuxAction),
)
    requires
        call_ensures(launch_microvm_linux, (&request, before.0, before.1), written),
        written.1 is Generate,
        call_ensures(launch_microvm_linux, (&request, written.0, LaunchEvent::Done), spawned),
        call_ensures(launch_microvm_linux, (&request, spawned.0, LaunchEvent::Done), awaited),
    ensures
        spawned.1 is Spawn,
        awaited.1 is AwaitApi,
        ({
            let args = spawned.1->command.args@;
            &&& spawned.1->command.program@ == "firecracker"@
            &&& args.len() == 4
            &&& args[0]@ == "--api-sock"@
            &&& args[1]@ == awaited.1->socket@
            &&& args[2]@ == "--config-file"@
            &&& args[3]@ == written.1->output@
            &&& awaited.1->socket@ != written.1->output@
        }),
{
    let args = spawned.1->command.args;
    let model = spawned.1->command.deep_view();
    assert(args.deep_view() == model.args);
    assert(model.args[0] == args@[0]@ && model.args[1] == args@[1]@ && model.args[2] == args@[2]@
        && model.args[3] == args@[3]@);
    reveal_strlit("oxydra-vm-firecracker.sock");
    reveal_strlit("firecracker-oxydra-vm.json");
    reveal_strlit("shell-vm-firecracker.sock");
    reveal_strlit("firecracker-shell-vm.json");
    assert(awaited.1->socket@.last() == 'k');
    assert(written.1->output@.last() == 'n');
}

/// A launch on Linux begins with the runtime's machine, whose configuration is made of
/// the template that is configured for it and of the start-up data, and stands in the
/// user's directory for temporary files; a template of white space alone counts as none,
/// and without one the launch fails.
pub proof fn law_runtime_machine_comes_first(
    request: SandboxLaunchRequest,
    event: LaunchEvent,
    step: (LinuxStage, LinuxAction),
)
    requires
        call_ensures(launch_microvm_linux, (&request, LinuxStage::Begin, event), step),
    ensures
        ({
            let template = request.guest_images.firecracker_oxydra_vm_config;
            let configured = template matches Some(path) && text::trimmed(path@).len() > 0;
            &&& !configured ==> step.0 is Over && step.1 is Fail
            &&& configured ==> step.0 is RuntimeConfig && (step.1 matches LinuxAction::Generate {
                template: used,
                bootstrap_file,
                output,
            } && used@ == template->0@ && output@ == paths::joined_path(
                request.workspace.tmp@,
                "firecracker-oxydra-vm.json"@,
            ) && (match request.bootstrap_file {
                Some(path) => bootstrap_file matches Some(given) && given@ == path@,
                None => bootstrap_file is None,
            }))
        }),
{
}

/// Once the runtime answers, the sidecar's machine follows exactly where something is asked
/// for that it provides and a template is configured for it: on that template, without the
/// start-up data, and on other files than the runtime's.
pub proof fn law_sidecar_machine_comes_second(
    request: SandboxLaunchRequest,
    begun: (LinuxStage, LinuxAction),
    step: (LinuxStage, LinuxAction),
)
    requires
        call_ensures(
            launch_microvm_linux,
            (&request, LinuxStage::Begin, LaunchEvent::Done),
            begun,
        ),
        call_ensures(
            launch_microvm_linux,
            (&request, LinuxStage::RuntimeApi, LaunchEvent::Done),
            step,
        ),
        begun.1 is Generate,
    ensures
        ({
            let template = request.guest_images.firecracker_shell_vm_config;
            let configured = template matches Some(path) && text::trimmed(path@).len() > 0;
            let wanted = request.requested_shell || request.requested_browser;
            &&& wanted && configured <==> step.1 is Generate
            &&& wanted && configured ==> step.0 is SidecarConfig && (
            step.1 matches LinuxAction::Generate { template: used, bootstrap_file, output } && used@
                == template->0@ && bootstrap_file is None && output@ != begun.1->output@)
            &&& !wanted ==> (step.1 matches LinuxAction::Launched { sidecar, report } && !sidecar
                && report.degraded_reasons@.len() == 0 && report.warnings@.len() == 0)
            &&& wanted && !configured ==> (step.1 matches LinuxAction::Launched { sidecar, report }
                && !sidecar && report.sidecar_endpoint is None && report.degraded_reasons@.len()
                == 1 && report.warnings@.len() == 1)
        }),
{
    reveal_strlit("firecracker-oxydra-vm.json");
    reveal_strlit("firecracker-shell-vm.json");
    assert("firecracker-oxydra-vm.json"@.len() == 26 && "firecracker-shell-vm.json"@.len() == 25);
    assert("firecracker-oxydra-vm.json"@[0] == 'f' && "firecracker-shell-vm.json"@[0] == 'f');
    let tmp = request.workspace.tmp@;
    assert(paths::joined_path(tmp, "firecracker-oxydra-vm.json"@).len() == paths::joined_path(
        tmp,
        "firecracker-shell-vm.json"@,
    ).len() + 1);
    if let LinuxAction::Launched { sidecar, report } = step.1 {
        assert(report.degraded_reasons.deep_view().len() == report.degraded_reasons@.len());
        assert(report.warnings.deep_view().len() == report.warnings@.len());
    }
}

/// A machine that was started and does not answer is stopped, that one and no other. The
/// runtime's failure is the launch's; the sidecar's is what the launch then reports.
pub proof fn law_silent_machine_is_stopped(
    request: SandboxLaunchRequest,
    before: (LinuxStage, LaunchEvent),
    spawned: (LinuxStage, LinuxAction),
    awaited: (LinuxStage, LinuxAction),
    error: RunnerError,
    stopped: (LinuxStage, LinuxAction),
    after: LaunchEvent,
    ended: (LinuxStage, LinuxAction),
)
    requires
        call_ensures(launch_microvm_linux, (&request, before.0, before.1), spawned),
        spawned.1 is Spawn,
        call_ensures(launch_microvm_linux, (&request, spawned.0, LaunchEvent::Done), awaited),
        call_ensures(
            launch_microvm_linux,
            (&request, awaited.0, LaunchEvent::Failed(error)),
            stopped,
        ),
        call_ensures(launch_microvm_linux, (&request, stopped.0, after), ended),
    ensures
        stopped.1 == (LinuxAction::Stop { role: spawned.1->Spawn_role }),
        spawned.1->Spawn_role == RunnerGuestRole::OxydraVm ==> ended.1 == LinuxAction::Fail(error),
        spawned.1->Spawn_role == RunnerGuestRole::ShellVm ==> (
        ended.1 matches LinuxAction::Launched { sidecar, report } && !sidecar
            && report.sidecar_endpoint is None && !report.shell_available
            && !report.browser_available && report.warnings@.len() == 1 && report.warnings@[0]@
            == "linux microvm sidecar launch failed: "@ + sandbox::error_text(error)
            && report.degraded_reasons@.len() == 1 && report.degraded_reasons@[0].detail@
            == report.warnings@[0]@),
{
    if let LinuxAction::Launched { sidecar, report } = ended.1 {
        assert(report.degraded_reasons.deep_view().len() == report.degraded_reasons@.len());
        assert(report.warnings.deep_view().len() == report.warnings@.len());
        if report.warnings@.len() > 0 {
            assert(report.warnings.deep_view()[0] == report.warnings@[0]@);
        }
        if report.degraded_reasons@.len() > 0 {
            assert(report.degraded_reasons.deep_view()[0]
                == report.degraded_reasons@[0].deep_view());
        }
    }
}

/// A machine that cannot be configured or started fails its launch where it is the
/// runtime, and degrades it, with what went wrong, where it is the sidecar.
pub proof fn law_failed_machine_fails_or_degrades(
    request: SandboxLaunchRequest,
    stage: LinuxStage,
    error: RunnerError,
    step: (LinuxStage, LinuxAction),
)
    requires
        call_ensures(launch_microvm_linux, (&request, stage, LaunchEvent::Failed(error)), step),
    ensures
        stage is RuntimeConfig || stage is RuntimeSpawn ==> step.0 is Over && step.1
            == LinuxAction::Fail(error),
        stage is SidecarConfig || stage is SidecarSpawn ==> step.0 is Over && (
        step.1 matches LinuxAction::Launched { sidecar, report } && !sidecar
            && report.sidecar_endpoint is None && !report.shell_available
            && !report.browser_available && report.warnings@.len() == 1
            && report.degraded_reasons@.len() == 1 && report.warnings@[0]@.len()
            >= sandbox::error_text(error).len() && report.warnings@[0]@.skip(
            report.warnings@[0]@.len() - sandbox::error_text(error).len(),
        ) == sandbox::error_text(error)),
{
    if let LinuxAction::Launched { sidecar, report } = step.1 {
        assert(report.degraded_reasons.deep_view().len() == report.degraded_reasons@.len());
        assert(report.warnings.deep_view().len() == report.warnings@.len());
        if stage is SidecarConfig || stage is SidecarSpawn {
            assert(report.warnings.deep_view()[0] == report.warnings@[0]@);
            let text = report.warnings@[0]@;
            let told = sandbox::error_text(error);
            assert(text.skip(text.len() - told.len()) =~= told);
        }
    }
}

/// A launch on Linux whose sidecar answers reaches it over a socket in the user's
/// directory for temporary files, and has those of the tools that were asked for.
pub proof fn law_linux_sidecar_is_reached(
    request: SandboxLaunchRequest,
    step: (LinuxStage, LinuxAction),
)
    requires
        call_ensures(
            launch_microvm_linux,
            (&request, LinuxStage::SidecarApi, LaunchEvent::Done),
            step,
        ),
    ensures
        step.0 is Over,
        step.1 matches LinuxAction::Launched { sidecar, report } && sidecar && (
        report.sidecar_endpoint matches Some(endpoint) && endpoint.transport
            == SidecarTransport::Vsock && endpoint.address@ == "unix://"@ + paths::joined_path(
            request.workspace.tmp@,
            "shell-daemon-vsock.sock"@,
        )) && report.shell_available == request.requested_shell && report.browser_available
            == request.requested_browser && report.degraded_reasons@.len() == 0
            && report.warnings@.len() == 0,
{
    let report = step.1->report;
    assert(report.degraded_reasons.deep_view().len() == report.degraded_reasons@.len());
    assert(report.warnings.deep_view().len() == report.warnings@.len());
}

/// Guests go the way of their tier, and micro virtual machines that of their host.
pub proof fn law_guests_go_the_way_of_their_tier(
    backend: CrateSandboxBackend,
    tier: SandboxTier,
    host_os: &str,
    r: Result<LaunchRoute, RunnerError>,
)
    requires
        call_ensures(CrateSandboxBackend::route, (&backend, tier, host_os), r),
    ensures
        tier == SandboxTier::Process ==> r == Ok::<_, RunnerError>(LaunchRoute::Process),
        tier == SandboxTier::Container ==> r == Ok::<_, RunnerError>(LaunchRoute::Container),
        tier == SandboxTier::MicroVm && host_os@ == "linux"@ ==> r == Ok::<_, RunnerError>(
            LaunchRoute::LinuxMicroVm,
        ),
        tier == SandboxTier::MicroVm && host_os@ == "macos"@ ==> r == Ok::<_, RunnerError>(
            LaunchRoute::MacMicroVm,
        ),
        tier == SandboxTier::MicroVm && host_os@ != "linux"@ && host_os@ != "macos"@ ==> (
        r matches Err(RunnerError::UnsupportedMicroVmHost { os }) && os@ == host_os@),
{
    reveal_strlit("linux");
    reveal_strlit("macos");
    assert("linux"@[0] == 'l' && "macos"@[0] == 'm');
}

/// The containers of a launch are those of its user: the runtime's runs the runtime's
/// image and gets the runtime's variables, the sidecar's runs the sidecar's image and gets
/// its own, and both get the user's workspace, mounts, limits and start-up data, and are
/// labelled with tier, user and role. They are started where the launch is.
pub proof fn law_container_is_its_users(
    place: DockerPlace,
    request: SandboxLaunchRequest,
    role: RunnerGuestRole,
    params: DockerContainerLaunchParams,
    i: int,
)
    requires
        call_ensures(docker_guest_params, (&place, &request, role), params),
    ensures
        params.role == role,
        params.user_id@ == request.user_id@,
        params.workspace.root@ == request.workspace.root@,
        params.workspace.tmp@ == request.workspace.tmp@,
        params.workspace.ipc@ == request.workspace.ipc@,
        params.mounts.shared@ == request.mounts.shared@,
        params.mounts.tmp@ == request.mounts.tmp@,
        params.mounts.vault@ == request.mounts.vault@,
        params.resource_limits == request.resource_limits,
        role == RunnerGuestRole::OxydraVm ==> params.image@ == request.guest_images.oxydra_vm@
            && params.extra_env@.len() == request.extra_env@.len() && (0 <= i
            < request.extra_env@.len() ==> params.extra_env@[i]@ == request.extra_env@[i]@),
        role == RunnerGuestRole::ShellVm ==> params.image@ == request.guest_images.shell_vm@
            && params.extra_env@.len() == request.shell_env@.len() && (0 <= i
            < request.shell_env@.len() ==> params.extra_env@[i]@ == request.shell_env@[i]@),
        match request.bootstrap_file {
            Some(path) => params.bootstrap_file matches Some(given) && given@ == path@,
            None => params.bootstrap_file is None,
        },
        params.labels@.dom().contains("oxydra.user_id"@),
        params.labels@["oxydra.user_id"@]@ == request.user_id@,
        params.labels@["oxydra.guest_role"@]@ == match role {
            RunnerGuestRole::OxydraVm => "oxydra-vm"@,
            RunnerGuestRole::ShellVm => "shell-vm"@,
        },
        params.labels@["oxydra.sandbox_tier"@]@ == match place {
            DockerPlace::Host => "container"@,
            DockerPlace::Vm { .. } => "micro_vm"@,
        },
        match place {
            DockerPlace::Host => params.endpoint is Local,
            DockerPlace::Vm { vm, .. } => params.endpoint matches DockerEndpoint::UnixSocket(path)
                && path@ == vm.docker_socket_path@,
        },
{
    text::lemma_list(params.extra_env);
    text::lemma_list(request.extra_env);
    text::lemma_list(request.shell_env);
}

/// A launch of containers starts the runtime's first and then, exactly where something is
/// asked for that it provides, the sidecar's; what it hands back are the very containers
/// that it started.
pub proof fn law_launched_containers_are_those_started(
    place: DockerPlace,
    request: SandboxLaunchRequest,
    event: LaunchEvent,
    begun: (DockerStage, DockerAction),
    second: (DockerStage, DockerAction),
    third: (DockerStage, DockerAction),
)
    requires
        call_ensures(launch_container, (&place, &request, DockerStage::Begin, event), begun),
        call_ensures(
            launch_container,
            (&place, &request, begun.0, LaunchEvent::Done),
            second,
        ),
        call_ensures(
            launch_container,
            (&place, &request, second.0, LaunchEvent::Done),
            third,
        ),
    ensures
        begun.1 matches DockerAction::StartContainer(params) && params.role
            == RunnerGuestRole::OxydraVm,
        request.requested_shell || request.requested_browser ==> {
            &&& second.1 matches DockerAction::StartContainer(params)
            &&& params.role == RunnerGuestRole::ShellVm
            &&& third.1 matches DockerAction::Launched { launch, report }
            &&& launch.runtime.lifecycle matches RunnerGuestLifecycle::DockerContainer(handle)
            &&& handle.container_name@ == begun.1->StartContainer_0.container_name@
            &&& launch.runtime.role == RunnerGuestRole::OxydraVm
            &&& launch.sidecar matches Some(sidecar)
            &&& sidecar.role == RunnerGuestRole::ShellVm
            &&& sidecar.lifecycle matches RunnerGuestLifecycle::DockerContainer(other)
            &&& other.container_name@ == params.container_name@
            &&& other.container_name@ != handle.container_name@
            &&& report.sidecar_endpoint matches Some(endpoint)
            &&& endpoint.transport == SidecarTransport::Unix
            &&& endpoint.address@ == paths::joined_path(
                request.workspace.tmp@,
                "shell-daemon.sock"@,
            )
            &&& report.shell_available == request.requested_shell
            &&& report.browser_available == request.requested_browser
        },
        !(request.requested_shell || request.requested_browser) ==> {
            &&& second.1 matches DockerAction::Launched { launch, report }
            &&& launch.runtime.lifecycle matches RunnerGuestLifecycle::DockerContainer(handle)
            &&& handle.container_name@ == begun.1->StartContainer_0.container_name@
            &&& launch.sidecar is None
            &&& report.sidecar_endpoint is None
        },
{
    docker::law_guests_have_different_names(place.tier_label(), request.user_id@);
}

/// A runtime that does not start fails its launch with what went wrong; where a virtual
/// machine was made for it, that one is deleted before.
pub proof fn law_failed_runtime_takes_its_machine_along(
    place: DockerPlace,
    request: SandboxLaunchRequest,
    error: RunnerError,
    after: LaunchEvent,
    step: (DockerStage, DockerAction),
    ended: (DockerStage, DockerAction),
)
    requires
        call_ensures(
            launch_container,
            (&place, &request, DockerStage::Runtime, LaunchEvent::Failed(error)),
            step,
        ),
        call_ensures(launch_container, (&place, &request, step.0, after), ended),
    ensures
        place is Host ==> step.0 is Over && step.1 == DockerAction::Fail(error),
        place matches DockerPlace::Vm { agent_name, sandbox_socket_path, .. } ==> (
        step.1 matches DockerAction::DeleteVm { sandbox_socket_path: socket, vm_name } && socket@
            == sandbox_socket_path@ && vm_name@ == agent_name@) && ended.0 is Over && ended.1
            == DockerAction::Fail(error),
{
}

/// A sidecar that does not start degrades the launch, which goes on with the runtime
/// alone and says why.
pub proof fn law_failed_sidecar_degrades_the_launch(
    place: DockerPlace,
    request: SandboxLaunchRequest,
    error: RunnerError,
    step: (DockerStage, DockerAction),
)
    requires
        call_ensures(
            launch_container,
            (&place, &request, DockerStage::Sidecar, LaunchEvent::Failed(error)),
            step,
        ),
    ensures
        step.0 is Over,
        ({
            &&& step.1 matches DockerAction::Launched { launch, report }
            &&& launch.sidecar is None
            &&& report.sidecar_endpoint is None
            &&& !report.shell_available
            &&& !report.browser_available
            &&& report.degraded_reasons@.len() == 1
            &&& report.degraded_reasons@[0].code == StartupDegradedReasonCode::SidecarUnavailable
            &&& report.warnings@.len() == 1
            &&& report.warnings@[0]@ == report.degraded_reasons@[0].detail@
            &&& report.warnings@[0]@ == (match place {
                DockerPlace::Host => "container sidecar launch failed: "@,
                DockerPlace::Vm { .. } => "macOS microvm sidecar launch failed: "@,
            }) + sandbox::error_text(error)
            &&& launch.tier == match place {
                DockerPlace::Host => SandboxTier::Container,
                DockerPlace::Vm { .. } => SandboxTier::MicroVm,
            }
            &&& match place {
                DockerPlace::Host => launch.scope is None,
                DockerPlace::Vm { vm, sandbox_socket_path, .. } => launch.scope matches Some(
                    RunnerScopeHandle::DockerSandboxVm(handle),
                ) && handle.vm_name@ == vm.vm_name@ && handle.sandbox_socket_path@
                    == sandbox_socket_path@,
            }
        }),
{
    let report = step.1->report;
    assert(report.degraded_reasons.deep_view().len() == report.degraded_reasons@.len());
    assert(report.degraded_reasons.deep_view()[0] == report.degraded_reasons@[0].deep_view());
    text::lemma_list(report.warnings);
}

/// A guest in a container is stopped and asked for under the daemon and the name that it
/// was started with.
pub proof fn law_guest_is_found_where_it_was_started(
    place: DockerPlace,
    request: SandboxLaunchRequest,
    role: RunnerGuestRole,
    params: DockerContainerLaunchParams,
    guest: RunnerGuestHandle,
)
    requires
        call_ensures(docker_guest_params, (&place, &request, role), params),
        call_ensures(docker_guest_handle, (&place, &request, role), guest),
    ensures
        guest.role == params.role,
        guest.pid is None,
        guest.lifecycle matches RunnerGuestLifecycle::DockerContainer(handle)
            && handle.container_name@ == params.container_name@ && handle.endpoint.name()
            == params.endpoint.name() && guest.command.program@ == "bollard"@
            && guest.command.args@.len() == 4 && guest.command.args@[0]@ == "--endpoint"@
            && guest.command.args@[1]@ == handle.endpoint.name() && guest.command.args@[2]@
            == "--container"@ && guest.command.args@[3]@ == params.container_name@,
{
    text::lemma_list(guest.command.args);
    assert(guest.command.args.deep_view() == guest.command.deep_view().args);
}

/// The runtime as a plain process serves its user, on its user's workspace, reads the
/// start-up data from its input, and is the program that is given, or else the one that
/// comes along, or else the usual one.
pub proof fn law_process_serves_its_user(
    explicit: Option<&str>,
    bundled: Option<&str>,
    program: String,
    executable: &str,
    user_id: &str,
    workspace: UserWorkspace,
    command: RunnerCommandSpec,
)
    requires
        call_ensures(resolve_process_tier_executable, (explicit, bundled), program),
        call_ensures(process_command, (executable, user_id, &workspace), command),
    ensures
        ({
            let given = explicit matches Some(path) && text::trimmed(path@).len() > 0;
            &&& given ==> program@ == text::trimmed(explicit->0@)
            &&& !given && bundled is Some ==> program@ == bundled->0@
            &&& !given && bundled is None ==> program@ == "oxydra-vm"@
        }),
        command.program@ == executable@,
        command.args@.len() == 5,
        command.args@[0]@ == "--user-id"@,
        command.args@[1]@ == user_id@,
        command.args@[2]@ == "--workspace-root"@,
        command.args@[3]@ == workspace.root@,
        command.args@[4]@ == "--bootstrap-stdin"@,
{
    text::lemma_list(command.args);
}

/// A launch as a plain process has no sidecar and warns that it is not isolated, and of
/// what its hardening could not do.
pub proof fn law_process_launch_warns(attempt: HardeningAttempt, report: LaunchReport)
    requires
        call_ensures(launch_process, (&attempt,), report),
    ensures
        report.sidecar_endpoint is None,
        !report.shell_available,
        !report.browser_available,
        report.warnings@.len() == report.degraded_reasons@.len(),
        report.warnings@.len() == if attempt.succeeded {
            1int
        } else {
            2
        },
        report.warnings@[0]@ == PROCESS_TIER_WARNING@,
        report.degraded_reasons@[0].code == StartupDegradedReasonCode::InsecureProcessTier,
        report.degraded_reasons@[0].detail@ == PROCESS_TIER_WARNING@,
        !attempt.succeeded ==> report.degraded_reasons@[1].code
            == StartupDegradedReasonCode::ProcessHardeningLimited && report.warnings@[1]@
            == report.degraded_reasons@[1].detail@ && report.warnings@[1]@
            == "process-tier hardening "@ + attempt.outcome@ + ": "@ + attempt.detail@,
{
    text::lemma_list(report.warnings);
    let reasons = report.degraded_reasons;
    assert(reasons.deep_view().len() == reasons@.len());
    assert(reasons.deep_view()[0] == reasons@[0].deep_view());
    if !attempt.succeeded {
        assert(reasons.deep_view()[1] == reasons@[1].deep_view());
    }
}

/// A sidecar is wanted for a shell or a browser; the virtual machine of a user is named
/// after them, and the daemon for such machines is reached in the home directory.
pub proof fn law_machines_are_named_after_their_user(
    request: SandboxLaunchRequest,
    wanted: bool,
    user_id: &str,
    name: String,
    home: Option<&str>,
    socket: Result<String, RunnerError>,
)
    requires
        call_ensures(SandboxLaunchRequest::sidecar_requested, (&request,), wanted),
        call_ensures(macos_agent_name, (user_id,), name),
        call_ensures(docker_sandboxd_socket_path, (home,), socket),
    ensures
        wanted <==> request.requested_shell || request.requested_browser,
        "oxydra-microvm-"@.is_prefix_of(name@),
        user_id@.len() == 0 ==> name@ == "oxydra-microvm-"@ + "user"@,
        home is None ==> socket matches Err(RunnerError::MissingHomeDirectory),
        home matches Some(directory) ==> (directory@.len() > 0 && directory@.last() != '/' ==> (
        socket matches Ok(path) && path@ == directory@ + "/"@
            + ".docker/sandboxes/sandboxd.sock"@)),
{
    reveal_strlit(".docker/sandboxes/sandboxd.sock");
    let prefix = "oxydra-microvm-"@;
    assert(name@.subrange(0, prefix.len() as int) =~= prefix);
}

} // verus!
