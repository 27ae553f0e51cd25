//! Sandboxes that guests run in: their tiers, their sidecars, the state that they start
//! up in, and what can go wrong.

use crate::text;
use crate::text::{concat, concat3, concat4, concat5, decimal_text};
use vstd::prelude::*;

verus! {

/// What the user is told of the tier without isolation.
pub const PROCESS_TIER_WARNING: &'static str =
    "Process tier is insecure: isolation is degraded and not production-safe; shell/browser tools are disabled.";

/// How a guest is isolated.
#[derive(Debug, Clone, Copy, PartialEq, Eq, Structural)]
pub enum SandboxTier {
    MicroVm,
    Container,
    Process,
}

/// How the sidecar is reached.
#[derive(Debug, Clone, Copy, PartialEq, Eq, Structural)]
pub enum SidecarTransport {
    Unix,
    Vsock,
}

/// Where the sidecar is reached.
#[derive(Debug, PartialEq, Eq)]
pub struct SidecarEndpoint {
    pub transport: SidecarTransport,
    pub address: String,
}

/// The model of a [`SidecarEndpoint`].
pub struct EndpointModel {
    pub transport: SidecarTransport,
    pub address: Seq<char>,
}

impl DeepView for SidecarEndpoint {
    type V = EndpointModel;

    open spec fn deep_view(&self) -> EndpointModel {
        EndpointModel { transport: self.transport, address: self.address@ }
    }
}

impl Clone for SidecarEndpoint {
    fn clone(&self) -> (r: Self)
        ensures
            r.deep_view() == self.deep_view(),
    {
        SidecarEndpoint { transport: self.transport, address: self.address.clone() }
    }
}

/// Why a start-up is degraded.
#[derive(Debug, Clone, Copy, PartialEq, Eq, Structural)]
pub enum StartupDegradedReasonCode {
    InsecureProcessTier,
    ProcessHardeningLimited,
    SidecarUnavailable,
    SidecarEndpointInvalid,
    SidecarTransportUnsupported,
    RuntimeShutdown,
}

/// Why a start-up is degraded, in detail.
#[derive(Debug, PartialEq, Eq)]
pub struct StartupDegradedReason {
    pub code: StartupDegradedReasonCode,
    pub detail: String,
}

/// The model of a [`StartupDegradedReason`].
pub struct ReasonModel {
    pub code: StartupDegradedReasonCode,
    pub detail: Seq<char>,
}

impl DeepView for StartupDegradedReason {
    type V = ReasonModel;

    open spec fn deep_view(&self) -> ReasonModel {
        ReasonModel { code: self.code, detail: self.detail@ }
    }
}

impl StartupDegradedReason {
    pub fn new(code: StartupDegradedReasonCode, detail: &str) -> (r: Self)
        ensures
            r.deep_view() == (ReasonModel { code, detail: detail@ }),
    {
        StartupDegradedReason { code, detail: detail.to_owned() }
    }
}

impl Clone for StartupDegradedReason {
    fn clone(&self) -> (r: Self)
        ensures
            r.deep_view() == self.deep_view(),
    {
        StartupDegradedReason { code: self.code, detail: self.detail.clone() }
    }
}

/// Copies reasons, in order.
pub fn clone_reasons(reasons: &Vec<StartupDegradedReason>) -> (r: Vec<StartupDegradedReason>)
    ensures
        r.deep_view() == reasons.deep_view(),
{
    let mut out: Vec<StartupDegradedReason> = Vec::new();
    let mut i: usize = 0;
    while i < reasons.len()
        invariant
            i <= reasons.len(),
            out.len() == i,
            forall|k: int|
                0 <= k < i ==> (#[trigger] out@[k]).deep_view() == reasons@[k].deep_view(),
        decreases reasons.len() - i,
    {
        out.push(reasons[i].clone());
        i += 1;
    }
    proof {
        assert(out.deep_view() =~= reasons.deep_view());
    }
    out
}

/// What a guest started up with.
#[derive(Debug, PartialEq, Eq)]
pub struct StartupStatusReport {
    pub sandbox_tier: SandboxTier,
    pub sidecar_available: bool,
    pub shell_available: bool,
    pub browser_available: bool,
    pub degraded_reasons: Vec<StartupDegradedReason>,
}

/// The model of a [`StartupStatusReport`].
pub struct StatusModel {
    pub sandbox_tier: SandboxTier,
    pub sidecar_available: bool,
    pub shell_available: bool,
    pub browser_available: bool,
    pub degraded_reasons: Seq<ReasonModel>,
}

impl DeepView for StartupStatusReport {
    type V = StatusModel;

    open spec fn deep_view(&self) -> StatusModel {
        StatusModel {
            sandbox_tier: self.sandbox_tier,
            sidecar_available: self.sidecar_available,
            shell_available: self.shell_available,
            browser_available: self.browser_available,
            degraded_reasons: self.degraded_reasons.deep_view(),
        }
    }
}

/// One of the reasons has that code.
pub open spec fn has_code(reasons: Seq<ReasonModel>, code: StartupDegradedReasonCode) -> bool {
    exists|i: int| 0 <= i < reasons.len() && (#[trigger] reasons[i]).code == code
}

impl StatusModel {
    /// The report with one more reason.
    pub open spec fn with_reason(self, code: StartupDegradedReasonCode, detail: Seq<char>) -> Self {
        StatusModel {
            degraded_reasons: self.degraded_reasons.push(ReasonModel { code, detail }),
            ..self
        }
    }
}

impl StartupStatusReport {
    /// Adds a reason.
    pub fn push_reason(&mut self, code: StartupDegradedReasonCode, detail: &str)
        ensures
            final(self).deep_view() == old(self).deep_view().with_reason(code, detail@),
    {
        let ghost before = self.degraded_reasons.deep_view();
        self.degraded_reasons.push(StartupDegradedReason::new(code, detail));
        proof {
            assert(self.degraded_reasons.deep_view() =~= before.push(
                ReasonModel { code, detail: detail@ },
            ));
        }
    }

    /// Whether one of the reasons has that code.
    pub fn has_reason_code(&self, code: StartupDegradedReasonCode) -> (r: bool)
        ensures
            r == has_code(self.deep_view().degraded_reasons, code),
    {
        let ghost reasons = self.degraded_reasons.deep_view();
        let mut i: usize = 0;
        while i < self.degraded_reasons.len()
            invariant
                i <= self.degraded_reasons.len(),
                reasons == self.degraded_reasons.deep_view(),
                forall|k: int| 0 <= k < i ==> (#[trigger] reasons[k]).code != code,
            decreases self.degraded_reasons.len() - i,
        {
            assert(reasons[i as int].code == self.degraded_reasons@[i as int].code);
            if self.degraded_reasons[i].code == code {
                return true;
            }
            i += 1;
        }
        false
    }
}

impl Clone for StartupStatusReport {
    fn clone(&self) -> (r: Self)
        ensures
            r.deep_view() == self.deep_view(),
    {
        StartupStatusReport {
            sandbox_tier: self.sandbox_tier,
            sidecar_available: self.sidecar_available,
            shell_available: self.shell_available,
            browser_available: self.browser_available,
            degraded_reasons: clone_reasons(&self.degraded_reasons),
        }
    }
}

/// What a guest is there for.
#[derive(Debug, Clone, Copy, PartialEq, Eq, Structural)]
pub enum RunnerGuestRole {
    OxydraVm,
    ShellVm,
}

impl RunnerGuestRole {
    pub open spec fn label(self) -> Seq<char> {
        match self {
            RunnerGuestRole::OxydraVm => "oxydra-vm"@,
            RunnerGuestRole::ShellVm => "shell-vm"@,
        }
    }

    /// The name of the role.
    pub fn as_label(self) -> (r: &'static str)
        ensures
            r@ == self.label(),
    {
        match self {
            RunnerGuestRole::OxydraVm => "oxydra-vm",
            RunnerGuestRole::ShellVm => "shell-vm",
        }
    }
}

/// A program and its arguments.
#[derive(Debug, PartialEq, Eq)]
pub struct RunnerCommandSpec {
    pub program: String,
    pub args: Vec<String>,
}

/// The model of a [`RunnerCommandSpec`].
pub struct CommandModel {
    pub program: Seq<char>,
    pub args: Seq<Seq<char>>,
}

impl DeepView for RunnerCommandSpec {
    type V = CommandModel;

    open spec fn deep_view(&self) -> CommandModel {
        CommandModel { program: self.program@, args: self.args.deep_view() }
    }
}

impl RunnerCommandSpec {
    pub fn new(program: &str, args: Vec<String>) -> (r: Self)
        ensures
            r.program@ == program@,
            r.args == args,
    {
        RunnerCommandSpec { program: program.to_owned(), args }
    }
}

/// The images that guests run from.
#[derive(Debug, PartialEq, Eq)]
pub struct RunnerGuestImages {
    pub oxydra_vm: String,
    pub shell_vm: String,
    pub firecracker_oxydra_vm_config: Option<String>,
    pub firecracker_shell_vm_config: Option<String>,
}

/// What can go wrong in the runner. The text of an underlying failure is kept as
/// `message`.
#[derive(Debug, PartialEq, Eq)]
pub enum RunnerError {
    ReadConfig { path: String, message: String },
    ParseGlobalConfig { path: String, message: String },
    ParseUserConfig { path: String, message: String },
    ConfigValidation { message: String },
    ConfigMigration { path: String, message: String },
    ConfigMigrationIo { path: String, operation: &'static str, message: String },
    Bootstrap { message: String },
    UnknownUser { user_id: String },
    InvalidUserId { user_id: String },
    UnsupportedMicroVmHost { os: String },
    MissingFirecrackerConfig { field: &'static str },
    ParseFirecrackerConfig { path: String, message: String },
    BootstrapTooLargeForCmdline { bytes: usize, max_bytes: usize },
    LaunchGuest { role: RunnerGuestRole, program: String, message: String },
    GuestLifecycle {
        action: &'static str,
        role: RunnerGuestRole,
        program: String,
        message: String,
    },
    AsyncRuntimeInit { message: String },
    DockerConnect { endpoint: String, message: String },
    DockerOperation {
        endpoint: String,
        operation: &'static str,
        target: String,
        message: String,
    },
    MissingHomeDirectory,
    SandboxVmMissingDockerSocket { vm_name: String },
    SandboxApiRequestBuild { operation: &'static str, message: String },
    SandboxApiTransport { operation: &'static str, socket_path: String, message: String },
    SandboxApiStatus { operation: &'static str, status: u16, body: String },
    FirecrackerApiNotReady { path: String, timeout_secs: u64, last_error: String },
    ProvisionWorkspace { path: String, message: String },
    NoRunningGuest { user_id: String, endpoint_path: String },
    ReadGatewayEndpoint { path: String, message: String },
    InvalidGatewayEndpoint { path: String },
    GatewayProbeFailed { endpoint: String, message: String },
    StaleGatewayEndpoint { endpoint: String, marker_path: String, message: String },
    ImageTransfer { image: String, message: String },
}

/// How an error reads.
pub open spec fn error_text(error: RunnerError) -> Seq<char> {
    match error {
        RunnerError::ReadConfig { path, message } => "failed to read runner config `"@ + path@
            + "`: "@ + message@,
        RunnerError::ParseGlobalConfig { path, message } =>
            "failed to parse runner global config `"@ + path@ + "`: "@ + message@,
        RunnerError::ParseUserConfig { path, message } => "failed to parse runner user config `"@
            + path@ + "`: "@ + message@,
        RunnerError::ConfigValidation { message } => message@,
        RunnerError::ConfigMigration { path, message } => "failed to migrate runner config `"@
            + path@ + "`: "@ + message@,
        RunnerError::ConfigMigrationIo { path, operation, message } => "runner config migration "@
            + operation@ + " failed for `"@ + path@ + "`: "@ + message@,
        RunnerError::Bootstrap { message } => message@,
        RunnerError::UnknownUser { user_id } => "unknown runner user `"@ + user_id@ + "`"@,
        RunnerError::InvalidUserId { user_id } => "invalid runner user id `"@ + user_id@ + "`"@,
        RunnerError::UnsupportedMicroVmHost { os } => "microvm tier is unsupported on host `"@
            + os@ + "`"@,
        RunnerError::MissingFirecrackerConfig { field } => "linux microvm requires `"@ + field@
            + "` in [guest_images] config"@,
        RunnerError::ParseFirecrackerConfig { path, message } =>
            "failed to parse firecracker config `"@ + path@ + "`: "@ + message@,
        RunnerError::BootstrapTooLargeForCmdline { bytes, max_bytes } =>
            "bootstrap payload too large for kernel cmdline: "@ + text::decimal(
                bytes as nat,
            ) + " bytes exceeds max "@ + text::decimal(max_bytes as nat) + " bytes"@,
        RunnerError::LaunchGuest { role, program, message } => "failed to launch `"@ + role.label()
            + "` guest with `"@ + program@ + ("`: "@ + message@),
        RunnerError::GuestLifecycle { action, role, program, message } => "failed to "@ + action@
            + " `"@ + role.label() + "` guest `"@ + program@ + ("`: "@ + message@),
        RunnerError::AsyncRuntimeInit { message } => "failed to initialize async runtime: "@
            + message@,
        RunnerError::DockerConnect { endpoint, message } => "docker connection to `"@ + endpoint@
            + "` failed: "@ + message@,
        RunnerError::DockerOperation { endpoint, operation, target, message } =>
            "docker operation `"@ + operation@ + "` for `"@ + target@ + "` on `"@ + endpoint@ + (
            "` failed: "@ + message@),
        RunnerError::MissingHomeDirectory =>
            "failed to resolve HOME for Docker sandbox socket path"@,
        RunnerError::SandboxVmMissingDockerSocket { vm_name } => "sandbox VM `"@ + vm_name@
            + "` did not return a docker socket path"@,
        RunnerError::SandboxApiRequestBuild { operation, message } => "sandbox API `"@ + operation@
            + "` request build failed: "@ + message@,
        RunnerError::SandboxApiTransport { operation, socket_path, message } => "sandbox API `"@
            + operation@ + "` transport failure on `"@ + socket_path@ + ("`: "@ + message@),
        RunnerError::SandboxApiStatus { operation, status, body } => "sandbox API `"@ + operation@
            + "` returned "@ + text::decimal(status as nat) + (" with body `"@ + body@
            + "`"@),
        RunnerError::FirecrackerApiNotReady { path, timeout_secs, last_error } =>
            "firecracker API socket `"@ + path@ + "` did not become ready within "@
            + text::decimal(timeout_secs as nat) + ("s (last error: "@ + last_error@ + ")"@),
        RunnerError::ProvisionWorkspace { path, message } =>
            "failed to provision workspace directory `"@ + path@ + "`: "@ + message@,
        RunnerError::NoRunningGuest { user_id, endpoint_path } =>
            "no running guest found for user `"@ + user_id@
            + "`; expected gateway endpoint marker at `"@ + endpoint_path@ + "`"@,
        RunnerError::ReadGatewayEndpoint { path, message } =>
            "failed to read gateway endpoint marker `"@ + path@ + "`: "@ + message@,
        RunnerError::InvalidGatewayEndpoint { path } => "gateway endpoint marker `"@ + path@
            + "` is empty"@,
        RunnerError::GatewayProbeFailed { endpoint, message } =>
            "failed to probe gateway endpoint `"@ + endpoint@ + "`: "@ + message@,
        RunnerError::StaleGatewayEndpoint { endpoint, marker_path, message } =>
            "found gateway endpoint marker at `"@ + marker_path@
            + "` but the gateway is not responding (`"@ + endpoint@ + "`): "@ + (message@
            + "\nThe previous session may have exited without cleanup. Remove `"@ + marker_path@
            + "` and restart."@),
        RunnerError::ImageTransfer { image, message } => "failed to transfer image `"@ + image@
            + "` into sandbox VM: "@ + message@,
    }
}

impl RunnerError {
    /// How the error reads.
    pub fn to_text(&self) -> (r: String)
        ensures
            r@ == error_text(*self),
    {
        match self {
            RunnerError::ReadConfig { path, message } => concat4(
                "failed to read runner config `",
                path.as_str(),
                "`: ",
                message.as_str(),
            ),
            RunnerError::ParseGlobalConfig { path, message } => concat4(
                "failed to parse runner global config `",
                path.as_str(),
                "`: ",
                message.as_str(),
            ),
            RunnerError::ParseUserConfig { path, message } => concat4(
                "failed to parse runner user config `",
                path.as_str(),
                "`: ",
                message.as_str(),
            ),
            RunnerError::ConfigValidation { message } => message.clone(),
            RunnerError::ConfigMigration { path, message } => concat4(
                "failed to migrate runner config `",
                path.as_str(),
                "`: ",
                message.as_str(),
            ),
            RunnerError::ConfigMigrationIo { path, operation, message } => {
                let mut out = concat5(
                    "runner config migration ",
                    operation,
                    " failed for `",
                    path.as_str(),
                    "`: ",
                );
                out.append(message.as_str());
                out
            },
            RunnerError::Bootstrap { message } => message.clone(),
            RunnerError::UnknownUser { user_id } => concat3(
                "unknown runner user `",
                user_id.as_str(),
                "`",
            ),
            RunnerError::InvalidUserId { user_id } => concat3(
                "invalid runner user id `",
                user_id.as_str(),
                "`",
            ),
            RunnerError::UnsupportedMicroVmHost { os } => concat3(
                "microvm tier is unsupported on host `",
                os.as_str(),
                "`",
            ),
            RunnerError::MissingFirecrackerConfig { field } => concat3(
                "linux microvm requires `",
                field,
                "` in [guest_images] config",
            ),
            RunnerError::ParseFirecrackerConfig { path, message } => concat4(
                "failed to parse firecracker config `",
                path.as_str(),
                "`: ",
                message.as_str(),
            ),
            RunnerError::BootstrapTooLargeForCmdline { bytes, max_bytes } => concat5(
                "bootstrap payload too large for kernel cmdline: ",
                decimal_text(*bytes as u64).as_str(),
                " bytes exceeds max ",
                decimal_text(*max_bytes as u64).as_str(),
                " bytes",
            ),
            RunnerError::LaunchGuest { role, program, message } => {
                let mut out = concat4(
                    "failed to launch `",
                    role.as_label(),
                    "` guest with `",
                    program.as_str(),
                );
                out.append(concat("`: ", message.as_str()).as_str());
                out
            },
            RunnerError::GuestLifecycle { action, role, program, message } => {
                let mut out = concat5("failed to ", action, " `", role.as_label(), "` guest `");
                out.append(program.as_str());
                out.append(concat("`: ", message.as_str()).as_str());
                out
            },
            RunnerError::AsyncRuntimeInit { message } => concat(
                "failed to initialize async runtime: ",
                message.as_str(),
            ),
            RunnerError::DockerConnect { endpoint, message } => concat4(
                "docker connection to `",
                endpoint.as_str(),
                "` failed: ",
                message.as_str(),
            ),
            RunnerError::DockerOperation { endpoint, operation, target, message } => {
                let mut out = concat5(
                    "docker operation `",
                    operation,
                    "` for `",
                    target.as_str(),
                    "` on `",
                );
                out.append(endpoint.as_str());
                out.append(concat("` failed: ", message.as_str()).as_str());
                out
            },
            RunnerError::MissingHomeDirectory =>
                "failed to resolve HOME for Docker sandbox socket path".to_owned(),
            RunnerError::SandboxVmMissingDockerSocket { vm_name } => concat3(
                "sandbox VM `",
                vm_name.as_str(),
                "` did not return a docker socket path",
            ),
            RunnerError::SandboxApiRequestBuild { operation, message } => concat4(
                "sandbox API `",
                operation,
                "` request build failed: ",
                message.as_str(),
            ),
            RunnerError::SandboxApiTransport { operation, socket_path, message } => {
                let mut out = concat4(
                    "sandbox API `",
                    operation,
                    "` transport failure on `",
                    socket_path.as_str(),
                );
                out.append(concat("`: ", message.as_str()).as_str());
                out
            },
            RunnerError::SandboxApiStatus { operation, status, body } => {
                let mut out = concat4(
                    "sandbox API `",
                    operation,
                    "` returned ",
                    decimal_text(*status as u64).as_str(),
                );
                out.append(concat3(" with body `", body.as_str(), "`").as_str());
                out
            },
            RunnerError::FirecrackerApiNotReady { path, timeout_secs, last_error } => {
                let mut out = concat4(
                    "firecracker API socket `",
                    path.as_str(),
                    "` did not become ready within ",
                    decimal_text(*timeout_secs).as_str(),
                );
                out.append(concat3("s (last error: ", last_error.as_str(), ")").as_str());
                out
            },
            RunnerError::ProvisionWorkspace { path, message } => concat4(
                "failed to provision workspace directory `",
                path.as_str(),
                "`: ",
                message.as_str(),
            ),
            RunnerError::NoRunningGuest { user_id, endpoint_path } => concat5(
                "no running guest found for user `",
                user_id.as_str(),
                "`; expected gateway endpoint marker at `",
                endpoint_path.as_str(),
                "`",
            ),
            RunnerError::ReadGatewayEndpoint { path, message } => concat4(
                "failed to read gateway endpoint marker `",
                path.as_str(),
                "`: ",
                message.as_str(),
            ),
            RunnerError::InvalidGatewayEndpoint { path } => concat3(
                "gateway endpoint marker `",
                path.as_str(),
                "` is empty",
            ),
            RunnerError::GatewayProbeFailed { endpoint, message } => concat4(
                "failed to probe gateway endpoint `",
                endpoint.as_str(),
                "`: ",
                message.as_str(),
            ),
            RunnerError::StaleGatewayEndpoint { endpoint, marker_path, message } => {
                let mut out = concat5(
                    "found gateway endpoint marker at `",
                    marker_path.as_str(),
                    "` but the gateway is not responding (`",
                    endpoint.as_str(),
                    "`): ",
                );
                out.append(
                    concat4(
                        message.as_str(),
                        "\nThe previous session may have exited without cleanup. Remove `",
                        marker_path.as_str(),
                        "` and restart.",
                    ).as_str(),
                );
                out
            },
            RunnerError::ImageTransfer { image, message } => concat4(
                "failed to transfer image `",
                image.as_str(),
                "` into sandbox VM: ",
                message.as_str(),
            ),
        }
    }
}

/// The text of an error says whom and what it is about: each name, path, number and message
/// that the error holds stands in it.
pub proof fn law_errors_say_what_they_are_about(error: RunnerError, r: String)
    requires
        call_ensures(RunnerError::to_text, (&error,), r),
    ensures
        match error {
            RunnerError::ReadConfig { path, message } => {
                &&& text::stands_in(r@, path@)
                &&& text::stands_in(r@, message@)
            },
            RunnerError::ParseGlobalConfig { path, message } => {
                &&& text::stands_in(r@, path@)
                &&& text::stands_in(r@, message@)
            },
            RunnerError::ParseUserConfig { path, message } => {
                &&& text::stands_in(r@, path@)
                &&& text::stands_in(r@, message@)
            },
            RunnerError::ConfigValidation { message } => {
                &&& text::stands_in(r@, message@)
            },
            RunnerError::ConfigMigration { path, message } => {
                &&& text::stands_in(r@, path@)
                &&& text::stands_in(r@, message@)
            },
            RunnerError::ConfigMigrationIo { path, operation, message } => {
                &&& text::stands_in(r@, path@)
                &&& text::stands_in(r@, operation@)
                &&& text::stands_in(r@, message@)
            },
            RunnerError::Bootstrap { message } => {
                &&& text::stands_in(r@, message@)
            },
            RunnerError::UnknownUser { user_id } => {
                &&& text::stands_in(r@, user_id@)
            },
            RunnerError::InvalidUserId { user_id } => {
                &&& text::stands_in(r@, user_id@)
            },
            RunnerError::UnsupportedMicroVmHost { os } => {
                &&& text::stands_in(r@, os@)
            },
            RunnerError::MissingFirecrackerConfig { field } => {
                &&& text::stands_in(r@, field@)
            },
            RunnerError::ParseFirecrackerConfig { path, message } => {
                &&& text::stands_in(r@, path@)
                &&& text::stands_in(r@, message@)
            },
            RunnerError::LaunchGuest { role, program, message } => {
                &&& text::stands_in(r@, role.label())
                &&& text::stands_in(r@, program@)
                &&& text::stands_in(r@, message@)
            },
            RunnerError::GuestLifecycle { action, role, program, message } => {
                &&& text::stands_in(r@, action@)
                &&& text::stands_in(r@, role.label())
                &&& text::stands_in(r@, program@)
                &&& text::stands_in(r@, message@)
            },
            RunnerError::AsyncRuntimeInit { message } => {
                &&& text::stands_in(r@, message@)
            },
            RunnerError::DockerConnect { endpoint, message } => {
                &&& text::stands_in(r@, endpoint@)
                &&& text::stands_in(r@, message@)
            },
            RunnerError::DockerOperation { endpoint, operation, target, message } => {
                &&& text::stands_in(r@, endpoint@)
                &&& text::stands_in(r@, operation@)
                &&& text::stands_in(r@, target@)
                &&& text::stands_in(r@, message@)
            },
            RunnerError::SandboxVmMissingDockerSocket { vm_name } => {
                &&& text::stands_in(r@, vm_name@)
            },
            RunnerError::SandboxApiRequestBuild { operation, message } => {
                &&& text::stands_in(r@, operation@)
                &&& text::stands_in(r@, message@)
            },
            RunnerError::SandboxApiTransport { operation, socket_path, message } => {
                &&& text::stands_in(r@, operation@)
                &&& text::stands_in(r@, socket_path@)
                &&& text::stands_in(r@, message@)
            },
            RunnerError::SandboxApiStatus { operation, status, body } => {
                &&& text::stands_in(r@, operation@)
                &&& text::stands_in(r@, text::decimal(status as nat))
                &&& text::stands_in(r@, body@)
            },
            RunnerError::FirecrackerApiNotReady { path, timeout_secs, last_error } => {
                &&& text::stands_in(r@, path@)
                &&& text::stands_in(r@, text::decimal(timeout_secs as nat))
                &&& text::stands_in(r@, last_error@)
            },
            RunnerError::ProvisionWorkspace { path, message } => {
                &&& text::stands_in(r@, path@)
                &&& text::stands_in(r@, message@)
            },
            RunnerError::NoRunningGuest { user_id, endpoint_path } => {
                &&& text::stands_in(r@, user_id@)
                &&& text::stands_in(r@, endpoint_path@)
            },
            RunnerError::ReadGatewayEndpoint { path, message } => {
                &&& text::stands_in(r@, path@)
                &&& text::stands_in(r@, message@)
            },
            RunnerError::InvalidGatewayEndpoint { path } => {
                &&& text::stands_in(r@, path@)
            },
            RunnerError::GatewayProbeFailed { endpoint, message } => {
                &&& text::stands_in(r@, endpoint@)
                &&& text::stands_in(r@, message@)
            },
            RunnerError::StaleGatewayEndpoint { endpoint, marker_path, message } => {
                &&& text::stands_in(r@, endpoint@)
                &&& text::stands_in(r@, marker_path@)
                &&& text::stands_in(r@, message@)
            },
            RunnerError::ImageTransfer { image, message } => {
                &&& text::stands_in(r@, image@)
                &&& text::stands_in(r@, message@)
            },
            RunnerError::BootstrapTooLargeForCmdline { bytes, max_bytes } => {
                &&& text::stands_in(r@, text::decimal(bytes as nat))
                &&& text::stands_in(r@, text::decimal(max_bytes as nat))
            },
            RunnerError::MissingHomeDirectory => text::stands_in(r@, r@),
        },
{
    text::lemma_parts_stand_in();
}

/// A reason that is added comes behind all others, which stay, and is found.
pub proof fn law_added_reason_is_found(
    report: &mut StartupStatusReport,
    code: StartupDegradedReasonCode,
    detail: &str,
    other: StartupDegradedReasonCode,
    before: bool,
    after: bool,
    found: bool,
)
    requires
        call_ensures(StartupStatusReport::push_reason, (report, code, detail), ()),
        call_ensures(StartupStatusReport::has_reason_code, (old(report), other), before),
        call_ensures(StartupStatusReport::has_reason_code, (final(report), other), after),
        call_ensures(StartupStatusReport::has_reason_code, (final(report), code), found),
    ensures
        found,
        other != code ==> after == before,
        final(report).degraded_reasons@.len() == old(report).degraded_reasons@.len() + 1,
        final(report).degraded_reasons@.last().code == code,
        final(report).degraded_reasons@.last().detail@ == detail@,
        final(report).shell_available == old(report).shell_available,
        final(report).browser_available == old(report).browser_available,
        final(report).sidecar_available == old(report).sidecar_available,
        final(report).sandbox_tier == old(report).sandbox_tier,
{
    let earlier = old(report).degraded_reasons.deep_view();
    let later = final(report).degraded_reasons.deep_view();
    assert(earlier.len() == old(report).degraded_reasons@.len());
    assert(later.len() == final(report).degraded_reasons@.len());
    let n = earlier.len() as int;
    assert(later[n] == final(report).degraded_reasons@[n].deep_view());
    assert(later[n].code == code);
    if before {
        let i = choose|i: int| 0 <= i < earlier.len() && (#[trigger] earlier[i]).code == other;
        assert(later[i] == earlier[i]);
    }
    if after && other != code {
        let i = choose|i: int| 0 <= i < later.len() && (#[trigger] later[i]).code == other;
        assert(later[i] == earlier[i]);
    }
}

/// The two guests are called by their names.
pub proof fn law_guests_have_their_names(one: &'static str, other: &'static str)
    requires
        call_ensures(RunnerGuestRole::as_label, (RunnerGuestRole::OxydraVm,), one),
        call_ensures(RunnerGuestRole::as_label, (RunnerGuestRole::ShellVm,), other),
    ensures
        one@ == "oxydra-vm"@,
        other@ == "shell-vm"@,
{
}

} // verus!
