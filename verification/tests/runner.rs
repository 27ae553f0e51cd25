use base64::engine::general_purpose::STANDARD;
use base64::Engine;

use oxydra::arguments::OxydraVmArgs;
use oxydra::browser::{BrowserBridge, BrowserToolConfig};
use oxydra::control::{
    control_frame, control_frame_length, first_frame, frame_length, invalid_request,
    length_prefixed, ControlInput, ControlNeed, FrameRead, RunnerControl, RunnerControlErrorCode,
    RunnerControlResponse, RunnerControlTransportError, RUNNER_CONTROL_MAX_FRAME_BYTES,
};
use oxydra::docker::{
    answer_body, container_removed, container_spec, created_vm, deleted_vm,
    docker_guest_command_spec, docker_guest_container_name, docker_guest_labels,
    docker_sandbox_vm_resource_name, extract_socket_path, image_and_tag, next_container_step,
    sandbox_vm_path, sanitize_container_component, vm_request, ContainerOutcome, ContainerStep,
    DockerEndpoint, DockerSandboxVmInfo, RunnerResourceLimits,
};
use oxydra::firecracker::{generate_firecracker_config, next_api_probe, ApiWait};
use oxydra::gateway::{
    connect_tui, gateway_endpoint, probe_gateway_health, probe_hello,
    read_gateway_endpoint_marker, GatewayServerFrame, MarkerFailure, ProbeAction, ProbeEvent,
    ProbeStage,
};
use oxydra::guest::{
    launch_shutdown_result, GuestShutdown, RunnerGuestHandle, RunnerLaunchHandle,
    RunnerScopeHandle, ShutdownOutcome,
};
use oxydra::json::parse_json;
use oxydra::launch::{
    docker_guest_params, docker_sandboxd_socket_path, launch_container, launch_microvm_linux,
    launch_process, macos_agent_name, process_command, resolve_process_tier_executable,
    CrateSandboxBackend, DockerAction, DockerPlace, DockerStage, HardeningAttempt, LaunchEvent,
    LaunchReport, LaunchRoute, LinuxAction, LinuxStage, SandboxLaunchRequest,
};
use oxydra::logs::{
    GuestLogs, LogFormat, LogRole, LogStream, RunnerControlLogs, RunnerControlLogsRequest,
};
use oxydra::sandbox::{
    RunnerCommandSpec, RunnerError, RunnerGuestImages, RunnerGuestRole, SandboxTier,
    SidecarEndpoint, SidecarTransport, StartupDegradedReason, StartupDegradedReasonCode,
    StartupStatusReport, PROCESS_TIER_WARNING,
};
use oxydra::startup::{
    finish_start, launch_request, plan_start, resolve_requested_capabilities,
    resolve_sandbox_tier, RunnerBootstrapEnvelope, RunnerGlobalConfig, RunnerStartRequest,
    RunnerStartup, RunnerTuiConnectRequest, RunnerUserBehavior, RunnerUserConfig,
};
use oxydra::text_map::TextMap;
use oxydra::vm::{
    bootstrap_frame_from_file, bootstrap_payload_length, bootstrap_source, gateway_marker,
    read_bootstrap_frame_from_reader, telegram_token, BootstrapSource, VmError,
};
use oxydra::workspace::{
    resolve_effective_mount_paths, user_config_path, user_directories, user_root,
    validate_user_id, RunnerMountPaths, UserWorkspace, GATEWAY_ENDPOINT_MARKER_FILE,
    RUNNER_CONTROL_SOCKET_NAME,
};

fn words(parts: &[&str]) -> Vec<String> {
    parts.iter().map(|part| (*part).to_owned()).collect()
}

fn map(entries: &[(&str, &str)]) -> TextMap<String> {
    let mut map = TextMap::new();
    for (name, value) in entries {
        map.insert((*name).to_owned(), (*value).to_owned());
    }
    map
}

fn images() -> RunnerGuestImages {
    RunnerGuestImages {
        oxydra_vm: "oxydra-vm:test".to_owned(),
        shell_vm: "shell-vm:test".to_owned(),
        firecracker_oxydra_vm_config: Some("/fc/runtime.json".to_owned()),
        firecracker_shell_vm_config: Some("/fc/shell.json".to_owned()),
    }
}

fn global(default_tier: SandboxTier) -> RunnerGlobalConfig {
    RunnerGlobalConfig {
        workspace_root: "workspaces".to_owned(),
        default_tier,
        guest_images: images(),
        users: map(&[("alice", "users/alice.toml")]),
    }
}

fn no_limits() -> RunnerResourceLimits {
    RunnerResourceLimits { max_vcpus: None, max_memory_mib: None, max_processes: None }
}

fn user() -> RunnerUserConfig {
    RunnerUserConfig {
        mounts: RunnerMountPaths::default(),
        resources: no_limits(),
        credential_refs: TextMap::new(),
        behavior: RunnerUserBehavior::default(),
    }
}

fn workspace() -> UserWorkspace {
    UserWorkspace::under("/w/alice".to_owned())
}

fn bridge() -> Option<BrowserBridge> {
    Some(BrowserBridge { port: 9867, token: "tok".to_owned() })
}

fn handle(role: RunnerGuestRole, program: &str) -> RunnerGuestHandle {
    RunnerGuestHandle::simulated(role, RunnerCommandSpec::new(program, Vec::new()))
}

fn mock_launch(request: &SandboxLaunchRequest) -> (RunnerLaunchHandle, LaunchReport) {
    let transport = match request.sandbox_tier {
        SandboxTier::MicroVm if request.host_os == "linux" => SidecarTransport::Vsock,
        _ => SidecarTransport::Unix,
    };
    let sidecar_requested = request.sidecar_requested();
    let process = request.sandbox_tier == SandboxTier::Process;
    let launch = RunnerLaunchHandle {
        tier: request.sandbox_tier,
        runtime: handle(RunnerGuestRole::OxydraVm, "mock-oxydra-vm"),
        sidecar: sidecar_requested.then(|| handle(RunnerGuestRole::ShellVm, "mock-shell-vm")),
        scope: Some(RunnerScopeHandle::Simulated),
    };
    let report = LaunchReport {
        sidecar_endpoint: sidecar_requested.then(|| SidecarEndpoint {
            transport,
            address: "/tmp/mock-shell-daemon.sock".to_owned(),
        }),
        shell_available: sidecar_requested && request.requested_shell,
        browser_available: sidecar_requested && request.requested_browser,
        degraded_reasons: if process {
            vec![StartupDegradedReason::new(
                StartupDegradedReasonCode::InsecureProcessTier,
                PROCESS_TIER_WARNING,
            )]
        } else {
            Vec::new()
        },
        warnings: if process { vec![PROCESS_TIER_WARNING.to_owned()] } else { Vec::new() },
    };
    (launch, report)
}

fn start(
    request: RunnerStartRequest,
    host_os: &str,
    default_tier: SandboxTier,
    user_config: RunnerUserConfig,
) -> (SandboxLaunchRequest, RunnerStartup) {
    let plan =
        plan_start(&request, host_os, &global(default_tier), user_config, workspace(), bridge())
            .expect("startup should succeed");
    let bootstrap_file = Some(plan.workspace.bootstrap_file_path());
    let launched =
        launch_request(&plan, request.extra_env, images(), bootstrap_file, vec![], vec![]);
    let (launch, report) = mock_launch(&launched);
    (launched, finish_start(plan, launch, report))
}

fn alice() -> RunnerStartRequest {
    RunnerStartRequest::new("alice")
}

fn insecure_alice() -> RunnerStartRequest {
    RunnerStartRequest { insecure: true, ..alice() }
}

fn transport_of(startup: &RunnerStartup) -> Option<SidecarTransport> {
    startup.bootstrap.sidecar_endpoint.as_ref().map(|sidecar| sidecar.transport)
}

#[test]
fn runner_resolves_relative_user_config_paths() {
    let users = map(&[("alice", "users/alice.toml"), ("bob", "/etc/bob.toml")]);
    assert_eq!(
        user_config_path(&users, "/conf", "alice").expect("alice is known"),
        "/conf/users/alice.toml"
    );
    assert_eq!(user_config_path(&users, "/conf", "bob").expect("bob is known"), "/etc/bob.toml");
    assert!(matches!(
        user_config_path(&users, "/conf", "eve"),
        Err(RunnerError::UnknownUser { user_id }) if user_id == "eve"
    ));
}

#[test]
fn workspace_provisioning_creates_expected_directories() {
    let root = user_root("/tmp/workspace-root", "alice").expect("id is valid");
    assert_eq!(root, "/tmp/workspace-root/alice");
    let workspace = UserWorkspace::under(root.clone());
    let directories = user_directories(&root);
    for directory in [
        &workspace.logs,
        &workspace.shared,
        &workspace.tmp,
        &workspace.vault,
        &workspace.ipc,
        &workspace.internal,
    ] {
        assert!(directories.contains(directory), "missing {directory}");
    }
    for id in ["", "  ", "a/b", "a\\b", ".."] {
        assert!(validate_user_id(id).is_err(), "`{id}` should be refused");
    }
    assert_eq!(validate_user_id(" alice ").expect("id is valid"), "alice");
}

#[test]
fn sandbox_tier_resolution_honors_insecure_override() {
    let global = global(SandboxTier::Container);
    let mut user = user();
    user.behavior.sandbox_tier = Some(SandboxTier::MicroVm);
    assert_eq!(resolve_sandbox_tier(&global, &user, false), SandboxTier::MicroVm);
    assert_eq!(resolve_sandbox_tier(&global, &user, true), SandboxTier::Process);
    user.behavior.sandbox_tier = None;
    assert_eq!(resolve_sandbox_tier(&global, &user, false), SandboxTier::Container);
}

#[test]
fn startup_uses_linux_microvm_backend_and_vsock_sidecar() {
    let (launch, startup) = start(alice(), "linux", SandboxTier::MicroVm, user());
    assert_eq!(startup.sandbox_tier, SandboxTier::MicroVm);
    assert_eq!(startup.launch.tier, SandboxTier::MicroVm);
    assert_eq!(transport_of(&startup), Some(SidecarTransport::Vsock));
    assert!(startup.shell_available);
    assert!(startup.browser_available);
    assert!(startup.warnings.is_empty());
    assert_eq!(launch.sandbox_tier, SandboxTier::MicroVm);
    assert!(launch.requested_shell);
    assert!(launch.requested_browser);
}

#[test]
fn startup_uses_macos_microvm_backend_with_unix_sidecar() {
    let (launch, startup) = start(alice(), "macos", SandboxTier::MicroVm, user());
    assert_eq!(startup.sandbox_tier, SandboxTier::MicroVm);
    assert_eq!(startup.launch.tier, SandboxTier::MicroVm);
    assert_eq!(transport_of(&startup), Some(SidecarTransport::Unix));
    assert!(startup.shell_available);
    assert!(startup.browser_available);
    assert_eq!(launch.sandbox_tier, SandboxTier::MicroVm);
}

#[test]
fn startup_insecure_process_mode_disables_shell_and_browser() {
    let (launch, startup) = start(insecure_alice(), "linux", SandboxTier::MicroVm, user());
    assert_eq!(startup.sandbox_tier, SandboxTier::Process);
    assert_eq!(startup.launch.tier, SandboxTier::Process);
    assert!(startup.launch.sidecar.is_none());
    assert!(!startup.shell_available);
    assert!(!startup.browser_available);
    assert!(!startup.startup_status.sidecar_available);
    assert!(startup.startup_status.has_reason_code(StartupDegradedReasonCode::InsecureProcessTier));
    assert!(startup.bootstrap.sidecar_endpoint.is_none());
    assert_eq!(startup.warnings, vec![PROCESS_TIER_WARNING.to_owned()]);
    assert_eq!(launch.sandbox_tier, SandboxTier::Process);
    assert!(!launch.requested_shell);
    assert!(!launch.requested_browser);
}

#[test]
fn startup_container_tier_uses_unix_sidecar_transport() {
    let (launch, startup) = start(alice(), "linux", SandboxTier::Container, user());
    assert_eq!(startup.sandbox_tier, SandboxTier::Container);
    assert_eq!(startup.launch.tier, SandboxTier::Container);
    assert_eq!(transport_of(&startup), Some(SidecarTransport::Unix));
    assert_eq!(launch.sandbox_tier, SandboxTier::Container);
}

fn shut_down(user_id: &str) -> RunnerControl {
    RunnerControl::ShutdownUser { user_id: user_id.to_owned() }
}

#[test]
fn runner_control_rejects_shutdown_for_unknown_user() {
    let (_, mut startup) = start(alice(), "linux", SandboxTier::Container, user());
    assert_eq!(startup.control_need(&shut_down("bob")), ControlNeed::Nothing);
    let response = startup.handle_control(shut_down("bob"), ControlInput::Nothing);
    assert!(matches!(
        response,
        RunnerControlResponse::Error(error)
            if error.code == RunnerControlErrorCode::UnknownUser
                && error.message.contains("unknown user `bob`")
    ));
}

#[test]
fn runner_control_transport_handles_health_shutdown_and_invalid_frames() {
    let (_, mut startup) = start(alice(), "linux", SandboxTier::Container, user());
    let health = startup.handle_control(RunnerControl::HealthCheck, ControlInput::Nothing);
    assert!(matches!(
        health,
        RunnerControlResponse::HealthStatus(status)
            if status.healthy
                && !status.shutdown
                && status.user_id == "alice"
                && status.shell_available
                && status.startup_status.sidecar_available
    ));
    assert!(matches!(
        invalid_request("unknown variant"),
        RunnerControlResponse::Error(error)
            if error.code == RunnerControlErrorCode::InvalidRequest
                && error.message.contains("invalid runner control request frame")
    ));
    assert_eq!(startup.control_need(&shut_down("alice")), ControlNeed::Shutdown);
    let shutdown = startup.handle_control(shut_down("alice"), ControlInput::Shutdown(Ok(())));
    assert!(matches!(
        shutdown,
        RunnerControlResponse::ShutdownStatus(status)
            if status.shutdown && !status.already_stopped && status.user_id == "alice"
    ));
    let health = startup.handle_control(RunnerControl::HealthCheck, ControlInput::Nothing);
    assert!(matches!(
        health,
        RunnerControlResponse::HealthStatus(status)
            if !status.healthy
                && status.shutdown
                && status
                    .startup_status
                    .has_reason_code(StartupDegradedReasonCode::RuntimeShutdown)
    ));
    assert_eq!(startup.control_need(&shut_down("alice")), ControlNeed::Nothing);
    let again = startup.handle_control(shut_down("alice"), ControlInput::Nothing);
    assert!(matches!(
        again,
        RunnerControlResponse::ShutdownStatus(status) if status.already_stopped
    ));
}

#[test]
fn a_failed_shutdown_is_reported_and_can_be_tried_again() {
    let (_, mut startup) = start(alice(), "linux", SandboxTier::Container, user());
    let error = RunnerError::MissingHomeDirectory;
    let response = startup.handle_control(shut_down("alice"), ControlInput::Shutdown(Err(error)));
    assert!(matches!(
        response,
        RunnerControlResponse::Error(error) if error.code == RunnerControlErrorCode::Internal
    ));
    assert!(!startup.shutdown_complete);
    assert_eq!(startup.control_need(&shut_down("alice")), ControlNeed::Shutdown);
}

#[test]
fn startup_applies_mount_resource_and_credential_overrides_to_launch_and_bootstrap() {
    let limits = RunnerResourceLimits {
        max_vcpus: Some(2),
        max_memory_mib: Some(1024),
        max_processes: Some(64),
    };
    let refs = map(&[("github", "vault://github/token"), ("slack", "vault://slack/token")]);
    let user_config = RunnerUserConfig {
        mounts: RunnerMountPaths {
            shared: Some("custom-shared".to_owned()),
            tmp: Some("/custom-runtime-tmp".to_owned()),
            vault: Some("custom-vault".to_owned()),
        },
        resources: limits,
        credential_refs: map(&[
            ("github", "vault://github/token"),
            ("slack", "vault://slack/token"),
        ]),
        ..user()
    };
    let (launch, startup) = start(alice(), "linux", SandboxTier::Container, user_config);
    assert_eq!(launch.mounts.shared, "/w/alice/custom-shared");
    assert_eq!(launch.mounts.tmp, "/custom-runtime-tmp");
    assert_eq!(launch.mounts.vault, "/w/alice/custom-vault");
    assert_eq!(launch.resource_limits, limits);
    assert_eq!(launch.credential_refs, refs);
    let policy = startup
        .bootstrap
        .runtime_policy
        .as_ref()
        .expect("startup bootstrap should carry a runtime policy");
    assert_eq!(policy.mounts, launch.mounts);
    assert_eq!(policy.resources, launch.resource_limits);
    assert_eq!(policy.credential_refs, launch.credential_refs);
    assert_eq!(
        resolve_effective_mount_paths(&workspace(), &RunnerMountPaths::default()).shared,
        "/w/alice/shared"
    );
}

fn frame(frame: GatewayServerFrame) -> ProbeEvent {
    ProbeEvent::Frame { frame, shown: "frame".to_owned() }
}

fn probe(healthy: bool) -> ProbeAction {
    let endpoint = "ws://127.0.0.1:1/ws";
    let mut stage = ProbeStage::Connecting;
    let mut last = ProbeAction::Nothing;
    for event in [
        ProbeEvent::Connected,
        ProbeEvent::Sent,
        ProbeEvent::Pong,
        frame(GatewayServerFrame::HelloAck { session_id: "runtime-alice".to_owned() }),
        ProbeEvent::Sent,
        frame(GatewayServerFrame::HealthStatus { healthy, detail: Some("state".to_owned()) }),
    ] {
        let (next, action) = probe_gateway_health(endpoint, stage, event);
        stage = next;
        last = action;
    }
    assert_eq!(stage, ProbeStage::Over);
    last
}

#[test]
fn tui_connect_only_succeeds_against_running_gateway_endpoint() {
    let workspace = workspace();
    let marker = workspace.gateway_marker_path();
    let endpoint = read_gateway_endpoint_marker(
        &marker,
        "alice",
        Ok(format!(" {}\n", gateway_endpoint("127.0.0.1:42001"))),
    )
    .expect("marker should be read");
    assert_eq!(endpoint, "ws://127.0.0.1:42001/ws");
    let ProbeAction::Finish { session_id } = probe(true) else {
        panic!("a healthy gateway should answer the probe");
    };
    let request = RunnerTuiConnectRequest::new("alice");
    let connection = connect_tui(request.user_id, workspace, endpoint, Ok(session_id))
        .expect("connect-only path should succeed with running gateway");
    assert_eq!(connection.user_id, "alice");
    assert_eq!(connection.workspace.root, "/w/alice");
    assert_eq!(connection.gateway_endpoint, "ws://127.0.0.1:42001/ws");
    assert_eq!(connection.session_id, "runtime-alice");
    assert_eq!(probe_hello("alice").user_id, "alice");
}

#[test]
fn tui_connect_only_fails_with_clear_error_when_guest_is_absent() {
    let absent = MarkerFailure { not_found: true, message: "gone".to_owned() };
    let error =
        read_gateway_endpoint_marker(&workspace().gateway_marker_path(), "alice", Err(absent))
            .expect_err("missing running guest should fail connect-only path");
    assert!(matches!(
        error,
        RunnerError::NoRunningGuest { ref user_id, ref endpoint_path }
            if user_id == "alice" && endpoint_path.ends_with(GATEWAY_ENDPOINT_MARKER_FILE)
    ));
    let unreadable = MarkerFailure { not_found: false, message: "denied".to_owned() };
    assert!(matches!(
        read_gateway_endpoint_marker("/m", "alice", Err(unreadable)),
        Err(RunnerError::ReadGatewayEndpoint { .. })
    ));
    assert!(matches!(
        read_gateway_endpoint_marker("/m", "alice", Ok("  \n".to_owned())),
        Err(RunnerError::InvalidGatewayEndpoint { .. })
    ));
}

#[test]
fn tui_connect_only_never_spawns_guest_when_probe_fails() {
    let endpoint = "ws://127.0.0.1:9/ws";
    let (_, action) = probe_gateway_health(
        endpoint,
        ProbeStage::Connecting,
        ProbeEvent::ConnectFailed("refused".to_owned()),
    );
    let ProbeAction::Fail(error) = action else {
        panic!("the probe should fail");
    };
    let error = connect_tui("alice".to_owned(), workspace(), endpoint.to_owned(), Err(error))
        .expect_err("unreachable gateway probe should fail");
    assert!(matches!(error, RunnerError::StaleGatewayEndpoint { .. }));
    assert!(matches!(
        probe(false),
        ProbeAction::Fail(RunnerError::GatewayProbeFailed { .. })
    ));
}

#[test]
fn startup_rejects_microvm_on_unsupported_host() {
    let error = CrateSandboxBackend
        .route(SandboxTier::MicroVm, "windows")
        .expect_err("unsupported host should fail");
    assert!(matches!(error, RunnerError::UnsupportedMicroVmHost { .. }));
    assert_eq!(
        CrateSandboxBackend.route(SandboxTier::MicroVm, "macos"),
        Ok(LaunchRoute::MacMicroVm)
    );
    assert_eq!(
        CrateSandboxBackend.route(SandboxTier::Container, "windows"),
        Ok(LaunchRoute::Container)
    );
}

#[test]
fn extract_socket_path_handles_nested_payload() {
    let payload =
        parse_json(r#"{"vm": {"connection": {"socketPath": "/tmp/sandbox/docker.sock"}}}"#)
            .expect("payload should be JSON");
    assert_eq!(extract_socket_path(&payload).as_deref(), Some("/tmp/sandbox/docker.sock"));
}

#[test]
fn bootstrap_file_written_with_correct_content_for_non_process_tier() {
    let workspace = workspace();
    let path = workspace.bootstrap_file_path();
    assert!(path.starts_with(&workspace.ipc), "bootstrap file should be under workspace.ipc");
    assert_eq!(path.rsplit('/').next(), Some("runner_bootstrap.json"));
}

#[test]
fn container_tier_launch_request_includes_bootstrap_file() {
    let (launch, startup) = start(alice(), "linux", SandboxTier::Container, user());
    assert_eq!(launch.bootstrap_file, Some(startup.workspace.bootstrap_file_path()));
    assert_eq!(startup.bootstrap.user_id, "alice");
    assert_eq!(startup.bootstrap.sandbox_tier, SandboxTier::Container);
}

#[test]
fn process_tier_launch_request_has_no_bootstrap_file() {
    let (launch, _) = start(insecure_alice(), "linux", SandboxTier::MicroVm, user());
    assert!(
        launch.bootstrap_file.is_none(),
        "process tier launch request should not carry bootstrap_file"
    );
}

const TEMPLATE: &str = r#"{
    "boot-source": {
        "kernel_image_path": "/images/vmlinux",
        "boot_args": "console=ttyS0 reboot=k"
    },
    "drives": [{"drive_id": "rootfs"}],
    "machine-config": {"vcpu_count": 2}
}"#;

#[test]
fn firecracker_config_injects_bootstrap_into_boot_args() {
    let bootstrap_json = r#"{"user_id":"alice","sandbox_tier":"micro_vm"}"#;
    let text = generate_firecracker_config(
        "/template.json",
        TEMPLATE,
        Some(Ok(bootstrap_json.to_owned())),
    )
    .expect("config generation should succeed")
    .expect("the template takes boot args");
    let generated: serde_json::Value =
        serde_json::from_str(&text).expect("generated config should be valid JSON");
    assert_eq!(
        generated["drives"][0]["drive_id"].as_str(),
        Some("rootfs"),
        "template fields should be preserved"
    );
    assert_eq!(
        generated["machine-config"]["vcpu_count"].as_u64(),
        Some(2),
        "machine-config should be preserved"
    );
    let boot_args =
        generated["boot-source"]["boot_args"].as_str().expect("boot_args should be a string");
    assert!(
        boot_args.starts_with("console=ttyS0 reboot=k"),
        "existing boot_args should be preserved"
    );
    let b64_payload =
        boot_args.split("oxydra.bootstrap_b64=").nth(1).expect("bootstrap key should be present");
    let decoded = STANDARD.decode(b64_payload.trim()).expect("base64 payload should decode");
    let decoded: serde_json::Value =
        serde_json::from_slice(&decoded).expect("decoded payload should be valid bootstrap");
    assert_eq!(decoded["user_id"], "alice");
    assert_eq!(decoded["sandbox_tier"], "micro_vm");
}

#[test]
fn firecracker_config_without_bootstrap_copies_template() {
    let text = generate_firecracker_config("/template.json", TEMPLATE, None)
        .expect("config generation without bootstrap should succeed")
        .expect("nothing is injected");
    let generated: serde_json::Value =
        serde_json::from_str(&text).expect("generated config should be valid JSON");
    assert_eq!(
        generated["boot-source"]["boot_args"].as_str(),
        Some("console=ttyS0 reboot=k"),
        "boot_args should be unchanged when no bootstrap is injected"
    );
    assert_eq!(generated["drives"][0]["drive_id"].as_str(), Some("rootfs"));
}

#[test]
fn firecracker_config_rejects_oversized_bootstrap() {
    let bootstrap = format!(r#"{{"user_id":"alice","workspace_root":"{}"}}"#, "x".repeat(4096));
    let error = generate_firecracker_config("/template.json", TEMPLATE, Some(Ok(bootstrap)))
        .expect_err("oversized bootstrap should be rejected");
    let error_msg = error.to_text();
    assert!(
        error_msg.contains("too large") || error_msg.contains("cmdline"),
        "error should mention size limit: {error_msg}"
    );
    assert!(matches!(
        generate_firecracker_config("/template.json", "{", None),
        Err(RunnerError::ParseFirecrackerConfig { .. })
    ));
}

#[test]
fn the_firecracker_api_is_waited_for() {
    assert_eq!(next_api_probe("/api.sock", 4999, None), ApiWait::Probe);
    assert!(matches!(
        next_api_probe("/api.sock", 5000, None),
        ApiWait::GiveUp(RunnerError::FirecrackerApiNotReady { timeout_secs: 5, .. })
    ));
}

#[test]
fn health_check_includes_log_dir_and_metadata() {
    let (_, mut startup) = start(alice(), "linux", SandboxTier::Container, user());
    let health = startup.handle_control(RunnerControl::HealthCheck, ControlInput::Nothing);
    let RunnerControlResponse::HealthStatus(status) = health else {
        panic!("expected HealthStatus, got {health:?}");
    };
    assert!(status.healthy);
    let log_dir = status.log_dir.expect("health status should carry log_dir");
    assert!(log_dir.contains("logs"), "log_dir should point to logs directory: {log_dir}");
    assert_eq!(status.runtime_pid, None, "simulated handle should have no runtime_pid");
    assert_eq!(
        status.runtime_container_name, None,
        "simulated handle should have no container name"
    );
}

#[test]
fn microvm_tier_launch_request_includes_bootstrap_file() {
    let (launch, startup) = start(alice(), "linux", SandboxTier::MicroVm, user());
    assert!(launch.bootstrap_file.is_some());
    assert_eq!(startup.bootstrap.user_id, "alice");
    assert_eq!(startup.bootstrap.sandbox_tier, SandboxTier::MicroVm);
}

#[test]
fn container_tier_launch_request_includes_extra_env() {
    let request = RunnerStartRequest { extra_env: words(&["MY_KEY=my_value"]), ..alice() };
    let (launch, _) = start(request, "linux", SandboxTier::Container, user());
    assert!(launch.extra_env.contains(&"MY_KEY=my_value".to_owned()));
    assert!(!launch.shell_env.contains(&"MY_KEY=my_value".to_owned()));
}

#[test]
fn shell_prefixed_env_vars_forwarded_to_shell_env_with_prefix_stripped() {
    let request = RunnerStartRequest {
        extra_env: words(&["SHELL_NPM_TOKEN=tok123", "REGULAR_KEY=val456"]),
        ..alice()
    };
    let (launch, _) = start(request, "linux", SandboxTier::Container, user());
    assert!(launch.shell_env.contains(&"NPM_TOKEN=tok123".to_owned()));
    assert!(!launch.extra_env.iter().any(|e| e.contains("NPM_TOKEN")));
    assert!(launch.extra_env.contains(&"REGULAR_KEY=val456".to_owned()));
    assert!(!launch.shell_env.contains(&"REGULAR_KEY=val456".to_owned()));
}

#[test]
fn workspace_control_socket_path_uses_runner_constant() {
    let workspace = workspace();
    let socket_path = workspace.control_socket_path();
    assert!(socket_path.ends_with(RUNNER_CONTROL_SOCKET_NAME));
    assert!(socket_path.starts_with(&workspace.ipc));
}

fn logs_request(role: LogRole, stream: LogStream, tail: usize) -> RunnerControlLogsRequest {
    RunnerControlLogsRequest { role, stream, tail: Some(tail), since: None, format: LogFormat::Text }
}

/// Asks a process-tier session for output, where its guest has written that.
fn ask_for_logs(wanted: RunnerControlLogsRequest, stdout: &str, stderr: &str) -> RunnerControlLogs {
    let (_, mut startup) = start(alice(), "linux", SandboxTier::Process, user());
    let logs = startup.log_guest(wanted.role).map(|_| GuestLogs {
        stdout: Some(stdout.to_owned()),
        stderr: Some(stderr.to_owned()),
    });
    let request = RunnerControl::Logs(wanted);
    assert_eq!(startup.control_need(&request), ControlNeed::Logs);
    match startup.handle_control(request, ControlInput::Logs { since: None, logs }) {
        RunnerControlResponse::Logs(logs) => logs,
        other => panic!("expected Logs response, got {other:?}"),
    }
}

#[test]
fn control_logs_returns_entries_from_process_log_files() {
    let logs = ask_for_logs(
        logs_request(LogRole::Runtime, LogStream::Both, 100),
        "2026-03-01T10:00:00Z line one\n2026-03-01T10:00:01Z line two\n",
        "2026-03-01T10:00:02Z error line\n",
    );
    assert!(!logs.entries.is_empty(), "should have log entries from files");
    assert_eq!(logs.entries.len(), 3, "should have 3 entries (2 stdout + 1 stderr)");
    assert!(!logs.truncated);
    let messages: Vec<&str> = logs.entries.iter().map(|e| e.message.as_str()).collect();
    assert!(messages.contains(&"line one"), "should contain stdout line: {messages:?}");
    assert!(messages.contains(&"error line"), "should contain stderr line: {messages:?}");
    assert_eq!(messages, vec!["line one", "line two", "error line"]);
    assert_eq!(logs.entries[0].timestamp.as_deref(), Some("2026-03-01T10:00:00Z"));
    assert_eq!(logs.entries[0].source, "oxydra-vm");
}

#[test]
fn control_logs_filters_by_stream() {
    let logs = ask_for_logs(
        logs_request(LogRole::Runtime, LogStream::Stderr, 100),
        "stdout line\n",
        "stderr line\n",
    );
    assert_eq!(logs.entries.len(), 1, "should have only stderr entries");
    assert_eq!(logs.entries[0].stream, "stderr");
    assert_eq!(logs.entries[0].message, "stderr line");
}

#[test]
fn control_logs_respects_tail_limit() {
    let mut content = String::new();
    for i in 0..10 {
        content.push_str(&format!("line {i}\n"));
    }
    let logs = ask_for_logs(logs_request(LogRole::Runtime, LogStream::Stdout, 3), &content, "");
    assert_eq!(logs.entries.len(), 3, "should return only 3 entries");
    assert!(logs.truncated, "should be marked as truncated");
    assert_eq!(logs.entries[0].message, "line 7");
    assert_eq!(logs.entries[1].message, "line 8");
    assert_eq!(logs.entries[2].message, "line 9");
}

#[test]
fn control_logs_warns_when_sidecar_unavailable() {
    let logs = ask_for_logs(logs_request(LogRole::Sidecar, LogStream::Both, 100), "out\n", "err\n");
    assert!(logs.entries.is_empty(), "no sidecar = no entries");
    assert!(
        logs.warnings.iter().any(|w| w.contains("shell-vm")),
        "should warn about missing sidecar: {:?}",
        logs.warnings
    );
}

#[test]
fn a_shutdown_happens_once() {
    let (_, mut startup) = start(alice(), "linux", SandboxTier::Container, user());
    let failure = RunnerError::AsyncRuntimeInit { message: "no threads".to_owned() };
    assert!(startup.finish_shutdown(Err(failure)).is_err());
    assert!(startup.shell_available && !startup.shutdown_complete);
    assert_eq!(startup.marker_to_remove(false), None);
    assert!(startup.finish_shutdown(Ok(())).is_ok());
    assert!(!startup.shell_available && !startup.browser_available);
    assert!(startup.startup_status.has_reason_code(StartupDegradedReasonCode::RuntimeShutdown));
    assert_eq!(startup.marker_to_remove(false), Some(startup.workspace.gateway_marker_path()));
    let reasons = startup.startup_status.degraded_reasons.len();
    let late = RunnerError::AsyncRuntimeInit { message: "late".to_owned() };
    assert!(startup.finish_shutdown(Err(late)).is_ok());
    assert_eq!(startup.startup_status.degraded_reasons.len(), reasons);
    assert_eq!(startup.marker_to_remove(true), None);
}

#[test]
fn control_logs_returns_empty_after_shutdown() {
    let (_, mut startup) = start(alice(), "linux", SandboxTier::Container, user());
    let _ = startup.handle_control(shut_down("alice"), ControlInput::Shutdown(Ok(())));
    let request = RunnerControl::Logs(RunnerControlLogsRequest {
        role: LogRole::Runtime,
        stream: LogStream::Both,
        tail: None,
        since: None,
        format: LogFormat::Text,
    });
    assert_eq!(startup.control_need(&request), ControlNeed::Logs);
    let nothing = ControlInput::Logs { since: None, logs: None };
    let answer = startup.handle_control(request, nothing);
    assert!(matches!(answer, RunnerControlResponse::Logs(logs) if logs.entries.is_empty()));
}

#[test]
fn browser_config_in_bootstrap_envelope_round_trips() {
    let payload = br#"{"user_id":"alice","browser_config":{"pinchtab_base_url":"http://127.0.0.1:9867","bridge_token":"test-token-123"}}"#;
    let encoded = length_prefixed(payload).expect("payload should be framed");
    assert_eq!(
        first_frame(&encoded),
        FrameRead::Frame { payload: payload.to_vec(), consumed: encoded.len() }
    );
    let envelope = RunnerBootstrapEnvelope {
        user_id: "alice".to_owned(),
        sandbox_tier: SandboxTier::Container,
        workspace_root: "/workspace/alice".to_owned(),
        sidecar_endpoint: Some(SidecarEndpoint {
            transport: SidecarTransport::Unix,
            address: "/tmp/shell-daemon.sock".to_owned(),
        }),
        runtime_policy: None,
        startup_status: Some(StartupStatusReport {
            sandbox_tier: SandboxTier::Container,
            sidecar_available: true,
            shell_available: true,
            browser_available: true,
            degraded_reasons: Vec::new(),
        }),
        browser_config: Some(BrowserToolConfig {
            pinchtab_base_url: "http://127.0.0.1:9867".to_owned(),
            bridge_token: Some("test-token-123".to_owned()),
        }),
    };
    let bc = envelope.browser_config.expect("browser_config should be present");
    assert_eq!(bc.pinchtab_base_url, "http://127.0.0.1:9867");
    assert_eq!(bc.bridge_token.as_deref(), Some("test-token-123"));
}

fn with_browser(browser_enabled: bool) -> RunnerUserConfig {
    RunnerUserConfig {
        behavior: RunnerUserBehavior {
            browser_enabled: Some(browser_enabled),
            ..RunnerUserBehavior::default()
        },
        ..user()
    }
}

#[test]
fn startup_with_browser_enabled_populates_browser_env_in_shell_vm() {
    let (launch, startup) = start(alice(), "linux", SandboxTier::Container, with_browser(true));
    let bc = startup
        .bootstrap
        .browser_config
        .as_ref()
        .expect("browser_config should be populated when browser is enabled");
    assert!(bc.pinchtab_base_url.starts_with("http://127.0.0.1:"));
    assert!(bc.bridge_token.is_some(), "bridge_token should be generated");
    assert!(launch.shell_env.iter().any(|e| e == "BROWSER_ENABLED=true"));
    assert!(launch.shell_env.iter().any(|e| e.starts_with("BRIDGE_TOKEN=")));
    assert!(launch.shell_env.iter().any(|e| e.starts_with("BRIDGE_PORT=")));
    assert!(launch.extra_env.iter().any(|e| e.starts_with("PINCHTAB_URL=")));
    assert!(launch.extra_env.iter().any(|e| e.starts_with("BRIDGE_TOKEN=")));
}

#[test]
fn startup_with_browser_disabled_has_no_browser_config() {
    let (launch, startup) = start(alice(), "linux", SandboxTier::Container, with_browser(false));
    assert!(startup.bootstrap.browser_config.is_none());
    assert!(!launch.shell_env.iter().any(|e| e.starts_with("BROWSER_ENABLED=")));
}

#[test]
fn startup_process_tier_never_provisions_browser() {
    let (_, startup) = start(insecure_alice(), "linux", SandboxTier::MicroVm, user());
    assert!(startup.bootstrap.browser_config.is_none());
    assert!(!startup.browser_available);
    let capabilities = resolve_requested_capabilities(
        SandboxTier::Process,
        RunnerUserBehavior { browser_enabled: Some(true), ..RunnerUserBehavior::default() },
    );
    assert!(!capabilities.browser);
}

#[test]
fn bootstrap_frame_from_file_wraps_with_length_prefix() {
    let json_bytes = br#"{"user_id":"alice","sandbox_tier":"container"}"#;
    let frame =
        bootstrap_frame_from_file("/b.json", json_bytes).expect("should read bootstrap file");
    assert!(frame.len() >= 4);
    let len = u32::from_be_bytes([frame[0], frame[1], frame[2], frame[3]]) as usize;
    assert_eq!(len, json_bytes.len());
    assert_eq!(&frame[4..], json_bytes);
    assert_eq!(bootstrap_payload_length([frame[0], frame[1], frame[2], frame[3]]), len);
}

#[test]
fn marker_writer_persists_gateway_endpoint() {
    let marker = gateway_marker("/w/alice", "127.0.0.1:42001");
    assert!(marker.path.starts_with("/w/alice/ipc"), "marker should be under workspace ipc/");
    assert_eq!(marker.directory, "/w/alice/ipc");
    assert_eq!(marker.content, "ws://127.0.0.1:42001/ws");
}

#[test]
fn bootstrap_frame_reader_preserves_length_prefixed_payload() {
    let encoded = length_prefixed(br#"{"user_id":"alice","sidecar_endpoint":{"transport":"unix"}}"#)
        .expect("payload should be framed");
    let frame = read_bootstrap_frame_from_reader(&encoded)
        .expect("frame reader should return length-prefixed bytes");
    assert_eq!(frame, encoded);
    assert!(matches!(
        read_bootstrap_frame_from_reader(&encoded[..encoded.len() - 1]),
        Err(VmError::ReadBootstrapFrame { .. })
    ));
    assert!(matches!(
        read_bootstrap_frame_from_reader(&encoded[..3]),
        Err(VmError::ReadBootstrapFrame { .. })
    ));
}

#[test]
fn control_frames_have_a_limit() {
    let payload = vec![7u8; 300];
    let framed = control_frame(&payload).expect("payload should fit");
    assert_eq!(&framed[..4], &[0, 0, 1, 44]);
    assert_eq!(control_frame_length([0, 0, 1, 44]), Ok(300));
    assert_eq!(
        frame_length([0, 0, 1, 44], 299),
        Err(RunnerControlTransportError::FrameTooLarge { actual_bytes: 300, max_bytes: 299 })
    );
    let large = vec![0u8; RUNNER_CONTROL_MAX_FRAME_BYTES + 1];
    assert!(matches!(
        control_frame(&large),
        Err(RunnerControlTransportError::FrameTooLarge { .. })
    ));
    assert!(matches!(first_frame(&[255, 255, 255, 255]), FrameRead::TooLarge(_)));
    assert_eq!(first_frame(&[]), FrameRead::End);
    assert_eq!(first_frame(&[0, 0, 0, 2, 9]), FrameRead::Cut { missing: 1 });
    let refused =
        RunnerControlTransportError::Transport { refused: true, message: "refused".to_owned() };
    assert!(refused.is_connection_refused());
}

#[test]
fn container_names_are_clean_and_apart() {
    assert_eq!(sanitize_container_component("Al ice/42"), "Al-ice-42");
    assert_eq!(sanitize_container_component(""), "user");
    let runtime = docker_guest_container_name("container", "alice", RunnerGuestRole::OxydraVm);
    let shell = docker_guest_container_name("container", "alice", RunnerGuestRole::ShellVm);
    assert_ne!(runtime, shell);
    let labels = docker_guest_labels("container", "alice", RunnerGuestRole::OxydraVm);
    assert!(labels.entries.iter().any(|(_, value)| value == "alice"));
    let command = docker_guest_command_spec(&DockerEndpoint::Local, &runtime);
    assert!(command.args.iter().any(|arg| arg.contains(&runtime)));
    assert_eq!(image_and_tag("img"), ("img".to_owned(), "latest".to_owned()));
    assert_eq!(image_and_tag("reg:5000/img:1.2"), ("reg:5000/img".to_owned(), "1.2".to_owned()));
}

#[test]
fn containers_are_described_with_their_limits() {
    let (launch, _) = start(
        alice(),
        "linux",
        SandboxTier::Container,
        RunnerUserConfig {
            resources: RunnerResourceLimits {
                max_vcpus: Some(2),
                max_memory_mib: Some(512),
                max_processes: Some(64),
            },
            ..user()
        },
    );
    let params = docker_guest_params(&DockerPlace::Host, &launch, RunnerGuestRole::OxydraVm);
    let spec = container_spec(params);
    assert_eq!(spec.nano_cpus, Some(2_000_000_000));
    assert_eq!(spec.memory, Some(536_870_912));
    assert_eq!(spec.pids_limit, Some(64));
    assert_eq!(spec.image, "oxydra-vm:test");
    assert!(spec.binds.iter().any(|bind| bind.contains("/w/alice")));
}

#[test]
fn containers_start_step_by_step() {
    let endpoint = DockerEndpoint::UnixSocket("/d.sock".to_owned());
    let done = |step: ContainerStep| {
        next_container_step(&endpoint, "c", step, ContainerOutcome::Done)
    };
    let failed = |step: ContainerStep, status: u16| {
        next_container_step(
            &endpoint,
            "c",
            step,
            ContainerOutcome::Failed { status: Some(status), message: "no".to_owned() },
        )
    };
    assert_eq!(done(ContainerStep::Remove), Ok(ContainerStep::Inspect));
    assert_eq!(failed(ContainerStep::Remove, 404), Ok(ContainerStep::Inspect));
    assert!(failed(ContainerStep::Remove, 500).is_err());
    assert_eq!(done(ContainerStep::Inspect), Ok(ContainerStep::Create));
    assert_eq!(failed(ContainerStep::Inspect, 404), Ok(ContainerStep::Pull));
    assert_eq!(done(ContainerStep::Create), Ok(ContainerStep::Start));
    assert_eq!(done(ContainerStep::Start), Ok(ContainerStep::Running));
    assert!(failed(ContainerStep::Start, 404).is_err());
    let missing = ContainerOutcome::Failed { status: Some(404), message: "no".to_owned() };
    assert_eq!(container_removed(&endpoint, "c", missing), Ok(()));
}

#[test]
fn sandbox_machines_are_asked_for() {
    assert_eq!(docker_sandbox_vm_resource_name("oxydra-alice"), "oxydra-alice-vm");
    assert!(sandbox_vm_path("x").ends_with("/x"));
    let request = vm_request("oxydra-alice", "/w");
    assert_eq!(request.get("agent_name").and_then(|name| name.as_str()), Some("oxydra-alice"));
    let body = answer_body(br#"{"vm":{"socket_path":"unix:///s"}}"#, r#"{"vm":{"socket_path":"unix:///s"}}"#);
    let vm = created_vm("a", 200, "raw".to_owned(), &body).expect("machine should be there");
    assert_eq!(vm.docker_socket_path, "/s");
    assert!(matches!(
        created_vm("a", 500, "raw".to_owned(), &body),
        Err(RunnerError::SandboxApiStatus { status: 500, .. })
    ));
    let empty = parse_json("{}").expect("text is JSON");
    assert!(matches!(
        created_vm("a", 200, "{}".to_owned(), &empty),
        Err(RunnerError::SandboxVmMissingDockerSocket { .. })
    ));
    assert_eq!(deleted_vm(204, String::new()), Ok(()));
    assert!(deleted_vm(500, String::new()).is_err());
    let raw = answer_body(b"not json", "not json");
    assert_eq!(extract_socket_path(&raw), None);
}

#[test]
fn guests_are_shut_down_in_steps() {
    let mut guest = RunnerGuestHandle::from_child(
        RunnerGuestRole::OxydraVm,
        RunnerCommandSpec::new("vm", Vec::new()),
        7,
    );
    assert!(guest.takes_startup_frame());
    assert_eq!(guest.pid, Some(7));
    let first = guest.begin_shutdown();
    assert_eq!(first, GuestShutdown::CheckStatus);
    let second = guest
        .next_shutdown_step(first, ShutdownOutcome::StillRunning)
        .expect("the guest runs");
    assert_eq!(second, GuestShutdown::Terminate);
    let third =
        guest.next_shutdown_step(second, ShutdownOutcome::Done).expect("the guest is told");
    assert_eq!(third, GuestShutdown::Wait);
    let last = guest.next_shutdown_step(third, ShutdownOutcome::Done).expect("the guest ended");
    assert_eq!(last, GuestShutdown::Done);
    assert_eq!(guest.pid, None);
    guest.pid = Some(8);
    assert_eq!(guest.begin_shutdown(), GuestShutdown::Done);
    assert_eq!(guest.pid, None);
    let mut simulated = handle(RunnerGuestRole::ShellVm, "shell");
    assert_eq!(simulated.begin_shutdown(), GuestShutdown::Done);
    assert!(matches!(
        guest.startup_frame_error("closed".to_owned()),
        RunnerError::GuestLifecycle { .. }
    ));
}

#[test]
fn the_first_shutdown_error_counts() {
    let error = RunnerError::MissingHomeDirectory;
    assert_eq!(launch_shutdown_result(None, Ok(()), None), Ok(()));
    assert_eq!(launch_shutdown_result(Some(Err(error)), Ok(()), Some(Ok(()))), Err(RunnerError::MissingHomeDirectory));
}

#[test]
fn linux_machines_launch_in_order() {
    let (request, _) = start(alice(), "linux", SandboxTier::MicroVm, user());
    let mut stage = LinuxStage::Begin;
    let mut seen = Vec::new();
    loop {
        let (next, action) = launch_microvm_linux(&request, stage, LaunchEvent::Done);
        stage = next;
        match action {
            LinuxAction::Generate { template, .. } => seen.push(template),
            LinuxAction::Spawn { command, .. } => seen.push(command.program),
            LinuxAction::AwaitApi { .. } => seen.push("api".to_owned()),
            LinuxAction::Launched { sidecar, report } => {
                assert!(sidecar);
                assert!(report.shell_available);
                break;
            }
            other => panic!("unexpected step {other:?}"),
        }
    }
    assert_eq!(
        seen,
        words(&["/fc/runtime.json", "firecracker", "api", "/fc/shell.json", "firecracker", "api"])
    );
}

#[test]
fn docker_guests_launch_in_order() {
    let (request, _) = start(alice(), "macos", SandboxTier::MicroVm, user());
    let place = DockerPlace::Vm {
        agent_name: macos_agent_name("alice"),
        vm: DockerSandboxVmInfo {
            vm_name: "vm".to_owned(),
            docker_socket_path: "/vm.sock".to_owned(),
        },
        sandbox_socket_path: "/sandboxd.sock".to_owned(),
    };
    let (stage, action) =
        launch_container(&place, &request, DockerStage::Begin, LaunchEvent::Done);
    assert!(matches!(action, DockerAction::StartContainer(_)));
    let failure = LaunchEvent::Failed(RunnerError::MissingHomeDirectory);
    let (stage, action) = launch_container(&place, &request, stage, failure);
    assert!(matches!(action, DockerAction::DeleteVm { .. }));
    let (stage, action) = launch_container(&place, &request, stage, LaunchEvent::Done);
    assert_eq!(stage, DockerStage::Over);
    assert_eq!(action, DockerAction::Fail(RunnerError::MissingHomeDirectory));
}

#[test]
fn process_guests_are_never_tools() {
    let limited = launch_process(&HardeningAttempt {
        succeeded: false,
        outcome: "unsupported".to_owned(),
        detail: "no landlock".to_owned(),
    });
    assert!(!limited.shell_available && !limited.browser_available);
    assert_eq!(limited.degraded_reasons.len(), 2);
    assert_eq!(limited.warnings[0], PROCESS_TIER_WARNING);
    assert_eq!(resolve_process_tier_executable(Some(" /x/vm "), None), "/x/vm");
    assert_eq!(resolve_process_tier_executable(Some("  "), Some("/bin/vm")), "/bin/vm");
    assert_eq!(resolve_process_tier_executable(None, None), "oxydra-vm");
    let command = process_command("/x/vm", "alice", &workspace());
    assert!(command.args.contains(&"--bootstrap-stdin".to_owned()));
    assert_eq!(
        docker_sandboxd_socket_path(Some("/home/u")).expect("home is known"),
        "/home/u/.docker/sandboxes/sandboxd.sock"
    );
    assert!(matches!(docker_sandboxd_socket_path(None), Err(RunnerError::MissingHomeDirectory)));
}

#[test]
fn telegram_needs_its_variable_and_its_store() {
    assert_eq!(
        telegram_token(Some("TOKEN"), Some("t".to_owned()), true),
        Ok("t".to_owned())
    );
    assert!(telegram_token(None, None, true).is_err());
    assert!(telegram_token(Some("TOKEN"), None, true).is_err());
    assert!(telegram_token(Some("TOKEN"), Some("t".to_owned()), false).is_err());
    let args = OxydraVmArgs {
        user_id: "alice".to_owned(),
        workspace_root: "/w".to_owned(),
        bootstrap_stdin: true,
        bootstrap_file: Some("/b".to_owned()),
        gateway_bind: "127.0.0.1:0".to_owned(),
    };
    assert!(matches!(bootstrap_source(&args), Ok(BootstrapSource::Stdin)));
    let from_file = OxydraVmArgs { bootstrap_stdin: false, ..args };
    assert!(matches!(
        bootstrap_source(&from_file),
        Ok(BootstrapSource::File(path)) if path == "/b"
    ));
}
