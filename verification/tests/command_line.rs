use oxydra::arguments::{
    chosen_command, CatalogAction, CliArgs, CliCommand, OxydraVmArgs, DEFAULT_GATEWAY_BIND_ADDRESS,
    DEFAULT_RUNNER_CONFIG_PATH,
};
use oxydra::cli::{
    connection_lines, handle_catalog_verified, parse_env_entry, parse_extra_env_vars,
    resolve_user_id, run_mode, server_restart, server_status, server_stop,
    socket_removed, tui_arguments, tui_candidates, tui_exit, wait_for_gateway_endpoint,
    wait_for_socket_removal, which_tui_binary, CliError, EndpointWait, EnvFile, LifecycleAction,
    RestartNotice, RunMode, SocketWait, TUI_BINARY_NAME,
};
use oxydra::control::{
    RunnerControlError, RunnerControlErrorCode, RunnerControlHealthStatus, RunnerControlResponse,
    RunnerControlShutdownStatus, RunnerControlTransportError,
};
use oxydra::gateway::RunnerTuiConnection;
use oxydra::sandbox::{
    RunnerError, SandboxTier, StartupDegradedReason, StartupDegradedReasonCode, StartupStatusReport,
};
use oxydra::text_map::TextMap;
use oxydra::vm::{bootstrap_source, BootstrapSource, VmError};
use oxydra::workspace::UserWorkspace;

fn words(parts: &[&str]) -> Vec<String> {
    parts.iter().map(|part| (*part).to_owned()).collect()
}

fn cli(parts: &[&str]) -> CliArgs {
    CliArgs::try_parse_from(words(parts)).expect("args should parse")
}

#[test]
fn parse_cli_args_defaults_to_start_mode() {
    let args = cli(&["runner"]);
    assert_eq!(args.config_path, DEFAULT_RUNNER_CONFIG_PATH);
    assert_eq!(args.user_id, None);
    assert!(!args.insecure);
    assert!(!args.tui);
    assert!(!args.probe);
    assert!(!args.daemon);
}

#[test]
fn parse_cli_args_accepts_tui_and_user_flags() {
    let args = cli(&["runner", "--tui", "--user", "alice"]);
    assert!(args.tui);
    assert!(!args.probe);
    assert_eq!(args.user_id.as_deref(), Some("alice"));
}

#[test]
fn parse_cli_args_accepts_tui_with_probe_flag() {
    let args = cli(&["runner", "--tui", "--probe", "--user", "alice"]);
    assert!(args.tui);
    assert!(args.probe);
    assert_eq!(args.user_id.as_deref(), Some("alice"));
}

#[test]
fn parse_cli_args_accepts_probe_without_tui() {
    let args = cli(&["runner", "--probe"]);
    assert!(!args.tui);
    assert!(args.probe);
}

#[test]
fn parse_cli_args_accepts_daemon_flag() {
    let args = cli(&["runner", "--daemon"]);
    assert!(args.daemon);
    assert!(!args.tui);
    assert!(!args.probe);
}

#[test]
fn parse_cli_args_rejects_missing_flag_value() {
    let error = CliArgs::try_parse_from(words(&["runner", "--config"]))
        .expect_err("missing value should fail");
    assert!(error.is_error);
    assert!(error.message.contains("--config"));
}

#[test]
fn help_is_no_error() {
    let shown = CliArgs::try_parse_from(words(&["runner", "--help"]))
        .expect_err("help stops the parse");
    assert!(!shown.is_error);
    assert!(shown.message.contains("Oxydra runner control CLI"));
    assert!(shown.message.contains("--env-file"));
}

#[test]
fn help_says_what_options_are_for() {
    let shown = CliArgs::try_parse_from(words(&["runner", "--help"]))
        .expect_err("help stops the parse")
        .message;
    for text in [
        "-c, --config <CONFIG_PATH>",
        "-u, --user <USER_ID>",
        "-e, --env <ENV_VARS>",
        "--env-file <ENV_FILE>",
        "Print gateway connection metadata",
        "Only meaningful with --tui",
        "Inject an environment variable into the guest container (KEY=VALUE)",
        "Read environment variables from a file (one KEY=VALUE per line)",
        "[default: .oxydra/runner.toml]",
    ] {
        assert!(shown.contains(text), "help should hold `{text}`:\n{shown}");
    }
    let fetch = CliArgs::try_parse_from(words(&["runner", "catalog", "fetch", "--help"]))
        .expect_err("help stops the parse")
        .message;
    assert!(fetch.contains("Fetch from the pinned snapshot URL instead of models.dev"));
}

#[test]
fn paths_are_not_empty() {
    for option in ["--config=", "--env-file="] {
        let error = CliArgs::try_parse_from(words(&["runner", option]))
            .expect_err("an empty path is refused");
        assert!(error.is_error);
        assert!(error.message.contains("a value is required for"), "{}", error.message);
    }
    assert_eq!(cli(&["runner", "--user="]).user_id.as_deref(), Some(""));
    let empty_root = ["oxydra-vm", "--user-id", "a", "--workspace-root="];
    assert!(OxydraVmArgs::try_parse_from(words(&empty_root), None).is_err());
}

#[test]
fn an_empty_variable_is_refused_like_an_empty_option() {
    let given = ["oxydra-vm", "--user-id", "a", "--workspace-root", "/w"];
    let by_variable = OxydraVmArgs::try_parse_from(words(&given), Some(String::new()));
    let with_option =
        ["oxydra-vm", "--user-id", "a", "--workspace-root", "/w", "--bootstrap-file="];
    let by_option = OxydraVmArgs::try_parse_from(words(&with_option), None);
    assert!(by_option.is_err());
    assert_eq!(by_variable, by_option);
    let incomplete = OxydraVmArgs::try_parse_from(words(&["oxydra-vm"]), Some(String::new()));
    assert_eq!(incomplete, by_option, "the variable is judged before what is missing");
    let nonsense = ["oxydra-vm", "--nonsense"];
    let refused = OxydraVmArgs::try_parse_from(words(&nonsense), Some(String::new()))
        .expect_err("the word makes no sense");
    assert!(refused.message.contains("--nonsense"), "{}", refused.message);
    let missing = OxydraVmArgs::try_parse_from(words(&["oxydra-vm"]), Some("/b".to_owned()))
        .expect_err("options are missing");
    assert!(missing.message.contains("--user-id <USER_ID>"), "{}", missing.message);
    let named =
        ["oxydra-vm", "--user-id", "a", "--workspace-root", "/w", "--bootstrap-file", "/b"];
    let args = OxydraVmArgs::try_parse_from(words(&named), Some(String::new()))
        .expect("the variable does not count");
    assert_eq!(args.bootstrap_file.as_deref(), Some("/b"));
}

#[test]
fn help_names_the_variable() {
    let help = |variable: Option<&str>| {
        OxydraVmArgs::try_parse_from(
            words(&["oxydra-vm", "--help"]),
            variable.map(str::to_owned),
        )
        .expect_err("help stops the parse")
        .message
    };
    assert!(help(None).contains("[env: OXYDRA_BOOTSTRAP_FILE=]"));
    assert!(help(Some("/b")).contains("[env: OXYDRA_BOOTSTRAP_FILE=/b]"));
    assert!(help(None).contains("[default: 127.0.0.1:0]"));
}

#[test]
fn unknown_options_and_commands_are_refused() {
    assert!(CliArgs::try_parse_from(words(&["runner", "--nonsense"])).is_err());
    assert!(CliArgs::try_parse_from(words(&["runner", "nonsense"])).is_err());
    assert!(CliArgs::try_parse_from(words(&["runner", "catalog"])).is_err());
    assert!(CliArgs::try_parse_from(words(&["runner", "--user", "a", "--user", "b"])).is_err());
}

#[test]
fn short_options_work() {
    let args = cli(&["runner", "-c", "other.toml", "-u", "bob"]);
    assert_eq!(args.config_path, "other.toml");
    assert_eq!(args.user_id.as_deref(), Some("bob"));
}

#[test]
fn parse_cli_args_accepts_catalog_show_subcommand() {
    let args = cli(&["runner", "catalog", "show"]);
    assert_eq!(args.command, Some(CliCommand::Catalog { action: CatalogAction::Show }));
}

#[test]
fn parse_cli_args_accepts_catalog_fetch_subcommand() {
    let args = cli(&["runner", "catalog", "fetch"]);
    assert_eq!(
        args.command,
        Some(CliCommand::Catalog { action: CatalogAction::Fetch { pinned: false } })
    );
}

#[test]
fn parse_cli_args_accepts_catalog_fetch_with_pinned() {
    let args = cli(&["runner", "catalog", "fetch", "--pinned"]);
    assert_eq!(
        args.command,
        Some(CliCommand::Catalog { action: CatalogAction::Fetch { pinned: true } })
    );
}

#[test]
fn parse_cli_args_accepts_catalog_verify_subcommand() {
    let args = cli(&["runner", "catalog", "verify"]);
    assert_eq!(args.command, Some(CliCommand::Catalog { action: CatalogAction::Verify }));
}

#[test]
fn parse_cli_args_without_subcommand_has_no_command() {
    let args = cli(&["runner"]);
    assert_eq!(args.command, None);
}

#[test]
fn parse_cli_args_accepts_env_flags() {
    let args = cli(&["runner", "-e", "FOO=bar", "-e", "BAZ=qux", "--env-file", "/tmp/env"]);
    assert_eq!(args.env_vars, vec!["FOO=bar", "BAZ=qux"]);
    assert_eq!(args.env_file.as_deref(), Some("/tmp/env"));
}

#[test]
fn parse_extra_env_vars_from_cli_only() {
    let vars = vec!["KEY1=val1".to_owned(), "KEY2=val2".to_owned()];
    let result = parse_extra_env_vars(&vars, None).expect("should parse CLI env vars");
    assert_eq!(result, vec!["KEY1=val1", "KEY2=val2"]);
}

fn env_file(content: &str) -> Option<EnvFile> {
    Some(EnvFile { path: "/tmp/test.env".to_owned(), content: Ok(content.to_owned()) })
}

#[test]
fn parse_extra_env_vars_from_file() {
    let result = parse_extra_env_vars(
        &Vec::new(),
        env_file("# comment\nFROM_FILE=hello\n\nANOTHER=world\n"),
    )
    .expect("should parse env file");
    assert_eq!(result, vec!["ANOTHER=world", "FROM_FILE=hello"]);
}

#[test]
fn parse_extra_env_vars_cli_overrides_file() {
    let cli = vec!["KEY=from_cli".to_owned()];
    let result = parse_extra_env_vars(&cli, env_file("KEY=from_file\n"))
        .expect("should merge env sources");
    assert_eq!(result, vec!["KEY=from_cli"]);
}

#[test]
fn parse_extra_env_vars_rejects_missing_equals() {
    let vars = vec!["INVALID".to_owned()];
    let err = parse_extra_env_vars(&vars, None).expect_err("should reject missing =");
    assert!(err.to_text().contains("INVALID"));
}

#[test]
fn parse_extra_env_vars_allows_empty_value() {
    let vars = vec!["KEY=".to_owned()];
    let result = parse_extra_env_vars(&vars, None).expect("empty value should be allowed");
    assert_eq!(result, vec!["KEY="]);
}

#[test]
fn parse_extra_env_vars_allows_value_with_equals() {
    let vars = vec!["KEY=val=ue".to_owned()];
    let result = parse_extra_env_vars(&vars, None).expect("value with = should be allowed");
    assert_eq!(result, vec!["KEY=val=ue"]);
}

#[test]
fn the_first_bad_variable_is_named() {
    let cli = vec!["GOOD=1".to_owned(), "=empty".to_owned(), "worse".to_owned()];
    assert_eq!(
        parse_extra_env_vars(&cli, None),
        Err(CliError::InvalidEnvVar { value: "=empty".to_owned() })
    );
    assert_eq!(
        parse_extra_env_vars(&cli, env_file("  A=1  \r\nbroken line\n")),
        Err(CliError::InvalidEnvVar { value: "broken line".to_owned() })
    );
    assert_eq!(
        parse_env_entry("=x"),
        Err(CliError::InvalidEnvVar { value: "=x".to_owned() })
    );
}

#[test]
fn an_unreadable_env_file_is_reported() {
    let file = Some(EnvFile { path: "/nowhere".to_owned(), content: Err("gone".to_owned()) });
    let error = parse_extra_env_vars(&Vec::new(), file).expect_err("file cannot be read");
    assert_eq!(error.to_text(), "failed to read --env-file `/nowhere`: gone");
}

#[test]
fn file_lines_are_trimmed_and_last_wins() {
    let result = parse_extra_env_vars(&Vec::new(), env_file("  A=1  \r\n#B=2\nA=3"))
        .expect("file should parse");
    assert_eq!(result, vec!["A=3"]);
}

#[test]
fn parse_cli_args_accepts_start_subcommand() {
    assert_eq!(cli(&["runner", "start"]).command, Some(CliCommand::Start));
}

#[test]
fn parse_cli_args_accepts_stop_subcommand() {
    assert_eq!(cli(&["runner", "stop"]).command, Some(CliCommand::Stop));
}

#[test]
fn parse_cli_args_accepts_status_subcommand() {
    assert_eq!(cli(&["runner", "status"]).command, Some(CliCommand::Status));
}

#[test]
fn parse_cli_args_accepts_restart_subcommand() {
    assert_eq!(cli(&["runner", "restart"]).command, Some(CliCommand::Restart));
}

#[test]
fn parse_cli_args_stop_with_user_flag() {
    let args = cli(&["runner", "--user", "alice", "stop"]);
    assert_eq!(args.user_id.as_deref(), Some("alice"));
    assert_eq!(args.command, Some(CliCommand::Stop));
}

#[test]
fn parse_cli_args_start_with_env_flags() {
    let args = cli(&["runner", "-e", "MY_KEY=val", "--insecure", "start"]);
    assert_eq!(args.command, Some(CliCommand::Start));
    assert_eq!(args.env_vars, vec!["MY_KEY=val"]);
    assert!(args.insecure);
}

#[test]
fn chosen_words_name_commands() {
    assert_eq!(chosen_command(None, None, true), None);
    assert_eq!(chosen_command(Some("start"), None, false), Some(CliCommand::Start));
    assert_eq!(chosen_command(Some("catalog"), None, false), None);
    assert_eq!(
        chosen_command(Some("catalog"), Some("fetch"), true),
        Some(CliCommand::Catalog { action: CatalogAction::Fetch { pinned: true } })
    );
    assert_eq!(chosen_command(Some("other"), None, false), None);
}

#[test]
fn server_not_running_error_mentions_user_id_and_hint() {
    let err = CliError::ServerNotRunning { user_id: "alice".to_owned() };
    let msg = err.to_text();
    assert!(msg.contains("alice"), "error should mention user id: {msg}");
    assert!(msg.contains("runner start"), "error should suggest `runner start`: {msg}");
}

#[test]
fn tui_binary_not_found_error_message_includes_install_hint() {
    let err = CliError::TuiBinaryNotFound { binary: "oxydra-tui".to_owned() };
    let msg = err.to_text();
    assert!(msg.contains("oxydra-tui"), "should mention binary name");
    assert!(msg.contains("cargo install"), "should include install suggestion");
}

#[test]
fn which_tui_binary_returns_error_when_not_in_path() {
    let directories = vec!["/tmp/empty".to_owned()];
    let candidates = tui_candidates(&directories);
    assert_eq!(candidates, vec!["/tmp/empty/oxydra-tui"]);
    let result = which_tui_binary(candidates.into_iter().map(|path| (path, false)).collect());
    let message = result.expect_err("should fail when binary is not in PATH").to_text();
    assert!(message.contains(TUI_BINARY_NAME));
    assert!(message.contains("cargo install"));
}

#[test]
fn the_first_tui_binary_counts() {
    let found = which_tui_binary(vec![
        ("/a/oxydra-tui".to_owned(), false),
        ("/b/oxydra-tui".to_owned(), true),
        ("/c/oxydra-tui".to_owned(), true),
    ]);
    assert_eq!(found, Ok("/b/oxydra-tui".to_owned()));
    assert_eq!(
        tui_arguments("ws://x/ws", "alice"),
        vec!["--gateway-endpoint", "ws://x/ws", "--user", "alice"]
    );
    assert_eq!(tui_exit(true, Some(0)), Ok(()));
    assert_eq!(
        tui_exit(false, Some(-3)),
        Err(CliError::Arguments("oxydra-tui exited with -3".to_owned()))
    );
    assert_eq!(
        tui_exit(false, None),
        Err(CliError::Arguments("oxydra-tui exited with signal".to_owned()))
    );
}

fn users(names: &[&str]) -> TextMap<String> {
    let mut map = TextMap::new();
    for name in names {
        map.insert((*name).to_owned(), format!("users/{name}.toml"));
    }
    map
}

#[test]
fn the_user_is_given_or_the_only_one() {
    assert_eq!(resolve_user_id(Some("eve".to_owned()), &users(&["a", "b"])), Ok("eve".to_owned()));
    assert_eq!(resolve_user_id(None, &users(&["alice"])), Ok("alice".to_owned()));
    assert_eq!(
        resolve_user_id(None, &users(&[])),
        Err(CliError::Arguments(
            "no users are configured in runner config; add [users.<id>] or pass --user".to_owned()
        ))
    );
    assert_eq!(
        resolve_user_id(None, &users(&["a", "b"])),
        Err(CliError::Arguments("multiple users configured; pass --user <user_id>".to_owned()))
    );
}

#[test]
fn commands_go_before_flags() {
    assert_eq!(
        run_mode(&cli(&["runner", "--tui", "stop"])),
        RunMode::Lifecycle { lifecycle: LifecycleAction::Stop }
    );
    assert_eq!(
        run_mode(&cli(&["runner", "--tui", "--probe", "--daemon"])),
        RunMode::Connect { probe: true }
    );
    assert_eq!(run_mode(&cli(&["runner", "--daemon"])), RunMode::Session { daemon: true });
    assert_eq!(
        run_mode(&cli(&["runner", "catalog", "verify"])),
        RunMode::Catalog { action: CatalogAction::Verify }
    );
    assert_eq!(handle_catalog_verified(true), Ok(()));
    assert!(handle_catalog_verified(false).is_err());
}

fn shutdown(already_stopped: bool) -> RunnerControlResponse {
    RunnerControlResponse::ShutdownStatus(RunnerControlShutdownStatus {
        user_id: "alice".to_owned(),
        shutdown: true,
        already_stopped,
        message: Some("done".to_owned()),
    })
}

fn refusal() -> RunnerControlResponse {
    RunnerControlResponse::Error(RunnerControlError {
        code: RunnerControlErrorCode::Internal,
        message: "no".to_owned(),
    })
}

fn transport(refused: bool) -> RunnerControlTransportError {
    RunnerControlTransportError::Transport { refused, message: "broken".to_owned() }
}

#[test]
fn stopping_prints_what_the_server_says() {
    assert_eq!(
        server_stop("alice", Some(Ok(shutdown(false)))),
        Ok(words(&["user_id=alice", "shutdown=true", "message=done"]))
    );
    assert_eq!(
        server_stop("alice", Some(Ok(shutdown(true)))),
        Ok(words(&["user_id=alice", "shutdown=true", "already_stopped=true", "message=done"]))
    );
    assert_eq!(
        server_stop("alice", None),
        Err(CliError::ServerNotRunning { user_id: "alice".to_owned() })
    );
    assert_eq!(
        server_stop("alice", Some(Err(transport(true)))),
        Err(CliError::ServerNotRunning { user_id: "alice".to_owned() })
    );
    assert_eq!(
        server_stop("alice", Some(Err(transport(false)))),
        Err(CliError::ControlTransport(transport(false)))
    );
    assert_eq!(
        server_stop("alice", Some(Ok(refusal()))),
        Err(CliError::Arguments("server reported error: no".to_owned()))
    );
    assert_eq!(
        server_status("alice", Some(Ok(shutdown(true)))),
        Err(CliError::Arguments("unexpected response to health check request".to_owned()))
    );
}

#[test]
fn status_prints_what_the_server_says() {
    let health = RunnerControlResponse::HealthStatus(RunnerControlHealthStatus {
        user_id: "alice".to_owned(),
        healthy: true,
        sandbox_tier: SandboxTier::MicroVm,
        startup_status: StartupStatusReport {
            sandbox_tier: SandboxTier::MicroVm,
            sidecar_available: true,
            shell_available: true,
            browser_available: false,
            degraded_reasons: vec![StartupDegradedReason::new(
                StartupDegradedReasonCode::SidecarUnavailable,
                "why",
            )],
        },
        shell_available: true,
        browser_available: false,
        shutdown: false,
        message: None,
        log_dir: Some("/logs".to_owned()),
        runtime_pid: Some(42),
        runtime_container_name: None,
    });
    assert_eq!(
        server_status("alice", Some(Ok(health))),
        Ok(words(&[
            "user_id=alice",
            "healthy=true",
            "sandbox_tier=MicroVm",
            "shell_available=true",
            "browser_available=false",
            "sidecar_available=true",
            "shutdown=false",
            "log_dir=/logs",
            "runtime_pid=42",
            "degraded_reason=SidecarUnavailable:why",
        ]))
    );
}

#[test]
fn a_restart_goes_on_whatever_happens() {
    assert_eq!(
        server_restart(Ok(shutdown(false))),
        RestartNotice::Said("stopped previous server for user `alice`".to_owned())
    );
    assert_eq!(
        server_restart(Ok(refusal())),
        RestartNotice::Warned(
            "warning: shutdown reported error: no; proceeding with restart".to_owned()
        )
    );
    assert_eq!(server_restart(Err(transport(true))), RestartNotice::Nothing);
    assert_eq!(
        server_restart(Err(transport(false))),
        RestartNotice::Warned(
            "warning: could not connect to running server: runner control transport failure: \
             broken; proceeding with restart"
                .to_owned()
        )
    );
    assert_eq!(wait_for_socket_removal(false, 99999), SocketWait::Gone);
    assert_eq!(wait_for_socket_removal(true, 9999), SocketWait::Again);
    assert_eq!(wait_for_socket_removal(true, 10000), SocketWait::Remove);
    assert_eq!(socket_removed(false, "alice", "/s"), Ok(()));
    assert_eq!(
        socket_removed(true, "alice", "/s").expect_err("still there").to_text(),
        "timed out waiting for server to stop for user `alice`; the control socket at `/s` \
         still exists after 10s"
    );
}

#[test]
fn the_gateway_is_waited_for() {
    assert_eq!(
        wait_for_gateway_endpoint("/ipc", Some(" ws://x/ws \n"), 0),
        EndpointWait::Found("ws://x/ws".to_owned())
    );
    assert_eq!(wait_for_gateway_endpoint("/ipc", Some("  "), 29999), EndpointWait::Again);
    assert_eq!(
        wait_for_gateway_endpoint("/ipc", None, 30000),
        EndpointWait::TimedOut(CliError::GatewayEndpointTimeout {
            path: "/ipc/gateway-endpoint".to_owned(),
            timeout_secs: 30,
        })
    );
}

#[test]
fn a_probe_prints_its_connection() {
    let connection = RunnerTuiConnection {
        user_id: "alice".to_owned(),
        workspace: UserWorkspace::under("/w/alice".to_owned()),
        gateway_endpoint: "ws://x/ws".to_owned(),
        session_id: "s1".to_owned(),
    };
    assert_eq!(
        connection_lines(&connection),
        words(&[
            "mode=tui",
            "user_id=alice",
            "gateway_endpoint=ws://x/ws",
            "session_id=s1",
            "workspace_root=/w/alice",
        ])
    );
}

#[test]
fn errors_of_the_runner_read_as_they_are() {
    let error = CliError::Runner(RunnerError::UnknownUser { user_id: "bob".to_owned() });
    assert_eq!(error.to_text(), "unknown runner user `bob`");
    let timeout = CliError::GatewayEndpointTimeout { path: "/p".to_owned(), timeout_secs: 30 };
    assert_eq!(
        timeout.to_text(),
        "timed out waiting for gateway endpoint marker at `/p` after 30s; the oxydra-vm process \
         may not have started correctly"
    );
}

fn vm(parts: &[&str]) -> OxydraVmArgs {
    OxydraVmArgs::try_parse_from(words(parts), None).expect("args should parse")
}

#[test]
fn vm_args_parse_required_fields() {
    let args = vm(&["oxydra-vm", "--user-id", "alice", "--workspace-root", "/tmp/workspace"]);
    assert_eq!(args.user_id, "alice");
    assert_eq!(args.workspace_root, "/tmp/workspace");
    assert!(!args.bootstrap_stdin);
    assert_eq!(args.gateway_bind, DEFAULT_GATEWAY_BIND_ADDRESS);
}

#[test]
fn vm_args_accept_bootstrap_file_flag() {
    let args = vm(&[
        "oxydra-vm",
        "--user-id",
        "alice",
        "--workspace-root",
        "/tmp/workspace",
        "--bootstrap-file",
        "/run/oxydra/bootstrap",
    ]);
    assert_eq!(args.bootstrap_file.as_deref(), Some("/run/oxydra/bootstrap"));
    assert!(!args.bootstrap_stdin);
}

#[test]
fn vm_args_accept_bootstrap_stdin_flag() {
    let args = vm(&[
        "oxydra-vm",
        "--user-id",
        "alice",
        "--workspace-root",
        "/tmp/workspace",
        "--bootstrap-stdin",
    ]);
    assert!(args.bootstrap_stdin);
    assert_eq!(bootstrap_source(&args), Ok(BootstrapSource::Stdin));
}

#[test]
fn vm_args_need_their_required_fields() {
    assert!(OxydraVmArgs::try_parse_from(words(&["oxydra-vm", "--user-id", "a"]), None).is_err());
    assert!(
        OxydraVmArgs::try_parse_from(words(&["oxydra-vm", "--workspace-root", "/w"]), None)
            .is_err()
    );
}

#[test]
fn a_variable_names_the_bootstrap_file_where_no_option_does() {
    let given = ["oxydra-vm", "--user-id", " ", "--workspace-root", "/w"];
    let args = OxydraVmArgs::try_parse_from(words(&given), Some("/from/env".to_owned()))
        .expect("args should parse");
    assert_eq!(args.bootstrap_file.as_deref(), Some("/from/env"));
    assert_eq!(bootstrap_source(&args), Err(VmError::InvalidUserId));
    let args = OxydraVmArgs { user_id: "a".to_owned(), ..args };
    assert_eq!(bootstrap_source(&args), Ok(BootstrapSource::File("/from/env".to_owned())));
    let args = OxydraVmArgs { bootstrap_file: None, ..args };
    assert_eq!(bootstrap_source(&args), Ok(BootstrapSource::Nowhere));
}
