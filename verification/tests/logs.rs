use oxydra::browser::{
    apply_browser_shell_overlay, bridge_token_of, build_browser_env, generate_bridge_token,
    ShellConfig,
};
use oxydra::clock::{rfc3339, system_time_to_rfc3339};
use oxydra::logs::{
    extract_timestamp, log_tail, logs_answer, parse_since_threshold, reads_as_timestamp,
    since_threshold, strip_timestamp, GuestLogs, LogFormat, LogRole, LogStream,
    RunnerControlLogsRequest,
};

#[test]
fn extract_timestamp_parses_docker_timestamp() {
    let line = "2026-03-01T10:55:12.123456789Z some log message";
    let ts = extract_timestamp(line);
    assert_eq!(ts, Some("2026-03-01T10:55:12.123456789Z".to_owned()));
}

#[test]
fn extract_timestamp_returns_none_for_plain_text() {
    let ts = extract_timestamp("just a plain log line");
    assert_eq!(ts, None);
}

#[test]
fn strip_timestamp_removes_docker_timestamp() {
    let line = "2026-03-01T10:55:12Z gateway bind failed";
    let msg = strip_timestamp(line);
    assert_eq!(msg, "gateway bind failed");
}

#[test]
fn strip_timestamp_preserves_plain_text() {
    let line = "no timestamp here";
    let msg = strip_timestamp(line);
    assert_eq!(msg, "no timestamp here");
}

#[test]
fn parse_since_threshold_handles_duration_shorthand() {
    let result = parse_since_threshold("15m");
    assert!(result.is_some(), "15m should parse as duration");
    let ts = result.unwrap();
    assert!(ts.contains('T'), "result should be RFC 3339 format: {ts}");
}

#[test]
fn parse_since_threshold_handles_rfc3339() {
    let result = parse_since_threshold("2026-03-01T10:00:00Z");
    assert_eq!(result, Some("2026-03-01T10:00:00Z".to_owned()));
}

#[test]
fn parse_since_threshold_returns_none_for_empty() {
    assert_eq!(parse_since_threshold(""), None);
}

#[test]
fn parse_since_threshold_returns_none_for_invalid() {
    assert_eq!(parse_since_threshold("abc"), None);
}

#[test]
fn later_times_sort_later() {
    let times = [0, 59, 60, 3_599, 3_600, 86_399, 86_400, 951_782_399, 951_782_400, 4_107_542_400];
    for pair in times.windows(2) {
        assert!(rfc3339(pair[0]) < rfc3339(pair[1]), "{} then {}", pair[0], pair[1]);
    }
    assert!(rfc3339(253_402_300_799) > rfc3339(253_402_300_800));
}

#[test]
fn system_time_to_rfc3339_formats_unix_epoch() {
    let epoch = std::time::UNIX_EPOCH;
    let result = system_time_to_rfc3339(epoch);
    assert_eq!(result, "1970-01-01T00:00:00Z");
}

#[test]
fn times_are_written_by_the_calendar() {
    assert_eq!(rfc3339(951_782_400), "2000-02-29T00:00:00Z");
    assert_eq!(rfc3339(1_772_362_512), "2026-03-01T10:55:12Z");
    assert_eq!(rfc3339(4_107_542_400), "2100-03-01T00:00:00Z");
    assert_eq!(rfc3339(4_107_542_399), "2100-02-28T23:59:59Z");
    assert_eq!(rfc3339(253_402_300_799), "9999-12-31T23:59:59Z");
    assert_eq!(rfc3339(253_402_300_800), "10000-01-01T00:00:00Z");
    let later = std::time::UNIX_EPOCH + std::time::Duration::from_millis(86_399_999);
    assert_eq!(system_time_to_rfc3339(later), "1970-01-01T23:59:59Z");
    let before = std::time::UNIX_EPOCH - std::time::Duration::from_secs(1);
    assert_eq!(system_time_to_rfc3339(before), "1970-01-01T00:00:00Z");
}

#[test]
fn spans_count_back_from_now() {
    assert_eq!(since_threshold("90s", 90), Some("1970-01-01T00:00:00Z".to_owned()));
    assert_eq!(since_threshold(" 15m ", 86_400), Some("1970-01-01T23:45:00Z".to_owned()));
    assert_eq!(since_threshold("2h", 86_400), Some("1970-01-01T22:00:00Z".to_owned()));
    assert_eq!(since_threshold("1d", 5), Some("1970-01-01T00:00:00Z".to_owned()));
    assert_eq!(
        since_threshold("18446744073709551615d", 5),
        Some("1970-01-01T00:00:00Z".to_owned())
    );
    assert_eq!(since_threshold("18446744073709551616d", 5), None);
    assert_eq!(since_threshold("+5m", 86_400), None);
    assert_eq!(since_threshold("m", 86_400), None);
    assert_eq!(since_threshold("5w", 86_400), None);
}

#[test]
fn timestamps_are_told_from_other_words() {
    assert!(reads_as_timestamp("2026-03-01T10:55:12Z"));
    assert!(reads_as_timestamp("2026-03-01T10:55:12.5+02:00"));
    assert!(!reads_as_timestamp("2026-03-01T10:55:12"));
    assert!(!reads_as_timestamp("2026-03-01T10:55:12.Z"));
    assert!(!reads_as_timestamp("2026-03-01 10:55:12Z"));
    assert!(!reads_as_timestamp("2026-03-01T10:55:12.5+02:0"));
    assert_eq!(strip_timestamp("2026-03-01T10:55:12Z"), "");
}

#[test]
fn read_log_file_tail_returns_last_n_lines() {
    let mut content = String::new();
    for i in 0..20 {
        content.push_str(&format!("line {i}\n"));
    }
    let (lines, truncated) = log_tail(&content, 5, None);
    assert_eq!(lines.len(), 5);
    assert!(truncated, "should be truncated when there are more lines than requested");
    assert_eq!(lines[0], "line 15");
    assert_eq!(lines[4], "line 19");
}

#[test]
fn read_log_file_tail_skips_empty_lines() {
    let (lines, truncated) = log_tail("line one\n\n\nline two\n\n", 100, None);
    assert_eq!(lines.len(), 2);
    assert!(!truncated);
    assert_eq!(lines[0], "line one");
    assert_eq!(lines[1], "line two");
}

#[test]
fn read_log_file_tail_with_since_filter() {
    let content = "\
2026-03-01T09:00:00Z old line\n\
2026-03-01T10:00:00Z new line one\n\
2026-03-01T11:00:00Z new line two\n";
    let (lines, _) = log_tail(content, 100, Some("2026-03-01T10:00:00Z"));
    assert_eq!(lines.len(), 2);
    assert!(lines[0].contains("new line one"));
    assert!(lines[1].contains("new line two"));
}

fn request(role: LogRole, stream: LogStream, tail: Option<usize>) -> RunnerControlLogsRequest {
    RunnerControlLogsRequest { role, stream, tail, since: None, format: LogFormat::Text }
}

fn guest(stdout: &str, stderr: &str) -> Option<GuestLogs> {
    Some(GuestLogs { stdout: Some(stdout.to_owned()), stderr: Some(stderr.to_owned()) })
}

#[test]
fn without_a_tail_all_lines_are_returned() {
    let logs = logs_answer(
        &request(LogRole::Sidecar, LogStream::Both, None),
        Some("2026-03-01T10:00:00Z"),
        guest("2026-03-01T09:00:00Z old\nplain\r\n", "2026-03-01T12:00:00Z new\n"),
    );
    let messages: Vec<&str> = logs.entries.iter().map(|e| e.message.as_str()).collect();
    assert_eq!(messages, vec!["plain", "new"]);
    assert!(!logs.truncated);
    assert_eq!(logs.entries[0].source, "shell-vm");
}

#[test]
fn generate_bridge_token_produces_hex_string() {
    let token = generate_bridge_token();
    assert!(!token.is_empty(), "token should not be empty");
    assert!(
        token.len() >= 32,
        "token should be at least 32 characters, got {}",
        token.len()
    );
    assert!(
        token.chars().all(|c| c.is_ascii_hexdigit()),
        "token should contain only hex characters, got: {token}"
    );
}

#[test]
fn generate_bridge_token_produces_unique_values() {
    let t1 = generate_bridge_token();
    let t2 = generate_bridge_token();
    assert_ne!(t1, t2, "two consecutive tokens should differ");
    assert_eq!(bridge_token_of("12ab-34cd-"), "12ab34cd");
}

#[test]
fn build_browser_env_returns_expected_vars() {
    let (env_vars, pinchtab_url) = build_browser_env(9867, "test-token-abc");
    assert_eq!(pinchtab_url, "http://127.0.0.1:9867");
    assert!(env_vars.contains(&"BROWSER_ENABLED=true".to_owned()));
    assert!(env_vars.contains(&"BRIDGE_PORT=9867".to_owned()));
    assert!(env_vars.contains(&"BRIDGE_BIND=127.0.0.1".to_owned()));
    assert!(env_vars.contains(&"BRIDGE_TOKEN=test-token-abc".to_owned()));
    assert!(env_vars.contains(&"BRIDGE_HEADLESS=true".to_owned()));
    assert!(env_vars.contains(&"CHROME_BINARY=/usr/bin/chromium".to_owned()));
    assert!(env_vars.contains(&"CHROME_FLAGS=--no-sandbox".to_owned()));
}

#[test]
fn apply_browser_shell_overlay_adds_required_commands() {
    let mut config = ShellConfig::default();
    apply_browser_shell_overlay(&mut config);
    let allow = config.allow.expect("allow should be set");
    assert!(allow.contains(&"curl".to_owned()));
    assert!(allow.contains(&"jq".to_owned()));
    assert!(allow.contains(&"sleep".to_owned()));
    assert_eq!(config.allow_operators, Some(true));
}

#[test]
fn apply_browser_shell_overlay_does_not_duplicate_existing_commands() {
    let mut config = ShellConfig {
        allow: Some(vec!["curl".to_owned(), "git".to_owned()]),
        allow_operators: Some(true),
        ..Default::default()
    };
    apply_browser_shell_overlay(&mut config);
    let allow = config.allow.expect("allow should be set");
    let curl_count = allow.iter().filter(|c| c.as_str() == "curl").count();
    assert_eq!(curl_count, 1, "curl should not be duplicated");
    assert!(allow.contains(&"jq".to_owned()));
    assert!(allow.contains(&"sleep".to_owned()));
    assert!(allow.contains(&"git".to_owned()), "existing entries preserved");
}

#[test]
fn apply_browser_shell_overlay_preserves_existing_deny_and_replace_defaults() {
    let mut config = ShellConfig {
        allow: Some(vec!["npm".to_owned()]),
        deny: Some(vec!["rm".to_owned()]),
        replace_defaults: Some(true),
        allow_operators: Some(false),
        env_keys: Some(vec!["MY_KEY".to_owned()]),
    };
    apply_browser_shell_overlay(&mut config);
    assert_eq!(config.deny.as_ref().unwrap(), &["rm"]);
    assert_eq!(config.replace_defaults, Some(true));
    assert_eq!(config.allow_operators, Some(true));
    assert_eq!(config.env_keys.as_ref().unwrap(), &["MY_KEY"]);
    let allow = config.allow.unwrap();
    assert!(allow.contains(&"npm".to_owned()));
    assert!(allow.contains(&"curl".to_owned()));
}
