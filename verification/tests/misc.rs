use ahandd::config::{
    default_approval_timeout, default_server_url, Config, ConnectionMode, OpenClawConfig, PolicyConfig,
};
use ahandd::display::{format_list, humanize_duration};
use ahandd::executor::{envelope_for, has_cwd, has_timeout, make_event_envelope, new_msg_id};
use ahandd::gateway::{
    base_hash_matches, format_command, format_trimmed, normalize_exec_approvals, override_allowed,
    redact_exec_approvals, sanitize_env, shell_escape_join, truncate_output, try_truncate_output, AllowlistEntry,
    ExecApprovalsFile, InvokeError,
};
use ahandd::store::{trace_record, Direction};
use ahandd::text::{chars_of, concat2, concat3, decimal_string, join_strings, same_text, string_of};
use ahandd::wire::{describe_payload, Envelope, Hello, JobEvent, JobEventKind, JobRequest, Payload, PolicyQuery};

fn base_config() -> Config {
    Config {
        mode: None,
        server_url: default_server_url(),
        device_id: None,
        max_concurrent_jobs: None,
        data_dir: None,
        debug_ipc: None,
        ipc_socket_path: None,
        ipc_socket_mode: None,
        trust_timeout_mins: None,
        policy: PolicyConfig::default(),
        openclaw: None,
    }
}

#[test]
fn config_defaults() {
    let c = base_config();
    assert_eq!(c.server_url, "ws://localhost:3000/ws");
    assert_eq!(c.connection_mode(), ConnectionMode::AHandCloud);
    assert_eq!(c.ipc_socket_mode(), 0o660);
    assert_eq!(c.max_jobs(), 8);
    assert_eq!(c.device_id("generated".to_string()), "generated");
    assert_eq!(c.openclaw_config(), OpenClawConfig::default());
    assert_eq!(c.policy.approval_timeout_secs, 86400);
    assert_eq!(default_approval_timeout(), 86400);
    assert_eq!(ConnectionMode::default(), ConnectionMode::AHandCloud);
}

#[test]
fn config_values_win_over_defaults() {
    let mut c = base_config();
    c.mode = Some("OpenClaw-Gateway".to_string());
    c.device_id = Some("dev-1".to_string());
    c.ipc_socket_mode = Some(0o600);
    c.max_concurrent_jobs = Some(2);
    let mut oc = OpenClawConfig::default();
    oc.gateway_host = Some("127.0.0.1".to_string());
    oc.gateway_port = Some(18789);
    c.openclaw = Some(oc.clone());
    assert_eq!(c.connection_mode(), ConnectionMode::OpenClawGateway);
    assert_eq!(c.device_id("generated".to_string()), "dev-1");
    assert_eq!(c.ipc_socket_mode(), 0o600);
    assert_eq!(c.max_jobs(), 2);
    assert_eq!(c.openclaw_config(), oc);
}

#[test]
fn connection_mode_names() {
    assert_eq!(ConnectionMode::from_str("openclaw"), ConnectionMode::OpenClawGateway);
    assert_eq!(ConnectionMode::from_str("OPENCLAW"), ConnectionMode::OpenClawGateway);
    assert_eq!(ConnectionMode::from_str("ahand-cloud"), ConnectionMode::AHandCloud);
    assert_eq!(ConnectionMode::from_str(""), ConnectionMode::AHandCloud);
    assert_eq!(ConnectionMode::from_lowercase("OPENCLAW"), ConnectionMode::AHandCloud);
}

#[test]
fn durations_for_people() {
    assert_eq!(humanize_duration(0), "0s");
    assert_eq!(humanize_duration(59), "59s");
    assert_eq!(humanize_duration(60), "1m");
    assert_eq!(humanize_duration(3599), "59m");
    assert_eq!(humanize_duration(3600), "1h");
    assert_eq!(humanize_duration(3900), "1h 5m");
    assert_eq!(humanize_duration(86400), "1d");
    assert_eq!(humanize_duration(86400 * 2 + 3 * 3600 + 59), "2d 3h");
}

#[test]
fn lists_for_people() {
    assert_eq!(format_list(&Vec::new()), "(none)");
    assert_eq!(format_list(&vec!["a".to_string()]), "a");
    assert_eq!(format_list(&vec!["a".to_string(), "b".to_string()]), "a, b");
}

#[test]
fn text_helpers() {
    assert_eq!(string_of(&chars_of("héllo")), "héllo");
    assert_eq!(concat2("ab", "cd"), "abcd");
    assert_eq!(concat3("a", "", "c"), "ac");
    assert_eq!(decimal_string(0), "0");
    assert_eq!(decimal_string(1090), "1090");
    assert_eq!(decimal_string(u64::MAX), "18446744073709551615");
    assert_eq!(join_strings(&vec!["".to_string(), "x".to_string(), "".to_string()], "|"), "|x|");
    assert!(same_text("é", "é"));
    assert!(!same_text("a", "ab"));
}

#[test]
fn message_ids_and_envelopes() {
    assert_eq!(new_msg_id("d", 0), "d-0");
    assert_eq!(new_msg_id("ipc", 17), "ipc-17");
    let hello = Hello {
        version: "1".to_string(),
        hostname: "h".to_string(),
        os: "linux".to_string(),
        capabilities: vec!["exec".to_string()],
        last_ack: 4,
    };
    let env = envelope_for("dev", "hello-0".to_string(), 5, Payload::Hello(hello.clone()));
    assert_eq!(
        env,
        Envelope {
            device_id: "dev".to_string(),
            msg_id: "hello-0".to_string(),
            ts_ms: 5,
            seq: 0,
            ack: 0,
            payload: Some(Payload::Hello(hello)),
        }
    );
    assert_eq!(describe_payload(&env), "Hello");
    let out = make_event_envelope("dev", "J", Some(vec![1]), Some(vec![2]), "d-1".to_string(), 6);
    assert_eq!(
        out.payload,
        Some(Payload::JobEvent(JobEvent { job_id: "J".to_string(), event: Some(JobEventKind::StdoutChunk(vec![1])) }))
    );
    let err = make_event_envelope("dev", "J", None, Some(vec![2]), "d-2".to_string(), 6);
    assert_eq!(
        err.payload,
        Some(Payload::JobEvent(JobEvent { job_id: "J".to_string(), event: Some(JobEventKind::StderrChunk(vec![2])) }))
    );
    let none = make_event_envelope("dev", "J", None, None, "d-3".to_string(), 6);
    assert_eq!(none.payload, Some(Payload::JobEvent(JobEvent { job_id: "J".to_string(), event: None })));
    assert_eq!(describe_payload(&none), "JobEvent");
}

#[test]
fn trace_records_name_direction_and_payload() {
    let env = Envelope {
        device_id: "dev".to_string(),
        msg_id: "m1".to_string(),
        ts_ms: 9,
        seq: 3,
        ack: 2,
        payload: Some(Payload::PolicyQuery(PolicyQuery {})),
    };
    let r = trace_record(&env, Direction::Inbound);
    assert_eq!(
        (r.ts_ms, r.direction.as_str(), r.device_id.as_str(), r.msg_id.as_str(), r.seq, r.ack, r.payload.as_str()),
        (9, "in", "dev", "m1", 3, 2, "PolicyQuery")
    );
    assert_eq!(Direction::Outbound.as_str(), "out");
    let empty = Envelope { payload: None, ..env };
    assert_eq!(trace_record(&empty, Direction::Outbound).payload, "none");
}

#[test]
fn request_options() {
    let mut req = JobRequest {
        job_id: "J".to_string(),
        tool: "t".to_string(),
        args: Vec::new(),
        cwd: String::new(),
        env: Vec::new(),
        timeout_ms: 0,
    };
    assert!(!has_timeout(&req));
    assert!(!has_cwd(&req));
    req.timeout_ms = 1;
    req.cwd = "/".to_string();
    assert!(has_timeout(&req));
    assert!(has_cwd(&req));
    assert_eq!(req.duplicate(), req);
}

#[test]
fn invoke_errors_have_codes() {
    assert_eq!(InvokeError::new("X", "m"), InvokeError { code: "X".to_string(), message: "m".to_string() });
    assert_eq!(InvokeError::invalid_request("m").code, "INVALID_REQUEST");
    assert_eq!(InvokeError::unavailable("m").code, "UNAVAILABLE");
    assert_eq!(InvokeError::timeout("m").code, "TIMEOUT");
    assert_eq!(InvokeError::timeout("m").message, "m");
}

#[test]
fn approvals_file_is_normalized() {
    let entry = |p: &str| AllowlistEntry { pattern: p.to_string(), agent_id: None, last_used_ms: Some(1), use_count: None };
    let file = ExecApprovalsFile {
        version: None,
        security: Some("s".to_string()),
        ask: None,
        allowlist: Some(vec![entry("ls *"), entry(""), entry("git *")]),
        auto_allow_skills: Some(true),
    };
    let out = normalize_exec_approvals(file.clone());
    assert_eq!(out.version, Some(1));
    assert_eq!(out.security, Some("s".to_string()));
    assert_eq!(out.allowlist, Some(vec![entry("ls *"), entry("git *")]));
    assert_eq!(out.auto_allow_skills, Some(true));
    let kept = normalize_exec_approvals(ExecApprovalsFile { version: Some(7), allowlist: None, ..file.clone() });
    assert_eq!(kept.version, Some(7));
    assert_eq!(kept.allowlist, None);
    assert_eq!(redact_exec_approvals(file.clone()), file);
}

#[test]
fn base_hash_guards_an_existing_file() {
    assert!(base_hash_matches(false, "abc", &None));
    assert!(base_hash_matches(true, "abc", &Some("abc".to_string())));
    assert!(!base_hash_matches(true, "abc", &Some("abd".to_string())));
    assert!(!base_hash_matches(true, "abc", &None));
}

#[test]
fn shell_words_are_quoted_where_needed() {
    let argv = |items: &[&str]| items.iter().map(|s| s.to_string()).collect::<Vec<String>>();
    assert_eq!(shell_escape_join(&argv(&["echo", "hi"])), "echo hi");
    assert_eq!(shell_escape_join(&argv(&["echo", "hi there"])), "echo 'hi there'");
    assert_eq!(shell_escape_join(&argv(&["echo", "it's"])), "echo 'it'\\''s'");
    assert_eq!(shell_escape_join(&argv(&["echo", ""])), "echo ''");
    assert_eq!(shell_escape_join(&argv(&[])), "");
    assert_eq!(shell_escape_join(&argv(&["a$b", "c"])), "'a$b' c");
}

#[test]
fn commands_are_shown_trimmed_and_quoted() {
    let argv = |items: &[&str]| items.iter().map(|s| s.to_string()).collect::<Vec<String>>();
    assert_eq!(format_command(&argv(&["echo", " hi ", "a b", "", "say \"x\""])), "echo hi \"a b\" \"\" \"say \\\"x\\\"\"");
    assert_eq!(format_command(&argv(&[])), "");
    assert_eq!(format_command(&argv(&["   "])), "\"\"");
    assert_eq!(format_trimmed(&argv(&[" hi "])), "\" hi \"");
}

#[test]
fn gateway_url_defaults() {
    let mut oc = OpenClawConfig::default();
    assert_eq!(oc.build_url(), "ws://127.0.0.1:18789");
    oc.gateway_tls = Some(false);
    oc.gateway_host = Some("gw.example".to_string());
    oc.gateway_port = Some(443);
    assert_eq!(oc.build_url(), "ws://gw.example:443");
    oc.gateway_tls = Some(true);
    assert_eq!(oc.build_url(), "wss://gw.example:443");
}

#[test]
fn environment_overrides_are_sanitized() {
    let pair = |k: &str, v: &str| (k.to_string(), v.to_string());
    let overrides = vec![
        pair("FOO", "bar"),
        pair("Path", " /opt/bin:/usr/bin "),
        pair("PATH", "/evil"),
        pair("PATH", "   "),
        pair("node_options", "--inspect"),
        pair("LD_PRELOAD", "x.so"),
        pair("dyld_insert_libraries", "x"),
        pair("LDFLAGS", "-L."),
        pair("PATH", "/usr/bin"),
    ];
    assert_eq!(
        sanitize_env(&overrides, "/usr/bin"),
        vec![
            pair("FOO", "bar"),
            pair("Path", " /opt/bin:/usr/bin "),
            pair("LDFLAGS", "-L."),
            pair("PATH", "/usr/bin"),
        ]
    );
    assert!(override_allowed("PATH", "/a:/usr/bin", "/usr/bin"));
    assert!(!override_allowed("PATH", "/a/usr/bin", "/usr/bin"));
    assert!(!override_allowed("PATH", "", "/usr/bin"));
    assert!(override_allowed("path", "anything", "/usr/bin"));
    assert!(!override_allowed("RUBYOPT", "x", ""));
}

#[test]
fn long_output_keeps_its_end() {
    assert_eq!(truncate_output("hello", 5), "hello");
    assert_eq!(truncate_output("hello", 10), "hello");
    assert_eq!(truncate_output("hello world", 5), "... (truncated) world");
    assert_eq!(truncate_output("hello", 0), "... (truncated) ");
    assert_eq!(truncate_output("", 0), "");
    assert_eq!(truncate_output("aé", 2), "... (truncated) é");
    assert_eq!(truncate_output("aé", 3), "aé");
    assert_eq!(try_truncate_output("aé", 2), Some("... (truncated) é".to_string()));
    assert_eq!(try_truncate_output("aé", 1), None);
    assert_eq!(try_truncate_output("aé", 0), Some("... (truncated) ".to_string()));
    assert_eq!(try_truncate_output("hello world", 5), Some("... (truncated) world".to_string()));
}
