use ahandd::config::PolicyConfig;
use ahandd::policy::{
    apply_list_update, decide, extract_domains, host_of_arg, try_extract_ssh_host, PolicyChecker, PolicyDecision,
};
use ahandd::wire::{JobRequest, PolicyUpdate};

fn words(items: &[&str]) -> Vec<String> {
    items.iter().map(|s| s.to_string()).collect()
}

fn request(tool: &str, args: &[&str], cwd: &str) -> JobRequest {
    JobRequest {
        job_id: "J".to_string(),
        tool: tool.to_string(),
        args: words(args),
        cwd: cwd.to_string(),
        env: Vec::new(),
        timeout_ms: 0,
    }
}

fn policy_of(allowed_tools: &[&str], denied_tools: &[&str], denied_paths: &[&str], allowed_domains: &[&str]) -> PolicyConfig {
    PolicyConfig {
        allowed_tools: words(allowed_tools),
        denied_paths: words(denied_paths),
        denied_tools: words(denied_tools),
        allowed_domains: words(allowed_domains),
        approval_timeout_secs: 60,
    }
}

fn empty_update() -> PolicyUpdate {
    PolicyUpdate {
        add_allowed_tools: Vec::new(),
        remove_allowed_tools: Vec::new(),
        add_denied_tools: Vec::new(),
        remove_denied_tools: Vec::new(),
        add_denied_paths: Vec::new(),
        remove_denied_paths: Vec::new(),
        add_allowed_domains: Vec::new(),
        remove_allowed_domains: Vec::new(),
        approval_timeout_secs: 0,
    }
}

#[test]
fn domain_extraction_scenario() {
    let checker = PolicyChecker::new(&policy_of(&["curl"], &[], &[], &["example.com"]));
    let evil = checker.check(&request("curl", &["https://evil.test/path"], ""), "cloud");
    assert_eq!(
        evil,
        PolicyDecision::NeedsApproval {
            reason: "domain(s) evil.test not in allowed domains".to_string(),
            detected_domains: words(&["evil.test"]),
        }
    );
    let good = checker.check(&request("curl", &["https://example.com/path"], ""), "cloud");
    assert_eq!(good, PolicyDecision::Allow);
}

#[test]
fn denied_tool_is_refused_with_quoted_name() {
    let checker = PolicyChecker::new(&policy_of(&["rm"], &["rm"], &[], &[]));
    assert_eq!(
        checker.check(&request("rm", &["-rf", "/"], ""), "cloud"),
        PolicyDecision::Deny("tool \"rm\" is in the deny list".to_string())
    );
}

#[test]
fn denied_path_prefix_is_refused() {
    let checker = PolicyChecker::new(&policy_of(&[], &[], &["/etc"], &[]));
    assert_eq!(
        checker.check(&request("ls", &[], "/etc/ssh"), "cloud"),
        PolicyDecision::Deny("working directory \"/etc/ssh\" is denied by policy".to_string())
    );
    assert_eq!(checker.check(&request("ls", &[], "/home"), "cloud"), PolicyDecision::Allow);
    assert_eq!(checker.check(&request("ls", &[], ""), "cloud"), PolicyDecision::Allow);
}

#[test]
fn tool_outside_the_allow_list_needs_approval() {
    let checker = PolicyChecker::new(&policy_of(&["ls"], &[], &[], &[]));
    assert_eq!(
        checker.check(&request("wget", &["http://a.example/x", "http://a.example/y"], ""), "cloud"),
        PolicyDecision::NeedsApproval {
            reason: "tool wget is not in the allow list".to_string(),
            detected_domains: words(&["a.example"]),
        }
    );
}

#[test]
fn empty_allow_list_is_not_enforced() {
    let checker = PolicyChecker::new(&policy_of(&[], &[], &[], &[]));
    assert_eq!(checker.check(&request("anything", &[], ""), "cloud"), PolicyDecision::Allow);
    assert_eq!(
        checker.check(&request("curl", &["https://evil.test"], ""), "cloud"),
        PolicyDecision::Allow
    );
}

#[test]
fn remembered_approvals_are_per_caller() {
    let mut checker = PolicyChecker::new(&policy_of(&["ls"], &[], &[], &["example.com"]));
    let req = request("curl", &["https://evil.test/a", "https://more.test/b"], "");
    checker.remember_approval("uid:1000", "curl", &words(&["evil.test"]));
    assert_eq!(
        checker.check(&req, "uid:1000"),
        PolicyDecision::NeedsApproval {
            reason: "domain(s) more.test not in allowed domains".to_string(),
            detected_domains: words(&["evil.test", "more.test"]),
        }
    );
    checker.remember_approval("uid:1000", "curl", &words(&["more.test"]));
    assert_eq!(checker.check(&req, "uid:1000"), PolicyDecision::Allow);
    assert!(matches!(checker.check(&req, "cloud"), PolicyDecision::NeedsApproval { .. }));
}

#[test]
fn several_unapproved_domains_are_joined() {
    let cfg = policy_of(&[], &[], &[], &["ok.test"]);
    let d = decide(&cfg, &Vec::new(), "curl", "", words(&["a.test", "ok.test", "b.test"]), "<curl>", "<>");
    assert_eq!(
        d,
        PolicyDecision::NeedsApproval {
            reason: "domain(s) a.test, b.test not in allowed domains".to_string(),
            detected_domains: words(&["a.test", "ok.test", "b.test"]),
        }
    );
    let cfg = policy_of(&["ls"], &["curl"], &[], &[]);
    assert_eq!(
        decide(&cfg, &Vec::new(), "curl", "", Vec::new(), "<curl>", "<>"),
        PolicyDecision::Deny("tool <curl> is in the deny list".to_string())
    );
}

#[test]
fn update_adds_an_item_exactly_once() {
    let mut checker = PolicyChecker::new(&policy_of(&["ls"], &[], &[], &[]));
    let mut update = empty_update();
    update.add_allowed_tools = words(&["git"]);
    checker.apply_update(&update);
    checker.apply_update(&update);
    let state = checker.get_state();
    assert_eq!(state.allowed_tools, words(&["ls", "git"]));
    assert_eq!(state.approval_timeout_secs, 60);
    assert_eq!(checker.config_snapshot().allowed_tools, words(&["ls", "git"]));
}

#[test]
fn update_removes_before_it_adds() {
    let mut checker = PolicyChecker::new(&policy_of(&["a", "b", "c"], &[], &[], &[]));
    let mut update = empty_update();
    update.add_allowed_tools = words(&["b", "d", "d"]);
    update.remove_allowed_tools = words(&["b", "c"]);
    update.add_denied_paths = words(&["/etc"]);
    update.add_allowed_domains = words(&["x.test"]);
    update.add_denied_tools = words(&["rm"]);
    update.approval_timeout_secs = 5;
    checker.apply_update(&update);
    let state = checker.get_state();
    assert_eq!(state.allowed_tools, words(&["a", "b", "d"]));
    assert_eq!(state.denied_paths, words(&["/etc"]));
    assert_eq!(state.allowed_domains, words(&["x.test"]));
    assert_eq!(state.denied_tools, words(&["rm"]));
    assert_eq!(state.approval_timeout_secs, 5);
    assert_eq!(checker.approval_timeout_secs(), 5);
}

#[test]
fn list_update_keeps_existing_duplicates() {
    let mut list = words(&["x", "x", "y"]);
    apply_list_update(&mut list, &words(&["x"]), &Vec::new());
    assert_eq!(list, words(&["x", "x", "y"]));
}

#[test]
fn domains_only_for_network_tools() {
    assert_eq!(extract_domains("ls", &words(&["https://example.com"])), Vec::<String>::new());
    assert_eq!(extract_domains("/usr/bin/curl", &words(&["https://example.com"])), words(&["example.com"]));
    assert_eq!(extract_domains("curl/", &words(&["https://example.com"])), Vec::<String>::new());
}

#[test]
fn domains_by_each_heuristic() {
    assert_eq!(
        extract_domains("git", &words(&["clone", "git@github.com:org/repo.git"])),
        words(&["github.com"])
    );
    assert_eq!(extract_domains("ssh", &words(&["-p", "22", "host.example.org"])), words(&["host.example.org"]));
    assert_eq!(extract_domains("ping", &words(&["-c", "1.5", "a.b"])), words(&["1.5", "a.b"]));
    assert_eq!(extract_domains("curl", &words(&["host.example.org"])), Vec::<String>::new());
    assert_eq!(extract_domains("nc", &words(&["host.example.org:80"])), words(&["host.example.org"]));
    assert_eq!(extract_domains("ssh", &words(&["dir/host.example.org"])), Vec::<String>::new());
    assert_eq!(
        extract_domains("curl", &words(&["https://a.test/1", "--header", "https://A.test/2", "https://b.test"])),
        words(&["a.test", "b.test"])
    );
}

#[test]
fn ssh_host_needs_a_dot() {
    assert_eq!(try_extract_ssh_host("user@host.example:path"), Some("host.example".to_string()));
    assert_eq!(try_extract_ssh_host("user@host.example"), Some("host.example".to_string()));
    assert_eq!(try_extract_ssh_host("user@localhost:path"), None);
    assert_eq!(try_extract_ssh_host("user@:path"), None);
    assert_eq!(try_extract_ssh_host("host.example:path"), None);
    assert_eq!(try_extract_ssh_host("a@b@c.d"), Some("b@c.d".to_string()));
}

#[test]
fn host_of_arg_prefers_the_parsed_url() {
    assert_eq!(host_of_arg("ssh", "-x.y", Some("zz".to_string())), None);
    assert_eq!(host_of_arg("ssh", "u@h.x", Some("zz".to_string())), Some("zz".to_string()));
    assert_eq!(host_of_arg("curl", "u@h.x", None), Some("h.x".to_string()));
    assert_eq!(host_of_arg("dig", "h.x", None), Some("h.x".to_string()));
    assert_eq!(host_of_arg("curl", "h.x", None), None);
    assert_eq!(host_of_arg("dig", "", None), None);
}

#[test]
fn asking_names_the_tool_as_it_is() {
    let cfg = policy_of(&["ls"], &["rm"], &[], &[]);
    assert_eq!(
        decide(&cfg, &Vec::new(), "my \"tool\"", "", Vec::new(), "<shown>", "<>"),
        PolicyDecision::NeedsApproval {
            reason: "tool my \"tool\" is not in the allow list".to_string(),
            detected_domains: Vec::new(),
        }
    );
    let checker = PolicyChecker::new(&cfg);
    assert_eq!(
        checker.check(&request("a b", &[], ""), "cloud"),
        PolicyDecision::NeedsApproval {
            reason: "tool a b is not in the allow list".to_string(),
            detected_domains: Vec::new(),
        }
    );
}
