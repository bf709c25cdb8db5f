use ahandd::approval::ApprovalManager;
use ahandd::wire::{ApprovalResponse, JobRequest, RefusalContext};

fn waiting_job(id: &str) -> JobRequest {
    JobRequest {
        job_id: id.to_string(),
        tool: "/bin/true".to_string(),
        args: vec!["a".to_string()],
        cwd: "/tmp".to_string(),
        env: vec![("K".to_string(), "V".to_string())],
        timeout_ms: 5,
    }
}

fn answer(id: &str, approved: bool) -> ApprovalResponse {
    ApprovalResponse { job_id: id.to_string(), approved, remember: false, reason: String::new() }
}

#[test]
fn submit_builds_the_question() {
    let mut m = ApprovalManager::new(30);
    assert_eq!(m.default_timeout(), 30);
    let refusal = RefusalContext { tool: "/bin/true".to_string(), reason: "no".to_string(), refused_at_ms: 9 };
    let q = m.submit(
        waiting_job("J2"),
        "uid:7",
        "because".to_string(),
        vec!["d.test".to_string()],
        vec![refusal.clone()],
        1_000,
    );
    assert_eq!(q.job_id, "J2");
    assert_eq!(q.tool, "/bin/true");
    assert_eq!(q.args, vec!["a".to_string()]);
    assert_eq!(q.cwd, "/tmp");
    assert_eq!(q.reason, "because");
    assert_eq!(q.detected_domains, vec!["d.test".to_string()]);
    assert_eq!(q.expires_ms, 31_000);
    assert_eq!(q.caller_uid, "uid:7");
    assert_eq!(q.previous_refusals, vec![refusal]);
    assert_eq!(m.list_pending(), vec![q]);
}

#[test]
fn first_response_wins() {
    let mut m = ApprovalManager::new(30);
    m.submit(waiting_job("J2"), "uid:7", String::new(), Vec::new(), Vec::new(), 0);
    let first = m.resolve(&answer("J2", true));
    assert_eq!(first, Some((waiting_job("J2"), "uid:7".to_string())));
    assert_eq!(m.resolve(&answer("J2", false)), None);
    assert!(!m.expire("J2"));
    assert!(m.list_pending().is_empty());
}

#[test]
fn expiry_takes_the_entry() {
    let mut m = ApprovalManager::new(30);
    m.submit(waiting_job("J3"), "cloud", String::new(), Vec::new(), Vec::new(), 0);
    m.submit(waiting_job("J4"), "cloud", String::new(), Vec::new(), Vec::new(), 0);
    assert!(m.expire("J3"));
    assert!(!m.expire("J3"));
    assert_eq!(m.resolve(&answer("J3", true)), None);
    assert_eq!(m.list_pending().len(), 1);
    assert_eq!(m.list_pending()[0].job_id, "J4");
    assert_eq!(m.resolve(&answer("unknown", true)), None);
}

#[test]
fn resubmission_replaces_the_entry() {
    let mut m = ApprovalManager::new(1);
    m.submit(waiting_job("J"), "a", "one".to_string(), Vec::new(), Vec::new(), 0);
    m.submit(waiting_job("J"), "b", "two".to_string(), Vec::new(), Vec::new(), 0);
    assert_eq!(m.list_pending().len(), 1);
    assert_eq!(m.list_pending()[0].reason, "two");
    assert_eq!(m.resolve(&answer("J", true)), Some((waiting_job("J"), "b".to_string())));
}
