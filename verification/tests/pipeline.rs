use ahandd::approval::ApprovalManager;
use ahandd::config::PolicyConfig;
use ahandd::executor::{finish, job_result, step, Reaction, RunEvent, RunOutcome, RunState};
use ahandd::pipeline::{
    admission_step, admit_by_policy, admit_by_session, advance, answer_duplicate, approval_step, conclude_approval,
    outgoing_for,
    finish_job, Admission, ApprovalOutcome, JobPhase, JobStep, Resolution, Terminal,
};
use ahandd::policy::{PolicyChecker, PolicyDecision};
use ahandd::registry::JobRegistry;
use ahandd::session::SessionManager;
use ahandd::wire::{ApprovalResponse, JobFinished, JobRejected, JobRequest, Payload, SessionMode};

fn submitted(id: &str, tool: &str, args: &[&str]) -> JobRequest {
    JobRequest {
        job_id: id.to_string(),
        tool: tool.to_string(),
        args: args.iter().map(|a| a.to_string()).collect(),
        cwd: String::new(),
        env: Vec::new(),
        timeout_ms: 0,
    }
}

fn open_policy() -> PolicyChecker {
    PolicyChecker::new(&PolicyConfig {
        allowed_tools: Vec::new(),
        denied_paths: Vec::new(),
        denied_tools: Vec::new(),
        allowed_domains: Vec::new(),
        approval_timeout_secs: 1,
    })
}

#[test]
fn happy_echo_is_spawned_and_finishes() {
    let mut reg = JobRegistry::new(8);
    let mut sessions = SessionManager::new(60);
    let mut approvals = ApprovalManager::new(1);
    sessions.set_mode("cloud", SessionMode::AutoAccept, 0, 0);
    let req = submitted("J1", "/bin/echo", &["hi"]);
    assert_eq!(admit_by_session(&req, "cloud", 10, &reg, &mut sessions, &mut approvals), Admission::Spawn);
    reg.register("J1".to_string(), 1);
    assert!(reg.acquire_permit());
    let (code, error) = job_result(RunOutcome::Exited(Some(0)));
    assert_eq!((code, error.as_str()), (0, ""));
    let env = finish("dev", "J1", code, &error, "d-0".to_string(), 11);
    assert_eq!(env.seq, 0);
    assert_eq!(env.device_id, "dev");
    assert_eq!(
        env.payload,
        Some(Payload::JobFinished(JobFinished { job_id: "J1".to_string(), exit_code: 0, error: String::new() }))
    );
    finish_job(&mut reg, "J1".to_string(), code, error);
    assert_eq!(reg.active_count(), 0);
}

#[test]
fn idempotent_replay_answers_from_the_cache() {
    let mut reg = JobRegistry::new(8);
    let mut sessions = SessionManager::new(60);
    let mut approvals = ApprovalManager::new(1);
    sessions.set_mode("cloud", SessionMode::AutoAccept, 0, 0);
    let req = submitted("J1", "/bin/echo", &["hi"]);
    reg.register("J1".to_string(), 1);
    assert_eq!(admit_by_session(&req, "cloud", 10, &reg, &mut sessions, &mut approvals), Admission::Ignore);
    finish_job(&mut reg, "J1".to_string(), 0, String::new());
    let replay = Admission::Replay(JobFinished { job_id: "J1".to_string(), exit_code: 0, error: String::new() });
    assert_eq!(admit_by_session(&req, "cloud", 11, &reg, &mut sessions, &mut approvals), replay);
    assert_eq!(admit_by_policy(&req, "uid:1", 11, &reg, &open_policy(), &mut approvals), replay);
    assert_eq!(reg.active_count(), 0);
}

#[test]
fn strict_approval_granted_leads_to_spawn() {
    let reg = JobRegistry::new(8);
    let mut sessions = SessionManager::new(60);
    let mut approvals = ApprovalManager::new(1);
    let mut policy = open_policy();
    sessions.set_mode("cloud", SessionMode::Strict, 0, 0);
    let req = submitted("J2", "/bin/true", &[]);
    let question = match admit_by_session(&req, "cloud", 100, &reg, &mut sessions, &mut approvals) {
        Admission::Ask(q) => q,
        other => panic!("expected a question, got {:?}", other),
    };
    assert_eq!(question.job_id, "J2");
    assert_eq!(question.reason, "strict mode: approval required for /bin/true");
    assert_eq!(question.expires_ms, 1_100);
    assert_eq!(question.caller_uid, "cloud");
    assert_eq!(approvals.list_pending(), vec![question.clone()]);
    let response = ApprovalResponse { job_id: "J2".to_string(), approved: true, remember: false, reason: String::new() };
    assert_eq!(approvals.resolve(&response), Some((req.clone(), "cloud".to_string())));
    let r = conclude_approval(
        ApprovalOutcome::Answered(response),
        &req,
        "cloud",
        &question,
        200,
        &mut sessions,
        &mut policy,
        &mut approvals,
    );
    assert_eq!(r, Resolution::Spawn);
    assert!(sessions.get_refusals("/bin/true", 200).is_empty());
}

#[test]
fn approval_timeout_rejects_without_spawn() {
    let reg = JobRegistry::new(8);
    let mut sessions = SessionManager::new(60);
    let mut approvals = ApprovalManager::new(1);
    let mut policy = open_policy();
    sessions.set_mode("cloud", SessionMode::Strict, 0, 0);
    let req = submitted("J3", "/bin/sleep", &["10"]);
    let question = match admit_by_session(&req, "cloud", 0, &reg, &mut sessions, &mut approvals) {
        Admission::Ask(q) => q,
        other => panic!("expected a question, got {:?}", other),
    };
    let r = conclude_approval(
        ApprovalOutcome::TimedOut,
        &req,
        "cloud",
        &question,
        1_000,
        &mut sessions,
        &mut policy,
        &mut approvals,
    );
    assert_eq!(
        r,
        Resolution::Reject(JobRejected { job_id: "J3".to_string(), reason: "approval timed out".to_string() })
    );
    assert!(approvals.list_pending().is_empty());
    assert_eq!(reg.active_count(), 0);
    let late = ApprovalResponse { job_id: "J3".to_string(), approved: true, remember: false, reason: String::new() };
    assert_eq!(approvals.resolve(&late), None);
}

#[test]
fn denial_with_reason_is_logged() {
    let reg = JobRegistry::new(8);
    let mut sessions = SessionManager::new(60);
    let mut approvals = ApprovalManager::new(1);
    let mut policy = open_policy();
    sessions.set_mode("cloud", SessionMode::Strict, 0, 0);
    let req = submitted("J6", "rm", &[]);
    let question = match admit_by_session(&req, "cloud", 0, &reg, &mut sessions, &mut approvals) {
        Admission::Ask(q) => q,
        other => panic!("expected a question, got {:?}", other),
    };
    let denied = ApprovalResponse { job_id: "J6".to_string(), approved: false, remember: true, reason: "no way".to_string() };
    let r = conclude_approval(
        ApprovalOutcome::Answered(denied),
        &req,
        "cloud",
        &question,
        50,
        &mut sessions,
        &mut policy,
        &mut approvals,
    );
    assert_eq!(
        r,
        Resolution::Reject(JobRejected { job_id: "J6".to_string(), reason: "approval denied: no way".to_string() })
    );
    let refusals = sessions.get_refusals("rm", 60);
    assert_eq!(refusals.len(), 1);
    assert_eq!(refusals[0].reason, "no way");
    assert_eq!(refusals[0].refused_at_ms, 50);
    let silent = ApprovalResponse { job_id: "J6".to_string(), approved: false, remember: false, reason: String::new() };
    let r = conclude_approval(
        ApprovalOutcome::Answered(silent),
        &req,
        "cloud",
        &question,
        70,
        &mut sessions,
        &mut policy,
        &mut approvals,
    );
    assert_eq!(
        r,
        Resolution::Reject(JobRejected { job_id: "J6".to_string(), reason: "approval denied".to_string() })
    );
    assert_eq!(sessions.get_refusals("rm", 80).len(), 1);
}

#[test]
fn approval_with_remember_opens_the_policy() {
    let reg = JobRegistry::new(8);
    let mut sessions = SessionManager::new(60);
    let mut approvals = ApprovalManager::new(1);
    let mut policy = PolicyChecker::new(&PolicyConfig {
        allowed_tools: vec!["ls".to_string()],
        denied_paths: Vec::new(),
        denied_tools: Vec::new(),
        allowed_domains: vec!["example.com".to_string()],
        approval_timeout_secs: 1,
    });
    let req = submitted("J7", "curl", &["https://evil.test/x"]);
    let question = match admit_by_policy(&req, "uid:5", 0, &reg, &policy, &mut approvals) {
        Admission::Ask(q) => q,
        other => panic!("expected a question, got {:?}", other),
    };
    assert_eq!(question.reason, "tool curl is not in the allow list");
    assert_eq!(question.detected_domains, vec!["evil.test".to_string()]);
    let yes = ApprovalResponse { job_id: "J7".to_string(), approved: true, remember: true, reason: String::new() };
    let r = conclude_approval(
        ApprovalOutcome::Answered(yes),
        &req,
        "uid:5",
        &question,
        10,
        &mut sessions,
        &mut policy,
        &mut approvals,
    );
    assert_eq!(r, Resolution::Spawn);
    assert_eq!(policy.check(&req, "uid:5"), PolicyDecision::Allow);
    let again = submitted("J8", "curl", &["https://evil.test/y"]);
    assert_eq!(admit_by_policy(&again, "uid:5", 20, &reg, &policy, &mut approvals), Admission::Spawn);
}

#[test]
fn policy_gate_rejects_denied_tools() {
    let reg = JobRegistry::new(8);
    let mut approvals = ApprovalManager::new(1);
    let policy = PolicyChecker::new(&PolicyConfig {
        allowed_tools: Vec::new(),
        denied_paths: Vec::new(),
        denied_tools: vec!["rm".to_string()],
        allowed_domains: Vec::new(),
        approval_timeout_secs: 1,
    });
    assert_eq!(
        admit_by_policy(&submitted("J9", "rm", &[]), "uid:5", 0, &reg, &policy, &mut approvals),
        Admission::Reject(JobRejected { job_id: "J9".to_string(), reason: "tool \"rm\" is in the deny list".to_string() })
    );
    assert!(approvals.list_pending().is_empty());
}

#[test]
fn session_gate_rejects_inactive_callers() {
    let reg = JobRegistry::new(8);
    let mut sessions = SessionManager::new(60);
    let mut approvals = ApprovalManager::new(1);
    assert_eq!(
        admit_by_session(&submitted("J", "ls", &[]), "cloud", 0, &reg, &mut sessions, &mut approvals),
        Admission::Reject(JobRejected { job_id: "J".to_string(), reason: "session not activated".to_string() })
    );
}

#[test]
fn cancel_racing_ends_with_cancelled() {
    let mut reg = JobRegistry::new(8);
    reg.register("J4".to_string(), 4);
    assert!(reg.acquire_permit());
    assert_eq!(reg.cancel("J4"), Some(4));
    let (code, error) = job_result(RunOutcome::Cancelled);
    assert_eq!((code, error.as_str()), (-1, "cancelled"));
    finish_job(&mut reg, "J4".to_string(), code, error);
    assert_eq!(reg.cancel("J4"), None);
}

#[test]
fn every_outcome_has_its_result() {
    assert_eq!(job_result(RunOutcome::TimedOut), (-1, "timeout".to_string()));
    assert_eq!(job_result(RunOutcome::SpawnFailed("no such file".to_string())), (-1, "no such file".to_string()));
    assert_eq!(job_result(RunOutcome::WaitFailed("gone".to_string())), (-1, "gone".to_string()));
    assert_eq!(job_result(RunOutcome::Exited(Some(3))), (3, String::new()));
    assert_eq!(job_result(RunOutcome::Exited(None)), (-1, String::new()));
}

#[test]
fn a_job_emits_one_terminal_envelope() {
    let (p, t) = advance(JobPhase::Received, JobStep::Asked);
    assert_eq!((p, t), (JobPhase::AwaitingApproval, Terminal::Nothing));
    let (p, t) = advance(p, JobStep::Approved);
    assert_eq!((p, t), (JobPhase::Accepted, Terminal::Nothing));
    let (p, t) = advance(p, JobStep::Denied);
    assert_eq!((p, t), (JobPhase::Accepted, Terminal::Nothing));
    let (p, t) = advance(p, JobStep::Executed);
    assert_eq!((p, t), (JobPhase::Done, Terminal::JobFinished));
    let (p, t) = advance(p, JobStep::Executed);
    assert_eq!((p, t), (JobPhase::Done, Terminal::Nothing));
    assert_eq!(advance(JobPhase::Received, JobStep::FoundRunning), (JobPhase::Done, Terminal::Nothing));
    assert_eq!(advance(JobPhase::Received, JobStep::FoundCompleted), (JobPhase::Done, Terminal::JobFinished));
    assert_eq!(advance(JobPhase::Received, JobStep::Refused), (JobPhase::Done, Terminal::JobRejected));
    assert_eq!(advance(JobPhase::Received, JobStep::Admitted), (JobPhase::Accepted, Terminal::Nothing));
    assert_eq!(advance(JobPhase::AwaitingApproval, JobStep::ApprovalTimedOut), (JobPhase::Done, Terminal::JobRejected));
    assert_eq!(advance(JobPhase::AwaitingApproval, JobStep::Denied), (JobPhase::Done, Terminal::JobRejected));
    assert_eq!(advance(JobPhase::AwaitingApproval, JobStep::Executed), (JobPhase::AwaitingApproval, Terminal::Nothing));
}

#[test]
fn a_run_reports_its_end_after_the_output() {
    let (s, r) = step(RunState::Idle, RunEvent::Spawned);
    assert_eq!(s, RunState::Running { stdout_open: true, stderr_open: true });
    assert_eq!(r, Reaction { kill: false, chunk: None, finish: None });
    let (s, r) = step(s, RunEvent::Chunk { from_stdout: true, data: b"hi\n".to_vec() });
    assert_eq!(r.chunk, Some((true, b"hi\n".to_vec())));
    let (s, r) = step(s, RunEvent::Exited(Some(0)));
    assert_eq!(s, RunState::Draining { stdout_open: true, stderr_open: true, outcome: RunOutcome::Exited(Some(0)) });
    assert_eq!(r.finish, None);
    let (s, r) = step(s, RunEvent::Chunk { from_stdout: false, data: vec![1] });
    assert_eq!(r.chunk, Some((false, vec![1])));
    let (s, r) = step(s, RunEvent::ReaderClosed { from_stdout: false });
    assert_eq!(r.finish, None);
    let (s, r) = step(s, RunEvent::CancelRequested);
    assert_eq!(r, Reaction { kill: false, chunk: None, finish: None });
    let (s, r) = step(s, RunEvent::ReaderClosed { from_stdout: true });
    assert_eq!(s, RunState::Finished);
    assert_eq!(r, Reaction { kill: false, chunk: None, finish: Some(RunOutcome::Exited(Some(0))) });
    let (s, r) = step(s, RunEvent::Chunk { from_stdout: true, data: vec![2] });
    assert_eq!(s, RunState::Finished);
    assert_eq!(r, Reaction { kill: false, chunk: None, finish: None });
}

#[test]
fn timeout_and_cancel_kill_the_child_once() {
    let running = RunState::Running { stdout_open: true, stderr_open: false };
    let (s, r) = step(running.clone(), RunEvent::TimedOut);
    assert_eq!(s, RunState::Draining { stdout_open: true, stderr_open: false, outcome: RunOutcome::TimedOut });
    assert_eq!(r, Reaction { kill: true, chunk: None, finish: None });
    let (s, r) = step(s, RunEvent::CancelRequested);
    assert!(!r.kill);
    let (s, r) = step(s, RunEvent::ReaderClosed { from_stdout: true });
    assert_eq!(s, RunState::Finished);
    assert_eq!(r.finish, Some(RunOutcome::TimedOut));
    let closed = RunState::Running { stdout_open: false, stderr_open: false };
    let (s, r) = step(closed, RunEvent::CancelRequested);
    assert_eq!(s, RunState::Finished);
    assert_eq!(r, Reaction { kill: true, chunk: None, finish: Some(RunOutcome::Cancelled) });
    let (s, r) = step(RunState::Idle, RunEvent::SpawnFailed("enoent".to_string()));
    assert_eq!(s, RunState::Finished);
    assert_eq!(r.finish, Some(RunOutcome::SpawnFailed("enoent".to_string())));
    let (s, r) = step(RunState::Idle, RunEvent::TimedOut);
    assert_eq!((s, r.kill), (RunState::Idle, false));
    let (_, r) = step(running, RunEvent::WaitFailed("gone".to_string()));
    assert_eq!(r, Reaction { kill: false, chunk: None, finish: None });
}

#[test]
fn admissions_and_answers_are_steps_of_the_job() {
    let finished = JobFinished { job_id: "J".to_string(), exit_code: 0, error: String::new() };
    let rejected = JobRejected { job_id: "J".to_string(), reason: "no".to_string() };
    assert_eq!(admission_step(&Admission::Ignore), JobStep::FoundRunning);
    assert_eq!(admission_step(&Admission::Replay(finished)), JobStep::FoundCompleted);
    assert_eq!(admission_step(&Admission::Reject(rejected)), JobStep::Refused);
    assert_eq!(admission_step(&Admission::Spawn), JobStep::Admitted);
    let yes = ApprovalResponse { job_id: "J".to_string(), approved: true, remember: false, reason: String::new() };
    let no = ApprovalResponse { job_id: "J".to_string(), approved: false, remember: false, reason: String::new() };
    assert_eq!(approval_step(&ApprovalOutcome::Answered(yes)), JobStep::Approved);
    assert_eq!(approval_step(&ApprovalOutcome::Answered(no)), JobStep::Denied);
    assert_eq!(approval_step(&ApprovalOutcome::TimedOut), JobStep::ApprovalTimedOut);
    let (phase, terminal) = advance(JobPhase::Received, admission_step(&Admission::Spawn));
    assert_eq!((phase, terminal), (JobPhase::Accepted, Terminal::Nothing));
    assert_eq!(advance(phase, approval_step(&ApprovalOutcome::TimedOut)), (JobPhase::Accepted, Terminal::Nothing));
}

#[test]
fn asking_is_a_step_too() {
    let reg = JobRegistry::new(1);
    let mut sessions = SessionManager::new(60);
    let mut approvals = ApprovalManager::new(1);
    sessions.set_mode("cloud", SessionMode::Strict, 0, 0);
    let a = admit_by_session(&submitted("J", "my \"tool\"", &[]), "cloud", 0, &reg, &mut sessions, &mut approvals);
    assert_eq!(admission_step(&a), JobStep::Asked);
    match a {
        Admission::Ask(q) => assert_eq!(q.reason, "strict mode: approval required for my \"tool\""),
        other => panic!("expected a question, got {:?}", other),
    }
}

#[test]
fn duplicates_are_answered_without_any_gate() {
    let mut reg = JobRegistry::new(1);
    let req = submitted("J", "ls", &[]);
    assert_eq!(answer_duplicate(&reg, &req), None);
    reg.register("J".to_string(), 1);
    assert_eq!(answer_duplicate(&reg, &req), Some(Admission::Ignore));
    finish_job(&mut reg, "J".to_string(), 7, "late".to_string());
    assert_eq!(
        answer_duplicate(&reg, &req),
        Some(Admission::Replay(JobFinished { job_id: "J".to_string(), exit_code: 7, error: "late".to_string() }))
    );
}

#[test]
fn many_chunks_pass_in_the_order_read() {
    let mut state = step(RunState::Idle, RunEvent::Spawned).0;
    let mut passed = Vec::new();
    let mut finished = Vec::new();
    let events = vec![
        RunEvent::Chunk { from_stdout: true, data: b"h".to_vec() },
        RunEvent::Chunk { from_stdout: false, data: b"e1".to_vec() },
        RunEvent::Chunk { from_stdout: true, data: b"i".to_vec() },
        RunEvent::ReaderClosed { from_stdout: false },
        RunEvent::Exited(Some(0)),
        RunEvent::Chunk { from_stdout: true, data: b"\n".to_vec() },
        RunEvent::ReaderClosed { from_stdout: true },
        RunEvent::Chunk { from_stdout: true, data: b"late".to_vec() },
    ];
    for event in events {
        let (next, reaction) = step(state, event);
        state = next;
        assert!(!reaction.kill);
        if let Some(chunk) = reaction.chunk {
            assert!(finished.is_empty());
            passed.push(chunk);
        }
        if let Some(outcome) = reaction.finish {
            finished.push(job_result(outcome));
        }
    }
    assert_eq!(
        passed,
        vec![(true, b"h".to_vec()), (false, b"e1".to_vec()), (true, b"i".to_vec()), (true, b"\n".to_vec())]
    );
    assert_eq!(finished, vec![(0, String::new())]);
    assert_eq!(state, RunState::Finished);
}

#[test]
fn questions_go_to_the_operators_too() {
    let reg = JobRegistry::new(1);
    let mut sessions = SessionManager::new(60);
    let mut approvals = ApprovalManager::new(1);
    sessions.set_mode("cloud", SessionMode::Strict, 0, 0);
    let ask = admit_by_session(&submitted("J2", "/bin/true", &[]), "cloud", 5, &reg, &mut sessions, &mut approvals);
    let out = outgoing_for("dev", "d-1".to_string(), 6, &ask);
    assert!(out.to_operators);
    let envelope = out.reply.expect("a question goes out");
    assert_eq!((envelope.device_id.as_str(), envelope.msg_id.as_str(), envelope.ts_ms, envelope.seq), ("dev", "d-1", 6, 0));
    match (&ask, &envelope.payload) {
        (Admission::Ask(q), Some(Payload::ApprovalRequest(sent))) => {
            assert_eq!(sent, q);
            assert_eq!(sent.job_id, "J2");
            assert_eq!(sent.tool, "/bin/true");
        }
        other => panic!("expected a question, got {:?}", other),
    }
    let rejected = JobRejected { job_id: "J".to_string(), reason: "no".to_string() };
    let out = outgoing_for("dev", "d-2".to_string(), 7, &Admission::Reject(rejected.clone()));
    assert!(!out.to_operators);
    assert_eq!(out.reply.and_then(|e| e.payload), Some(Payload::JobRejected(rejected)));
    let finished = JobFinished { job_id: "J".to_string(), exit_code: 3, error: "e".to_string() };
    let out = outgoing_for("dev", "d-3".to_string(), 7, &Admission::Replay(finished.clone()));
    assert_eq!(out.reply.and_then(|e| e.payload), Some(Payload::JobFinished(finished)));
    assert_eq!(outgoing_for("dev", "d-4".to_string(), 7, &Admission::Spawn).reply, None);
    let ignored = outgoing_for("dev", "d-5".to_string(), 7, &Admission::Ignore);
    assert_eq!((ignored.reply, ignored.to_operators), (None, false));
}
