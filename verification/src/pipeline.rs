//! The consent pipeline: what becomes of a job request, from its arrival to
//! its terminal envelope.
//!
//! The functions here decide; the caller performs what they decide (sends
//! envelopes, starts the child, waits for an answer) and comes back with what
//! happened.

use vstd::prelude::*;
use crate::approval::{approval_for, ApprovalManager, PendingView};
use crate::outbox::Outbox;
use crate::policy::{remembered_after, verdict, PolicyChecker, PolicyDecision, Verdict};
use crate::registry::{completed_ids, known, CompletedView, IsKnown, JobRegistry, Known, MAX_COMPLETED};
use crate::executor::new_msg_id;
use crate::session::{
    check_outcome, live, refusals_of, reported_expiry, session_after_check, session_set, CallerSession, Outcome,
    RefusalEntryView, SessionDecision, SessionManager, MAX_NOW_MS, MAX_TRUST_MINS, REFUSAL_TTL_MS,
};
use crate::text::{concat2, decimal, keep_last, strs};
use crate::wire::{
    ApprovalRequest, ApprovalResponse, Envelope, Hello, JobFinished, JobRejected, JobRequest, Payload, RefusalView,
    SessionMode, SessionQuery, SessionState, SetSessionMode,
};

verus! {

/// What becomes of a job request on arrival.
#[derive(Clone, Debug, PartialEq, Eq)]
pub enum Admission {
    /// The job already runs: the request is dropped.
    Ignore,
    /// The job already finished: its result is sent again.
    Replay(JobFinished),
    /// The job is refused.
    Reject(JobRejected),
    /// The job waits for the user's answer to this question.
    Ask(ApprovalRequest),
    /// The job is to be started.
    Spawn,
}

/// The sessions after a check for `caller` at `now_ms`.
pub open spec fn sessions_after_check(
    sessions: Map<Seq<char>, CallerSession>,
    caller: Seq<char>,
    now_ms: u64,
) -> Map<Seq<char>, CallerSession> {
    if sessions.contains_key(caller) {
        sessions.insert(caller, session_after_check(sessions[caller], now_ms))
    } else {
        sessions
    }
}

/// What the session gate makes of a request for a job the registry does not
/// know.
pub open spec fn session_gate(
    req: crate::wire::JobRequestView,
    caller: Seq<char>,
    session: Option<CallerSession>,
    log: Seq<RefusalEntryView>,
    timeout_secs: u64,
    now_ms: u64,
    a: Admission,
) -> bool {
    match check_outcome(session, now_ms) {
        Outcome::Allow => a is Spawn,
        Outcome::NotActivated => a matches Admission::Reject(j) && j.job_id@ == req.job_id && j.reason@
            == "session not activated"@,
        Outcome::TrustExpired => a matches Admission::Reject(j) && j.job_id@ == req.job_id && j.reason@
            == "trust expired"@,
        Outcome::Ask => a matches Admission::Ask(q) && q@ == approval_for(
            req,
            caller,
            "strict mode: approval required for "@ + req.tool,
            Seq::empty(),
            refusals_of(live(log, now_ms), req.tool),
            (now_ms + timeout_secs * 1000) as u64,
        ),
    }
}

/// What the policy gate makes of a request for a job the registry does not
/// know.
pub open spec fn policy_gate(
    req: crate::wire::JobRequestView,
    caller: Seq<char>,
    v: Verdict,
    timeout_secs: u64,
    now_ms: u64,
    a: Admission,
) -> bool {
    match v {
        Verdict::Allow => a is Spawn,
        Verdict::Deny(reason) => a matches Admission::Reject(j) && j.job_id@ == req.job_id && j.reason@ == reason,
        Verdict::NeedsApproval { reason, detected_domains } => a matches Admission::Ask(q) && q@ == approval_for(
            req,
            caller,
            reason,
            detected_domains,
            Seq::empty(),
            (now_ms + timeout_secs * 1000) as u64,
        ),
    }
}

/// What the registry alone makes of a request: nothing if the job is
/// unknown, else the answer to a duplicate.
pub open spec fn duplicate_answer(k: Known, job_id: Seq<char>, a: Admission) -> bool {
    match k {
        Known::Running => a is Ignore,
        Known::Completed { exit_code, error } => a matches Admission::Replay(f) && f.job_id@ == job_id
            && f.exit_code == exit_code && f.error@ == error,
        Known::Unknown => true,
    }
}

/// The waiting jobs after an admission.
pub open spec fn pending_after(pending: Map<Seq<char>, PendingView>, req: JobRequest, caller: Seq<char>, a: Admission) -> Map<
    Seq<char>,
    PendingView,
> {
    match a {
        Admission::Ask(q) => pending.insert(
            req@.job_id,
            PendingView { request: req@, caller_uid: caller, approval_request: q@ },
        ),
        _ => pending,
    }
}

/// The idempotency check, which comes before every gate: a job that runs is
/// ignored, a job whose result is cached is answered from the cache, and for
/// a job the registry does not know there is no answer yet. The registry is
/// only read.
pub fn answer_duplicate(registry: &JobRegistry, req: &JobRequest) -> (a: Option<Admission>)
    requires
        registry.wf(),
    ensures
        a is None <==> known(registry.running(), registry.completed(), req@.job_id) is Unknown,
        a is Some ==> duplicate_answer(
            known(registry.running(), registry.completed(), req@.job_id),
            req@.job_id,
            a->0,
        ),
{
    match registry.is_known(req.job_id.as_str()) {
        IsKnown::Running => Some(Admission::Ignore),
        IsKnown::Completed(c) => Some(
            Admission::Replay(JobFinished { job_id: req.job_id.clone(), exit_code: c.exit_code, error: c.error }),
        ),
        IsKnown::Unknown => None,
    }
}

/// What goes out when a request was admitted.
#[derive(Clone, Debug, PartialEq, Eq)]
pub struct Outgoing {
    /// The envelope for the channel on which the request came.
    pub reply: Option<Envelope>,
    /// Whether the same envelope also goes to every operator.
    pub to_operators: bool,
}

/// Whether `payload` is what an admission has the requester told: the cached
/// result, the rejection, the question, or nothing.
pub open spec fn tells(a: Admission, payload: Option<Payload>) -> bool {
    match a {
        Admission::Ignore => payload is None,
        Admission::Spawn => payload is None,
        Admission::Replay(f) => match payload {
            Some(Payload::JobFinished(g)) => g.job_id@ == f.job_id@ && g.exit_code == f.exit_code && g.error@
                == f.error@,
            _ => false,
        },
        Admission::Reject(r) => match payload {
            Some(Payload::JobRejected(q)) => q.job_id@ == r.job_id@ && q.reason@ == r.reason@,
            _ => false,
        },
        Admission::Ask(q) => match payload {
            Some(Payload::ApprovalRequest(p)) => p@ == q@,
            _ => false,
        },
    }
}

/// The envelopes that an admission sends. A replay and a rejection go to the
/// requester alone and are the job's terminal envelope; a question goes to
/// the requester and to every operator; a job that runs already, or that is
/// to be started now, has nothing sent.
pub fn outgoing_for(device_id: &str, msg_id: String, ts_ms: u64, admission: &Admission) -> (o: Outgoing)
    ensures
        o.to_operators == (*admission is Ask),
        o.reply is Some <==> !(*admission is Ignore || *admission is Spawn),
        (o.reply is Some && !o.to_operators) <==> !(terminal_of_admission(*admission) is Nothing),
        match o.reply {
            Some(e) => e.device_id@ == device_id@ && e.msg_id == msg_id && e.ts_ms == ts_ms && e.seq == 0 && e.ack
                == 0 && tells(*admission, e.payload),
            None => true,
        },
{
    let payload = match admission {
        Admission::Ignore => None,
        Admission::Spawn => None,
        Admission::Replay(f) => Some(
            Payload::JobFinished(
                JobFinished { job_id: f.job_id.clone(), exit_code: f.exit_code, error: f.error.clone() },
            ),
        ),
        Admission::Reject(r) => Some(
            Payload::JobRejected(JobRejected { job_id: r.job_id.clone(), reason: r.reason.clone() }),
        ),
        Admission::Ask(q) => Some(Payload::ApprovalRequest(q.duplicate())),
    };
    let to_operators = match admission {
        Admission::Ask(_) => true,
        _ => false,
    };
    match payload {
        Some(p) => Outgoing {
            reply: Some(Envelope { device_id: device_id.to_string(), msg_id, ts_ms, seq: 0, ack: 0, payload: Some(p) }),
            to_operators,
        },
        None => Outgoing { reply: None, to_operators },
    }
}

/// Admits a request through the idempotency check and the session gate.
///
/// A job the registry knows is answered from the registry and nothing
/// changes. Otherwise the caller's session decides: the request is refused,
/// is to be started, or waits for approval, in which case it is entered with
/// the approval manager.
pub fn admit_by_session(
    req: &JobRequest,
    caller_uid: &str,
    now_ms: u64,
    registry: &JobRegistry,
    sessions: &mut SessionManager,
    approvals: &mut ApprovalManager,
) -> (a: Admission)
    requires
        registry.wf(),
        old(sessions).wf(),
        old(approvals).wf(),
        known(registry.running(), registry.completed(), req@.job_id) is Unknown ==> now_ms <= MAX_NOW_MS,
    ensures
        final(sessions).wf(),
        final(approvals).wf(),
        final(approvals).timeout_secs() == old(approvals).timeout_secs(),
        final(sessions).default_timeout() == old(sessions).default_timeout(),
        duplicate_answer(known(registry.running(), registry.completed(), req@.job_id), req@.job_id, a),
        a is Spawn ==> known(registry.running(), registry.completed(), req@.job_id) is Unknown,
        a is Ask ==> known(registry.running(), registry.completed(), req@.job_id) is Unknown,
        !(known(registry.running(), registry.completed(), req@.job_id) is Unknown) ==> final(sessions).sessions()
            == old(sessions).sessions() && final(sessions).log() == old(sessions).log() && final(approvals).pending() == old(approvals).pending(),
        known(registry.running(), registry.completed(), req@.job_id) is Unknown ==> {
            &&& session_gate(
                req@,
                caller_uid@,
                old(sessions).session_of(caller_uid@),
                old(sessions).log(),
                old(approvals).timeout_secs(),
                now_ms,
                a,
            )
            &&& final(sessions).sessions() == sessions_after_check(old(sessions).sessions(), caller_uid@, now_ms)
            &&& final(sessions).log() == (if a is Ask {
                live(old(sessions).log(), now_ms)
            } else {
                old(sessions).log()
            })
            &&& final(approvals).pending() == pending_after(old(approvals).pending(), *req, caller_uid@, a)
        },
{
    match answer_duplicate(registry, req) {
        Some(a) => {
            return a;
        },
        None => {},
    }
    match sessions.check(req, caller_uid, now_ms) {
        SessionDecision::Allow => Admission::Spawn,
        SessionDecision::Deny(reason) => Admission::Reject(JobRejected { job_id: req.job_id.clone(), reason }),
        SessionDecision::NeedsApproval { reason, previous_refusals } => {
            let none: Vec<String> = Vec::new();
            assert(strs(none@) =~= Seq::<Seq<char>>::empty());
            let question = approvals.submit(req.duplicate(), caller_uid, reason, none, previous_refusals, now_ms);
            Admission::Ask(question)
        },
    }
}

/// Admits a request through the idempotency check and the policy gate.
///
/// A job the registry knows is answered from the registry and nothing
/// changes. Otherwise the policy decides: the request is refused, is to be
/// started, or waits for approval, in which case it is entered with the
/// approval manager.
pub fn admit_by_policy(
    req: &JobRequest,
    caller_uid: &str,
    now_ms: u64,
    registry: &JobRegistry,
    policy: &PolicyChecker,
    approvals: &mut ApprovalManager,
) -> (a: Admission)
    requires
        registry.wf(),
        policy.wf(),
        old(approvals).wf(),
        known(registry.running(), registry.completed(), req@.job_id) is Unknown ==> now_ms <= MAX_NOW_MS,
    ensures
        final(approvals).wf(),
        final(approvals).timeout_secs() == old(approvals).timeout_secs(),
        duplicate_answer(known(registry.running(), registry.completed(), req@.job_id), req@.job_id, a),
        a is Spawn ==> known(registry.running(), registry.completed(), req@.job_id) is Unknown,
        a is Ask ==> known(registry.running(), registry.completed(), req@.job_id) is Unknown,
        !(known(registry.running(), registry.completed(), req@.job_id) is Unknown) ==> final(approvals).pending()
            == old(approvals).pending(),
        known(registry.running(), registry.completed(), req@.job_id) is Unknown ==> {
            &&& policy_gate(
                req@,
                caller_uid@,
                verdict(policy.config(), policy.remembered(caller_uid@), req@.tool, req@.cwd, req@.args),
                old(approvals).timeout_secs(),
                now_ms,
                a,
            )
            &&& final(approvals).pending() == pending_after(old(approvals).pending(), *req, caller_uid@, a)
        },
{
    match answer_duplicate(registry, req) {
        Some(a) => {
            return a;
        },
        None => {},
    }
    match policy.check(req, caller_uid) {
        PolicyDecision::Allow => Admission::Spawn,
        PolicyDecision::Deny(reason) => Admission::Reject(JobRejected { job_id: req.job_id.clone(), reason }),
        PolicyDecision::NeedsApproval { reason, detected_domains } => {
            let none: Vec<crate::wire::RefusalContext> = Vec::new();
            assert(crate::wire::refusals(none@) =~= Seq::<RefusalView>::empty());
            let question = approvals.submit(req.duplicate(), caller_uid, reason, detected_domains, none, now_ms);
            Admission::Ask(question)
        },
    }
}

/// How the wait for an approval ended.
#[derive(Clone, Debug, PartialEq, Eq)]
pub enum ApprovalOutcome {
    /// The user answered.
    Answered(ApprovalResponse),
    /// No answer came in time.
    TimedOut,
}

/// What becomes of a job after the wait for its approval.
#[derive(Clone, Debug, PartialEq, Eq)]
pub enum Resolution {
    /// The job is to be started.
    Spawn,
    /// The job is refused.
    Reject(JobRejected),
}

/// The reason given for a job that was not approved.
pub open spec fn refusal_reason(outcome: ApprovalOutcome) -> Seq<char> {
    match outcome {
        ApprovalOutcome::TimedOut => "approval timed out"@,
        ApprovalOutcome::Answered(resp) => if resp.reason@.len() == 0 {
            "approval denied"@
        } else {
            "approval denied: "@ + resp.reason@
        },
    }
}

/// Whether the outcome is a denial that gives a reason, which is logged.
pub open spec fn logs_refusal(outcome: ApprovalOutcome) -> bool {
    match outcome {
        ApprovalOutcome::Answered(resp) => !resp.approved && resp.reason@.len() > 0,
        ApprovalOutcome::TimedOut => false,
    }
}

/// Whether the outcome lets the job run.
pub open spec fn is_approved(outcome: ApprovalOutcome) -> bool {
    outcome matches ApprovalOutcome::Answered(resp) && resp.approved
}

/// Concludes the wait for an approval.
///
/// Approved: the job is to be started, and the tool and the detected domains
/// are remembered for the caller if the answer asks for it. Denied: the
/// refusal is logged if it gives a reason, and the job is refused. Timed out:
/// the job is refused. In the last two cases the job no longer waits.
pub fn conclude_approval(
    outcome: ApprovalOutcome,
    req: &JobRequest,
    caller_uid: &str,
    question: &ApprovalRequest,
    now_ms: u64,
    sessions: &mut SessionManager,
    policy: &mut PolicyChecker,
    approvals: &mut ApprovalManager,
) -> (r: Resolution)
    requires
        old(sessions).wf(),
        old(policy).wf(),
        old(approvals).wf(),
        logs_refusal(outcome) ==> now_ms <= MAX_NOW_MS,
    ensures
        final(sessions).wf(),
        final(policy).wf(),
        final(approvals).wf(),
        final(approvals).timeout_secs() == old(approvals).timeout_secs(),
        final(sessions).sessions() == old(sessions).sessions(),
        final(sessions).default_timeout() == old(sessions).default_timeout(),
        final(policy).config() == old(policy).config(),
        forall|c: Seq<char>| c != caller_uid@ ==> final(policy).remembered(c) == old(policy).remembered(c),
        r is Spawn <==> next_phase(JobPhase::AwaitingApproval, step_of_approval(outcome)).0 == JobPhase::Accepted,
        r is Reject <==> next_phase(JobPhase::AwaitingApproval, step_of_approval(outcome)).1 is JobRejected,
        is_approved(outcome) ==> {
            &&& r is Spawn
            &&& final(approvals).pending() == old(approvals).pending()
            &&& final(sessions).log() == old(sessions).log()
            &&& final(policy).remembered(caller_uid@) == (if outcome->Answered_0.remember {
                remembered_after(old(policy).remembered(caller_uid@), req@.tool, question@.detected_domains)
            } else {
                old(policy).remembered(caller_uid@)
            })
        },
        !is_approved(outcome) ==> {
            &&& r matches Resolution::Reject(j) && j.job_id@ == req@.job_id && j.reason@ == refusal_reason(outcome)
            &&& final(approvals).pending() == old(approvals).pending().remove(req@.job_id)
            &&& final(policy).remembered(caller_uid@) == old(policy).remembered(caller_uid@)
            &&& final(sessions).log() == (match outcome {
                ApprovalOutcome::Answered(resp) => if resp.reason@.len() > 0 {
                    old(sessions).log().push(
                        RefusalEntryView {
                            tool: req@.tool,
                            reason: resp.reason@,
                            expires_at: (now_ms + REFUSAL_TTL_MS) as u64,
                            refused_at_ms: now_ms,
                        },
                    )
                } else {
                    old(sessions).log()
                },
                ApprovalOutcome::TimedOut => old(sessions).log(),
            })
        },
{
    match outcome {
        ApprovalOutcome::Answered(resp) => {
            if resp.approved {
                if resp.remember {
                    policy.remember_approval(caller_uid, req.tool.as_str(), question.detected_domains.as_slice());
                }
                Resolution::Spawn
            } else {
                let reason = if resp.reason.as_str().unicode_len() > 0 {
                    sessions.record_refusal(caller_uid, req.tool.as_str(), resp.reason.as_str(), now_ms);
                    concat2("approval denied: ", resp.reason.as_str())
                } else {
                    "approval denied".to_string()
                };
                let _ = approvals.expire(req.job_id.as_str());
                Resolution::Reject(JobRejected { job_id: req.job_id.clone(), reason })
            }
        },
        ApprovalOutcome::TimedOut => {
            let _ = approvals.expire(req.job_id.as_str());
            Resolution::Reject(JobRejected { job_id: req.job_id.clone(), reason: "approval timed out".to_string() })
        },
    }
}

/// Books the end of a run: the permit comes back, the job leaves the running
/// table and its result is remembered.
pub fn finish_job(registry: &mut JobRegistry, job_id: String, exit_code: i32, error: String)
    requires
        old(registry).wf(),
    ensures
        final(registry).wf(),
        final(registry).limit() == old(registry).limit(),
        final(registry).in_flight() == (if old(registry).in_flight() > 0 {
            old(registry).in_flight() - 1
        } else {
            0
        }),
        final(registry).running() == old(registry).running().remove(job_id@),
        final(registry).completed() == keep_last(
            old(registry).completed().push(CompletedView { job_id: job_id@, exit_code, error: error@ }),
            MAX_COMPLETED as int,
        ),
        known(final(registry).running(), final(registry).completed(), job_id@) is Completed,
{
    registry.release_permit();
    registry.remove(job_id.as_str());
    proof {
        lemma_finished_job_is_known(registry.running(), registry.completed(), job_id@, exit_code, error@);
    }
    registry.mark_completed(job_id, exit_code, error);
}

/// A job that was taken out of the running table and whose result was
/// remembered is known as completed.
pub proof fn lemma_finished_job_is_known(
    running: Map<Seq<char>, u64>,
    completed: Seq<CompletedView>,
    job_id: Seq<char>,
    exit_code: i32,
    error: Seq<char>,
)
    ensures
        known(
            running.remove(job_id),
            keep_last(completed.push(CompletedView { job_id, exit_code, error }), MAX_COMPLETED as int),
            job_id,
        ) is Completed,
{
    let pushed = completed.push(CompletedView { job_id, exit_code, error });
    let kept = keep_last(pushed, MAX_COMPLETED as int);
    assert(kept.len() > 0);
    assert(kept[kept.len() - 1] == pushed[pushed.len() - 1]);
    assert(completed_ids(kept)[kept.len() - 1] == job_id);
    assert(completed_ids(kept).contains(job_id));
}

/// A job that the registry knows, running or completed, is never started
/// again: its request is dropped or answered from the cache.
pub proof fn lemma_known_job_is_not_started(k: Known, job_id: Seq<char>, a: Admission)
    requires
        !(k is Unknown),
        duplicate_answer(k, job_id, a),
    ensures
        !(a is Spawn),
        !(a is Ask),
{
}

// ── One job, from arrival to its terminal envelope ──────────────────────

/// Where a job request stands.
#[derive(Clone, Copy, Debug, PartialEq, Eq, Structural)]
pub enum JobPhase {
    /// Arrived, not yet admitted.
    Received,
    /// Waits for the user's answer.
    AwaitingApproval,
    /// Registered: waits for a permit or runs.
    Accepted,
    /// Nothing more happens.
    Done,
}

/// What happens to a job request.
#[derive(Clone, Copy, Debug, PartialEq, Eq, Structural)]
pub enum JobStep {
    /// Admission found the job running already.
    FoundRunning,
    /// Admission found the job's result in the cache.
    FoundCompleted,
    /// Admission refused the job.
    Refused,
    /// Admission asked the user.
    Asked,
    /// Admission let the job through.
    Admitted,
    /// The user approved.
    Approved,
    /// The user denied.
    Denied,
    /// The user did not answer in time.
    ApprovalTimedOut,
    /// The executor returned.
    Executed,
}

/// The terminal envelope a step emits, if any.
#[derive(Clone, Copy, Debug, PartialEq, Eq, Structural)]
pub enum Terminal {
    Nothing,
    JobFinished,
    JobRejected,
}

/// The phase after a step, and what the step emits. A step that does not fit
/// the phase changes nothing and emits nothing.
pub open spec fn next_phase(phase: JobPhase, step: JobStep) -> (JobPhase, Terminal) {
    match (phase, step) {
        (JobPhase::Received, JobStep::FoundRunning) => (JobPhase::Done, Terminal::Nothing),
        (JobPhase::Received, JobStep::FoundCompleted) => (JobPhase::Done, Terminal::JobFinished),
        (JobPhase::Received, JobStep::Refused) => (JobPhase::Done, Terminal::JobRejected),
        (JobPhase::Received, JobStep::Asked) => (JobPhase::AwaitingApproval, Terminal::Nothing),
        (JobPhase::Received, JobStep::Admitted) => (JobPhase::Accepted, Terminal::Nothing),
        (JobPhase::AwaitingApproval, JobStep::Approved) => (JobPhase::Accepted, Terminal::Nothing),
        (JobPhase::AwaitingApproval, JobStep::Denied) => (JobPhase::Done, Terminal::JobRejected),
        (JobPhase::AwaitingApproval, JobStep::ApprovalTimedOut) => (JobPhase::Done, Terminal::JobRejected),
        (JobPhase::Accepted, JobStep::Executed) => (JobPhase::Done, Terminal::JobFinished),
        _ => (phase, Terminal::Nothing),
    }
}

/// The step that an admission amounts to.
pub open spec fn step_of_admission(a: Admission) -> JobStep {
    match a {
        Admission::Ignore => JobStep::FoundRunning,
        Admission::Replay(_) => JobStep::FoundCompleted,
        Admission::Reject(_) => JobStep::Refused,
        Admission::Ask(_) => JobStep::Asked,
        Admission::Spawn => JobStep::Admitted,
    }
}

/// The step that the end of a wait for approval amounts to.
pub open spec fn step_of_approval(outcome: ApprovalOutcome) -> JobStep {
    match outcome {
        ApprovalOutcome::TimedOut => JobStep::ApprovalTimedOut,
        ApprovalOutcome::Answered(resp) => if resp.approved {
            JobStep::Approved
        } else {
            JobStep::Denied
        },
    }
}

/// The phase after a run of steps.
pub open spec fn phase_after(phase: JobPhase, steps: Seq<JobStep>) -> JobPhase
    decreases steps.len(),
{
    if steps.len() == 0 {
        phase
    } else {
        next_phase(phase_after(phase, steps.drop_last()), steps.last()).0
    }
}

/// Number of terminal envelopes a run of steps emits.
pub open spec fn terminals_emitted(phase: JobPhase, steps: Seq<JobStep>) -> nat
    decreases steps.len(),
{
    if steps.len() == 0 {
        0
    } else {
        terminals_emitted(phase, steps.drop_last()) + (if next_phase(
            phase_after(phase, steps.drop_last()),
            steps.last(),
        ).1 is Nothing {
            0nat
        } else {
            1nat
        })
    }
}

/// Whether a run of steps found the job running already.
pub open spec fn dropped_as_duplicate(steps: Seq<JobStep>) -> bool {
    steps.len() > 0 && phase_after(JobPhase::Received, steps) == JobPhase::Done && terminals_emitted(
        JobPhase::Received,
        steps,
    ) == 0
}

/// The terminal envelope that an admission calls for.
pub open spec fn terminal_of_admission(a: Admission) -> Terminal {
    match a {
        Admission::Replay(_) => Terminal::JobFinished,
        Admission::Reject(_) => Terminal::JobRejected,
        _ => Terminal::Nothing,
    }
}

/// The step that an admission amounts to in the life of its job. A replay
/// emits the job's one `JobFinished`, a rejection its one `JobRejected`, and
/// every other admission emits no terminal envelope.
pub fn admission_step(a: &Admission) -> (s: JobStep)
    ensures
        s == step_of_admission(*a),
        next_phase(JobPhase::Received, s).1 == terminal_of_admission(*a),
        next_phase(JobPhase::Received, s).0 == (match *a {
            Admission::Ask(_) => JobPhase::AwaitingApproval,
            Admission::Spawn => JobPhase::Accepted,
            _ => JobPhase::Done,
        }),
{
    match a {
        Admission::Ignore => JobStep::FoundRunning,
        Admission::Replay(_) => JobStep::FoundCompleted,
        Admission::Reject(_) => JobStep::Refused,
        Admission::Ask(_) => JobStep::Asked,
        Admission::Spawn => JobStep::Admitted,
    }
}

/// The step that the end of a wait for approval amounts to in the life of
/// its job: an approval lets the job go on without a terminal envelope,
/// anything else ends it with its one `JobRejected`.
pub fn approval_step(outcome: &ApprovalOutcome) -> (s: JobStep)
    ensures
        s == step_of_approval(*outcome),
        next_phase(JobPhase::AwaitingApproval, s) == (if is_approved(*outcome) {
            (JobPhase::Accepted, Terminal::Nothing)
        } else {
            (JobPhase::Done, Terminal::JobRejected)
        }),
{
    match outcome {
        ApprovalOutcome::TimedOut => JobStep::ApprovalTimedOut,
        ApprovalOutcome::Answered(resp) => if resp.approved {
            JobStep::Approved
        } else {
            JobStep::Denied
        },
    }
}

/// Advances a job by one step.
pub fn advance(phase: JobPhase, step: JobStep) -> (r: (JobPhase, Terminal))
    ensures
        r == next_phase(phase, step),
{
    match phase {
        JobPhase::Received => match step {
            JobStep::FoundRunning => (JobPhase::Done, Terminal::Nothing),
            JobStep::FoundCompleted => (JobPhase::Done, Terminal::JobFinished),
            JobStep::Refused => (JobPhase::Done, Terminal::JobRejected),
            JobStep::Asked => (JobPhase::AwaitingApproval, Terminal::Nothing),
            JobStep::Admitted => (JobPhase::Accepted, Terminal::Nothing),
            _ => (phase, Terminal::Nothing),
        },
        JobPhase::AwaitingApproval => match step {
            JobStep::Approved => (JobPhase::Accepted, Terminal::Nothing),
            JobStep::Denied => (JobPhase::Done, Terminal::JobRejected),
            JobStep::ApprovalTimedOut => (JobPhase::Done, Terminal::JobRejected),
            _ => (phase, Terminal::Nothing),
        },
        JobPhase::Accepted => match step {
            JobStep::Executed => (JobPhase::Done, Terminal::JobFinished),
            _ => (phase, Terminal::Nothing),
        },
        JobPhase::Done => (phase, Terminal::Nothing),
    }
}

/// Whatever happens to a job request, at most one terminal envelope is
/// emitted for it. Once nothing more can happen, exactly one was emitted,
/// unless the request was dropped because the job ran already; and before
/// that, none was.
pub proof fn lemma_one_terminal_envelope(steps: Seq<JobStep>)
    ensures
        terminals_emitted(JobPhase::Received, steps) <= 1,
        phase_after(JobPhase::Received, steps) != JobPhase::Done ==> terminals_emitted(JobPhase::Received, steps)
            == 0,
        phase_after(JobPhase::Received, steps) == JobPhase::Done ==> (terminals_emitted(JobPhase::Received, steps)
            == 1 || (exists|i: int| 0 <= i < steps.len() && steps[i] == JobStep::FoundRunning)),
    decreases steps.len(),
{
    if steps.len() > 0 {
        let front = steps.drop_last();
        lemma_one_terminal_envelope(front);
        if exists|i: int| 0 <= i < front.len() && front[i] == JobStep::FoundRunning {
            let i = choose|i: int| 0 <= i < front.len() && front[i] == JobStep::FoundRunning;
            assert(steps[i] == JobStep::FoundRunning);
        }
        if steps.last() == JobStep::FoundRunning {
            assert(steps[steps.len() - 1] == JobStep::FoundRunning);
        }
    }
}

/// A job is executed at most once: after the executor returned, no further
/// step brings the job back to where it could run.
pub proof fn lemma_done_is_final(steps: Seq<JobStep>, more: Seq<JobStep>)
    requires
        phase_after(JobPhase::Received, steps) == JobPhase::Done,
    ensures
        phase_after(JobPhase::Received, steps + more) == JobPhase::Done,
        terminals_emitted(JobPhase::Received, steps + more) == terminals_emitted(JobPhase::Received, steps),
    decreases more.len(),
{
    if more.len() == 0 {
        assert(steps + more =~= steps);
    } else {
        lemma_done_is_final(steps, more.drop_last());
        assert((steps + more).drop_last() =~= steps + more.drop_last());
        assert((steps + more).last() == more.last());
    }
}

// ── Session messages ────────────────────────────────────────────────────

/// Whether a request to set a session mode can be served: the trust window
/// must be in the range the session manager works in, and so must the time
/// at which a trust window opens.
pub open spec fn can_set_mode(msg: SetSessionMode, now_ms: u64) -> bool {
    (msg.mode == SessionMode::Trust ==> now_ms <= MAX_NOW_MS) && msg.trust_timeout_mins <= MAX_TRUST_MINS
}

/// Serves a request to set a caller's session mode and returns the envelope
/// that reports the new state. A request whose trust window is out of range
/// is not served: nothing changes and nothing is returned.
pub fn handle_set_session_mode(
    device_id: &str,
    sessions: &mut SessionManager,
    msg: &SetSessionMode,
    msg_id: String,
    now_ms: u64,
) -> (reply: Option<Envelope>)
    requires
        old(sessions).wf(),
    ensures
        final(sessions).wf(),
        final(sessions).log() == old(sessions).log(),
        final(sessions).default_timeout() == old(sessions).default_timeout(),
        reply is Some <==> can_set_mode(*msg, now_ms),
        !can_set_mode(*msg, now_ms) ==> final(sessions).sessions() == old(sessions).sessions(),
        can_set_mode(*msg, now_ms) ==> {
            let installed = session_set(msg.mode, msg.trust_timeout_mins, old(sessions).default_timeout(), now_ms);
            &&& final(sessions).sessions() == old(sessions).sessions().insert(msg.caller_uid@, installed)
            &&& reply->0.device_id@ == device_id@
            &&& reply->0.msg_id == msg_id
            &&& reply->0.ts_ms == now_ms
            &&& reply->0.seq == 0
            &&& reply->0.ack == 0
            &&& reply->0.payload matches Some(Payload::SessionState(state)) && state.caller_uid@ == msg.caller_uid@
                && state.mode == msg.mode && state.trust_timeout_mins == installed.trust_timeout_mins
                && state.trust_expires_ms == (match installed.trust_expires {
                Some(e) => e,
                None => 0,
            })
        },
{
    let opens_window = match msg.mode {
        SessionMode::Trust => true,
        _ => false,
    };
    if (opens_window && now_ms > MAX_NOW_MS) || msg.trust_timeout_mins > MAX_TRUST_MINS {
        return None;
    }
    let state = sessions.set_mode(msg.caller_uid.as_str(), msg.mode, msg.trust_timeout_mins, now_ms);
    Some(
        Envelope {
            device_id: device_id.to_string(),
            msg_id,
            ts_ms: now_ms,
            seq: 0,
            ack: 0,
            payload: Some(Payload::SessionState(state)),
        },
    )
}

/// Serves a query for session states: one envelope per state, in the order of
/// [`SessionManager::query_sessions`], with message ids numbered from
/// `first_id` on.
pub fn handle_session_query(
    device_id: &str,
    sessions: &SessionManager,
    query: &SessionQuery,
    id_prefix: &str,
    first_id: u64,
    now_ms: u64,
) -> (replies: Vec<Envelope>)
    requires
        sessions.wf(),
        first_id + sessions.callers().len() + 1 <= u64::MAX,
    ensures
        replies@.len() == (if query.caller_uid@.len() > 0 { 1 } else { sessions.callers().len() }),
        forall|i: int|
            0 <= i < replies@.len() ==> {
                let e = #[trigger] replies@[i];
                let caller = if query.caller_uid@.len() > 0 { query.caller_uid@ } else { sessions.callers()[i] };
                &&& e.device_id@ == device_id@
                &&& e.msg_id@ == id_prefix@ + "-"@ + decimal((first_id + i) as nat)
                &&& e.ts_ms == now_ms
                &&& e.seq == 0
                &&& e.ack == 0
                &&& e.payload matches Some(Payload::SessionState(state)) && state.caller_uid@ == caller && (
                match sessions.session_of(caller) {
                    Some(s) => state.mode == s.mode && state.trust_expires_ms == reported_expiry(s, now_ms)
                        && state.trust_timeout_mins == s.trust_timeout_mins,
                    None => state.mode == SessionMode::Inactive && state.trust_expires_ms == 0
                        && state.trust_timeout_mins == sessions.default_timeout(),
                })
            },
{
    let states = sessions.query_sessions(query.caller_uid.as_str(), now_ms);
    let ghost all = states@;
    let n = states.len();
    let mut replies: Vec<Envelope> = Vec::new();
    let mut i: usize = 0;
    while i < n
        invariant
            i <= n,
            n == all.len(),
            states@.len() == n,
            first_id + n <= u64::MAX,
            replies@.len() == i,
            forall|k: int| i <= k < n ==> states@[k] == all[k],
            forall|k: int|
                0 <= k < i ==> {
                    let e = #[trigger] replies@[k];
                    &&& e.device_id@ == device_id@
                    &&& e.msg_id@ == id_prefix@ + "-"@ + decimal((first_id + k) as nat)
                    &&& e.ts_ms == now_ms
                    &&& e.seq == 0
                    &&& e.ack == 0
                    &&& e.payload matches Some(Payload::SessionState(state)) && state.caller_uid@ == all[k].caller_uid@
                        && state.mode == all[k].mode && state.trust_expires_ms == all[k].trust_expires_ms
                        && state.trust_timeout_mins == all[k].trust_timeout_mins
                },
        decreases n - i,
    {
        let state = SessionState {
            caller_uid: states[i].caller_uid.clone(),
            mode: states[i].mode,
            trust_expires_ms: states[i].trust_expires_ms,
            trust_timeout_mins: states[i].trust_timeout_mins,
        };
        let msg_id = new_msg_id(id_prefix, first_id + i as u64);
        replies.push(
            Envelope {
                device_id: device_id.to_string(),
                msg_id,
                ts_ms: now_ms,
                seq: 0,
                ack: 0,
                payload: Some(Payload::SessionState(state)),
            },
        );
        i += 1;
    }
    proof {
        if query.caller_uid@.len() == 0 {
            assert forall|k: int| 0 <= k < n implies sessions.session_of(sessions.callers()[k]) == Some(
                sessions.sessions()[sessions.callers()[k]],
            ) by {
                assert(all[k].caller_uid@ == sessions.callers()[k]);
            }
        }
    }
    replies
}

// ── The connection ──────────────────────────────────────────────────────

/// Longest delay between two attempts to connect, in seconds.
pub const MAX_BACKOFF_SECS: u64 = 30;

/// The delay before the first attempt to reconnect, in seconds.
pub const FIRST_BACKOFF_SECS: u64 = 1;

/// The delay after `current`: twice as long, but no longer than 30 seconds.
pub open spec fn backoff_after(current: u64) -> u64 {
    if current * 2 >= MAX_BACKOFF_SECS {
        MAX_BACKOFF_SECS
    } else {
        (current * 2) as u64
    }
}

/// The delay to wait before the next attempt to connect, after a delay of
/// `current` seconds.
pub fn next_backoff(current: u64) -> (next: u64)
    ensures
        next == backoff_after(current),
        next <= MAX_BACKOFF_SECS,
{
    if current >= 15 {
        MAX_BACKOFF_SECS
    } else {
        current * 2
    }
}

/// The delay after a connection ended: back to one second if the connection
/// had been established, else the next longer delay.
pub fn backoff_after_attempt(current: u64, connected: bool) -> (next: u64)
    ensures
        next == (if connected { backoff_after(FIRST_BACKOFF_SECS) } else { backoff_after(current) }),
{
    if connected {
        next_backoff(FIRST_BACKOFF_SECS)
    } else {
        next_backoff(current)
    }
}

/// The envelope that opens a connection. It is never stamped: its sequence
/// number stays 0, and it tells the peer the highest sequence number that was
/// received before, so that the peer can trim its own outbox.
pub fn hello_envelope(
    device_id: &str,
    ts_ms: u64,
    version: &str,
    hostname: &str,
    os: &str,
    capabilities: Vec<String>,
    outbox: &Outbox,
) -> (e: Envelope)
    ensures
        e.device_id@ == device_id@,
        e.msg_id@ == "hello-0"@,
        e.ts_ms == ts_ms,
        e.seq == 0,
        e.ack == 0,
        e.payload matches Some(Payload::Hello(h)) && h.version@ == version@ && h.hostname@ == hostname@ && h.os@
            == os@ && h.capabilities == capabilities && h.last_ack == outbox@.local_ack,
{
    Envelope {
        device_id: device_id.to_string(),
        msg_id: "hello-0".to_string(),
        ts_ms,
        seq: 0,
        ack: 0,
        payload: Some(
            Payload::Hello(
                Hello {
                    version: version.to_string(),
                    hostname: hostname.to_string(),
                    os: os.to_string(),
                    capabilities,
                    last_ack: outbox.local_ack(),
                },
            ),
        ),
    }
}

/// Books the sequence number and the acknowledgement of an envelope that
/// arrived. A value of 0 means there is none.
pub fn note_inbound(outbox: &mut Outbox, seq: u64, ack: u64)
    ensures
        final(outbox)@ == ({
            let received = if seq > 0 {
                old(outbox)@.on_recv(seq as int)
            } else {
                old(outbox)@
            };
            if ack > 0 {
                received.on_peer_ack(ack as int)
            } else {
                received
            }
        }),
{
    if seq > 0 {
        outbox.on_recv(seq);
    }
    if ack > 0 {
        outbox.on_peer_ack(ack);
    }
}

} // verus!
