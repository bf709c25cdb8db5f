//! The envelope protocol: the values that travel between the daemon, its
//! controller and local operator tools.

use vstd::prelude::*;
use crate::text::{copy_strings, same_text, strs};

verus! {

/// How a caller's requests are treated.
#[derive(Clone, Copy, Debug, PartialEq, Eq, Structural)]
pub enum SessionMode {
    /// Every request is refused.
    Inactive,
    /// Every request waits for an approval.
    Strict,
    /// Requests are accepted while a sliding window stays open.
    Trust,
    /// Every request is accepted.
    AutoAccept,
}

/// The mode that a number on the wire stands for.
pub open spec fn mode_of_code(code: i32) -> SessionMode {
    if code == 1 {
        SessionMode::Strict
    } else if code == 2 {
        SessionMode::Trust
    } else if code == 3 {
        SessionMode::AutoAccept
    } else {
        SessionMode::Inactive
    }
}

/// The mode that a name in the configuration stands for.
pub open spec fn mode_of_name(name: Seq<char>) -> SessionMode {
    if name == "auto_accept"@ || name == "auto"@ {
        SessionMode::AutoAccept
    } else if name == "trust"@ {
        SessionMode::Trust
    } else if name == "strict"@ {
        SessionMode::Strict
    } else {
        SessionMode::Inactive
    }
}

impl SessionMode {
    /// The mode for a name in the configuration; unknown names mean
    /// `Inactive`.
    pub fn from_name(name: &str) -> (m: SessionMode)
        ensures
            m == mode_of_name(name@),
    {
        if same_text(name, "auto_accept") || same_text(name, "auto") {
            SessionMode::AutoAccept
        } else if same_text(name, "trust") {
            SessionMode::Trust
        } else if same_text(name, "strict") {
            SessionMode::Strict
        } else {
            SessionMode::Inactive
        }
    }

    /// The mode for a number on the wire; unknown numbers mean `Inactive`.
    pub fn from_code(code: i32) -> (m: SessionMode)
        ensures
            m == mode_of_code(code),
    {
        if code == 1 {
            SessionMode::Strict
        } else if code == 2 {
            SessionMode::Trust
        } else if code == 3 {
            SessionMode::AutoAccept
        } else {
            SessionMode::Inactive
        }
    }

    /// The number that stands for the mode on the wire.
    pub fn code(self) -> (c: i32)
        ensures
            0 <= c <= 3,
            mode_of_code(c) == self,
            c == 0 <==> self == SessionMode::Inactive,
    {
        match self {
            SessionMode::Inactive => 0,
            SessionMode::Strict => 1,
            SessionMode::Trust => 2,
            SessionMode::AutoAccept => 3,
        }
    }
}

/// Connect handshake.
#[derive(Clone, Debug, PartialEq, Eq)]
pub struct Hello {
    pub version: String,
    pub hostname: String,
    pub os: String,
    pub capabilities: Vec<String>,
    pub last_ack: u64,
}

/// A request to run a command.
#[derive(Clone, Debug, PartialEq, Eq)]
pub struct JobRequest {
    pub job_id: String,
    pub tool: String,
    pub args: Vec<String>,
    pub cwd: String,
    pub env: Vec<(String, String)>,
    pub timeout_ms: u64,
}

/// Mathematical content of a [`JobRequest`].
pub struct JobRequestView {
    pub job_id: Seq<char>,
    pub tool: Seq<char>,
    pub args: Seq<Seq<char>>,
    pub cwd: Seq<char>,
    pub env: Seq<(Seq<char>, Seq<char>)>,
    pub timeout_ms: u64,
}

impl View for JobRequest {
    type V = JobRequestView;

    open spec fn view(&self) -> JobRequestView {
        JobRequestView {
            job_id: self.job_id@,
            tool: self.tool@,
            args: strs(self.args@),
            cwd: self.cwd@,
            env: self.env@.map_values(|e: (String, String)| (e.0@, e.1@)),
            timeout_ms: self.timeout_ms,
        }
    }
}

impl JobRequest {
    /// A deep copy.
    pub fn duplicate(&self) -> (r: JobRequest)
        ensures
            r@ == self@,
    {
        let mut env: Vec<(String, String)> = Vec::new();
        let mut i: usize = 0;
        while i < self.env.len()
            invariant
                i <= self.env.len(),
                env@ == self.env@.subrange(0, i as int),
            decreases self.env.len() - i,
        {
            env.push((self.env[i].0.clone(), self.env[i].1.clone()));
            i += 1;
            assert(env@ =~= self.env@.subrange(0, i as int));
        }
        assert(self.env@.subrange(0, self.env.len() as int) =~= self.env@);
        JobRequest {
            job_id: self.job_id.clone(),
            tool: self.tool.clone(),
            args: copy_strings(&self.args),
            cwd: self.cwd.clone(),
            env,
            timeout_ms: self.timeout_ms,
        }
    }
}

/// One piece of progress of a running job.
#[derive(Clone, Debug, PartialEq, Eq)]
pub enum JobEventKind {
    StdoutChunk(Vec<u8>),
    StderrChunk(Vec<u8>),
    Progress(u32),
}

/// Progress of a running job.
#[derive(Clone, Debug, PartialEq, Eq)]
pub struct JobEvent {
    pub job_id: String,
    pub event: Option<JobEventKind>,
}

/// Terminal result of a job that ran (or failed to start).
#[derive(Clone, Debug, PartialEq, Eq)]
pub struct JobFinished {
    pub job_id: String,
    pub exit_code: i32,
    pub error: String,
}

/// Terminal result of a job that was refused.
#[derive(Clone, Debug, PartialEq, Eq)]
pub struct JobRejected {
    pub job_id: String,
    pub reason: String,
}

/// A request to stop a running job.
#[derive(Clone, Debug, PartialEq, Eq)]
pub struct CancelJob {
    pub job_id: String,
}

/// An earlier refusal, shown to whoever is asked to approve.
#[derive(Clone, Debug, PartialEq, Eq)]
pub struct RefusalContext {
    pub tool: String,
    pub reason: String,
    pub refused_at_ms: u64,
}

/// Mathematical content of a [`RefusalContext`].
pub struct RefusalView {
    pub tool: Seq<char>,
    pub reason: Seq<char>,
    pub refused_at_ms: u64,
}

impl View for RefusalContext {
    type V = RefusalView;

    open spec fn view(&self) -> RefusalView {
        RefusalView { tool: self.tool@, reason: self.reason@, refused_at_ms: self.refused_at_ms }
    }
}

/// Views of a sequence of refusals.
pub open spec fn refusals(v: Seq<RefusalContext>) -> Seq<RefusalView> {
    v.map_values(|r: RefusalContext| r@)
}

/// A copy of a list of refusals.
pub fn copy_refusals(v: &Vec<RefusalContext>) -> (out: Vec<RefusalContext>)
    ensures
        refusals(out@) == refusals(v@),
{
    let mut out: Vec<RefusalContext> = Vec::new();
    let mut i: usize = 0;
    while i < v.len()
        invariant
            i <= v.len(),
            refusals(out@) == refusals(v@).subrange(0, i as int),
        decreases v.len() - i,
    {
        let ghost out_before = refusals(out@);
        let item = RefusalContext {
            tool: v[i].tool.clone(),
            reason: v[i].reason.clone(),
            refused_at_ms: v[i].refused_at_ms,
        };
        assert(item@ == refusals(v@)[i as int]);
        out.push(item);
        assert(refusals(out@) =~= out_before.push(item@));
        i += 1;
        assert(refusals(out@) =~= refusals(v@).subrange(0, i as int));
    }
    assert(refusals(v@).subrange(0, v.len() as int) =~= refusals(v@));
    out
}

/// A question to the user: may this job run?
#[derive(Clone, Debug, PartialEq, Eq)]
pub struct ApprovalRequest {
    pub job_id: String,
    pub tool: String,
    pub args: Vec<String>,
    pub cwd: String,
    pub reason: String,
    pub detected_domains: Vec<String>,
    pub expires_ms: u64,
    pub caller_uid: String,
    pub previous_refusals: Vec<RefusalContext>,
}

/// Mathematical content of an [`ApprovalRequest`].
pub struct ApprovalRequestView {
    pub job_id: Seq<char>,
    pub tool: Seq<char>,
    pub args: Seq<Seq<char>>,
    pub cwd: Seq<char>,
    pub reason: Seq<char>,
    pub detected_domains: Seq<Seq<char>>,
    pub expires_ms: u64,
    pub caller_uid: Seq<char>,
    pub previous_refusals: Seq<RefusalView>,
}

impl View for ApprovalRequest {
    type V = ApprovalRequestView;

    open spec fn view(&self) -> ApprovalRequestView {
        ApprovalRequestView {
            job_id: self.job_id@,
            tool: self.tool@,
            args: strs(self.args@),
            cwd: self.cwd@,
            reason: self.reason@,
            detected_domains: strs(self.detected_domains@),
            expires_ms: self.expires_ms,
            caller_uid: self.caller_uid@,
            previous_refusals: refusals(self.previous_refusals@),
        }
    }
}

impl ApprovalRequest {
    /// A deep copy.
    pub fn duplicate(&self) -> (r: ApprovalRequest)
        ensures
            r@ == self@,
    {
        ApprovalRequest {
            job_id: self.job_id.clone(),
            tool: self.tool.clone(),
            args: copy_strings(&self.args),
            cwd: self.cwd.clone(),
            reason: self.reason.clone(),
            detected_domains: copy_strings(&self.detected_domains),
            expires_ms: self.expires_ms,
            caller_uid: self.caller_uid.clone(),
            previous_refusals: copy_refusals(&self.previous_refusals),
        }
    }
}

/// The user's answer to an [`ApprovalRequest`].
#[derive(Clone, Debug, PartialEq, Eq)]
pub struct ApprovalResponse {
    pub job_id: String,
    pub approved: bool,
    pub remember: bool,
    pub reason: String,
}

/// Asks for the current policy.
#[derive(Clone, Debug, PartialEq, Eq)]
pub struct PolicyQuery {
}

/// The current policy.
#[derive(Clone, Debug, PartialEq, Eq)]
pub struct PolicyState {
    pub allowed_tools: Vec<String>,
    pub denied_tools: Vec<String>,
    pub denied_paths: Vec<String>,
    pub allowed_domains: Vec<String>,
    pub approval_timeout_secs: u64,
}

/// An incremental change of the policy.
#[derive(Clone, Debug, PartialEq, Eq)]
pub struct PolicyUpdate {
    pub add_allowed_tools: Vec<String>,
    pub remove_allowed_tools: Vec<String>,
    pub add_denied_tools: Vec<String>,
    pub remove_denied_tools: Vec<String>,
    pub add_denied_paths: Vec<String>,
    pub remove_denied_paths: Vec<String>,
    pub add_allowed_domains: Vec<String>,
    pub remove_allowed_domains: Vec<String>,
    pub approval_timeout_secs: u64,
}

/// Sets a caller's session mode.
#[derive(Clone, Debug, PartialEq, Eq)]
pub struct SetSessionMode {
    pub caller_uid: String,
    pub mode: SessionMode,
    pub trust_timeout_mins: u64,
}

/// A caller's session as reported to a controller.
#[derive(Clone, Debug, PartialEq, Eq)]
pub struct SessionState {
    pub caller_uid: String,
    pub mode: SessionMode,
    pub trust_expires_ms: u64,
    pub trust_timeout_mins: u64,
}

/// Asks for one caller's session, or for all of them if the caller is empty.
#[derive(Clone, Debug, PartialEq, Eq)]
pub struct SessionQuery {
    pub caller_uid: String,
}

/// The typed content of an envelope.
#[derive(Clone, Debug, PartialEq, Eq)]
pub enum Payload {
    Hello(Hello),
    JobRequest(JobRequest),
    JobEvent(JobEvent),
    JobFinished(JobFinished),
    JobRejected(JobRejected),
    CancelJob(CancelJob),
    ApprovalRequest(ApprovalRequest),
    ApprovalResponse(ApprovalResponse),
    PolicyQuery(PolicyQuery),
    PolicyState(PolicyState),
    PolicyUpdate(PolicyUpdate),
    SetSessionMode(SetSessionMode),
    SessionState(SessionState),
    SessionQuery(SessionQuery),
}

/// The unit of transport: one payload with sequencing metadata.
#[derive(Clone, Debug, PartialEq, Eq)]
pub struct Envelope {
    pub device_id: String,
    pub msg_id: String,
    pub ts_ms: u64,
    /// 1-based per connection and direction; 0 means not stamped.
    pub seq: u64,
    /// Highest sequence number the sender has received.
    pub ack: u64,
    pub payload: Option<Payload>,
}

/// The name of an envelope's payload variant, as written to the trace.
pub fn describe_payload(envelope: &Envelope) -> (name: &'static str)
    ensures
        name@ == payload_name(envelope.payload),
{
    match &envelope.payload {
        Some(Payload::Hello(_)) => "Hello",
        Some(Payload::JobRequest(_)) => "JobRequest",
        Some(Payload::JobEvent(_)) => "JobEvent",
        Some(Payload::JobFinished(_)) => "JobFinished",
        Some(Payload::JobRejected(_)) => "JobRejected",
        Some(Payload::CancelJob(_)) => "CancelJob",
        Some(Payload::ApprovalRequest(_)) => "ApprovalRequest",
        Some(Payload::ApprovalResponse(_)) => "ApprovalResponse",
        Some(Payload::PolicyQuery(_)) => "PolicyQuery",
        Some(Payload::PolicyState(_)) => "PolicyState",
        Some(Payload::PolicyUpdate(_)) => "PolicyUpdate",
        Some(Payload::SetSessionMode(_)) => "SetSessionMode",
        Some(Payload::SessionState(_)) => "SessionState",
        Some(Payload::SessionQuery(_)) => "SessionQuery",
        None => "none",
    }
}

/// Name of a payload variant.
pub open spec fn payload_name(payload: Option<Payload>) -> Seq<char> {
    match payload {
        Some(Payload::Hello(_)) => "Hello"@,
        Some(Payload::JobRequest(_)) => "JobRequest"@,
        Some(Payload::JobEvent(_)) => "JobEvent"@,
        Some(Payload::JobFinished(_)) => "JobFinished"@,
        Some(Payload::JobRejected(_)) => "JobRejected"@,
        Some(Payload::CancelJob(_)) => "CancelJob"@,
        Some(Payload::ApprovalRequest(_)) => "ApprovalRequest"@,
        Some(Payload::ApprovalResponse(_)) => "ApprovalResponse"@,
        Some(Payload::PolicyQuery(_)) => "PolicyQuery"@,
        Some(Payload::PolicyState(_)) => "PolicyState"@,
        Some(Payload::PolicyUpdate(_)) => "PolicyUpdate"@,
        Some(Payload::SetSessionMode(_)) => "SetSessionMode"@,
        Some(Payload::SessionState(_)) => "SessionState"@,
        Some(Payload::SessionQuery(_)) => "SessionQuery"@,
        None => "none"@,
    }
}

} // verus!
