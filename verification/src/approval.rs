//! The approval manager: jobs that wait for the user's answer.
//!
//! The first answer that arrives for a job takes its entry out; an answer or
//! a timeout that comes later finds nothing and changes nothing.

use vstd::prelude::*;
use crate::session::MAX_NOW_MS;
use crate::table::StrTable;
use crate::text::{copy_strings, strs};
use crate::wire::{
    refusals, ApprovalRequest, ApprovalRequestView, ApprovalResponse, JobRequest, JobRequestView,
    RefusalContext,
};

verus! {

/// Longest approval timeout, in seconds.
pub const MAX_APPROVAL_SECS: u64 = 4_000_000_000_000_000;

/// A job that waits for approval.
pub struct PendingApproval {
    pub request: JobRequest,
    pub caller_uid: String,
    pub approval_request: ApprovalRequest,
}

/// Mathematical content of a [`PendingApproval`].
pub struct PendingView {
    pub request: JobRequestView,
    pub caller_uid: Seq<char>,
    pub approval_request: ApprovalRequestView,
}

impl View for PendingApproval {
    type V = PendingView;

    open spec fn view(&self) -> PendingView {
        PendingView {
            request: self.request@,
            caller_uid: self.caller_uid@,
            approval_request: self.approval_request@,
        }
    }
}

/// The question put to the user for a request.
pub open spec fn approval_for(
    req: JobRequestView,
    caller: Seq<char>,
    reason: Seq<char>,
    detected_domains: Seq<Seq<char>>,
    previous_refusals: Seq<crate::wire::RefusalView>,
    expires_ms: u64,
) -> ApprovalRequestView {
    ApprovalRequestView {
        job_id: req.job_id,
        tool: req.tool,
        args: req.args,
        cwd: req.cwd,
        reason,
        detected_domains,
        expires_ms,
        caller_uid: caller,
        previous_refusals,
    }
}

/// Once an entry is taken out, by an answer or by a timeout, it is not there
/// for a second answer: taking it out again changes nothing.
pub proof fn lemma_resolved_once(pending: Map<Seq<char>, PendingView>, job_id: Seq<char>)
    ensures
        !pending.remove(job_id).contains_key(job_id),
        pending.remove(job_id).remove(job_id) == pending.remove(job_id),
{
    assert(pending.remove(job_id).remove(job_id) =~= pending.remove(job_id));
}

/// Holds the jobs that wait for approval.
pub struct ApprovalManager {
    pending: StrTable<PendingApproval>,
    default_timeout_secs: u64,
}

impl ApprovalManager {
    /// The waiting jobs by job id.
    pub closed spec fn pending(&self) -> Map<Seq<char>, PendingView> {
        self.pending.map().map_values(|p: PendingApproval| p@)
    }

    /// The ids of the waiting jobs, in the order in which they were submitted.
    pub closed spec fn pending_ids(&self) -> Seq<Seq<char>> {
        self.pending.keys()
    }

    /// Seconds a job waits before it is refused.
    pub closed spec fn timeout_secs(&self) -> u64 {
        self.default_timeout_secs
    }

    /// The manager's invariant.
    pub closed spec fn wf(&self) -> bool {
        &&& self.pending.wf()
        &&& self.default_timeout_secs <= MAX_APPROVAL_SECS
    }

    /// A manager with no waiting job.
    pub fn new(timeout_secs: u64) -> (m: ApprovalManager)
        requires
            timeout_secs <= MAX_APPROVAL_SECS,
        ensures
            m.wf(),
            m.pending() == Map::<Seq<char>, PendingView>::empty(),
            m.pending_ids().len() == 0,
            m.timeout_secs() == timeout_secs,
    {
        let m = ApprovalManager { pending: StrTable::new(), default_timeout_secs: timeout_secs };
        assert(m.pending() =~= Map::<Seq<char>, PendingView>::empty());
        m
    }

    /// Enters a job that needs approval and returns the question to put to
    /// the user. It expires one timeout after `now_ms`.
    pub fn submit(
        &mut self,
        req: JobRequest,
        caller_uid: &str,
        reason: String,
        detected_domains: Vec<String>,
        previous_refusals: Vec<RefusalContext>,
        now_ms: u64,
    ) -> (question: ApprovalRequest)
        requires
            old(self).wf(),
            now_ms <= MAX_NOW_MS,
        ensures
            final(self).wf(),
            final(self).timeout_secs() == old(self).timeout_secs(),
            question@ == approval_for(
                req@,
                caller_uid@,
                reason@,
                strs(detected_domains@),
                refusals(previous_refusals@),
                (now_ms + old(self).timeout_secs() * 1000) as u64,
            ),
            final(self).pending() == old(self).pending().insert(
                req@.job_id,
                PendingView { request: req@, caller_uid: caller_uid@, approval_request: question@ },
            ),
    {
        assert(self.default_timeout_secs * 1000 <= MAX_APPROVAL_SECS * 1000) by (nonlinear_arith)
            requires
                self.default_timeout_secs <= MAX_APPROVAL_SECS,
        ;
        let expires_ms = now_ms + self.default_timeout_secs * 1000;
        let question = ApprovalRequest {
            job_id: req.job_id.clone(),
            tool: req.tool.clone(),
            args: copy_strings(&req.args),
            cwd: req.cwd.clone(),
            reason,
            detected_domains,
            expires_ms,
            caller_uid: caller_uid.to_string(),
            previous_refusals,
        };
        let job_id = req.job_id.clone();
        let entry = PendingApproval {
            request: req,
            caller_uid: caller_uid.to_string(),
            approval_request: question.duplicate(),
        };
        self.pending.insert(job_id, entry);
        assert(self.pending() =~= old(self).pending().insert(req@.job_id, entry@));
        question
    }

    /// Takes the entry for the job that `response` answers, if it still
    /// waits, and returns its request and caller.
    pub fn resolve(&mut self, response: &ApprovalResponse) -> (r: Option<(JobRequest, String)>)
        requires
            old(self).wf(),
        ensures
            final(self).wf(),
            final(self).timeout_secs() == old(self).timeout_secs(),
            r is Some <==> old(self).pending().contains_key(response.job_id@),
            r is Some ==> (r->0).0@ == old(self).pending()[response.job_id@].request && (r->0).1@ == old(
                self,
            ).pending()[response.job_id@].caller_uid,
            final(self).pending() == old(self).pending().remove(response.job_id@),
    {
        let taken = self.pending.remove(response.job_id.as_str());
        assert(self.pending() =~= old(self).pending().remove(response.job_id@));
        match taken {
            Some(entry) => Some((entry.request, entry.caller_uid)),
            None => None,
        }
    }

    /// Takes the entry of a job whose wait timed out. Tells whether it still
    /// waited.
    pub fn expire(&mut self, job_id: &str) -> (was_pending: bool)
        requires
            old(self).wf(),
        ensures
            final(self).wf(),
            final(self).timeout_secs() == old(self).timeout_secs(),
            was_pending == old(self).pending().contains_key(job_id@),
            final(self).pending() == old(self).pending().remove(job_id@),
    {
        let taken = self.pending.remove(job_id);
        assert(self.pending() =~= old(self).pending().remove(job_id@));
        taken.is_some()
    }

    /// The questions of all waiting jobs, in the order of submission.
    pub fn list_pending(&self) -> (out: Vec<ApprovalRequest>)
        requires
            self.wf(),
        ensures
            out@.len() == self.pending_ids().len(),
            forall|i: int|
                0 <= i < out@.len() ==> self.pending().contains_key(self.pending_ids()[i]) && (#[trigger] out@[i])@
                    == self.pending()[self.pending_ids()[i]].approval_request,
    {
        let mut out: Vec<ApprovalRequest> = Vec::new();
        let n = self.pending.len();
        let mut i: usize = 0;
        while i < n
            invariant
                self.wf(),
                n == self.pending_ids().len(),
                i <= n,
                out@.len() == i,
                forall|k: int|
                    0 <= k < i ==> self.pending().contains_key(self.pending_ids()[k]) && (#[trigger] out@[k])@
                        == self.pending()[self.pending_ids()[k]].approval_request,
            decreases n - i,
        {
            proof {
                self.pending.lemma_shape();
                assert(self.pending.position(self.pending_ids()[i as int]) == i);
            }
            out.push(self.pending.value_at(i).approval_request.duplicate());
            i += 1;
        }
        out
    }

    /// Seconds a job waits before it is refused.
    pub fn default_timeout(&self) -> (secs: u64)
        ensures
            secs == self.timeout_secs(),
    {
        self.default_timeout_secs
    }
}

} // verus!
