//! The session manager: each caller's mode, the sliding trust window, and the
//! log of recent refusals.
//!
//! Time is handed in by the caller as milliseconds on one clock.

use vstd::prelude::*;
use crate::table::StrTable;
use crate::text::{concat2, same_text};
use crate::wire::{refusals, JobRequest, RefusalContext, RefusalView, SessionMode, SessionState};

verus! {

/// Latest instant, in milliseconds, that the manager accepts as "now".
pub const MAX_NOW_MS: u64 = 4_611_686_018_427_387_904;

/// Longest trust window, in minutes.
pub const MAX_TRUST_MINS: u64 = 76_000_000_000_000;

/// How long a refusal is remembered, in milliseconds (24 hours).
pub const REFUSAL_TTL_MS: u64 = 86_400_000;

/// Session-level decision for a job request.
#[derive(Clone, Debug, PartialEq, Eq)]
pub enum SessionDecision {
    /// Trust or auto-accept: go on.
    Allow,
    /// Inactive, or the trust window closed: refuse.
    Deny(String),
    /// Strict mode: ask the user.
    NeedsApproval { reason: String, previous_refusals: Vec<RefusalContext> },
}

/// One caller's session.
#[derive(Clone, Copy, Debug, PartialEq, Eq)]
pub struct CallerSession {
    pub mode: SessionMode,
    /// When the trust window closes (only set in trust mode).
    pub trust_expires: Option<u64>,
    /// Length of the trust window in minutes.
    pub trust_timeout_mins: u64,
}

/// A refusal and the instant at which it is forgotten.
pub struct RefusalEntry {
    pub tool: String,
    pub reason: String,
    pub expires_at: u64,
    pub refused_at_ms: u64,
}

/// Mathematical content of a [`RefusalEntry`].
pub struct RefusalEntryView {
    pub tool: Seq<char>,
    pub reason: Seq<char>,
    pub expires_at: u64,
    pub refused_at_ms: u64,
}

impl View for RefusalEntry {
    type V = RefusalEntryView;

    open spec fn view(&self) -> RefusalEntryView {
        RefusalEntryView {
            tool: self.tool@,
            reason: self.reason@,
            expires_at: self.expires_at,
            refused_at_ms: self.refused_at_ms,
        }
    }
}

/// What a session check comes to.
pub enum Outcome {
    Allow,
    NotActivated,
    TrustExpired,
    Ask,
}

/// The timeout that applies: the requested one, or the default for 0.
pub open spec fn effective_timeout(requested: u64, default: u64) -> u64 {
    if requested == 0 {
        default
    } else {
        requested
    }
}

/// The session that `set_mode` installs.
pub open spec fn session_set(mode: SessionMode, requested: u64, default: u64, now_ms: u64) -> CallerSession {
    let mins = effective_timeout(requested, default);
    CallerSession {
        mode,
        trust_expires: if mode == SessionMode::Trust {
            Some((now_ms + mins * 60_000) as u64)
        } else {
            None
        },
        trust_timeout_mins: mins,
    }
}

/// Whether a check at `now_ms` finds an open trust window, which it then
/// slides forward.
pub open spec fn window_slides(s: Option<CallerSession>, now_ms: u64) -> bool {
    match s {
        Some(c) => c.mode == SessionMode::Trust && c.trust_expires is Some && now_ms < c.trust_expires->0,
        None => false,
    }
}

/// The outcome of a check at `now_ms`.
pub open spec fn check_outcome(s: Option<CallerSession>, now_ms: u64) -> Outcome {
    match s {
        None => Outcome::NotActivated,
        Some(s) => match s.mode {
            SessionMode::Inactive => Outcome::NotActivated,
            SessionMode::Strict => Outcome::Ask,
            SessionMode::Trust => if s.trust_expires is Some && now_ms >= s.trust_expires->0 {
                Outcome::TrustExpired
            } else {
                Outcome::Allow
            },
            SessionMode::AutoAccept => Outcome::Allow,
        },
    }
}

/// The session after a check at `now_ms`: an open trust window slides
/// forward, a closed one turns the session inactive.
pub open spec fn session_after_check(s: CallerSession, now_ms: u64) -> CallerSession {
    if s.mode == SessionMode::Trust && s.trust_expires is Some {
        if now_ms >= s.trust_expires->0 {
            CallerSession { mode: SessionMode::Inactive, trust_expires: None, ..s }
        } else {
            CallerSession { trust_expires: Some((now_ms + s.trust_timeout_mins * 60_000) as u64), ..s }
        }
    } else {
        s
    }
}

/// The session as reported at `now_ms`.
pub open spec fn reported_expiry(s: CallerSession, now_ms: u64) -> u64 {
    if s.trust_expires is Some && s.trust_expires->0 > now_ms {
        s.trust_expires->0
    } else {
        0
    }
}

/// The entries of `log` that are not yet forgotten at `now_ms`, in order.
pub open spec fn live(log: Seq<RefusalEntryView>, now_ms: u64) -> Seq<RefusalEntryView>
    decreases log.len(),
{
    if log.len() == 0 {
        log
    } else if log.last().expires_at > now_ms {
        live(log.drop_last(), now_ms).push(log.last())
    } else {
        live(log.drop_last(), now_ms)
    }
}

/// The refusals of `tool` in `log`, in order.
pub open spec fn refusals_of(log: Seq<RefusalEntryView>, tool: Seq<char>) -> Seq<RefusalView>
    decreases log.len(),
{
    if log.len() == 0 {
        Seq::empty()
    } else if log.last().tool == tool {
        refusals_of(log.drop_last(), tool).push(
            RefusalView { tool: log.last().tool, reason: log.last().reason, refused_at_ms: log.last().refused_at_ms },
        )
    } else {
        refusals_of(log.drop_last(), tool)
    }
}

/// Views of a refusal log.
pub open spec fn entries(log: Seq<RefusalEntry>) -> Seq<RefusalEntryView> {
    log.map_values(|e: RefusalEntry| e@)
}

/// Within the window after trust was granted a check allows the request; at
/// or after its end the check refuses, and the session is inactive from then
/// on.
pub proof fn lemma_trust_window(requested: u64, default: u64, set_at: u64, now_ms: u64)
    requires
        set_at <= MAX_NOW_MS,
        effective_timeout(requested, default) <= MAX_TRUST_MINS,
    ensures
        ({
            let s = session_set(SessionMode::Trust, requested, default, set_at);
            let end = set_at + effective_timeout(requested, default) * 60_000;
            &&& now_ms < end ==> check_outcome(Some(s), now_ms) is Allow
            &&& now_ms >= end ==> check_outcome(Some(s), now_ms) is TrustExpired
            &&& now_ms >= end ==> session_after_check(s, now_ms).mode == SessionMode::Inactive
            &&& now_ms >= end ==> reported_expiry(session_after_check(s, now_ms), now_ms) == 0
            &&& now_ms >= end ==> forall|later: u64|
                check_outcome(Some(session_after_check(s, now_ms)), later) is NotActivated
        }),
{
    assert(effective_timeout(requested, default) * 60_000 <= MAX_TRUST_MINS * 60_000) by (nonlinear_arith)
        requires
            effective_timeout(requested, default) <= MAX_TRUST_MINS,
    ;
}

/// A check of a session in trust mode, whenever its window was opened or last
/// slid: before the window's end the check allows, the session stays in trust
/// mode and the window ends one timeout after the check; at or after the end
/// the check refuses, the session turns inactive without an expiry, is
/// reported so, and every later check refuses until the mode is set again.
pub proof fn lemma_trust_slides(s: CallerSession, now_ms: u64)
    requires
        s.mode == SessionMode::Trust,
        s.trust_expires is Some,
    ensures
        now_ms < s.trust_expires->0 ==> {
            &&& check_outcome(Some(s), now_ms) is Allow
            &&& session_after_check(s, now_ms).mode == SessionMode::Trust
            &&& session_after_check(s, now_ms).trust_expires == Some((now_ms + s.trust_timeout_mins * 60_000) as u64)
            &&& session_after_check(s, now_ms).trust_timeout_mins == s.trust_timeout_mins
        },
        now_ms >= s.trust_expires->0 ==> {
            &&& check_outcome(Some(s), now_ms) is TrustExpired
            &&& session_after_check(s, now_ms).mode == SessionMode::Inactive
            &&& session_after_check(s, now_ms).trust_expires is None
            &&& session_after_check(s, now_ms).trust_timeout_mins == s.trust_timeout_mins
            &&& forall|later: u64|
                check_outcome(Some(session_after_check(s, now_ms)), later) is NotActivated && reported_expiry(
                    session_after_check(s, now_ms),
                    later,
                ) == 0 && session_after_check(session_after_check(s, now_ms), later) == session_after_check(s, now_ms)
        },
{
}

/// Tracks each caller's session mode and the recent refusals.
pub struct SessionManager {
    sessions: StrTable<CallerSession>,
    refusal_log: Vec<RefusalEntry>,
    default_trust_timeout_mins: u64,
}

impl SessionManager {
    /// The sessions by caller.
    pub closed spec fn sessions(&self) -> Map<Seq<char>, CallerSession> {
        self.sessions.map()
    }

    /// The callers in the order in which they were first seen.
    pub closed spec fn callers(&self) -> Seq<Seq<char>> {
        self.sessions.keys()
    }

    /// One caller's session, if there is one.
    pub open spec fn session_of(&self, caller: Seq<char>) -> Option<CallerSession> {
        if self.sessions().contains_key(caller) {
            Some(self.sessions()[caller])
        } else {
            None
        }
    }

    /// The refusal log, oldest first.
    pub closed spec fn log(&self) -> Seq<RefusalEntryView> {
        entries(self.refusal_log@)
    }

    /// The trust timeout that applies where a request names none.
    pub closed spec fn default_timeout(&self) -> u64 {
        self.default_trust_timeout_mins
    }

    /// The manager's invariant: the table is sound and no trust window is
    /// longer than the longest one.
    pub closed spec fn wf(&self) -> bool {
        &&& self.sessions.wf()
        &&& self.default_trust_timeout_mins <= MAX_TRUST_MINS
        &&& forall|i: int|
            0 <= i < self.sessions.vals().len() ==> (#[trigger] self.sessions.vals()[i]).trust_timeout_mins
                <= MAX_TRUST_MINS
    }

    /// A manager without sessions or refusals.
    pub fn new(default_trust_timeout_mins: u64) -> (m: SessionManager)
        requires
            default_trust_timeout_mins <= MAX_TRUST_MINS,
        ensures
            m.wf(),
            m.sessions() == Map::<Seq<char>, CallerSession>::empty(),
            m.callers().len() == 0,
            m.log().len() == 0,
            m.default_timeout() == default_trust_timeout_mins,
    {
        let m = SessionManager {
            sessions: StrTable::new(),
            refusal_log: Vec::new(),
            default_trust_timeout_mins,
        };
        assert(m.log() =~= Seq::<RefusalEntryView>::empty());
        m
    }

    /// Number of callers with a session.
    pub fn session_count(&self) -> (n: usize)
        requires
            self.wf(),
        ensures
            n == self.callers().len(),
    {
        self.sessions.len()
    }

    /// Gives a caller an inactive session unless it has a session already.
    pub fn register_caller(&mut self, caller_uid: &str)
        requires
            old(self).wf(),
        ensures
            final(self).wf(),
            final(self).log() == old(self).log(),
            final(self).default_timeout() == old(self).default_timeout(),
            old(self).session_of(caller_uid@) is Some ==> final(self).sessions() == old(self).sessions(),
            old(self).session_of(caller_uid@) is None ==> final(self).sessions() == old(self).sessions().insert(
                caller_uid@,
                CallerSession {
                    mode: SessionMode::Inactive,
                    trust_expires: None,
                    trust_timeout_mins: old(self).default_timeout(),
                },
            ),
    {
        if self.sessions.find(caller_uid).is_none() {
            let fresh = CallerSession {
                mode: SessionMode::Inactive,
                trust_expires: None,
                trust_timeout_mins: self.default_trust_timeout_mins,
            };
            proof {
                self.sessions.lemma_shape();
            }
            self.sessions.insert(caller_uid.to_string(), fresh);
            proof {
                let old_vals = old(self).sessions.vals();
                assert forall|i: int| 0 <= i < self.sessions.vals().len() implies (
                #[trigger] self.sessions.vals()[i]).trust_timeout_mins <= MAX_TRUST_MINS by {
                    if i < old_vals.len() {
                        assert(self.sessions.vals()[i] == old_vals[i]);
                    }
                }
            }
        }
    }

    /// Evaluates a job request against the caller's session at `now_ms`.
    pub fn check(&mut self, req: &JobRequest, caller_uid: &str, now_ms: u64) -> (decision: SessionDecision)
        requires
            old(self).wf(),
            window_slides(old(self).session_of(caller_uid@), now_ms) ==> now_ms <= MAX_NOW_MS,
        ensures
            final(self).wf(),
            final(self).default_timeout() == old(self).default_timeout(),
            match old(self).session_of(caller_uid@) {
                Some(s) => final(self).sessions() == old(self).sessions().insert(
                    caller_uid@,
                    session_after_check(s, now_ms),
                ),
                None => final(self).sessions() == old(self).sessions(),
            },
            match check_outcome(old(self).session_of(caller_uid@), now_ms) {
                Outcome::Allow => decision is Allow && final(self).log() == old(self).log(),
                Outcome::NotActivated => decision matches SessionDecision::Deny(reason) && reason@
                    == "session not activated"@ && final(self).log() == old(self).log(),
                Outcome::TrustExpired => decision matches SessionDecision::Deny(reason) && reason@
                    == "trust expired"@ && final(self).log() == old(self).log(),
                Outcome::Ask => decision matches SessionDecision::NeedsApproval { reason, previous_refusals }
                    && reason@ == "strict mode: approval required for "@ + req@.tool
                    && refusals(previous_refusals@) == refusals_of(live(old(self).log(), now_ms), req@.tool)
                    && final(self).log() == live(old(self).log(), now_ms),
            },
    {
        proof {
            self.sessions.lemma_shape();
        }
        let found = self.sessions.find(caller_uid);
        let i = match found {
            Some(i) => i,
            None => {
                assert(self.sessions() =~= old(self).sessions());
                return SessionDecision::Deny("session not activated".to_string());
            },
        };
        let session = *self.sessions.value_at(i);
        assert(session == old(self).session_of(caller_uid@)->0);
        assert(old(self).sessions().insert(caller_uid@, session) =~= old(self).sessions());
        match session.mode {
            SessionMode::Inactive => SessionDecision::Deny("session not activated".to_string()),
            SessionMode::Strict => {
                let previous = self.get_refusals(req.tool.as_str(), now_ms);
                SessionDecision::NeedsApproval {
                    reason: concat2("strict mode: approval required for ", req.tool.as_str()),
                    previous_refusals: previous,
                }
            },
            SessionMode::Trust => {
                match session.trust_expires {
                    Some(expires) => {
                        assert(session.trust_timeout_mins <= MAX_TRUST_MINS) by {
                            assert(session == self.sessions.vals()[i as int]);
                        }
                        assert(session.trust_timeout_mins * 60_000 <= MAX_TRUST_MINS * 60_000) by (nonlinear_arith)
                            requires
                                session.trust_timeout_mins <= MAX_TRUST_MINS,
                        ;
                        let next = if now_ms >= expires {
                            CallerSession {
                                mode: SessionMode::Inactive,
                                trust_expires: None,
                                trust_timeout_mins: session.trust_timeout_mins,
                            }
                        } else {
                            CallerSession {
                                mode: session.mode,
                                trust_expires: Some(now_ms + session.trust_timeout_mins * 60_000),
                                trust_timeout_mins: session.trust_timeout_mins,
                            }
                        };
                        assert(next == session_after_check(session, now_ms));
                        self.sessions.set_at(i, next);
                        proof {
                            let old_vals = old(self).sessions.vals();
                            assert forall|k: int| 0 <= k < self.sessions.vals().len() implies (
                            #[trigger] self.sessions.vals()[k]).trust_timeout_mins <= MAX_TRUST_MINS by {
                                if k != i {
                                    assert(self.sessions.vals()[k] == old_vals[k]);
                                }
                            }
                        }
                        if now_ms >= expires {
                            SessionDecision::Deny("trust expired".to_string())
                        } else {
                            SessionDecision::Allow
                        }
                    },
                    None => SessionDecision::Allow,
                }
            },
            SessionMode::AutoAccept => SessionDecision::Allow,
        }
    }

    /// Replaces a caller's session and returns its new state. A timeout of 0
    /// means the default.
    pub fn set_mode(&mut self, caller_uid: &str, mode: SessionMode, trust_timeout_mins: u64, now_ms: u64) -> (state:
        SessionState)
        requires
            old(self).wf(),
            mode == SessionMode::Trust ==> now_ms <= MAX_NOW_MS,
            trust_timeout_mins <= MAX_TRUST_MINS,
        ensures
            final(self).wf(),
            final(self).log() == old(self).log(),
            final(self).default_timeout() == old(self).default_timeout(),
            final(self).sessions() == old(self).sessions().insert(
                caller_uid@,
                session_set(mode, trust_timeout_mins, old(self).default_timeout(), now_ms),
            ),
            state.caller_uid@ == caller_uid@,
            state.mode == mode,
            state.trust_timeout_mins == effective_timeout(trust_timeout_mins, old(self).default_timeout()),
            state.trust_expires_ms == (match session_set(
                mode,
                trust_timeout_mins,
                old(self).default_timeout(),
                now_ms,
            ).trust_expires {
                Some(e) => e,
                None => 0,
            }),
    {
        let timeout = if trust_timeout_mins == 0 {
            self.default_trust_timeout_mins
        } else {
            trust_timeout_mins
        };
        assert(timeout * 60_000 <= MAX_TRUST_MINS * 60_000) by (nonlinear_arith)
            requires
                timeout <= MAX_TRUST_MINS,
        ;
        let trust_expires = match mode {
            SessionMode::Trust => Some(now_ms + timeout * 60_000),
            _ => None,
        };
        let trust_expires_ms = match trust_expires {
            Some(e) => e,
            None => 0,
        };
        let session = CallerSession { mode, trust_expires, trust_timeout_mins: timeout };
        proof {
            self.sessions.lemma_shape();
        }
        self.sessions.insert(caller_uid.to_string(), session);
        proof {
            let old_vals = old(self).sessions.vals();
            assert forall|k: int| 0 <= k < self.sessions.vals().len() implies (
            #[trigger] self.sessions.vals()[k]).trust_timeout_mins <= MAX_TRUST_MINS by {
                if old(self).sessions.has(caller_uid@) {
                    if k != old(self).sessions.position(caller_uid@) {
                        assert(self.sessions.vals()[k] == old_vals[k]);
                    }
                } else {
                    if k < old_vals.len() {
                        assert(self.sessions.vals()[k] == old_vals[k]);
                    }
                }
            }
        }
        SessionState { caller_uid: caller_uid.to_string(), mode, trust_expires_ms, trust_timeout_mins: timeout }
    }

    /// Logs a refusal; it is forgotten 24 hours after `now_ms`.
    pub fn record_refusal(&mut self, _caller_uid: &str, tool: &str, reason: &str, now_ms: u64)
        requires
            old(self).wf(),
            now_ms <= MAX_NOW_MS,
        ensures
            final(self).wf(),
            final(self).sessions() == old(self).sessions(),
            final(self).default_timeout() == old(self).default_timeout(),
            final(self).log() == old(self).log().push(
                RefusalEntryView {
                    tool: tool@,
                    reason: reason@,
                    expires_at: (now_ms + REFUSAL_TTL_MS) as u64,
                    refused_at_ms: now_ms,
                },
            ),
    {
        let entry = RefusalEntry {
            tool: tool.to_string(),
            reason: reason.to_string(),
            expires_at: now_ms + REFUSAL_TTL_MS,
            refused_at_ms: now_ms,
        };
        self.refusal_log.push(entry);
        assert(self.log() =~= old(self).log().push(entry@));
    }

    /// Forgets the refusals that are due at `now_ms` and returns those of
    /// `tool` that remain.
    pub fn get_refusals(&mut self, tool: &str, now_ms: u64) -> (out: Vec<RefusalContext>)
        requires
            old(self).wf(),
        ensures
            final(self).wf(),
            final(self).sessions() == old(self).sessions(),
            final(self).callers() == old(self).callers(),
            final(self).default_timeout() == old(self).default_timeout(),
            final(self).log() == live(old(self).log(), now_ms),
            refusals(out@) == refusals_of(final(self).log(), tool@),
    {
        let mut kept: Vec<RefusalEntry> = Vec::new();
        let mut out: Vec<RefusalContext> = Vec::new();
        let ghost all = self.log();
        let n = self.refusal_log.len();
        let mut i: usize = 0;
        assert(entries(kept@) =~= Seq::<RefusalEntryView>::empty());
        assert(refusals(out@) =~= Seq::<RefusalView>::empty());
        while i < n
            invariant
                i <= n,
                n == self.refusal_log.len(),
                all == entries(self.refusal_log@),
                entries(kept@) == live(all.take(i as int), now_ms),
                refusals(out@) == refusals_of(entries(kept@), tool@),
            decreases n - i,
        {
            let ghost kept_before = entries(kept@);
            let ghost out_before = refusals(out@);
            assert(all.take(i + 1).drop_last() =~= all.take(i as int));
            assert(all.take(i + 1).last() == self.refusal_log@[i as int]@);
            let e = &self.refusal_log[i];
            if e.expires_at > now_ms {
                let copy = RefusalEntry {
                    tool: e.tool.clone(),
                    reason: e.reason.clone(),
                    expires_at: e.expires_at,
                    refused_at_ms: e.refused_at_ms,
                };
                if same_text(e.tool.as_str(), tool) {
                    let item = RefusalContext {
                        tool: e.tool.clone(),
                        reason: e.reason.clone(),
                        refused_at_ms: e.refused_at_ms,
                    };
                    out.push(item);
                    assert(refusals(out@) =~= out_before.push(item@));
                }
                kept.push(copy);
                assert(entries(kept@) =~= kept_before.push(copy@));
                assert(entries(kept@).drop_last() =~= kept_before);
            }
            i += 1;
        }
        assert(all.take(n as int) =~= all);
        self.refusal_log = kept;
        out
    }

    /// A caller's session as a controller sees it at `now_ms`. A caller
    /// without a session is reported inactive.
    pub fn get_session_state(&self, caller_uid: &str, now_ms: u64) -> (state: SessionState)
        requires
            self.wf(),
        ensures
            state.caller_uid@ == caller_uid@,
            match self.session_of(caller_uid@) {
                Some(s) => state.mode == s.mode && state.trust_expires_ms == reported_expiry(s, now_ms)
                    && state.trust_timeout_mins == s.trust_timeout_mins,
                None => state.mode == SessionMode::Inactive && state.trust_expires_ms == 0
                    && state.trust_timeout_mins == self.default_timeout(),
            },
    {
        match self.sessions.find(caller_uid) {
            Some(i) => {
                let s = self.sessions.value_at(i);
                SessionState {
                    caller_uid: caller_uid.to_string(),
                    mode: s.mode,
                    trust_expires_ms: expiry_report(s, now_ms),
                    trust_timeout_mins: s.trust_timeout_mins,
                }
            },
            None => SessionState {
                caller_uid: caller_uid.to_string(),
                mode: SessionMode::Inactive,
                trust_expires_ms: 0,
                trust_timeout_mins: self.default_trust_timeout_mins,
            },
        }
    }

    /// The state of one caller, or of every caller with a session if
    /// `caller_uid` is empty.
    pub fn query_sessions(&self, caller_uid: &str, now_ms: u64) -> (states: Vec<SessionState>)
        requires
            self.wf(),
        ensures
            caller_uid@.len() > 0 ==> states@.len() == 1 && states@[0].caller_uid@ == caller_uid@ && (match self.session_of(
                caller_uid@,
            ) {
                Some(s) => states@[0].mode == s.mode && states@[0].trust_expires_ms == reported_expiry(s, now_ms)
                    && states@[0].trust_timeout_mins == s.trust_timeout_mins,
                None => states@[0].mode == SessionMode::Inactive && states@[0].trust_expires_ms == 0
                    && states@[0].trust_timeout_mins == self.default_timeout(),
            }),
            caller_uid@.len() == 0 ==> states@.len() == self.callers().len() && forall|i: int|
                0 <= i < states@.len() ==> {
                    let s = self.sessions()[self.callers()[i]];
                    &&& (#[trigger] states@[i]).caller_uid@ == self.callers()[i]
                    &&& self.sessions().contains_key(self.callers()[i])
                    &&& states@[i].mode == s.mode
                    &&& states@[i].trust_expires_ms == reported_expiry(s, now_ms)
                    &&& states@[i].trust_timeout_mins == s.trust_timeout_mins
                },
    {
        let mut states: Vec<SessionState> = Vec::new();
        if caller_uid.unicode_len() > 0 {
            states.push(self.get_session_state(caller_uid, now_ms));
            return states;
        }
        proof {
            self.sessions.lemma_shape();
        }
        let n = self.sessions.len();
        let mut i: usize = 0;
        while i < n
            invariant
                self.wf(),
                n == self.callers().len(),
                i <= n,
                states@.len() == i,
                forall|k: int|
                    0 <= k < i ==> {
                        let s = self.sessions()[self.callers()[k]];
                        &&& (#[trigger] states@[k]).caller_uid@ == self.callers()[k]
                        &&& self.sessions().contains_key(self.callers()[k])
                        &&& states@[k].mode == s.mode
                        &&& states@[k].trust_expires_ms == reported_expiry(s, now_ms)
                        &&& states@[k].trust_timeout_mins == s.trust_timeout_mins
                    },
            decreases n - i,
        {
            proof {
                self.sessions.lemma_shape();
            }
            let s = self.sessions.value_at(i);
            let state = SessionState {
                caller_uid: self.sessions.key_at(i).clone(),
                mode: s.mode,
                trust_expires_ms: expiry_report(s, now_ms),
                trust_timeout_mins: s.trust_timeout_mins,
            };
            assert(self.sessions.position(self.callers()[i as int]) == i);
            states.push(state);
            i += 1;
        }
        states
    }
}

fn expiry_report(s: &CallerSession, now_ms: u64) -> (ms: u64)
    ensures
        ms == reported_expiry(*s, now_ms),
{
    match s.trust_expires {
        Some(e) => if e > now_ms {
            e
        } else {
            0
        },
        None => 0,
    }
}

} // verus!
