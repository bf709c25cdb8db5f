//! What the job executor decides: the terminal result for each way a run can
//! end, and the envelopes that report progress and the end of a job.
//!
//! Spawning the child, reading its pipes and waiting are done by the caller,
//! who hands in what happened.

use vstd::prelude::*;
use crate::text::{append_chars, decimal, push_decimal, string_of};
use crate::wire::{Envelope, JobEvent, JobEventKind, JobFinished, JobRequest, Payload};

verus! {

/// Size of the buffer each output reader reads into.
pub const READ_CHUNK: usize = 4096;

/// How a run ended.
#[derive(Clone, Debug, PartialEq, Eq)]
pub enum RunOutcome {
    /// The child could not be started; the text is the system's error.
    SpawnFailed(String),
    /// Waiting for the child failed; the text is the system's error.
    WaitFailed(String),
    /// The job's timeout passed and the child was killed.
    TimedOut,
    /// A cancel arrived and the child was killed.
    Cancelled,
    /// The child exited, with its exit code unless a signal ended it.
    Exited(Option<i32>),
}

/// Exit code reported for an outcome: the child's own code if it has one, -1
/// in every other case.
pub open spec fn exit_code_of(outcome: RunOutcome) -> i32 {
    match outcome {
        RunOutcome::Exited(Some(code)) => code,
        _ => -1i32,
    }
}

/// Error text reported for an outcome.
pub open spec fn error_of(outcome: RunOutcome) -> Seq<char> {
    match outcome {
        RunOutcome::SpawnFailed(e) => e@,
        RunOutcome::WaitFailed(e) => e@,
        RunOutcome::TimedOut => "timeout"@,
        RunOutcome::Cancelled => "cancelled"@,
        RunOutcome::Exited(_) => ""@,
    }
}

/// The terminal result of a run: exit code and error text.
pub fn job_result(outcome: RunOutcome) -> (r: (i32, String))
    ensures
        r.0 == exit_code_of(outcome),
        r.1@ == error_of(outcome),
{
    match outcome {
        RunOutcome::SpawnFailed(e) => (-1, e),
        RunOutcome::WaitFailed(e) => (-1, e),
        RunOutcome::TimedOut => (-1, "timeout".to_string()),
        RunOutcome::Cancelled => (-1, "cancelled".to_string()),
        RunOutcome::Exited(Some(code)) => (code, "".to_string()),
        RunOutcome::Exited(None) => (-1, "".to_string()),
    }
}

/// Whether a request limits its run time (a timeout of 0 means it does not).
pub fn has_timeout(req: &JobRequest) -> (r: bool)
    ensures
        r == (req.timeout_ms > 0),
{
    req.timeout_ms > 0
}

/// Whether a request names a working directory.
pub fn has_cwd(req: &JobRequest) -> (r: bool)
    ensures
        r == (req.cwd@.len() > 0),
{
    req.cwd.as_str().unicode_len() > 0
}

/// The message id with the given prefix and running number, such as `d-17`.
pub fn new_msg_id(prefix: &str, counter: u64) -> (id: String)
    ensures
        id@ == prefix@ + "-"@ + decimal(counter as nat),
{
    let mut buf: Vec<char> = Vec::new();
    append_chars(&mut buf, prefix);
    append_chars(&mut buf, "-");
    push_decimal(&mut buf, counter);
    assert(buf@ =~= prefix@ + "-"@ + decimal(counter as nat));
    string_of(&buf)
}

/// An unstamped envelope around a payload.
pub fn envelope_for(device_id: &str, msg_id: String, ts_ms: u64, payload: Payload) -> (e: Envelope)
    ensures
        e.device_id@ == device_id@,
        e.msg_id == msg_id,
        e.ts_ms == ts_ms,
        e.seq == 0,
        e.ack == 0,
        e.payload == Some(payload),
{
    Envelope { device_id: device_id.to_string(), msg_id, ts_ms, seq: 0, ack: 0, payload: Some(payload) }
}

/// The event a chunk of output is reported as: standard output if there is
/// such a chunk, else standard error, else nothing.
pub open spec fn chunk_event(stdout_chunk: Option<Vec<u8>>, stderr_chunk: Option<Vec<u8>>) -> Option<
    JobEventKind,
> {
    match stdout_chunk {
        Some(data) => Some(JobEventKind::StdoutChunk(data)),
        None => match stderr_chunk {
            Some(data) => Some(JobEventKind::StderrChunk(data)),
            None => None,
        },
    }
}

/// The unstamped envelope that reports a chunk of a job's output.
pub fn make_event_envelope(
    device_id: &str,
    job_id: &str,
    stdout_chunk: Option<Vec<u8>>,
    stderr_chunk: Option<Vec<u8>>,
    msg_id: String,
    ts_ms: u64,
) -> (e: Envelope)
    ensures
        e.device_id@ == device_id@,
        e.msg_id == msg_id,
        e.ts_ms == ts_ms,
        e.seq == 0,
        e.ack == 0,
        e.payload matches Some(Payload::JobEvent(ev)) && ev.job_id@ == job_id@ && ev.event == chunk_event(
            stdout_chunk,
            stderr_chunk,
        ),
{
    let event = match stdout_chunk {
        Some(data) => Some(JobEventKind::StdoutChunk(data)),
        None => match stderr_chunk {
            Some(data) => Some(JobEventKind::StderrChunk(data)),
            None => None,
        },
    };
    envelope_for(device_id, msg_id, ts_ms, Payload::JobEvent(JobEvent { job_id: job_id.to_string(), event }))
}

/// The unstamped envelope that reports the end of a job.
pub fn finish(device_id: &str, job_id: &str, exit_code: i32, error: &str, msg_id: String, ts_ms: u64) -> (e:
    Envelope)
    ensures
        e.device_id@ == device_id@,
        e.msg_id == msg_id,
        e.ts_ms == ts_ms,
        e.seq == 0,
        e.ack == 0,
        e.payload matches Some(Payload::JobFinished(f)) && f.job_id@ == job_id@ && f.exit_code == exit_code
            && f.error@ == error@,
{
    envelope_for(
        device_id,
        msg_id,
        ts_ms,
        Payload::JobFinished(JobFinished { job_id: job_id.to_string(), exit_code, error: error.to_string() }),
    )
}

// ── One run, event by event ─────────────────────────────────────────────

/// Where a run stands.
#[derive(Clone, Debug, PartialEq, Eq)]
pub enum RunState {
    /// The child is not started yet.
    Idle,
    /// The child runs; the flags tell which of its output pipes are open.
    Running { stdout_open: bool, stderr_open: bool },
    /// The run has its outcome; output is read until both pipes are closed.
    Draining { stdout_open: bool, stderr_open: bool, outcome: RunOutcome },
    /// The end of the job was reported.
    Finished,
}

/// What happens during a run.
#[derive(Clone, Debug, PartialEq, Eq)]
pub enum RunEvent {
    /// The child was started.
    Spawned,
    /// The child could not be started.
    SpawnFailed(String),
    /// A reader read a chunk of output.
    Chunk { from_stdout: bool, data: Vec<u8> },
    /// A reader reached the end of its pipe.
    ReaderClosed { from_stdout: bool },
    /// The child exited.
    Exited(Option<i32>),
    /// Waiting for the child failed.
    WaitFailed(String),
    /// The job's timeout passed.
    TimedOut,
    /// A cancel arrived.
    CancelRequested,
}

/// What the caller is to do after an event.
#[derive(Clone, Debug, PartialEq, Eq)]
pub struct Reaction {
    /// Kill the child.
    pub kill: bool,
    /// Store and send this chunk; the flag tells whether it is standard output.
    pub chunk: Option<(bool, Vec<u8>)>,
    /// Report the end of the job with this outcome.
    pub finish: Option<RunOutcome>,
}

impl Reaction {
    /// Nothing to do.
    pub open spec fn nothing() -> Reaction {
        Reaction { kill: false, chunk: None, finish: None }
    }
}

/// The state once an outcome is known: finished if both pipes are closed,
/// else draining.
pub open spec fn settle(stdout_open: bool, stderr_open: bool, outcome: RunOutcome, kill: bool) -> (
    RunState,
    Reaction,
) {
    if !stdout_open && !stderr_open {
        (RunState::Finished, Reaction { kill, chunk: None, finish: Some(outcome) })
    } else {
        (RunState::Draining { stdout_open, stderr_open, outcome }, Reaction { kill, chunk: None, finish: None })
    }
}

/// The state after an event, and what the caller is to do.
///
/// Chunks are passed on while the child runs and while output is drained.
/// The first of exit, timeout and cancel decides the outcome; timeout and
/// cancel have the child killed. The end of the job is reported once both
/// pipes are closed, or at once if the child could not be started. An event
/// that does not fit the state changes nothing.
pub open spec fn react(state: RunState, event: RunEvent) -> (RunState, Reaction) {
    match state {
        RunState::Idle => match event {
            RunEvent::Spawned => (RunState::Running { stdout_open: true, stderr_open: true }, Reaction::nothing()),
            RunEvent::SpawnFailed(e) => (
                RunState::Finished,
                Reaction { kill: false, chunk: None, finish: Some(RunOutcome::SpawnFailed(e)) },
            ),
            _ => (state, Reaction::nothing()),
        },
        RunState::Running { stdout_open, stderr_open } => match event {
            RunEvent::Chunk { from_stdout, data } => (
                state,
                Reaction { kill: false, chunk: Some((from_stdout, data)), finish: None },
            ),
            RunEvent::ReaderClosed { from_stdout } => (
                RunState::Running {
                    stdout_open: stdout_open && !from_stdout,
                    stderr_open: stderr_open && from_stdout,
                },
                Reaction::nothing(),
            ),
            RunEvent::Exited(code) => settle(stdout_open, stderr_open, RunOutcome::Exited(code), false),
            RunEvent::WaitFailed(e) => settle(stdout_open, stderr_open, RunOutcome::WaitFailed(e), false),
            RunEvent::TimedOut => settle(stdout_open, stderr_open, RunOutcome::TimedOut, true),
            RunEvent::CancelRequested => settle(stdout_open, stderr_open, RunOutcome::Cancelled, true),
            _ => (state, Reaction::nothing()),
        },
        RunState::Draining { stdout_open, stderr_open, outcome } => match event {
            RunEvent::Chunk { from_stdout, data } => (
                state,
                Reaction { kill: false, chunk: Some((from_stdout, data)), finish: None },
            ),
            RunEvent::ReaderClosed { from_stdout } => settle(
                stdout_open && !from_stdout,
                stderr_open && from_stdout,
                outcome,
                false,
            ),
            _ => (state, Reaction::nothing()),
        },
        RunState::Finished => (state, Reaction::nothing()),
    }
}

fn settled(stdout_open: bool, stderr_open: bool, outcome: RunOutcome, kill: bool) -> (r: (RunState, Reaction))
    ensures
        r == settle(stdout_open, stderr_open, outcome, kill),
{
    if !stdout_open && !stderr_open {
        (RunState::Finished, Reaction { kill, chunk: None, finish: Some(outcome) })
    } else {
        (RunState::Draining { stdout_open, stderr_open, outcome }, Reaction { kill, chunk: None, finish: None })
    }
}

/// Takes a run one event further.
pub fn step(state: RunState, event: RunEvent) -> (r: (RunState, Reaction))
    ensures
        r == react(state, event),
{
    let idle = Reaction { kill: false, chunk: None, finish: None };
    match state {
        RunState::Idle => match event {
            RunEvent::Spawned => (RunState::Running { stdout_open: true, stderr_open: true }, idle),
            RunEvent::SpawnFailed(e) => (
                RunState::Finished,
                Reaction { kill: false, chunk: None, finish: Some(RunOutcome::SpawnFailed(e)) },
            ),
            _ => (RunState::Idle, idle),
        },
        RunState::Running { stdout_open, stderr_open } => match event {
            RunEvent::Chunk { from_stdout, data } => (
                RunState::Running { stdout_open, stderr_open },
                Reaction { kill: false, chunk: Some((from_stdout, data)), finish: None },
            ),
            RunEvent::ReaderClosed { from_stdout } => (
                RunState::Running {
                    stdout_open: stdout_open && !from_stdout,
                    stderr_open: stderr_open && from_stdout,
                },
                idle,
            ),
            RunEvent::Exited(code) => settled(stdout_open, stderr_open, RunOutcome::Exited(code), false),
            RunEvent::WaitFailed(e) => settled(stdout_open, stderr_open, RunOutcome::WaitFailed(e), false),
            RunEvent::TimedOut => settled(stdout_open, stderr_open, RunOutcome::TimedOut, true),
            RunEvent::CancelRequested => settled(stdout_open, stderr_open, RunOutcome::Cancelled, true),
            _ => (RunState::Running { stdout_open, stderr_open }, idle),
        },
        RunState::Draining { stdout_open, stderr_open, outcome } => match event {
            RunEvent::Chunk { from_stdout, data } => (
                RunState::Draining { stdout_open, stderr_open, outcome },
                Reaction { kill: false, chunk: Some((from_stdout, data)), finish: None },
            ),
            RunEvent::ReaderClosed { from_stdout } => settled(
                stdout_open && !from_stdout,
                stderr_open && from_stdout,
                outcome,
                false,
            ),
            _ => (RunState::Draining { stdout_open, stderr_open, outcome }, idle),
        },
        RunState::Finished => (RunState::Finished, idle),
    }
}

/// The state after a run of events.
pub open spec fn state_after(events: Seq<RunEvent>) -> RunState
    decreases events.len(),
{
    if events.len() == 0 {
        RunState::Idle
    } else {
        react(state_after(events.drop_last()), events.last()).0
    }
}

/// How often a run of events has the end of the job reported.
pub open spec fn finishes(events: Seq<RunEvent>) -> nat
    decreases events.len(),
{
    if events.len() == 0 {
        0
    } else {
        finishes(events.drop_last()) + (if react(state_after(events.drop_last()), events.last()).1.finish is Some {
            1nat
        } else {
            0nat
        })
    }
}

/// How often a run of events has the child killed.
pub open spec fn kills(events: Seq<RunEvent>) -> nat
    decreases events.len(),
{
    if events.len() == 0 {
        0
    } else {
        kills(events.drop_last()) + (if react(state_after(events.drop_last()), events.last()).1.kill {
            1nat
        } else {
            0nat
        })
    }
}

/// The chunks that a run of events has the caller pass on, in order.
pub open spec fn passed_on(events: Seq<RunEvent>) -> Seq<(bool, Vec<u8>)>
    decreases events.len(),
{
    if events.len() == 0 {
        Seq::empty()
    } else {
        match react(state_after(events.drop_last()), events.last()).1.chunk {
            Some(c) => passed_on(events.drop_last()).push(c),
            None => passed_on(events.drop_last()),
        }
    }
}

/// The chunks that the readers read during a run of events, in order.
pub open spec fn chunks_read(events: Seq<RunEvent>) -> Seq<(bool, Vec<u8>)>
    decreases events.len(),
{
    if events.len() == 0 {
        Seq::empty()
    } else {
        match events.last() {
            RunEvent::Chunk { from_stdout, data } => chunks_read(events.drop_last()).push((from_stdout, data)),
            _ => chunks_read(events.drop_last()),
        }
    }
}

/// From the start of the child until the end of the job is reported, every
/// chunk that a reader reads is passed on, unchanged and in the order in
/// which it was read, however many there are.
pub proof fn lemma_output_is_passed_on(events: Seq<RunEvent>)
    requires
        events.len() > 0,
        events[0] is Spawned,
        !(state_after(events.drop_last()) is Finished),
    ensures
        passed_on(events) == chunks_read(events),
        !(state_after(events) is Idle),
    decreases events.len(),
{
    let front = events.drop_last();
    let state = state_after(front);
    let event = events.last();
    if events.len() == 1 {
        assert(front.len() == 0);
        assert(event == events[0]);
        assert(state is Idle);
        assert(passed_on(front) =~= Seq::<(bool, Vec<u8>)>::empty());
        assert(chunks_read(front) =~= Seq::<(bool, Vec<u8>)>::empty());
        assert(react(state, event).1.chunk is None);
    } else {
        assert(front[0] == events[0]);
        if state_after(front.drop_last()) is Finished {
            assert(state_after(front) is Finished);
        }
        lemma_output_is_passed_on(front);
        assert(state is Running || state is Draining);
        match event {
            RunEvent::Chunk { from_stdout, data } => {
                assert(react(state, event).1.chunk == Some((from_stdout, data)));
            },
            _ => {
                assert(react(state, event).1.chunk is None);
            },
        }
    }
}

/// Whatever happens, the end of a job is reported at most once: exactly once
/// when the run is finished, and not before. The child is killed at most
/// once.
pub proof fn lemma_one_finish(events: Seq<RunEvent>)
    ensures
        finishes(events) == (if state_after(events) is Finished { 1nat } else { 0nat }),
        kills(events) <= 1,
        state_after(events) is Idle || state_after(events) is Running ==> kills(events) == 0,
    decreases events.len(),
{
    if events.len() > 0 {
        lemma_one_finish(events.drop_last());
    }
}

/// The end of a job is reported only when no output is left to read: both
/// pipes are closed, or the child never started. With the report the run is
/// finished, and after it nothing is passed on or reported. The outcome that
/// is reported is the one that was known first: while output is drained it
/// does not change.
pub proof fn lemma_finish_comes_last(state: RunState, event: RunEvent)
    ensures
        react(state, event).1.finish is Some ==> react(state, event).0 is Finished && react(state, event).1.chunk is None,
        react(state, event).1.finish is Some ==> (state is Idle && event is SpawnFailed) || (match state {
            RunState::Running { stdout_open, stderr_open } => !stdout_open && !stderr_open,
            RunState::Draining { stdout_open, stderr_open, .. } => event matches RunEvent::ReaderClosed { from_stdout }
                && !(stdout_open && !from_stdout) && !(stderr_open && from_stdout),
            _ => false,
        }),
        state is Finished ==> react(state, event) == (RunState::Finished, Reaction::nothing()),
        react(state, event).1.kill ==> state is Running && (event is TimedOut || event is CancelRequested),
        state matches RunState::Draining { outcome, .. } ==> (match react(state, event).0 {
            RunState::Draining { outcome: kept, .. } => kept == outcome,
            RunState::Finished => react(state, event).1.finish == Some(outcome),
            _ => false,
        }),
        state is Running && event is Exited ==> (match react(state, event).0 {
            RunState::Draining { outcome: kept, .. } => kept == RunOutcome::Exited(event->Exited_0),
            RunState::Finished => react(state, event).1.finish == Some(RunOutcome::Exited(event->Exited_0)),
            _ => false,
        }),
{
}

} // verus!
