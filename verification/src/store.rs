//! What the run store writes: one trace record per envelope.
//!
//! The files themselves are written by the caller.

use vstd::prelude::*;
use crate::wire::{describe_payload, payload_name, Envelope};

verus! {

/// Direction of an envelope.
#[derive(Clone, Copy, Debug, PartialEq, Eq, Structural)]
pub enum Direction {
    Inbound,
    Outbound,
}

impl Direction {
    /// The direction as the trace names it.
    pub fn as_str(self) -> (s: &'static str)
        ensures
            s@ == (match self {
                Direction::Inbound => "in"@,
                Direction::Outbound => "out"@,
            }),
    {
        match self {
            Direction::Inbound => "in",
            Direction::Outbound => "out",
        }
    }
}

/// One line of the trace.
#[derive(Clone, Debug, PartialEq, Eq)]
pub struct TraceRecord {
    pub ts_ms: u64,
    pub direction: String,
    pub device_id: String,
    pub msg_id: String,
    pub seq: u64,
    pub ack: u64,
    /// Name of the payload variant.
    pub payload: String,
}

/// The trace record of an envelope.
pub fn trace_record(envelope: &Envelope, direction: Direction) -> (r: TraceRecord)
    ensures
        r.ts_ms == envelope.ts_ms,
        r.direction@ == (match direction {
            Direction::Inbound => "in"@,
            Direction::Outbound => "out"@,
        }),
        r.device_id == envelope.device_id,
        r.msg_id == envelope.msg_id,
        r.seq == envelope.seq,
        r.ack == envelope.ack,
        r.payload@ == payload_name(envelope.payload),
{
    TraceRecord {
        ts_ms: envelope.ts_ms,
        direction: direction.as_str().to_string(),
        device_id: envelope.device_id.clone(),
        msg_id: envelope.msg_id.clone(),
        seq: envelope.seq,
        ack: envelope.ack,
        payload: describe_payload(envelope).to_string(),
    }
}

} // verus!
