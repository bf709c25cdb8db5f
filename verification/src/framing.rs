//! Framing on the local operator socket: a 4-byte big-endian length, then
//! that many bytes of an encoded envelope.

use vstd::prelude::*;
use crate::text::{append_chars, decimal, push_decimal, string_of};

verus! {

/// Longest payload of a frame, in bytes (16 MiB).
pub const MAX_FRAME_LEN: usize = 16_777_216;

/// Why bytes are no frame.
#[derive(Clone, Copy, Debug, PartialEq, Eq, Structural)]
pub enum FrameError {
    /// The length field is above the cap.
    TooLarge,
}

/// The number that four bytes stand for, most significant first.
pub open spec fn be32(b0: u8, b1: u8, b2: u8, b3: u8) -> int {
    b0 as int * 16_777_216 + b1 as int * 65_536 + b2 as int * 256 + b3 as int
}

/// The four bytes that stand for a length, most significant first.
pub open spec fn length_bytes(n: int) -> Seq<u8> {
    seq![
        ((n / 16_777_216) % 256) as u8,
        ((n / 65_536) % 256) as u8,
        ((n / 256) % 256) as u8,
        (n % 256) as u8,
    ]
}

/// A payload with its length in front.
pub open spec fn framed(data: Seq<u8>) -> Seq<u8> {
    length_bytes(data.len() as int) + data
}

/// The payload length that a frame header announces.
pub fn decode_length(b0: u8, b1: u8, b2: u8, b3: u8) -> (r: Result<usize, FrameError>)
    ensures
        be32(b0, b1, b2, b3) > MAX_FRAME_LEN ==> r == Err::<usize, FrameError>(FrameError::TooLarge),
        be32(b0, b1, b2, b3) <= MAX_FRAME_LEN ==> r == Ok::<usize, FrameError>(be32(b0, b1, b2, b3) as usize),
{
    let n: u64 = (b0 as u64) * 16_777_216 + (b1 as u64) * 65_536 + (b2 as u64) * 256 + (b3 as u64);
    if n > 16_777_216 {
        Err(FrameError::TooLarge)
    } else {
        Ok(n as usize)
    }
}

/// The frame for a payload, or nothing if the payload is longer than a frame
/// may be.
pub fn encode_frame(data: &Vec<u8>) -> (r: Option<Vec<u8>>)
    ensures
        r is Some <==> data@.len() <= MAX_FRAME_LEN,
        r is Some ==> r->0@ == framed(data@),
{
    let n = data.len();
    if n > MAX_FRAME_LEN {
        return None;
    }
    let mut out: Vec<u8> = Vec::new();
    out.push(((n / 16_777_216) % 256) as u8);
    out.push(((n / 65_536) % 256) as u8);
    out.push(((n / 256) % 256) as u8);
    out.push((n % 256) as u8);
    let mut i: usize = 0;
    while i < n
        invariant
            n == data.len(),
            i <= n,
            out@ == length_bytes(n as int) + data@.subrange(0, i as int),
        decreases n - i,
    {
        out.push(data[i]);
        i += 1;
        assert(out@ =~= length_bytes(n as int) + data@.subrange(0, i as int));
    }
    assert(data@.subrange(0, n as int) =~= data@);
    Some(out)
}

/// What the front of a receive buffer holds.
#[derive(Clone, Debug, PartialEq, Eq)]
pub enum FrameStatus {
    /// Not yet a whole frame.
    NeedMore,
    /// A frame whose length field is above the cap.
    TooLarge,
    /// A whole frame: its payload; it took 4 bytes more than that.
    Frame(Vec<u8>),
}

/// What the front of `buf` holds.
pub open spec fn front_frame(buf: Seq<u8>) -> Option<Result<Seq<u8>, FrameError>> {
    if buf.len() < 4 {
        None
    } else {
        let n = be32(buf[0], buf[1], buf[2], buf[3]);
        if n > MAX_FRAME_LEN {
            Some(Err(FrameError::TooLarge))
        } else if buf.len() < 4 + n {
            None
        } else {
            Some(Ok(buf.subrange(4, 4 + n)))
        }
    }
}

/// Reads the frame at the front of a receive buffer.
pub fn next_frame(buf: &Vec<u8>) -> (r: FrameStatus)
    ensures
        match front_frame(buf@) {
            None => r is NeedMore,
            Some(Err(_)) => r is TooLarge,
            Some(Ok(payload)) => r matches FrameStatus::Frame(p) && p@ == payload,
        },
{
    if buf.len() < 4 {
        return FrameStatus::NeedMore;
    }
    let n = match decode_length(buf[0], buf[1], buf[2], buf[3]) {
        Ok(n) => n,
        Err(_) => {
            return FrameStatus::TooLarge;
        },
    };
    if buf.len() - 4 < n {
        return FrameStatus::NeedMore;
    }
    let mut payload: Vec<u8> = Vec::new();
    let mut i: usize = 0;
    while i < n
        invariant
            i <= n,
            4 + n <= buf.len(),
            payload@ == buf@.subrange(4, 4 + i),
        decreases n - i,
    {
        payload.push(buf[4 + i]);
        i += 1;
        assert(payload@ =~= buf@.subrange(4, 4 + i));
    }
    FrameStatus::Frame(payload)
}

/// A frame that was written is read back as it was, whatever follows it.
pub proof fn lemma_frame_round_trip(data: Seq<u8>, rest: Seq<u8>)
    requires
        data.len() <= MAX_FRAME_LEN,
    ensures
        front_frame(framed(data) + rest) == Some(Ok::<Seq<u8>, FrameError>(data)),
{
    let n = data.len() as int;
    let buf = framed(data) + rest;
    let h = length_bytes(n);
    assert(buf[0] == h[0] && buf[1] == h[1] && buf[2] == h[2] && buf[3] == h[3]);
    assert(be32(h[0], h[1], h[2], h[3]) == n) by {
        assert(0 <= n <= 16_777_216);
        assert(((n / 16_777_216) % 256) * 16_777_216 + ((n / 65_536) % 256) * 65_536 + ((n / 256) % 256) * 256 + (n
            % 256) == n) by (nonlinear_arith)
            requires
                0 <= n <= 16_777_216,
        ;
    }
    assert(buf.subrange(4, 4 + n) =~= data);
}

/// The caller id of a local client: `uid:` and the user id, or `uid:unknown`
/// where the system does not tell it.
pub fn caller_uid_for(uid: Option<u32>) -> (id: String)
    ensures
        id@ == (match uid {
            Some(n) => "uid:"@ + decimal(n as nat),
            None => "uid:unknown"@,
        }),
{
    match uid {
        Some(n) => {
            let mut buf: Vec<char> = Vec::new();
            append_chars(&mut buf, "uid:");
            push_decimal(&mut buf, n as u64);
            assert(buf@ =~= "uid:"@ + decimal(n as nat));
            string_of(&buf)
        },
        None => "uid:unknown".to_string(),
    }
}

} // verus!
