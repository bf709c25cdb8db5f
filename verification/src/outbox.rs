//! Per-connection outbox: sequence numbering, cumulative acknowledgement and
//! the buffer of messages to replay after a reconnect.

use std::collections::VecDeque;
use vstd::prelude::*;
use crate::text::{copy_bytes, keep_last};
use crate::wire::Envelope;

verus! {

/// Most unacknowledged messages a connection's outbox keeps.
pub const OUTBOX_CAP: usize = 10_000;

/// Mathematical state of an [`Outbox`].
pub struct OutboxView {
    /// Sequence number the next stamped envelope gets.
    pub next_seq: int,
    /// Highest sequence number the peer has acknowledged.
    pub peer_ack: int,
    /// Highest sequence number received from the peer.
    pub local_ack: int,
    /// Unacknowledged messages, oldest first.
    pub buffer: Seq<(int, Seq<u8>)>,
    /// Most messages the buffer keeps.
    pub cap: int,
}

/// The entries of `buffer` with a sequence number above `ack`, in order.
pub open spec fn above(buffer: Seq<(int, Seq<u8>)>, ack: int) -> Seq<(int, Seq<u8>)>
    decreases buffer.len(),
{
    if buffer.len() == 0 {
        buffer
    } else if buffer.last().0 > ack {
        above(buffer.drop_last(), ack).push(buffer.last())
    } else {
        above(buffer.drop_last(), ack)
    }
}

impl OutboxView {
    /// A fresh outbox.
    pub open spec fn init(cap: int) -> OutboxView {
        OutboxView { next_seq: 1, peer_ack: 0, local_ack: 0, buffer: Seq::empty(), cap }
    }

    /// After one envelope was stamped.
    pub open spec fn stamp(self) -> OutboxView {
        OutboxView { next_seq: self.next_seq + 1, ..self }
    }

    /// After an encoded message was buffered.
    pub open spec fn store(self, seq: int, data: Seq<u8>) -> OutboxView {
        OutboxView { buffer: keep_last(self.buffer.push((seq, data)), self.cap), ..self }
    }

    /// After a message with sequence number `seq` arrived.
    pub open spec fn on_recv(self, seq: int) -> OutboxView {
        OutboxView { local_ack: if seq > self.local_ack { seq } else { self.local_ack }, ..self }
    }

    /// After the peer acknowledged everything up to `ack`.
    pub open spec fn on_peer_ack(self, ack: int) -> OutboxView {
        let w = if ack > self.peer_ack { ack } else { self.peer_ack };
        OutboxView { peer_ack: w, buffer: above(self.buffer, w), ..self }
    }

    /// After one message was stamped and buffered under its sequence number.
    pub open spec fn send(self, data: Seq<u8>) -> OutboxView {
        self.stamp().store(self.next_seq, data)
    }

    /// After the messages of `msgs` were sent one after the other.
    pub open spec fn send_all(self, msgs: Seq<Seq<u8>>) -> OutboxView
        decreases msgs.len(),
    {
        if msgs.len() == 0 {
            self
        } else {
            self.send_all(msgs.drop_last()).send(msgs.last())
        }
    }

    /// The buffered messages without their sequence numbers.
    pub open spec fn unacked(self) -> Seq<Seq<u8>> {
        self.buffer.map_values(|e: (int, Seq<u8>)| e.1)
    }
}

/// Every entry kept by `above` has a sequence number above the watermark, and
/// every such entry of the input is kept.
pub proof fn lemma_above(buffer: Seq<(int, Seq<u8>)>, ack: int)
    ensures
        forall|i: int| 0 <= i < above(buffer, ack).len() ==> (#[trigger] above(buffer, ack)[i]).0 > ack,
        forall|i: int| 0 <= i < above(buffer, ack).len() ==> buffer.contains(#[trigger] above(buffer, ack)[i]),
        forall|i: int| 0 <= i < buffer.len() && (#[trigger] buffer[i]).0 > ack ==> above(buffer, ack).contains(buffer[i]),
        above(buffer, ack).len() <= buffer.len(),
        (forall|i: int| 0 <= i < buffer.len() ==> (#[trigger] buffer[i]).0 <= ack) ==> above(buffer, ack).len() == 0,
        (forall|i: int| 0 <= i < buffer.len() ==> (#[trigger] buffer[i]).0 > ack) ==> above(buffer, ack) == buffer,
    decreases buffer.len(),
{
    if buffer.len() > 0 {
        let front = buffer.drop_last();
        let last = buffer.last();
        lemma_above(front, ack);
        let out = above(buffer, ack);
        assert forall|i: int| 0 <= i < out.len() implies buffer.contains(#[trigger] out[i]) by {
            if i < above(front, ack).len() {
                let e = above(front, ack)[i];
                assert(front.contains(e));
                let k = choose|k: int| 0 <= k < front.len() && front[k] == e;
                assert(buffer[k] == e);
            } else {
                assert(buffer[buffer.len() - 1] == last);
            }
        }
        assert forall|i: int| 0 <= i < buffer.len() && (#[trigger] buffer[i]).0 > ack implies out.contains(buffer[i]) by {
            if i < front.len() {
                assert(front[i] == buffer[i]);
                assert(above(front, ack).contains(front[i]));
                let k = choose|k: int| 0 <= k < above(front, ack).len() && above(front, ack)[k] == front[i];
                assert(out[k] == buffer[i]);
            } else {
                assert(out[out.len() - 1] == last);
            }
        }
        if forall|i: int| 0 <= i < buffer.len() ==> (#[trigger] buffer[i]).0 <= ack {
            assert forall|i: int| 0 <= i < front.len() implies (#[trigger] front[i]).0 <= ack by {
                assert(front[i] == buffer[i]);
            }
            assert(buffer[buffer.len() - 1].0 <= ack);
        }
        if forall|i: int| 0 <= i < buffer.len() ==> (#[trigger] buffer[i]).0 > ack {
            assert forall|i: int| 0 <= i < front.len() implies (#[trigger] front[i]).0 > ack by {
                assert(front[i] == buffer[i]);
            }
            assert(buffer[buffer.len() - 1].0 > ack);
            assert(front.push(last) =~= buffer);
        }
    }
}

/// After any number of sends on a fresh outbox, the next sequence number is one
/// more than the number of sends, and no buffered entry is numbered higher than
/// the number of sends.
pub proof fn lemma_send_all(cap: int, msgs: Seq<Seq<u8>>)
    ensures
        OutboxView::init(cap).send_all(msgs).next_seq == msgs.len() + 1,
        OutboxView::init(cap).send_all(msgs).peer_ack == 0,
        OutboxView::init(cap).send_all(msgs).cap == cap,
        forall|i: int|
            0 <= i < OutboxView::init(cap).send_all(msgs).buffer.len() ==> 1 <= (
            #[trigger] OutboxView::init(cap).send_all(msgs).buffer[i]).0 <= msgs.len(),
    decreases msgs.len(),
{
    if msgs.len() > 0 {
        lemma_send_all(cap, msgs.drop_last());
        let prev = OutboxView::init(cap).send_all(msgs.drop_last());
        let next = prev.send(msgs.last());
        let pushed = prev.buffer.push((prev.next_seq, msgs.last()));
        assert forall|i: int| 0 <= i < pushed.len() implies 1 <= (#[trigger] pushed[i]).0 <= msgs.len() by {
            if i < prev.buffer.len() {
                assert(pushed[i] == prev.buffer[i]);
            }
        }
        assert(next.buffer == keep_last(pushed, cap));
        assert forall|i: int| 0 <= i < next.buffer.len() implies 1 <= (#[trigger] next.buffer[i]).0 <= msgs.len() by {
            if pushed.len() <= cap {
            } else if cap <= 0 {
            } else {
                assert(next.buffer[i] == pushed[pushed.len() - cap + i]);
            }
        }
    }
}

/// Sequence numbers on one connection and direction are 1, 2, 3, ... without
/// gaps: the envelope stamped after `k` earlier ones gets the number `k + 1`.
pub proof fn lemma_sequence_numbers_have_no_gaps(cap: int, msgs: Seq<Seq<u8>>, k: int)
    requires
        0 <= k <= msgs.len(),
    ensures
        OutboxView::init(cap).send_all(msgs.take(k)).next_seq == k + 1,
{
    lemma_send_all(cap, msgs.take(k));
}

/// Whatever watermark the peer's acknowledgement leads to, every entry still
/// buffered afterwards is numbered above it.
pub proof fn lemma_buffer_is_above_watermark(o: OutboxView, ack: int)
    ensures
        o.on_peer_ack(ack).peer_ack >= ack,
        forall|i: int|
            0 <= i < o.on_peer_ack(ack).buffer.len() ==> (#[trigger] o.on_peer_ack(ack).buffer[i]).0
                > o.on_peer_ack(ack).peer_ack,
{
    let w = if ack > o.peer_ack { ack } else { o.peer_ack };
    lemma_above(o.buffer, w);
}

/// Sending `n` messages on a fresh outbox and then seeing the peer acknowledge
/// `n` leaves nothing to replay.
pub proof fn lemma_ack_of_everything_empties_buffer(cap: int, msgs: Seq<Seq<u8>>)
    ensures
        OutboxView::init(cap).send_all(msgs).on_peer_ack(msgs.len() as int).buffer.len() == 0,
{
    lemma_send_all(cap, msgs);
    let o = OutboxView::init(cap).send_all(msgs);
    lemma_above(o.buffer, msgs.len() as int);
}

/// Tracks outbound sequence numbers and inbound acknowledgements, and buffers
/// unacknowledged messages for replay.
pub struct Outbox {
    next_seq: u64,
    peer_ack: u64,
    local_ack: u64,
    buffer: VecDeque<(u64, Vec<u8>)>,
    max_buffer: usize,
}

impl View for Outbox {
    type V = OutboxView;

    closed spec fn view(&self) -> OutboxView {
        OutboxView {
            next_seq: self.next_seq as int,
            peer_ack: self.peer_ack as int,
            local_ack: self.local_ack as int,
            buffer: self.buffer@.map_values(|e: (u64, Vec<u8>)| (e.0 as int, e.1@)),
            cap: self.max_buffer as int,
        }
    }
}

impl Outbox {
    /// An empty outbox that keeps at most `max_buffer` unacknowledged messages.
    pub fn new(max_buffer: usize) -> (o: Outbox)
        ensures
            o@ == OutboxView::init(max_buffer as int),
    {
        let o = Outbox { next_seq: 1, peer_ack: 0, local_ack: 0, buffer: VecDeque::new(), max_buffer };
        assert(o@.buffer =~= Seq::empty());
        o
    }

    /// Gives `envelope` the next sequence number and the current
    /// acknowledgement, and returns the sequence number.
    pub fn stamp(&mut self, envelope: &mut Envelope) -> (seq: u64)
        requires
            old(self)@.next_seq < u64::MAX,
        ensures
            seq == old(self)@.next_seq,
            final(self)@ == old(self)@.stamp(),
            final(envelope).seq == seq,
            final(envelope).ack == old(self)@.local_ack,
            final(envelope).device_id == old(envelope).device_id,
            final(envelope).msg_id == old(envelope).msg_id,
            final(envelope).ts_ms == old(envelope).ts_ms,
            final(envelope).payload == old(envelope).payload,
    {
        let seq = self.next_seq;
        self.next_seq = self.next_seq + 1;
        envelope.seq = seq;
        envelope.ack = self.local_ack;
        seq
    }

    /// Buffers an encoded message for replay; once the buffer holds more than
    /// its cap, the oldest entries leave.
    pub fn store(&mut self, seq: u64, data: Vec<u8>)
        ensures
            final(self)@ == old(self)@.store(seq as int, data@),
    {
        self.buffer.push_back((seq, data));
        let ghost full = self@.buffer;
        assert(full =~= old(self)@.buffer.push((seq as int, data@)));
        while self.buffer.len() > self.max_buffer
            invariant
                self.next_seq == old(self).next_seq,
                self.peer_ack == old(self).peer_ack,
                self.local_ack == old(self).local_ack,
                self.max_buffer == old(self).max_buffer,
                self@.buffer.len() <= full.len(),
                self@.buffer.len() == full.len() || self@.buffer.len() >= self.max_buffer,
                self@.buffer =~= full.subrange(full.len() - self@.buffer.len(), full.len() as int),
            decreases self.buffer.len(),
        {
            let ghost before = self@.buffer;
            self.buffer.pop_front();
            assert(self@.buffer =~= before.subrange(1, before.len() as int));
        }
        assert(self@.buffer =~= keep_last(full, self.max_buffer as int));
    }

    /// Records that a message with sequence number `seq` arrived.
    pub fn on_recv(&mut self, seq: u64)
        ensures
            final(self)@ == old(self)@.on_recv(seq as int),
    {
        if seq > self.local_ack {
            self.local_ack = seq;
        }
    }

    /// Records the peer's cumulative acknowledgement and drops every buffered
    /// message it covers.
    pub fn on_peer_ack(&mut self, ack: u64)
        ensures
            final(self)@ == old(self)@.on_peer_ack(ack as int),
            forall|i: int| 0 <= i < final(self)@.buffer.len() ==> (#[trigger] final(self)@.buffer[i]).0 > final(self)@.peer_ack,
            final(self)@.peer_ack >= ack,
            final(self)@.peer_ack >= old(self)@.peer_ack,
    {
        if ack > self.peer_ack {
            self.peer_ack = ack;
        }
        let ghost all = self@.buffer;
        let n = self.buffer.len();
        let mut kept: VecDeque<(u64, Vec<u8>)> = VecDeque::new();
        let mut i: usize = 0;
        while i < n
            invariant
                self.next_seq == old(self).next_seq,
                self.local_ack == old(self).local_ack,
                self.max_buffer == old(self).max_buffer,
                self.peer_ack as int == old(self)@.on_peer_ack(ack as int).peer_ack,
                i <= n,
                n == all.len(),
                all == old(self)@.buffer,
                self@.buffer =~= all.subrange(i as int, n as int),
                kept@.map_values(|e: (u64, Vec<u8>)| (e.0 as int, e.1@)) =~= above(
                    all.subrange(0, i as int),
                    self.peer_ack as int,
                ),
            decreases n - i,
        {
            let ghost before = self@.buffer;
            let ghost raw = self.buffer@;
            assert(before.len() == n - i);
            assert(before =~= raw.map_values(|e: (u64, Vec<u8>)| (e.0 as int, e.1@)));
            assert(before[0] == (raw[0].0 as int, raw[0].1@));
            let front = self.buffer.pop_front();
            assert(self@.buffer =~= before.subrange(1, before.len() as int));
            assert(all.subrange(0, i + 1).drop_last() =~= all.subrange(0, i as int));
            assert(all.subrange(0, i + 1).last() == all[i as int]);
            match front {
                Some(entry) => {
                    assert((entry.0 as int, entry.1@) == all[i as int]);
                    let ghost kept_before = kept@.map_values(|e: (u64, Vec<u8>)| (e.0 as int, e.1@));
                    if entry.0 > self.peer_ack {
                        kept.push_back(entry);
                        assert(kept@.map_values(|e: (u64, Vec<u8>)| (e.0 as int, e.1@)) =~= kept_before.push(
                            all[i as int],
                        ));
                    }
                },
                None => {},
            }
            i += 1;
        }
        assert(all.subrange(0, n as int) =~= all);
        self.buffer = kept;
        proof {
            lemma_above(all, self.peer_ack as int);
        }
    }

    /// The buffered messages, oldest first, for replay after a reconnect.
    pub fn drain_unacked(&self) -> (out: Vec<Vec<u8>>)
        ensures
            out@.map_values(|d: Vec<u8>| d@) == self@.unacked(),
    {
        let mut out: Vec<Vec<u8>> = Vec::new();
        let mut i: usize = 0;
        while i < self.buffer.len()
            invariant
                i <= self.buffer.len(),
                out@.map_values(|d: Vec<u8>| d@) =~= self@.unacked().subrange(0, i as int),
            decreases self.buffer.len() - i,
        {
            let ghost out_before = out@.map_values(|d: Vec<u8>| d@);
            let data = copy_bytes(&self.buffer[i].1);
            out.push(data);
            assert(self@.unacked()[i as int] == self.buffer@[i as int].1@);
            assert(out@.map_values(|d: Vec<u8>| d@) =~= out_before.push(data@));
            i += 1;
        }
        assert(self@.unacked().subrange(0, self.buffer.len() as int) =~= self@.unacked());
        out
    }

    /// The sequence number the next stamped envelope gets.
    pub fn next_seq(&self) -> (n: u64)
        ensures
            n == self@.next_seq,
    {
        self.next_seq
    }

    /// Highest sequence number received from the peer.
    pub fn local_ack(&self) -> (a: u64)
        ensures
            a == self@.local_ack,
    {
        self.local_ack
    }

    /// Number of buffered messages.
    pub fn pending_count(&self) -> (n: usize)
        ensures
            n == self@.buffer.len(),
    {
        self.buffer.len()
    }
}

} // verus!
