use ahandd::outbox::{Outbox, OUTBOX_CAP};
use ahandd::pipeline::{backoff_after_attempt, hello_envelope, next_backoff, note_inbound};
use ahandd::wire::{CancelJob, Envelope, Hello, Payload};

fn blank_envelope() -> Envelope {
    Envelope {
        device_id: "dev".to_string(),
        msg_id: "m".to_string(),
        ts_ms: 7,
        seq: 0,
        ack: 0,
        payload: Some(Payload::CancelJob(CancelJob { job_id: "J".to_string() })),
    }
}

#[test]
fn stamps_count_up_from_one() {
    let mut ob = Outbox::new(10);
    for expected in 1..=5u64 {
        let mut env = blank_envelope();
        let seq = ob.stamp(&mut env);
        assert_eq!(seq, expected);
        assert_eq!(env.seq, expected);
        assert_eq!(env.ack, 0);
        assert_eq!(env.msg_id, "m");
        assert_eq!(env.ts_ms, 7);
    }
}

#[test]
fn stamp_carries_the_local_ack() {
    let mut ob = Outbox::new(10);
    ob.on_recv(4);
    ob.on_recv(2);
    assert_eq!(ob.local_ack(), 4);
    let mut env = blank_envelope();
    ob.stamp(&mut env);
    assert_eq!(env.ack, 4);
}

#[test]
fn ack_of_everything_leaves_nothing_pending() {
    let mut ob = Outbox::new(100);
    for i in 0..20u8 {
        let mut env = blank_envelope();
        let seq = ob.stamp(&mut env);
        ob.store(seq, vec![i]);
    }
    assert_eq!(ob.pending_count(), 20);
    ob.on_peer_ack(20);
    assert_eq!(ob.pending_count(), 0);
    assert!(ob.drain_unacked().is_empty());
}

#[test]
fn partial_ack_keeps_the_rest_in_order() {
    let mut ob = Outbox::new(100);
    for i in 1..=5u8 {
        let mut env = blank_envelope();
        let seq = ob.stamp(&mut env);
        ob.store(seq, vec![i]);
    }
    ob.on_peer_ack(3);
    assert_eq!(ob.drain_unacked(), vec![vec![4u8], vec![5u8]]);
    ob.on_peer_ack(1);
    assert_eq!(ob.drain_unacked(), vec![vec![4u8], vec![5u8]]);
    assert_eq!(ob.pending_count(), 2);
}

#[test]
fn buffer_evicts_the_oldest_beyond_its_cap() {
    let mut ob = Outbox::new(3);
    for i in 1..=5u8 {
        ob.store(i as u64, vec![i]);
    }
    assert_eq!(ob.drain_unacked(), vec![vec![3u8], vec![4u8], vec![5u8]]);
    let mut none = Outbox::new(0);
    none.store(1, vec![1]);
    assert_eq!(none.pending_count(), 0);
}

#[test]
fn peer_ack_drops_entries_wherever_they_stand() {
    let mut ob = Outbox::new(10);
    ob.store(5, vec![5]);
    ob.store(2, vec![2]);
    ob.store(9, vec![9]);
    ob.on_peer_ack(4);
    assert_eq!(ob.drain_unacked(), vec![vec![5u8], vec![9u8]]);
}

#[test]
fn replay_after_reconnect_is_the_unacked_tail() {
    let mut ob = Outbox::new(10_000);
    let mut sent = Vec::new();
    for i in 1..=3u8 {
        let mut env = blank_envelope();
        let seq = ob.stamp(&mut env);
        let data = vec![seq as u8, i];
        ob.store(seq, data.clone());
        sent.push(data);
    }
    note_inbound(&mut ob, 1, 2);
    assert_eq!(ob.local_ack(), 1);
    assert_eq!(ob.drain_unacked(), vec![sent[2].clone()]);
    assert_eq!(ob.drain_unacked(), vec![sent[2].clone()]);
}

#[test]
fn note_inbound_ignores_zero() {
    let mut ob = Outbox::new(10);
    ob.store(1, vec![1]);
    note_inbound(&mut ob, 0, 0);
    assert_eq!(ob.local_ack(), 0);
    assert_eq!(ob.pending_count(), 1);
}

#[test]
fn backoff_doubles_up_to_thirty() {
    assert_eq!(next_backoff(1), 2);
    assert_eq!(next_backoff(2), 4);
    assert_eq!(next_backoff(8), 16);
    assert_eq!(next_backoff(16), 30);
    assert_eq!(next_backoff(30), 30);
    assert_eq!(next_backoff(u64::MAX), 30);
    assert_eq!(backoff_after_attempt(16, true), 2);
    assert_eq!(backoff_after_attempt(16, false), 30);
}

#[test]
fn hello_is_not_stamped_and_carries_the_last_ack() {
    let mut ob = Outbox::new(OUTBOX_CAP);
    ob.on_recv(12);
    let hello = hello_envelope("dev", 99, "1.2.3", "host", "linux", vec!["exec".to_string()], &ob);
    assert_eq!(
        hello,
        Envelope {
            device_id: "dev".to_string(),
            msg_id: "hello-0".to_string(),
            ts_ms: 99,
            seq: 0,
            ack: 0,
            payload: Some(Payload::Hello(Hello {
                version: "1.2.3".to_string(),
                hostname: "host".to_string(),
                os: "linux".to_string(),
                capabilities: vec!["exec".to_string()],
                last_ack: 12,
            })),
        }
    );
    assert_eq!(ob.next_seq(), 1);
    assert_eq!(ob.pending_count(), 0);
}

#[test]
fn outbox_cap_is_ten_thousand() {
    let mut ob = Outbox::new(OUTBOX_CAP);
    for seq in 1..=10_001u64 {
        ob.store(seq, vec![(seq % 251) as u8]);
    }
    assert_eq!(ob.pending_count(), 10_000);
    assert_eq!(ob.drain_unacked()[0], vec![2u8]);
}
