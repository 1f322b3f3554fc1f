use mysticeti_sync::connection::ConnectionState;
use mysticeti_sync::consensus::ConsensusState;
use mysticeti_sync::net_sync::NetworkSyncer;
use mysticeti_sync::send_task::SendTask;
use mysticeti_sync::stop::StopSignal;
use mysticeti_sync::types::{Block, NetworkMessage};

fn produce_own_rounds(state: &mut ConsensusState, from: u64, to: u64) {
    // force_new_block(r) appends a local block at round r + 1 when no newer
    // local block exists.
    let mut r = from;
    while r < to {
        state.force_new_block(r);
        r += 1;
    }
}

#[test]
fn leader_timeout_forces_next_round() {
    // Authority 0 starts with one local block (round 1); repeated timeouts
    // drive production to round 5, and one more timeout forces round 6
    // with no peer input at all.
    let mut syncer = NetworkSyncer::start(0);
    assert_eq!(syncer.consensus().last_own_block().unwrap().round, 1);
    for _ in 0..4 {
        syncer.on_leader_timeout();
    }
    assert_eq!(syncer.consensus().last_own_block().unwrap().round, 5);
    syncer.on_leader_timeout();
    let last = syncer.consensus().last_own_block().unwrap();
    assert_eq!(last.round, 6);
    assert_eq!(last.authority, 0);
}

#[test]
fn send_task_batches_in_round_order() {
    // Own blocks at rounds 10..=25, subscription from round 10, batch
    // size 10: the first batch carries rounds 10..=19, an immediate
    // re-fetch carries 20..=25, and the stream then has nothing left.
    let mut state = ConsensusState::new(0);
    produce_own_rounds(&mut state, 9, 25);
    let mut task = SendTask::new(10, 10);

    let batch1 = task.fetch_batch(&state);
    let rounds1: Vec<u64> = batch1.iter().map(|b| b.round).collect();
    assert_eq!(rounds1, (10..=19).collect::<Vec<u64>>());
    for b in &batch1 {
        task.advance(b.round);
    }
    assert_eq!(task.cursor_round(), 20);

    let batch2 = task.fetch_batch(&state);
    let rounds2: Vec<u64> = batch2.iter().map(|b| b.round).collect();
    assert_eq!(rounds2, (20..=25).collect::<Vec<u64>>());
    for b in &batch2 {
        task.advance(b.round);
    }
    assert_eq!(task.cursor_round(), 26);

    let batch3 = task.fetch_batch(&state);
    assert!(batch3.is_empty());
}

#[test]
fn send_task_starts_at_subscribed_round() {
    let mut state = ConsensusState::new(3);
    produce_own_rounds(&mut state, 0, 5);
    let task = SendTask::new(3, 100);
    let batch = task.fetch_batch(&state);
    let rounds: Vec<u64> = batch.iter().map(|b| b.round).collect();
    assert_eq!(rounds, vec![3, 4, 5]);
}

#[test]
fn admission_is_idempotent() {
    let mut state = ConsensusState::new(0);
    let b1 = Block { authority: 1, round: 1, hash: 7 };
    let b2 = Block { authority: 1, round: 2, hash: 8 };
    state.admit_blocks(vec![b1, b2]);
    assert!(state.contains_block(&b1));
    assert!(state.contains_block(&b2));
    assert_eq!(state.last_seen_round(1), 2);

    // Admitting the same blocks again changes nothing observable.
    state.admit_blocks(vec![b1, b2]);
    assert!(state.contains_block(&b1));
    assert!(state.contains_block(&b2));
    assert_eq!(state.last_seen_round(1), 2);
    let own = state.own_blocks_from(0, 100);
    assert!(own.is_empty());
}

#[test]
fn duplicates_within_one_batch_are_admitted_once() {
    let mut state = ConsensusState::new(0);
    let b = Block { authority: 2, round: 4, hash: 9 };
    state.admit_blocks(vec![b, b, b]);
    assert!(state.contains_block(&b));
    assert_eq!(state.last_seen_round(2), 4);
}

#[test]
fn single_stream_per_connection() {
    let mut state = ConsensusState::new(0);
    let mut conn = ConnectionState::new(10);
    assert!(!conn.is_streaming());

    // First subscription: no previous stream to cancel.
    let cancelled = conn.on_message(NetworkMessage::SubscribeOwnFrom(5), &mut state);
    assert!(cancelled.is_none());
    assert!(conn.is_streaming());

    // Re-subscription: the old stream is handed back for joining before
    // the new one is installed.
    let cancelled = conn.on_message(NetworkMessage::SubscribeOwnFrom(9), &mut state);
    let old = cancelled.expect("the superseded send task must be handed back");
    assert_eq!(old.cursor_round(), 5);
    assert!(conn.is_streaming());

    // A block message leaves the stream untouched and admits the block.
    let b = Block { authority: 1, round: 3, hash: 11 };
    let cancelled = conn.on_message(NetworkMessage::Block(b), &mut state);
    assert!(cancelled.is_none());
    assert!(conn.is_streaming());
    assert!(state.contains_block(&b));

    // Teardown hands the active stream back and ends without one.
    let cancelled = conn.on_closed();
    assert_eq!(cancelled.expect("stream returned on close").cursor_round(), 9);
    assert!(!conn.is_streaming());
}

#[test]
fn initial_subscription_resumes_from_last_seen() {
    let mut state = ConsensusState::new(0);
    state.admit_blocks(vec![
        Block { authority: 4, round: 7, hash: 1 },
        Block { authority: 4, round: 9, hash: 2 },
        Block { authority: 5, round: 3, hash: 3 },
    ]);
    match ConnectionState::initial_subscription(&state, 4) {
        NetworkMessage::SubscribeOwnFrom(r) => assert_eq!(r, 9),
        _ => panic!("initial message must be a subscription"),
    }
    match ConnectionState::initial_subscription(&state, 6) {
        NetworkMessage::SubscribeOwnFrom(r) => assert_eq!(r, 0),
        _ => panic!("initial message must be a subscription"),
    }
}

#[test]
fn one_connection_task_per_peer() {
    let mut syncer = NetworkSyncer::start(0);
    assert_eq!(syncer.live_connections(), 0);
    let had_old = syncer.on_peer_connection(7);
    assert!(!had_old);
    assert_eq!(syncer.live_connections(), 1);

    // A reconnect from the same peer means the old task is joined first;
    // the peer still has exactly one slot.
    let had_old = syncer.on_peer_connection(7);
    assert!(had_old);
    assert_eq!(syncer.live_connections(), 1);

    let had_old = syncer.on_peer_connection(8);
    assert!(!had_old);
    assert_eq!(syncer.live_connections(), 2);

    syncer.on_connection_task_joined(7);
    assert_eq!(syncer.live_connections(), 1);
    syncer.on_connection_task_joined(8);
    assert_eq!(syncer.live_connections(), 0);
}

#[test]
fn shutdown_returns_exclusive_state() {
    let mut syncer = NetworkSyncer::start(2);
    let _ = syncer.on_peer_connection(0);
    let _ = syncer.on_peer_connection(1);
    syncer.on_leader_timeout();

    syncer.signal_stop();
    assert!(syncer.is_stopped());
    syncer.on_connection_task_joined(0);
    syncer.on_connection_task_joined(1);
    syncer.on_timeout_task_exited();
    assert_eq!(syncer.live_connections(), 0);

    // Every task has terminated: shutdown consumes the instance and hands
    // the consensus state back by value.
    let state = syncer.shutdown();
    assert_eq!(state.last_own_block().unwrap().round, 2);
}

#[test]
fn stop_signal_is_idempotent_and_permanent() {
    let mut stop = StopSignal::new();
    assert!(!stop.is_stopped());
    stop.signal_stop();
    assert!(stop.is_stopped());
    stop.signal_stop();
    assert!(stop.is_stopped());
}

#[test]
fn blocks_delivered_after_reconnect() {
    // Two authorities exchange blocks; the subscriber's connection dies
    // mid-stream and reconnects. The new subscription resumes from the
    // authoritative last-seen round, redelivery is absorbed by idempotent
    // admission, and in the end no block is lost.
    let mut alice = ConsensusState::new(0);
    let mut bob = ConsensusState::new(1);
    produce_own_rounds(&mut alice, 0, 8);

    // First stream from Alice to Bob delivers a partial batch, then the
    // connection drops after Bob admitted only the first three blocks.
    let mut task = SendTask::new(1, 5);
    let batch = task.fetch_batch(&alice);
    assert_eq!(batch.len(), 5);
    bob.admit_blocks(batch[..3].to_vec());
    assert_eq!(bob.last_seen_round(0), 3);

    // Reconnect: Bob subscribes again from what he has durably seen.
    let start = bob.last_seen_round(0);
    let mut task = SendTask::new(start, 5);
    loop {
        let batch = task.fetch_batch(&alice);
        if batch.is_empty() {
            break;
        }
        for b in &batch {
            task.advance(b.round);
        }
        bob.admit_blocks(batch);
    }

    // Every one of Alice's blocks reached Bob at least once.
    for b in alice.own_blocks_from(0, 100) {
        assert!(bob.contains_block(&b));
    }
    assert_eq!(bob.last_seen_round(0), 8);
}
