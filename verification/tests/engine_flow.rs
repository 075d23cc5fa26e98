use vaiber::connect::ConnectionStatus;
use vaiber::engine::{Command, Engine, PeerEvent};
use vaiber::lifecycle::StartDecision;
use vaiber::plog::{Plog, ResolvedPlog};
use vaiber::storage::{MemoryStorage, WalletStorage};
use vaiber::vlad::Vlad;
use vaiber::Error;

fn vlad_text(bytes: Vec<u8>) -> String {
    Vlad::from_bytes(bytes).unwrap().to_text()
}

fn sample_plog() -> Plog {
    let vlad = Vlad::from_bytes(vec![9, 9, 9]).unwrap();
    Plog::assemble(vlad, vec![vec![1], vec![2]]).unwrap()
}

#[test]
fn startup_with_empty_storage_generates_and_persists_exact_bytes() {
    let mut engine = Engine::new();
    let mut storage = MemoryStorage::new();
    assert_eq!(engine.initialize(&storage), StartDecision::NeedsGenerate);

    let generated = sample_plog();
    let expected_bytes = generated.encode();
    engine.provide_generated(&mut storage, generated).unwrap();

    assert_eq!(storage.load("VLAD_STORAGE_KEY").unwrap(), expected_bytes);
    let text = engine.local_vlad_text().unwrap();
    assert!(!text.is_empty());
    assert!(Vlad::parse_text(&text).is_some(), "the VLAD is a well-formed identifier");
}

#[test]
fn startup_with_stored_log_loads_and_does_not_generate() {
    let mut storage = MemoryStorage::new();
    storage.save("VLAD_STORAGE_KEY", &sample_plog().encode()).unwrap();

    let mut engine = Engine::new();
    assert_eq!(engine.initialize(&storage), StartDecision::Loaded);
    let log = engine.local_plog().unwrap();
    assert_eq!(log.entry_count(), 2);
}

#[test]
fn startup_with_corrupt_stored_log_falls_through_to_generation() {
    let mut storage = MemoryStorage::new();
    storage.save("VLAD_STORAGE_KEY", b"not a log").unwrap();

    let mut engine = Engine::new();
    assert_eq!(engine.initialize(&storage), StartDecision::NeedsGenerate);
}

#[test]
fn generation_failure_leaves_the_peer_with_no_log() {
    let mut engine = Engine::new();
    let storage = MemoryStorage::new();
    assert_eq!(engine.initialize(&storage), StartDecision::NeedsGenerate);
    engine.generation_failed();
    assert_eq!(engine.local_vlad_text(), Err(Error::NoLog));
}

#[test]
fn tracking_twice_reports_already_tracked_and_keeps_one_entry() {
    let mut engine = Engine::new();
    let text = vlad_text(vec![1, 2, 3]);
    let cmds = engine.track_peer(&text).unwrap();
    assert_eq!(cmds.len(), 2);
    assert!(matches!(&cmds[0], Command::Subscribe { topic } if *topic == text));
    assert!(matches!(&cmds[1], Command::Spawn(_)));
    assert_eq!(engine.tracked_count(), 1);

    match engine.track_peer(&text) {
        Err(e) => assert_eq!(e, Error::AlreadyTracked),
        Ok(_) => panic!("a duplicate tracking request must be rejected"),
    }
    assert_eq!(engine.tracked_count(), 1);
}

#[test]
fn tracking_rejects_empty_and_invalid_input() {
    let mut engine = Engine::new();
    match engine.track_peer("") {
        Err(e) => assert_eq!(e, Error::EmptyVlad),
        Ok(_) => panic!("an empty input must be rejected"),
    }
    match engine.track_peer("!!!") {
        Err(e) => assert_eq!(e, Error::InvalidVlad),
        Ok(_) => panic!("an unparseable input must be rejected"),
    }
    assert_eq!(engine.tracked_count(), 0);
}

#[test]
fn untrack_removes_the_entry() {
    let mut engine = Engine::new();
    let vlad = Vlad::from_bytes(vec![4, 5, 6]).unwrap();
    engine.track_peer(&vlad.to_text()).unwrap();
    assert!(engine.is_tracked(&vlad));
    engine.untrack_peer(&vlad);
    assert!(!engine.is_tracked(&vlad));
}

#[test]
fn duplicate_announcements_are_suppressed_until_the_ack() {
    let mut engine = Engine::new();
    let topic = vlad_text(vec![7, 7, 7]);
    let head = vec![42, 42];

    let first = engine.handle_event(PeerEvent::Message {
        topic: topic.clone(),
        data: head.clone(),
    });
    assert_eq!(first.len(), 2);
    assert!(matches!(&first[0], Command::Spawn(_)));
    assert!(
        matches!(&first[1], Command::PublishAck { topic: t } if *t == format!("ack/{topic}"))
    );

    let second = engine.handle_event(PeerEvent::Message {
        topic: topic.clone(),
        data: head.clone(),
    });
    assert_eq!(second.len(), 0, "a duplicate before the ack is ignored");

    let on_ack = engine.handle_event(PeerEvent::Ack { topic: topic.clone() });
    assert_eq!(on_ack.len(), 0);

    let third = engine.handle_event(PeerEvent::Message { topic, data: head });
    assert_eq!(third.len(), 2, "after the ack, a re-announcement is processed again");
}

#[test]
fn announcements_with_no_vlad_topic_or_empty_head_are_ignored() {
    let mut engine = Engine::new();
    let none = engine.handle_event(PeerEvent::Message {
        topic: String::from("!!!"),
        data: vec![1],
    });
    assert_eq!(none.len(), 0);

    let topic = vlad_text(vec![8, 8]);
    let empty_head = engine.handle_event(PeerEvent::Message {
        topic: topic.clone(),
        data: vec![],
    });
    assert_eq!(empty_head.len(), 0);

    let after = engine.handle_event(PeerEvent::Message { topic, data: vec![1] });
    assert_eq!(after.len(), 2, "a rejected announcement does not occupy the dedup set");
}

#[test]
fn listen_addr_is_recorded_for_display() {
    let mut engine = Engine::new();
    assert!(engine.listen_address().is_none());
    let cmds = engine.handle_event(PeerEvent::ListenAddr {
        address: String::from("/ip4/127.0.0.1/tcp/4001"),
    });
    assert_eq!(cmds.len(), 0);
    assert_eq!(engine.listen_address().unwrap(), "/ip4/127.0.0.1/tcp/4001");
}

#[test]
fn new_connection_republishes_dht_records() {
    let mut engine = Engine::new();
    let cmds = engine.handle_event(PeerEvent::NewConnection { peer: String::from("peer-a") });
    assert_eq!(cmds.len(), 1);
    assert!(matches!(cmds[0], Command::PublishDhtRecords));
    assert!(engine.is_connected(&String::from("peer-a")));
}

#[test]
fn connection_closed_leaves_the_peer_absent() {
    let mut engine = Engine::new();
    let p = String::from("peer-b");
    engine.handle_event(PeerEvent::NewConnection { peer: p.clone() });
    assert!(engine.is_connected(&p));
    engine.handle_event(PeerEvent::ConnectionClosed {
        peer: p.clone(),
        cause: String::from("remote hung up"),
    });
    assert!(!engine.is_connected(&p));
}

#[test]
fn connection_closed_before_connection_does_not_panic() {
    let mut engine = Engine::new();
    let p = String::from("peer-c");
    engine.handle_event(PeerEvent::ConnectionClosed {
        peer: p.clone(),
        cause: String::from("never seen"),
    });
    assert!(!engine.is_connected(&p));
}

#[test]
fn reconciliation_spawns_one_lookup_per_unresolved_vlad() {
    let mut engine = Engine::new();
    let unresolved = Vlad::from_bytes(vec![1, 1]).unwrap();
    let resolved = Vlad::from_bytes(vec![2, 2]).unwrap();
    engine.track_peer(&unresolved.to_text()).unwrap();
    engine.track_peer(&resolved.to_text()).unwrap();
    engine.apply_resolution(
        Vlad::from_bytes(vec![2, 2]).unwrap(),
        ResolvedPlog::new(sample_plog()),
    );

    let cmds = engine.handle_event(PeerEvent::PutRecordRequest {
        source: String::from("peer-d"),
    });
    assert_eq!(cmds.len(), 1);
    match &cmds[0] {
        Command::Spawn(task) => assert!(task.vlad().same_as(&unresolved)),
        _ => panic!("expected a spawned resolution"),
    }
}

#[test]
fn unrecognized_events_are_ignored() {
    let mut engine = Engine::new();
    let cmds = engine.handle_event(PeerEvent::Other);
    assert_eq!(cmds.len(), 0);
}

#[test]
fn dialing_without_a_peer_id_is_rejected_before_any_network_call() {
    let mut engine = Engine::new();
    let r = engine.dial("/ip4/127.0.0.1/tcp/4001");
    assert!(r.is_none(), "no dial call is issued");
    assert_eq!(
        engine.connection_status(),
        &ConnectionStatus::Error(String::from("Multiaddr must contain a peer ID")),
    );
}

#[test]
fn dialing_a_malformed_address_is_rejected() {
    let mut engine = Engine::new();
    let r = engine.dial("not an address");
    assert!(r.is_none());
    assert_eq!(
        engine.connection_status(),
        &ConnectionStatus::Error(String::from("Invalid Multiaddr")),
    );
}

#[test]
fn dial_and_connection_confirmation_reach_connected() {
    let mut engine = Engine::new();
    let peer_id = "QmYyQSo1c1Ym7orWxLYvCrM2EmxFTANf8wXmmE7DWjhx5N";
    let addr = format!("/ip4/127.0.0.1/tcp/4001/p2p/{peer_id}");
    let req = engine.dial(&addr).expect("a well-formed address yields a dial instruction");
    assert_eq!(req.addr, addr);
    assert_eq!(
        engine.connection_status(),
        &ConnectionStatus::Connecting(String::from("Attempting to connect...")),
    );

    engine.dial_finished(Ok(()), &addr);
    assert_eq!(
        engine.connection_status(),
        &ConnectionStatus::Connecting(format!("Dialing peer at {addr}")),
    );

    engine.handle_event(PeerEvent::NewConnection { peer: String::from(peer_id) });
    assert_eq!(
        engine.connection_status(),
        &ConnectionStatus::Connected(String::from(peer_id)),
    );
}

#[test]
fn a_failed_dial_reports_the_reason() {
    let mut engine = Engine::new();
    let peer_id = "QmYyQSo1c1Ym7orWxLYvCrM2EmxFTANf8wXmmE7DWjhx5N";
    let addr = format!("/ip4/127.0.0.1/tcp/4001/p2p/{peer_id}");
    engine.dial(&addr).unwrap();
    engine.dial_finished(Err(String::from("connection refused")), &addr);
    assert_eq!(
        engine.connection_status(),
        &ConnectionStatus::Error(String::from("Failed to dial: connection refused")),
    );
}

#[test]
fn persist_log_stores_the_current_log_bytes() {
    let mut engine = Engine::new();
    let mut storage = MemoryStorage::new();
    engine.initialize(&storage);
    let generated = sample_plog();
    let bytes = generated.encode();
    engine.provide_generated(&mut storage, generated).unwrap();
    storage.delete("VLAD_STORAGE_KEY").unwrap();
    engine.persist_log(&mut storage).unwrap();
    assert_eq!(storage.load("VLAD_STORAGE_KEY").unwrap(), bytes);
}

#[test]
fn peer_entries_report_tracking_and_resolution_state() {
    let mut engine = Engine::new();
    let vlad = Vlad::from_bytes(vec![3, 1, 4]).unwrap();
    assert!(engine.peer_entry(&vlad).is_none());

    engine.track_peer(&vlad.to_text()).unwrap();
    assert!(matches!(engine.peer_entry(&vlad), Some(None)));

    engine.apply_resolution(
        Vlad::from_bytes(vec![3, 1, 4]).unwrap(),
        ResolvedPlog::new(sample_plog()),
    );
    match engine.peer_entry(&vlad) {
        Some(Some(plog)) => assert_eq!(plog.entry_count(), 2),
        _ => panic!("the entry must hold the resolved log"),
    }
}

#[test]
fn connected_peers_are_listed_for_display() {
    let mut engine = Engine::new();
    assert!(engine.connected_peers().is_empty());
    engine.handle_event(PeerEvent::NewConnection { peer: String::from("peer-x") });
    engine.handle_event(PeerEvent::NewConnection { peer: String::from("peer-y") });
    engine.handle_event(PeerEvent::NewConnection { peer: String::from("peer-x") });
    let mut listed = engine.connected_peers();
    listed.sort();
    assert_eq!(listed, vec![String::from("peer-x"), String::from("peer-y")]);
    engine.handle_event(PeerEvent::ConnectionClosed {
        peer: String::from("peer-x"),
        cause: String::from("done"),
    });
    assert_eq!(engine.connected_peers(), vec![String::from("peer-y")]);
}

#[test]
fn the_dedup_set_is_observable() {
    let mut engine = Engine::new();
    let topic = vlad_text(vec![6, 6, 6]);
    let vlad = Vlad::from_bytes(vec![6, 6, 6]).unwrap();
    assert!(!engine.is_pending(&vlad));
    engine.handle_event(PeerEvent::Message { topic: topic.clone(), data: vec![1] });
    assert!(engine.is_pending(&vlad));
    engine.handle_event(PeerEvent::Ack { topic });
    assert!(!engine.is_pending(&vlad));
}

#[test]
fn errors_carry_user_facing_messages() {
    assert_eq!(Error::EmptyVlad.message(), "VLAD cannot be empty");
    assert_eq!(Error::InvalidVlad.message(), "VLAD invalid");
    assert_eq!(Error::NoLog.message(), "No Plog available");
    assert_eq!(Error::StorageFailure("disk full").message(), "disk full");
}
