use trust_dht::orchestrator::{
    Action, Orchestrator, OverlayEvent, PeerContact, Phase, QueryOutcome, RecordPair, Report,
    SwarmInput, handle_kademlia_events, handle_query_result,
};
use trust_dht::record::{DHTKey, DHTValue};

fn sample_node() -> (DHTKey, DHTValue, Orchestrator) {
    let key = DHTKey::random();
    let value = DHTValue::random();
    let orch = Orchestrator::new(&key, &value);
    (key, value, orch)
}

#[test]
fn record_found_round_trip() {
    // A random record handed back by the overlay decodes to the same record.
    let (key, value, mut orch) = sample_node();
    orch.listening_started();
    let key_bytes = key.to_bytes();
    let value_bytes = value.to_bytes();
    let outcome = QueryOutcome::RecordsFound {
        records: vec![RecordPair { key: key_bytes, value: value_bytes }],
    };
    let input = SwarmInput::Overlay {
        event: OverlayEvent::QueryCompleted { outcome },
        local_records: Vec::new(),
    };
    let actions = orch.step(input);
    assert_eq!(actions.len(), 2);
    match &actions[0] {
        Action::Emit { report: Report::Records { records } } => {
            assert_eq!(records.len(), 1);
            let k = DHTKey::from_bytes(records[0].key.clone()).unwrap();
            let v = DHTValue::from_bytes(records[0].value.clone()).unwrap();
            assert_eq!(k, key);
            assert_eq!(v, value);
        }
        other => panic!("unexpected action: {:?}", other),
    }
    assert!(matches!(&actions[1], Action::ReportCache { records } if records.is_empty()));
}

#[test]
fn peers_discovered_publishes_once() {
    // Three discovered peers: one registration each, then exactly one publish.
    let (key, value, mut orch) = sample_node();
    orch.listening_started();
    let peers = vec![
        PeerContact { peer: vec![1], address: vec![10] },
        PeerContact { peer: vec![2], address: vec![20] },
        PeerContact { peer: vec![3], address: vec![30] },
    ];
    let actions = orch.step(SwarmInput::PeersDiscovered { peers });
    assert_eq!(actions.len(), 4);
    for (i, action) in actions.iter().take(3).enumerate() {
        match action {
            Action::RegisterPeerAddress { peer, address } => {
                assert_eq!(peer, &vec![(i + 1) as u8]);
                assert_eq!(address, &vec![(10 * (i + 1)) as u8]);
            }
            other => panic!("unexpected action: {:?}", other),
        }
    }
    let publishes = actions
        .iter()
        .filter(|a| matches!(a, Action::PublishRecord { .. }))
        .count();
    assert_eq!(publishes, 1);
    match &actions[3] {
        Action::PublishRecord { key: k, value: v } => {
            assert_eq!(k, &key.to_bytes());
            assert_eq!(v, &value.to_bytes());
        }
        other => panic!("unexpected action: {:?}", other),
    }
    assert_eq!(orch.phase, Phase::Active);
}

#[test]
fn other_outcome_keeps_loop_alive() {
    // A diagnostic outcome is reported, and the next event is still handled.
    let (_, _, mut orch) = sample_node();
    orch.listening_started();
    let input = SwarmInput::Overlay {
        event: OverlayEvent::QueryCompleted { outcome: QueryOutcome::Other },
        local_records: Vec::new(),
    };
    let actions = orch.step(input);
    assert_eq!(actions.len(), 2);
    assert!(matches!(actions[0], Action::Emit { report: Report::Other }));
    assert_eq!(orch.phase, Phase::Listening);
    // The loop goes on: the following discovery still publishes.
    let actions = orch.step(SwarmInput::PeersDiscovered {
        peers: vec![PeerContact { peer: vec![7], address: vec![70] }],
    });
    assert_eq!(actions.len(), 2);
    assert!(matches!(actions[1], Action::PublishRecord { .. }));
    assert_eq!(orch.phase, Phase::Active);
}

#[test]
fn listen_address_is_reported() {
    let (_, _, mut orch) = sample_node();
    let actions = orch.step(SwarmInput::ListenAddressBound { address: vec![4, 2] });
    assert_eq!(actions.len(), 1);
    assert!(matches!(&actions[0], Action::ReportListenAddress { address } if address == &vec![4, 2]));
    assert_eq!(orch.phase, Phase::Starting);
}

#[test]
fn overlay_noise_only_reports_cache() {
    let (_, _, mut orch) = sample_node();
    orch.listening_started();
    let cache = vec![RecordPair { key: vec![1], value: vec![2] }];
    let actions = orch.step(SwarmInput::Overlay {
        event: OverlayEvent::Other,
        local_records: cache,
    });
    assert_eq!(actions.len(), 1);
    match &actions[0] {
        Action::ReportCache { records } => {
            assert_eq!(records.len(), 1);
            assert_eq!(records[0].key, vec![1]);
            assert_eq!(records[0].value, vec![2]);
        }
        other => panic!("unexpected action: {:?}", other),
    }
}

#[test]
fn query_result_dispatch() {
    let r = handle_query_result(QueryOutcome::ProvidersFound {
        key: vec![1],
        providers: vec![vec![2], vec![3]],
    });
    assert!(matches!(&r, Report::Providers { key, peers } if key == &vec![1] && peers.len() == 2));
    let r = handle_query_result(QueryOutcome::PutConfirmed { key: vec![9] });
    assert!(matches!(&r, Report::PutOk { key } if key == &vec![9]));
    let r = handle_query_result(QueryOutcome::ProvideConfirmed { key: vec![8] });
    assert!(matches!(&r, Report::ProvideOk { key } if key == &vec![8]));
    let r = handle_query_result(QueryOutcome::Other);
    assert_eq!(r, Report::Other);
}

#[test]
fn kademlia_event_dispatch() {
    let r = handle_kademlia_events(OverlayEvent::QueryCompleted {
        outcome: QueryOutcome::PutConfirmed { key: vec![5] },
    });
    assert!(matches!(&r, Some(Report::PutOk { key }) if key == &vec![5]));
    assert_eq!(handle_kademlia_events(OverlayEvent::Other), None);
}

#[test]
fn publish_failure_fatal_only_at_setup() {
    let (_, _, mut orch) = sample_node();
    assert!(orch.publish_failure_fatal());
    orch.listening_started();
    assert!(!orch.publish_failure_fatal());
    orch.step(SwarmInput::PeersDiscovered { peers: Vec::new() });
    assert!(!orch.publish_failure_fatal());
}
