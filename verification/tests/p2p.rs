use lightning_offline::channel::{
    CommitmentTransaction, PaymentChannel, PaymentDirection, PaymentRecord, Timestamp,
};
use lightning_offline::p2p::{gossip_topic, OverlayAction, OverlayEvent, P2PMessage, P2PNode};

fn names(actions: &[OverlayAction]) -> Vec<String> {
    actions
        .iter()
        .map(|a| match a {
            OverlayAction::AddExplicitPeer { peer_id } => format!("add {peer_id}"),
            OverlayAction::Dial { peer_id } => format!("dial {peer_id}"),
            OverlayAction::RemoveExplicitPeer { peer_id } => format!("remove {peer_id}"),
            OverlayAction::Deliver { message } => format!("deliver {message:?}"),
            OverlayAction::Publish { topic, message } => format!("publish {topic} {message:?}"),
        })
        .collect()
}

#[test]
fn topic_name() {
    assert_eq!(gossip_topic(), "lightning-offline");
}

#[test]
fn connections_fill_the_peer_table() {
    let mut node = P2PNode::new();
    assert!(node.get_connected_peers().is_empty());
    for peer in ["a", "b", "a", "c"] {
        let steps = node.handle_event(OverlayEvent::ConnectionEstablished { peer_id: peer.into() });
        assert!(steps.is_empty());
    }
    assert_eq!(node.get_connected_peers(), vec!["a", "b", "c"]);
    let steps = node.handle_event(OverlayEvent::ConnectionClosed { peer_id: "b".into() });
    assert!(steps.is_empty());
    assert_eq!(node.get_connected_peers(), vec!["a", "c"]);
    node.handle_event(OverlayEvent::ConnectionClosed { peer_id: "zzz".into() });
    assert_eq!(node.get_connected_peers(), vec!["a", "c"]);
    node.disconnect("a");
    node.disconnect("c");
    assert!(node.get_connected_peers().is_empty());
    node.connect("b".into());
    assert_eq!(node.get_connected_peers(), vec!["b"]);
}

#[test]
fn discovery_adds_and_dials() {
    let mut node = P2PNode::new();
    node.connect("x".into());
    let steps = node.handle_event(OverlayEvent::Discovered { peers: vec!["p".into(), "q".into()] });
    assert_eq!(names(&steps), vec!["add p", "dial p", "add q", "dial q"]);
    let steps = node.handle_event(OverlayEvent::Expired { peers: vec!["p".into(), "q".into()] });
    assert_eq!(names(&steps), vec!["remove p", "remove q"]);
    assert!(node.handle_event(OverlayEvent::Discovered { peers: vec![] }).is_empty());
    assert!(node.handle_event(OverlayEvent::Expired { peers: vec![] }).is_empty());
    assert_eq!(node.get_connected_peers(), vec!["x"]);
}

#[test]
fn readable_messages_are_delivered() {
    let mut node = P2PNode::new();
    let message = P2PMessage::CommitmentSigned {
        channel_id: "c".into(),
        signature: "s".into(),
        sequence: 4,
    };
    let steps =
        node.handle_event(OverlayEvent::Message { source: "p".into(), message: Some(message) });
    assert_eq!(steps.len(), 1);
    match &steps[0] {
        OverlayAction::Deliver {
            message: P2PMessage::CommitmentSigned { channel_id, signature, sequence },
        } => {
            assert_eq!(channel_id, "c");
            assert_eq!(signature, "s");
            assert_eq!(*sequence, 4);
        }
        other => panic!("unexpected action {other:?}"),
    }
    let steps = node.handle_event(OverlayEvent::Message { source: "p".into(), message: None });
    assert!(steps.is_empty());
    assert!(node.handle_event(OverlayEvent::NewListenAddr { address: "/ip4".into() }).is_empty());
    assert!(node.handle_event(OverlayEvent::Other).is_empty());
    assert!(node.get_connected_peers().is_empty());
}

fn channel() -> PaymentChannel {
    PaymentChannel {
        id: "c-1".to_string(),
        peer_node_id: "peer".to_string(),
        funding_txid: "funding_1".to_string(),
        capacity: 100,
        my_balance: 40,
        peer_balance: 60,
        sequence_number: 1,
        is_open: true,
        created_at: Timestamp { secs: 1, nanos: 0 },
        multisig_address: "addr".to_string(),
    }
}

#[test]
fn announcements_carry_the_ledger_values() {
    let c = channel();
    match P2PMessage::channel_open(&c) {
        P2PMessage::ChannelOpen { channel_id, funding_txid, capacity, initial_balance } => {
            assert_eq!(channel_id, "c-1");
            assert_eq!(funding_txid, "funding_1");
            assert_eq!(capacity, 100);
            assert_eq!(initial_balance, 40);
        }
        other => panic!("unexpected message {other:?}"),
    }
    match P2PMessage::channel_close(&c) {
        P2PMessage::ChannelClose { channel_id, final_balance_a, final_balance_b } => {
            assert_eq!(channel_id, "c-1");
            assert_eq!((final_balance_a, final_balance_b), (40, 60));
        }
        other => panic!("unexpected message {other:?}"),
    }
    let commitment = CommitmentTransaction {
        id: "k".to_string(),
        channel_id: "c-1".to_string(),
        sequence: 1,
        my_balance: 40,
        peer_balance: 60,
        raw_tx: "raw".to_string(),
        signature: "sig".to_string(),
        created_at: Timestamp { secs: 2, nanos: 0 },
    };
    let payment = PaymentRecord {
        id: "p".to_string(),
        channel_id: "c-1".to_string(),
        amount: 10,
        direction: PaymentDirection::Outgoing,
        sequence: 1,
        timestamp: Timestamp { secs: 2, nanos: 0 },
        is_offline: true,
    };
    match P2PMessage::payment(&payment, &commitment) {
        P2PMessage::Payment { channel_id, amount, sequence, commitment_tx, signature } => {
            assert_eq!(channel_id, "c-1");
            assert_eq!((amount, sequence), (10, 1));
            assert_eq!(commitment_tx, "raw");
            assert_eq!(signature, "sig");
        }
        other => panic!("unexpected message {other:?}"),
    }
    match P2PMessage::commitment_signed(&commitment) {
        P2PMessage::CommitmentSigned { channel_id, signature, sequence } => {
            assert_eq!(channel_id, "c-1");
            assert_eq!(signature, "sig");
            assert_eq!(sequence, 1);
        }
        other => panic!("unexpected message {other:?}"),
    }
}

#[test]
fn broadcast_goes_to_the_topic() {
    let node = P2PNode::new();
    let message =
        P2PMessage::ChannelClose { channel_id: "c".into(), final_balance_a: 1, final_balance_b: 2 };
    match node.broadcast_message(message) {
        OverlayAction::Publish {
            topic,
            message: P2PMessage::ChannelClose { channel_id, final_balance_a, final_balance_b },
        } => {
            assert_eq!(topic, "lightning-offline");
            assert_eq!(channel_id, "c");
            assert_eq!((final_balance_a, final_balance_b), (1, 2));
        }
        other => panic!("unexpected action {other:?}"),
    }
}
