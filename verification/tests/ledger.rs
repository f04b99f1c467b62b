use lightning_offline::channel::{
    CommitmentTransaction, PaymentChannel, PaymentDirection, Timestamp,
};
use lightning_offline::crypto::KeyManager;
use lightning_offline::error::{ErrorKind, LedgerError};
use lightning_offline::manager::ChannelManager;

const PEER_KEY: &str = "02c6047f9441ed7d6d3045406e95c07cd85c778e4b8cef3ca7abac09b95c709ee5";

fn secret(last: u8) -> [u8; 32] {
    let mut bytes = [0u8; 32];
    bytes[31] = last;
    bytes
}

fn manager() -> ChannelManager {
    ChannelManager::new(KeyManager::from_secret_bytes(secret(1)).unwrap())
}

fn at(secs: i64) -> Timestamp {
    Timestamp { secs, nanos: 0 }
}

fn open(m: &mut ChannelManager, id: &str, capacity: u64) -> PaymentChannel {
    m.open_channel_with(
        PEER_KEY.to_string(),
        capacity,
        id.to_string(),
        "f-1".to_string(),
        "seed".to_string(),
        at(100),
    )
    .unwrap()
}

#[test]
fn open_pay_close_scenario() {
    let mut m = manager();
    let channel = m.open_channel(PEER_KEY.to_string(), 100_000).unwrap();
    assert_eq!(channel.my_balance, 50_000);
    assert_eq!(channel.peer_balance, 50_000);
    assert_eq!(channel.sequence_number, 0);
    assert!(channel.is_open);
    assert_eq!(channel.capacity, 100_000);
    assert!(channel.funding_txid.starts_with("funding_"));

    let payment = m.send_payment(&channel.id, 10_000).unwrap();
    assert_eq!(payment.amount, 10_000);
    assert_eq!(payment.direction, PaymentDirection::Outgoing);
    assert_eq!(payment.sequence, 1);
    assert_eq!(payment.channel_id, channel.id);
    assert!(payment.is_offline);
    let after = m.get_channel(&channel.id).unwrap();
    assert_eq!(after.my_balance, 40_000);
    assert_eq!(after.peer_balance, 60_000);
    assert_eq!(after.sequence_number, 1);

    m.close_channel(&channel.id).unwrap();
    assert!(!m.get_channel(&channel.id).unwrap().is_open);
    let refused = m.send_payment(&channel.id, 1).unwrap_err();
    assert_eq!(refused, LedgerError::ChannelClosed);
    assert_eq!(refused.kind(), ErrorKind::InvalidState);
}

#[test]
fn open_with_given_identifiers() {
    let mut m = manager();
    let channel = open(&mut m, "c-1", 100_000);
    assert_eq!(channel.id, "c-1");
    assert_eq!(channel.peer_node_id, PEER_KEY);
    assert_eq!(channel.funding_txid, "funding_f-1");
    assert_eq!(channel.created_at, at(100));
    assert!(channel.multisig_address.starts_with("bcrt1q"));
    assert_eq!(m.get_all_channels().len(), 1);
    assert_eq!(m.get_channel_commitments("c-1").unwrap().len(), 0);
}

#[test]
fn odd_capacity_is_conserved() {
    let mut m = manager();
    let channel = open(&mut m, "c-odd", 7);
    assert_eq!(channel.my_balance, 3);
    assert_eq!(channel.peer_balance, 4);
    let zero = open(&mut m, "c-zero", 0);
    assert_eq!((zero.my_balance, zero.peer_balance), (0, 0));
    let top = open(&mut m, "c-top", u64::MAX);
    assert_eq!(top.my_balance, u64::MAX / 2);
    assert_eq!(top.peer_balance, u64::MAX / 2 + 1);
}

#[test]
fn overlay_peer_gets_placeholder_address() {
    let mut m = manager();
    let channel = m
        .open_channel_with(
            "12D3KooWExample".to_string(),
            10,
            "c-1".to_string(),
            "f".to_string(),
            "0123-4567-89ab-cdef-0123-4567".to_string(),
            at(1),
        )
        .unwrap();
    assert_eq!(channel.multisig_address, "bcrt1q0123456789abcdef0123");
    let short = m
        .open_channel_with(
            "12D3Short".to_string(),
            10,
            "c-2".to_string(),
            "f".to_string(),
            "ab-cd".to_string(),
            at(1),
        )
        .unwrap();
    assert_eq!(short.multisig_address, "bcrt1qabcd");
}

#[test]
fn invalid_peers_are_refused() {
    let mut m = manager();
    for peer in ["zz", "abc", "abcd", "", "02c6047f"] {
        let r = m.open_channel_with(
            peer.to_string(),
            10,
            "c".to_string(),
            "f".to_string(),
            "s".to_string(),
            at(1),
        );
        assert_eq!(r.unwrap_err(), LedgerError::InvalidPeerIdentifier);
    }
    assert_eq!(LedgerError::InvalidPeerIdentifier.kind(), ErrorKind::InvalidInput);
    assert!(m.get_all_channels().is_empty());
    assert!(m.open_channel("not a key".to_string(), 10).is_err());
}

#[test]
fn duplicate_channel_is_refused() {
    let mut m = manager();
    open(&mut m, "c-1", 10);
    m.send_payment("c-1", 2).unwrap();
    let r = m.open_channel_with(
        PEER_KEY.to_string(),
        99,
        "c-1".to_string(),
        "f".to_string(),
        "s".to_string(),
        at(1),
    );
    assert_eq!(r.unwrap_err(), LedgerError::DuplicateChannel);
    assert_eq!(m.get_channel("c-1").unwrap().my_balance, 3);
    assert_eq!(m.get_all_channels().len(), 1);
}

#[test]
fn balances_always_make_up_capacity() {
    let mut m = manager();
    open(&mut m, "c-1", 1_001);
    let steps: [(bool, u64); 8] =
        [(true, 100), (false, 50), (true, 400), (true, 1), (false, 600), (true, 0), (false, 0), (true, 550)];
    let mut sequence = 0;
    for (pay, amount) in steps {
        let r = if pay {
            m.send_payment("c-1", amount)
        } else {
            m.receive_payment("c-1", amount, sequence + 1)
        };
        if r.is_ok() {
            sequence += 1;
        }
        let c = m.get_channel("c-1").unwrap();
        assert_eq!(c.my_balance + c.peer_balance, 1_001);
        assert_eq!(c.capacity, 1_001);
        assert_eq!(c.sequence_number, sequence);
    }
    assert_eq!(sequence, 8);
}

#[test]
fn sequence_grows_by_one_and_snapshots_are_distinct() {
    let mut m = manager();
    open(&mut m, "c-1", 100);
    m.send_payment("c-1", 1).unwrap();
    m.receive_payment("c-1", 5, 2).unwrap();
    m.send_payment("c-1", 2).unwrap();
    m.send_payment("c-1", 3).unwrap();
    assert_eq!(m.get_channel("c-1").unwrap().sequence_number, 4);
    let history = m.get_channel_commitments("c-1").unwrap();
    let sequences: Vec<u64> = history.iter().map(|c| c.sequence).collect();
    assert_eq!(sequences, vec![1, 3, 4]);
    assert!(history.iter().all(|c| c.channel_id == "c-1"));
    assert_eq!(history[2].my_balance, 49);
    assert_eq!(history[2].peer_balance, 51);
}

#[test]
fn receive_out_of_order_is_a_conflict() {
    let mut m = manager();
    open(&mut m, "c-1", 100);
    for sequence in [0, 2, 3, u64::MAX] {
        let r = m.receive_payment("c-1", 10, sequence);
        assert_eq!(r.unwrap_err(), LedgerError::SequenceConflict);
        let c = m.get_channel("c-1").unwrap();
        assert_eq!((c.my_balance, c.peer_balance, c.sequence_number), (50, 50, 0));
    }
    assert_eq!(LedgerError::SequenceConflict.kind(), ErrorKind::SequenceConflict);
    let ok = m.receive_payment("c-1", 10, 1).unwrap();
    assert_eq!(ok.direction, PaymentDirection::Incoming);
    assert_eq!(ok.sequence, 1);
    assert_eq!(ok.amount, 10);
    let c = m.get_channel("c-1").unwrap();
    assert_eq!((c.my_balance, c.peer_balance, c.sequence_number), (60, 40, 1));
    assert_eq!(m.receive_payment("c-1", 10, 1).unwrap_err(), LedgerError::SequenceConflict);
}

#[test]
fn pay_beyond_balance_is_refused() {
    let mut m = manager();
    open(&mut m, "c-1", 100);
    let r = m.send_payment("c-1", 51);
    assert_eq!(r.unwrap_err(), LedgerError::InsufficientBalance);
    assert_eq!(LedgerError::InsufficientBalance.kind(), ErrorKind::InsufficientFunds);
    let c = m.get_channel("c-1").unwrap();
    assert_eq!((c.my_balance, c.peer_balance, c.sequence_number), (50, 50, 0));
    assert!(m.get_channel_commitments("c-1").unwrap().is_empty());
    m.send_payment("c-1", 50).unwrap();
    let c = m.get_channel("c-1").unwrap();
    assert_eq!((c.my_balance, c.peer_balance), (0, 100));
}

#[test]
fn receive_beyond_peer_balance_is_refused() {
    let mut m = manager();
    open(&mut m, "c-1", 100);
    assert_eq!(m.receive_payment("c-1", 51, 1).unwrap_err(), LedgerError::InsufficientBalance);
    let c = m.get_channel("c-1").unwrap();
    assert_eq!((c.my_balance, c.peer_balance, c.sequence_number), (50, 50, 0));
}

#[test]
fn closed_channel_refuses_everything() {
    let mut m = manager();
    open(&mut m, "c-1", 100);
    m.send_payment("c-1", 20).unwrap();
    m.close_channel("c-1").unwrap();
    assert_eq!(m.send_payment("c-1", 1).unwrap_err(), LedgerError::ChannelClosed);
    assert_eq!(m.receive_payment("c-1", 1, 2).unwrap_err(), LedgerError::ChannelClosed);
    assert_eq!(m.receive_payment("c-1", 1, 9).unwrap_err(), LedgerError::ChannelClosed);
    assert_eq!(m.send_payment("c-1", 1_000).unwrap_err(), LedgerError::ChannelClosed);
    m.close_channel("c-1").unwrap();
    let c = m.get_channel("c-1").unwrap();
    assert_eq!((c.my_balance, c.peer_balance, c.sequence_number, c.is_open), (30, 70, 1, false));
}

#[test]
fn unknown_channel_is_not_found() {
    let mut m = manager();
    open(&mut m, "c-1", 100);
    assert_eq!(m.send_payment("nope", 1).unwrap_err(), LedgerError::ChannelNotFound);
    assert_eq!(m.receive_payment("nope", 1, 1).unwrap_err(), LedgerError::ChannelNotFound);
    assert_eq!(m.close_channel("nope").unwrap_err(), LedgerError::ChannelNotFound);
    assert_eq!(LedgerError::ChannelNotFound.kind(), ErrorKind::NotFound);
    assert!(m.get_channel("nope").is_none());
    assert!(m.get_channel_commitments("nope").is_none());
}

#[test]
fn commitment_is_encoded_and_signed() {
    let mut m = manager();
    let channel = open(&mut m, "c-1", 100_000);
    let payment = m
        .send_payment_with("c-1", 10_000, "k-1".to_string(), "p-1".to_string(), at(200))
        .unwrap();
    assert_eq!(payment.id, "p-1");
    assert_eq!(payment.timestamp, at(200));
    let history = m.get_channel_commitments("c-1").unwrap();
    assert_eq!(history.len(), 1);
    let c = &history[0];
    assert_eq!(c.id, "k-1");
    assert_eq!(c.created_at, at(200));
    assert_eq!(
        c.raw_tx,
        "{\"version\":2,\"inputs\":[{\"txid\":\"funding_f-1\",\"vout\":0}],\"outputs\":[{\"amount\":40000,\"address\":\"my_address\"},{\"amount\":60000,\"address\":\"peer_address\"}],\"sequence\":1}"
    );
    assert_eq!(c.signature.len(), 128);
    let keys = m.key_manager();
    let signature = hex::decode(&c.signature).unwrap();
    assert!(keys.verify_signature(c.raw_tx.as_bytes(), &signature, &keys.get_public_key()));
    assert_eq!(signature, keys.sign_message(c.raw_tx.as_bytes()).unwrap().to_vec());
    assert_eq!(channel.funding_txid, "funding_f-1");
}

#[test]
fn sequence_cannot_pass_its_maximum() {
    let mut m = manager();
    let stored = PaymentChannel {
        id: "c-max".to_string(),
        peer_node_id: PEER_KEY.to_string(),
        funding_txid: "funding_x".to_string(),
        capacity: 10,
        my_balance: 5,
        peer_balance: 5,
        sequence_number: u64::MAX,
        is_open: true,
        created_at: at(1),
        multisig_address: "addr".to_string(),
    };
    m.load_channel(stored, Vec::new()).unwrap();
    assert_eq!(m.send_payment("c-max", 1).unwrap_err(), LedgerError::SequenceConflict);
    assert_eq!(m.receive_payment("c-max", 1, 0).unwrap_err(), LedgerError::SequenceConflict);
    let c = m.get_channel("c-max").unwrap();
    assert_eq!((c.my_balance, c.peer_balance, c.sequence_number), (5, 5, u64::MAX));
}

fn snapshot(channel: &str, sequence: u64) -> CommitmentTransaction {
    CommitmentTransaction {
        id: format!("k-{sequence}"),
        channel_id: channel.to_string(),
        sequence,
        my_balance: 1,
        peer_balance: 2,
        raw_tx: "raw".to_string(),
        signature: "sig".to_string(),
        created_at: at(5),
    }
}

fn stored(id: &str, my: u64, peer: u64, capacity: u64, sequence: u64, open: bool) -> PaymentChannel {
    PaymentChannel {
        id: id.to_string(),
        peer_node_id: PEER_KEY.to_string(),
        funding_txid: "funding_x".to_string(),
        capacity,
        my_balance: my,
        peer_balance: peer,
        sequence_number: sequence,
        is_open: open,
        created_at: at(1),
        multisig_address: "addr".to_string(),
    }
}

#[test]
fn reload_reproduces_the_table() {
    let mut m = manager();
    open(&mut m, "c-1", 100);
    open(&mut m, "c-2", 9);
    m.send_payment("c-1", 7).unwrap();
    m.receive_payment("c-1", 3, 2).unwrap();
    m.send_payment("c-2", 1).unwrap();
    m.close_channel("c-2").unwrap();

    let mut restarted = manager();
    let channels: Vec<PaymentChannel> = m.get_all_channels().into_iter().cloned().collect();
    for channel in channels {
        let history = m.get_channel_commitments(&channel.id).unwrap().clone();
        restarted.load_channel(channel, history).unwrap();
    }
    for id in ["c-1", "c-2"] {
        let a = m.get_channel(id).unwrap();
        let b = restarted.get_channel(id).unwrap();
        assert_eq!(a.my_balance, b.my_balance);
        assert_eq!(a.peer_balance, b.peer_balance);
        assert_eq!(a.sequence_number, b.sequence_number);
        assert_eq!(a.is_open, b.is_open);
        assert_eq!(
            m.get_channel_commitments(id).unwrap().len(),
            restarted.get_channel_commitments(id).unwrap().len()
        );
    }
    let c = restarted.get_channel("c-1").unwrap();
    assert_eq!((c.my_balance, c.peer_balance, c.sequence_number, c.is_open), (46, 54, 2, true));
    let c = restarted.get_channel("c-2").unwrap();
    assert_eq!((c.my_balance, c.peer_balance, c.sequence_number, c.is_open), (3, 6, 1, false));
    assert_eq!(restarted.send_payment("c-1", 1).unwrap().sequence, 3);
}

#[test]
fn corrupt_records_are_refused() {
    let mut m = manager();
    let bad_sum = stored("a", 5, 6, 10, 0, true);
    assert_eq!(m.load_channel(bad_sum, Vec::new()).unwrap_err(), LedgerError::CorruptRecord);
    let overflow = stored("a", u64::MAX, 2, 1, 0, true);
    assert_eq!(m.load_channel(overflow, Vec::new()).unwrap_err(), LedgerError::CorruptRecord);
    let foreign = vec![snapshot("other", 1)];
    assert_eq!(
        m.load_channel(stored("a", 5, 5, 10, 3, true), foreign).unwrap_err(),
        LedgerError::CorruptRecord
    );
    let repeated = vec![snapshot("a", 1), snapshot("a", 1)];
    assert_eq!(
        m.load_channel(stored("a", 5, 5, 10, 3, true), repeated).unwrap_err(),
        LedgerError::CorruptRecord
    );
    let unordered = vec![snapshot("a", 2), snapshot("a", 1)];
    assert_eq!(
        m.load_channel(stored("a", 5, 5, 10, 3, true), unordered).unwrap_err(),
        LedgerError::CorruptRecord
    );
    let too_new = vec![snapshot("a", 4)];
    assert_eq!(
        m.load_channel(stored("a", 5, 5, 10, 3, true), too_new).unwrap_err(),
        LedgerError::CorruptRecord
    );
    assert_eq!(LedgerError::CorruptRecord.kind(), ErrorKind::PersistenceFailure);
    assert!(m.get_all_channels().is_empty());
    let good = vec![snapshot("a", 1), snapshot("a", 3)];
    m.load_channel(stored("a", 5, 5, 10, 3, true), good).unwrap();
    assert_eq!(
        m.load_channel(stored("a", 5, 5, 10, 3, true), Vec::new()).unwrap_err(),
        LedgerError::CorruptRecord
    );
    assert_eq!(m.get_all_channels().len(), 1);
}

#[test]
fn listing_keeps_the_order_of_arrival() {
    let mut m = manager();
    for id in ["c", "a", "b"] {
        open(&mut m, id, 10);
    }
    let ids: Vec<String> = m.get_all_channels().iter().map(|c| c.id.clone()).collect();
    assert_eq!(ids, vec!["c", "a", "b"]);
}

#[test]
fn a_copy_restores_the_table() {
    let mut m = manager();
    open(&mut m, "c-1", 100);
    m.send_payment("c-1", 10).unwrap();
    let backup = m.clone();
    m.send_payment("c-1", 5).unwrap();
    m.close_channel("c-1").unwrap();
    m = backup;
    let c = m.get_channel("c-1").unwrap();
    assert_eq!((c.my_balance, c.peer_balance, c.sequence_number, c.is_open), (40, 60, 1, true));
    assert_eq!(m.get_channel_commitments("c-1").unwrap().len(), 1);
    assert_eq!(m.send_payment("c-1", 1).unwrap().sequence, 2);
}
