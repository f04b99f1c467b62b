use lightning_offline::channel::{
    CommitmentTransaction, PaymentChannel, PaymentDirection, PaymentRecord, Timestamp,
};
use lightning_offline::error::LedgerError;
use lightning_offline::storage::{
    channel_from_row, channel_to_row, channel_to_update, commitment_from_row, commitment_to_row,
    loaded_amount, payment_from_row, payment_to_row, stored_amount, PaymentRow,
};

fn at(secs: i64, nanos: u32) -> Timestamp {
    Timestamp { secs, nanos }
}

#[test]
fn amounts_keep_their_bits() {
    assert_eq!(stored_amount(0), 0);
    assert_eq!(stored_amount(50_000), 50_000);
    assert_eq!(stored_amount(i64::MAX as u64), i64::MAX);
    assert_eq!(stored_amount(i64::MAX as u64 + 1), i64::MIN);
    assert_eq!(stored_amount(u64::MAX), -1);
    assert_eq!(loaded_amount(0), 0);
    assert_eq!(loaded_amount(50_000), 50_000);
    assert_eq!(loaded_amount(-1), u64::MAX);
    assert_eq!(loaded_amount(i64::MIN), 1u64 << 63);
    assert_eq!(loaded_amount(i64::MAX), i64::MAX as u64);
    for v in [0, 1, 40_000, i64::MAX as u64, (1u64 << 63) + 5, u64::MAX - 1, u64::MAX] {
        assert_eq!(stored_amount(v), v as i64);
        assert_eq!(loaded_amount(stored_amount(v)), v);
    }
}

fn channel() -> PaymentChannel {
    PaymentChannel {
        id: "c-1".to_string(),
        peer_node_id: "peer".to_string(),
        funding_txid: "funding_1".to_string(),
        capacity: u64::MAX,
        my_balance: 40_000,
        peer_balance: u64::MAX - 40_000,
        sequence_number: 7,
        is_open: false,
        created_at: at(1_700_000_000, 123),
        multisig_address: "bcrt1qexample".to_string(),
    }
}

#[test]
fn channel_round_trip() {
    let source = channel();
    let row = channel_to_row(&source);
    assert_eq!(row.id, "c-1");
    assert_eq!(row.capacity, -1);
    assert_eq!(row.my_balance, 40_000);
    assert_eq!(row.sequence_number, 7);
    assert!(!row.is_open);
    let back = channel_from_row(row);
    assert_eq!(back.id, source.id);
    assert_eq!(back.peer_node_id, source.peer_node_id);
    assert_eq!(back.funding_txid, source.funding_txid);
    assert_eq!(back.capacity, source.capacity);
    assert_eq!(back.my_balance, source.my_balance);
    assert_eq!(back.peer_balance, source.peer_balance);
    assert_eq!(back.sequence_number, source.sequence_number);
    assert_eq!(back.is_open, source.is_open);
    assert_eq!(back.created_at, source.created_at);
    assert_eq!(back.multisig_address, source.multisig_address);
}

#[test]
fn channel_update_carries_what_changes() {
    let update = channel_to_update(&channel());
    assert_eq!(update.id, "c-1");
    assert_eq!(update.my_balance, 40_000);
    assert_eq!(update.peer_balance, -40_001);
    assert_eq!(update.sequence_number, 7);
    assert!(!update.is_open);
}

#[test]
fn commitment_round_trip() {
    let source = CommitmentTransaction {
        id: "k-1".to_string(),
        channel_id: "c-1".to_string(),
        sequence: 3,
        my_balance: 1,
        peer_balance: 2,
        raw_tx: "{}".to_string(),
        signature: "abcd".to_string(),
        created_at: at(5, 6),
    };
    let row = commitment_to_row(&source);
    assert_eq!((row.sequence, row.my_balance, row.peer_balance), (3, 1, 2));
    let back = commitment_from_row(row);
    assert_eq!(back.id, "k-1");
    assert_eq!(back.channel_id, "c-1");
    assert_eq!((back.sequence, back.my_balance, back.peer_balance), (3, 1, 2));
    assert_eq!(back.raw_tx, "{}");
    assert_eq!(back.signature, "abcd");
    assert_eq!(back.created_at, at(5, 6));
}

#[test]
fn payment_round_trip() {
    for (direction, word) in
        [(PaymentDirection::Outgoing, "outgoing"), (PaymentDirection::Incoming, "incoming")]
    {
        assert_eq!(direction.label(), word);
        let source = PaymentRecord {
            id: "p-1".to_string(),
            channel_id: "c-1".to_string(),
            amount: 10_000,
            direction,
            sequence: 1,
            timestamp: at(9, 0),
            is_offline: true,
        };
        let row = payment_to_row(&source);
        assert_eq!(row.direction, word);
        assert_eq!(row.amount, 10_000);
        let back = payment_from_row(row).unwrap();
        assert_eq!(back.id, "p-1");
        assert_eq!(back.channel_id, "c-1");
        assert_eq!(back.amount, 10_000);
        assert_eq!(back.direction, direction);
        assert_eq!(back.sequence, 1);
        assert_eq!(back.timestamp, at(9, 0));
        assert!(back.is_offline);
    }
}

#[test]
fn unknown_direction_is_corrupt() {
    for word in ["", "Outgoing", "sideways", "incoming "] {
        let row = PaymentRow {
            id: "p".to_string(),
            channel_id: "c".to_string(),
            amount: 1,
            direction: word.to_string(),
            sequence: 1,
            timestamp: at(0, 0),
            is_offline: false,
        };
        assert_eq!(payment_from_row(row).unwrap_err(), LedgerError::CorruptRecord);
    }
}
