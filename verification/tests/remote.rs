use lightning_offline::channel::{PaymentDirection, Timestamp};
use lightning_offline::crypto::KeyManager;
use lightning_offline::error::{ErrorKind, LedgerError};
use lightning_offline::manager::ChannelManager;
use lightning_offline::p2p::P2PMessage;

fn secret(last: u8) -> [u8; 32] {
    let mut bytes = [0u8; 32];
    bytes[31] = last;
    bytes
}

fn at(secs: i64) -> Timestamp {
    Timestamp { secs, nanos: 0 }
}

/// Two nodes with one channel between them, under the same identifier.
fn pair() -> (ChannelManager, ChannelManager) {
    let alice_keys = KeyManager::from_secret_bytes(secret(1)).unwrap();
    let bob_keys = KeyManager::from_secret_bytes(secret(2)).unwrap();
    let alice_hex = hex::encode(alice_keys.get_public_key());
    let bob_hex = hex::encode(bob_keys.get_public_key());
    let mut alice = ChannelManager::new(alice_keys);
    let mut bob = ChannelManager::new(bob_keys);
    alice
        .open_channel_with(bob_hex, 100, "c-1".into(), "f".into(), "s".into(), at(1))
        .unwrap();
    bob.open_channel_with(alice_hex, 100, "c-1".into(), "f".into(), "s".into(), at(1))
        .unwrap();
    (alice, bob)
}

fn announce(alice: &mut ChannelManager, amount: u64) -> P2PMessage {
    let payment = alice.send_payment("c-1", amount).unwrap();
    let history = alice.get_channel_commitments("c-1").unwrap();
    P2PMessage::payment(&payment, history.last().unwrap())
}

#[test]
fn both_sides_derive_the_same_joint_address() {
    let (alice, bob) = pair();
    let a = alice.get_channel("c-1").unwrap().multisig_address.clone();
    let b = bob.get_channel("c-1").unwrap().multisig_address.clone();
    assert_eq!(a, b);
    assert!(a.starts_with("bcrt1q"));
    assert_eq!(a.len(), 64);
}

#[test]
fn verified_payment_is_applied() {
    let (mut alice, mut bob) = pair();
    let message = announce(&mut alice, 30);
    let record = bob.apply_message(&message).unwrap().unwrap();
    assert_eq!(record.direction, PaymentDirection::Incoming);
    assert_eq!(record.amount, 30);
    assert_eq!(record.sequence, 1);
    assert_eq!(record.channel_id, "c-1");
    let c = bob.get_channel("c-1").unwrap();
    assert_eq!((c.my_balance, c.peer_balance, c.sequence_number), (80, 20, 1));
    let a = alice.get_channel("c-1").unwrap();
    assert_eq!((a.my_balance, a.peer_balance, a.sequence_number), (20, 80, 1));
}

#[test]
fn replayed_payment_is_a_conflict() {
    let (mut alice, mut bob) = pair();
    let message = announce(&mut alice, 10);
    bob.apply_message(&message).unwrap();
    assert_eq!(bob.apply_message(&message).unwrap_err(), LedgerError::SequenceConflict);
    let c = bob.get_channel("c-1").unwrap();
    assert_eq!((c.my_balance, c.peer_balance, c.sequence_number), (60, 40, 1));
}

#[test]
fn tampered_payment_is_discarded() {
    let (mut alice, mut bob) = pair();
    let message = announce(&mut alice, 10);
    let P2PMessage::Payment { channel_id, amount, sequence, commitment_tx, signature } = message
    else {
        panic!("a payment was announced");
    };
    assert!(commitment_tx.contains("\"amount\":40"));
    let tampered = P2PMessage::Payment {
        channel_id: channel_id.clone(),
        amount,
        sequence,
        commitment_tx: commitment_tx.replace("\"amount\":40", "\"amount\":41"),
        signature: signature.clone(),
    };
    assert_eq!(bob.apply_message(&tampered).unwrap_err(), LedgerError::InvalidSignature);
    for bad in ["", "zz", "abc", &signature[2..], &"00".repeat(64)] {
        let r = bob.receive_remote_payment_with(
            &channel_id,
            amount,
            sequence,
            &commitment_tx,
            bad,
            "p".into(),
            at(2),
        );
        assert_eq!(r.unwrap_err(), LedgerError::InvalidSignature);
    }
    assert_eq!(LedgerError::InvalidSignature.kind(), ErrorKind::InvalidInput);
    let c = bob.get_channel("c-1").unwrap();
    assert_eq!((c.my_balance, c.peer_balance, c.sequence_number), (50, 50, 0));
    let good = bob
        .receive_remote_payment_with(
            &channel_id,
            amount,
            sequence,
            &commitment_tx,
            &signature,
            "p".into(),
            at(2),
        )
        .unwrap();
    assert_eq!(good.id, "p");
    assert_eq!(good.timestamp, at(2));
}

#[test]
fn payment_signed_by_a_stranger_is_discarded() {
    let (_, mut bob) = pair();
    let stranger = KeyManager::from_secret_bytes(secret(3)).unwrap();
    let text = "anything";
    let signature = hex::encode(stranger.sign_message(text.as_bytes()).unwrap());
    let r = bob.receive_remote_payment_with("c-1", 1, 1, text, &signature, "p".into(), at(2));
    assert_eq!(r.unwrap_err(), LedgerError::InvalidSignature);
}

#[test]
fn payment_for_an_overlay_peer_cannot_be_verified() {
    let keys = KeyManager::from_secret_bytes(secret(1)).unwrap();
    let signature = hex::encode(keys.sign_message(b"raw").unwrap());
    let mut m = ChannelManager::new(keys);
    m.open_channel_with("12D3KooWPeer".into(), 100, "c-1".into(), "f".into(), "s".into(), at(1))
        .unwrap();
    let r = m.receive_remote_payment_with("c-1", 1, 1, "raw", &signature, "p".into(), at(2));
    assert_eq!(r.unwrap_err(), LedgerError::InvalidSignature);
    let r = m.receive_remote_payment_with("none", 1, 1, "raw", &signature, "p".into(), at(2));
    assert_eq!(r.unwrap_err(), LedgerError::ChannelNotFound);
}

#[test]
fn other_messages_leave_the_table_alone() {
    let (mut alice, mut bob) = pair();
    let channel = alice.get_channel("c-1").unwrap().clone();
    let open = P2PMessage::channel_open(&channel);
    let close = P2PMessage::channel_close(&channel);
    assert!(bob.apply_message(&open).unwrap().is_none());
    assert!(bob.apply_message(&close).unwrap().is_none());
    alice.send_payment("c-1", 1).unwrap();
    let signed =
        P2PMessage::commitment_signed(alice.get_channel_commitments("c-1").unwrap().last().unwrap());
    assert!(bob.apply_message(&signed).unwrap().is_none());
    let c = bob.get_channel("c-1").unwrap();
    assert_eq!((c.my_balance, c.peer_balance, c.sequence_number, c.is_open), (50, 50, 0, true));
}
