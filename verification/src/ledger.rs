//! The table of channels with their commitment histories as the contracts see
//! it: the rules the table keeps, what each operation does to it, and the laws
//! that follow.

use crate::channel::{
    commitment_encoding, ChannelOp, ChannelState, CommitmentState, CommitmentTransaction, PaymentChannel,
    PaymentDirection, PaymentRecord, PaymentState, Timestamp,
};
use crate::crypto::{
    ecdsa_accepts, ecdsa_signature, joint_script, p2wsh_regtest_address, secp_compressed_key,
    sha256_digest,
};
use crate::error::{ErrorKind, LedgerError};
use crate::hexadecimal::{hex_bytes, hex_text, is_hex_text};
use crate::p2p::MessageState;
use crate::text::{leading, without_char};
use vstd::prelude::*;
use vstd::utf8::encode_utf8;

verus! {

/// One row of the table as the contracts see it: a channel and the commitment
/// snapshots taken of it, oldest first.
pub ghost struct LedgerEntry {
    pub channel: ChannelState,
    pub history: Seq<CommitmentState>,
}

/// The rules a channel's history keeps: every snapshot belongs to the channel and
/// is no newer than it, and the snapshots' sequence numbers grow strictly, so no
/// two share one.
pub open spec fn history_wf(channel: ChannelState, history: Seq<CommitmentState>) -> bool {
    &&& forall|k: int|
        0 <= k < history.len() ==> (#[trigger] history[k]).channel_id == channel.id
            && history[k].sequence <= channel.sequence_number
    &&& forall|j: int, k: int|
        0 <= j < k < history.len() ==> (#[trigger] history[j]).sequence < (
        #[trigger] history[k]).sequence
}

/// The rules one row keeps: the balances make up the capacity, and the history
/// keeps its rules.
pub open spec fn entry_wf(e: LedgerEntry) -> bool {
    e.channel.balanced() && history_wf(e.channel, e.history)
}

/// The rules the table keeps: every row is well formed and no two rows carry the
/// same channel identifier.
pub open spec fn ledger_wf(s: Seq<LedgerEntry>) -> bool {
    &&& forall|i: int| 0 <= i < s.len() ==> entry_wf(#[trigger] s[i])
    &&& forall|i: int, j: int|
        0 <= i < j < s.len() ==> (#[trigger] s[i]).channel.id != (#[trigger] s[j]).channel.id
}

/// Whether row `i` of the table is the channel `id`.
pub open spec fn is_row(s: Seq<LedgerEntry>, id: Seq<char>, i: int) -> bool {
    0 <= i < s.len() && s[i].channel.id == id
}

/// The row of the channel `id`, if the table has one.
pub open spec fn position(s: Seq<LedgerEntry>, id: Seq<char>) -> Option<int> {
    if exists|i: int| is_row(s, id, i) {
        Some(choose|i: int| is_row(s, id, i))
    } else {
        None
    }
}

/// In a well-formed table the row of a channel is the only row that carries its
/// identifier.
pub proof fn lemma_position_unique(s: Seq<LedgerEntry>, id: Seq<char>, i: int)
    requires
        ledger_wf(s),
        is_row(s, id, i),
    ensures
        position(s, id) == Some(i),
{
    let j = choose|j: int| is_row(s, id, j);
    assert(is_row(s, id, j));
    if j < i {
        assert(s[j].channel.id != s[i].channel.id);
    } else if i < j {
        assert(s[i].channel.id != s[j].channel.id);
    }
}

/// Snapshots seen as the contracts see them.
pub open spec fn snapshots(commitments: Seq<CommitmentTransaction>) -> Seq<CommitmentState> {
    commitments.map_values(|c: CommitmentTransaction| c@)
}

/// A result with its record seen as the contracts see it.
pub open spec fn record_view(r: Result<PaymentRecord, LedgerError>) -> Result<
    PaymentState,
    LedgerError,
> {
    match r {
        Ok(payment) => Ok(payment@),
        Err(e) => Err(e),
    }
}

/// The snapshot of a channel's present balances, signed with `secret`: the
/// canonical encoding of the balances and the compact signature of the encoding's
/// SHA-256 digest in hexadecimal.
pub open spec fn commitment_of(
    channel: ChannelState,
    secret: Seq<u8>,
    id: Seq<char>,
    now: Timestamp,
) -> CommitmentState {
    let raw_tx = commitment_encoding(
        channel.funding_txid,
        channel.my_balance,
        channel.peer_balance,
        channel.sequence_number,
    );
    CommitmentState {
        id,
        channel_id: channel.id,
        sequence: channel.sequence_number,
        my_balance: channel.my_balance,
        peer_balance: channel.peer_balance,
        raw_tx,
        signature: hex_text(ecdsa_signature(secret, sha256_digest(encode_utf8(raw_tx)))),
        created_at: now,
    }
}

/// The record of a transfer of `amount` that brought the channel to the state
/// `after`.
pub open spec fn transfer_record(
    after: ChannelState,
    amount: nat,
    direction: PaymentDirection,
    id: Seq<char>,
    now: Timestamp,
) -> PaymentState {
    PaymentState {
        id,
        channel_id: after.id,
        amount,
        direction,
        sequence: after.sequence_number,
        timestamp: now,
        is_offline: true,
    }
}

/// What paying `amount` over the channel `id` does to the table and what it
/// answers. A refused payment leaves the table as it was. An accepted one moves
/// `amount` to the peer's side, raises the sequence number by one and appends the
/// signed snapshot of the new balances to the channel's history.
pub open spec fn pay_outcome(
    s: Seq<LedgerEntry>,
    secret: Seq<u8>,
    id: Seq<char>,
    amount: nat,
    commitment_id: Seq<char>,
    payment_id: Seq<char>,
    now: Timestamp,
) -> (Seq<LedgerEntry>, Result<PaymentState, LedgerError>) {
    match position(s, id) {
        None => (s, Err(LedgerError::ChannelNotFound)),
        Some(i) => match s[i].channel.pay_refusal(amount) {
            Some(e) => (s, Err(e)),
            None => {
                let after = s[i].channel.after_pay(amount);
                let entry = LedgerEntry {
                    channel: after,
                    history: s[i].history.push(commitment_of(after, secret, commitment_id, now)),
                };
                (
                    s.update(i, entry),
                    Ok(transfer_record(after, amount, PaymentDirection::Outgoing, payment_id, now)),
                )
            },
        },
    }
}

/// What receiving `amount` from the peer over the channel `id` under `sequence`
/// does to the table and what it answers. A refused update leaves the table as it
/// was. An accepted one moves `amount` to this node's side and sets the sequence
/// number to `sequence`; it leaves no snapshot.
pub open spec fn receive_outcome(
    s: Seq<LedgerEntry>,
    id: Seq<char>,
    amount: nat,
    sequence: nat,
    payment_id: Seq<char>,
    now: Timestamp,
) -> (Seq<LedgerEntry>, Result<PaymentState, LedgerError>) {
    match position(s, id) {
        None => (s, Err(LedgerError::ChannelNotFound)),
        Some(i) => match s[i].channel.receive_refusal(amount, sequence) {
            Some(e) => (s, Err(e)),
            None => {
                let after = s[i].channel.after_receive(amount, sequence);
                let entry = LedgerEntry { channel: after, history: s[i].history };
                (
                    s.update(i, entry),
                    Ok(transfer_record(after, amount, PaymentDirection::Incoming, payment_id, now)),
                )
            },
        },
    }
}

/// What closing the channel `id` does to the table and what it answers: the
/// channel is marked closed and keeps its balances, which are what each side is
/// owed. Closing a closed channel succeeds and changes nothing.
pub open spec fn close_outcome(s: Seq<LedgerEntry>, id: Seq<char>) -> (
    Seq<LedgerEntry>,
    Result<(), LedgerError>,
) {
    match position(s, id) {
        None => (s, Err(LedgerError::ChannelNotFound)),
        Some(i) => (
            s.update(i, LedgerEntry { channel: s[i].channel.after_close(), history: s[i].history }),
            Ok(()),
        ),
    }
}

/// Whether a payment that came over the network is vouched for by the channel's
/// peer: the peer is named by its public key in hexadecimal, and `signature` is
/// the hexadecimal form of a compact signature that this key gave the SHA-256
/// digest of `commitment_tx`.
pub open spec fn remote_signature_accepted(
    peer: Seq<char>,
    commitment_tx: Seq<char>,
    signature: Seq<char>,
) -> bool {
    &&& is_hex_text(peer)
    &&& is_hex_text(signature)
    &&& ecdsa_accepts(
        sha256_digest(encode_utf8(commitment_tx)),
        hex_bytes(signature),
        hex_bytes(peer),
    )
}

/// What a payment that came over the network does to the table and what it
/// answers. It is verified before it is applied: for an unknown channel, or
/// without an accepted signature of the channel's peer, the table stays as it
/// was. A verified payment is applied as a receipt, with the refusals of a
/// receipt.
pub open spec fn remote_payment_outcome(
    s: Seq<LedgerEntry>,
    id: Seq<char>,
    amount: nat,
    sequence: nat,
    commitment_tx: Seq<char>,
    signature: Seq<char>,
    payment_id: Seq<char>,
    now: Timestamp,
) -> (Seq<LedgerEntry>, Result<PaymentState, LedgerError>) {
    match position(s, id) {
        None => (s, Err(LedgerError::ChannelNotFound)),
        Some(i) => if !remote_signature_accepted(
            s[i].channel.peer_node_id,
            commitment_tx,
            signature,
        ) {
            (s, Err(LedgerError::InvalidSignature))
        } else {
            receive_outcome(s, id, amount, sequence, payment_id, now)
        },
    }
}

/// What a message that came over the network does to the table and what it
/// answers. Only a payment touches the table; every other message is taken note
/// of and answered with no record.
pub open spec fn message_outcome(
    s: Seq<LedgerEntry>,
    message: MessageState,
    payment_id: Seq<char>,
    now: Timestamp,
) -> (Seq<LedgerEntry>, Result<Option<PaymentState>, LedgerError>) {
    match message {
        MessageState::Payment { channel_id, amount, sequence, commitment_tx, signature } => {
            let (table, answer) = remote_payment_outcome(
                s,
                channel_id,
                amount,
                sequence,
                commitment_tx,
                signature,
                payment_id,
                now,
            );
            match answer {
                Ok(payment) => (table, Ok(Some(payment))),
                Err(e) => (table, Err(e)),
            }
        },
        _ => (s, Ok(None)),
    }
}

/// A result with its record, if any, seen as the contracts see it.
pub open spec fn optional_record_view(r: Result<Option<PaymentRecord>, LedgerError>) -> Result<
    Option<PaymentState>,
    LedgerError,
> {
    match r {
        Ok(Some(payment)) => Ok(Some(payment@)),
        Ok(None) => Ok(None),
        Err(e) => Err(e),
    }
}

/// A result with its channel seen as the contracts see it.
pub open spec fn channel_view(r: Result<PaymentChannel, LedgerError>) -> Result<
    ChannelState,
    LedgerError,
> {
    match r {
        Ok(channel) => Ok(channel@),
        Err(e) => Err(e),
    }
}

/// The characters with which an identifier of the peer overlay begins.
pub open spec fn overlay_prefix() -> Seq<char> {
    seq!['1', '2', 'D', '3']
}

/// The characters with which a placeholder address begins.
pub open spec fn placeholder_prefix() -> Seq<char> {
    seq!['b', 'c', 'r', 't', '1', 'q']
}

/// The characters with which a funding reference begins.
pub open spec fn funding_prefix() -> Seq<char> {
    seq!['f', 'u', 'n', 'd', 'i', 'n', 'g', '_']
}

/// The joint address of a channel with `peer`. A peer named by an identifier of
/// the overlay has no known key, and the channel gets a placeholder made of the
/// first twenty characters of `seed` that are no hyphens. Any other peer must be
/// named by its public key in hexadecimal, and the address is the one that the
/// two-of-two script over both keys has.
pub open spec fn joint_address_of(local_key: Seq<u8>, peer: Seq<char>, seed: Seq<char>) -> Result<
    Seq<char>,
    LedgerError,
> {
    if overlay_prefix().is_prefix_of(peer) {
        Ok(placeholder_prefix() + leading(without_char(seed, '-'), 20))
    } else if !is_hex_text(peer) {
        Err(LedgerError::InvalidPeerIdentifier)
    } else {
        match secp_compressed_key(hex_bytes(peer)) {
            Some(key) => Ok(p2wsh_regtest_address(joint_script(local_key, key))),
            None => Err(LedgerError::InvalidPeerIdentifier),
        }
    }
}

/// A channel as it is opened: sequence number zero, open, and the capacity split
/// evenly. Where the capacity is odd the peer's side holds the unit that cannot
/// be split, so that the balances make up the capacity.
pub open spec fn opened_channel(
    peer: Seq<char>,
    capacity: nat,
    channel_id: Seq<char>,
    funding_id: Seq<char>,
    address: Seq<char>,
    now: Timestamp,
) -> ChannelState {
    ChannelState {
        id: channel_id,
        peer_node_id: peer,
        funding_txid: funding_prefix() + funding_id,
        capacity,
        my_balance: capacity / 2,
        peer_balance: (capacity - capacity / 2) as nat,
        sequence_number: 0,
        is_open: true,
        created_at: now,
        multisig_address: address,
    }
}

/// What opening a channel with `peer` does to the table and what it answers. A
/// peer identifier from which no joint address follows is refused, and so is a
/// channel identifier that the table holds already; both leave the table as it
/// was. Otherwise the new channel joins the table as its last row, with an empty
/// history.
pub open spec fn open_outcome(
    s: Seq<LedgerEntry>,
    local_key: Seq<u8>,
    peer: Seq<char>,
    capacity: nat,
    channel_id: Seq<char>,
    funding_id: Seq<char>,
    seed: Seq<char>,
    now: Timestamp,
) -> (Seq<LedgerEntry>, Result<ChannelState, LedgerError>) {
    match joint_address_of(local_key, peer, seed) {
        Err(e) => (s, Err(e)),
        Ok(address) => if position(s, channel_id) is Some {
            (s, Err(LedgerError::DuplicateChannel))
        } else {
            let channel = opened_channel(peer, capacity, channel_id, funding_id, address, now);
            (
                s.push(LedgerEntry { channel, history: Seq::<CommitmentState>::empty() }),
                Ok(channel),
            )
        },
    }
}

/// What taking a stored channel with its stored history into the table does and
/// what it answers. A record that breaks the rules of a row, or whose channel
/// identifier the table holds already, is refused and leaves the table as it
/// was. Any other record becomes the table's last row, unchanged.
pub open spec fn load_outcome(s: Seq<LedgerEntry>, record: LedgerEntry) -> (
    Seq<LedgerEntry>,
    Result<(), LedgerError>,
) {
    if entry_wf(record) && position(s, record.channel.id) is None {
        (s.push(record), Ok(()))
    } else {
        (s, Err(LedgerError::CorruptRecord))
    }
}

/// What taking stored records into the table one after the other does, up to the
/// first that is refused.
pub open spec fn load_all(s: Seq<LedgerEntry>, records: Seq<LedgerEntry>) -> (
    Seq<LedgerEntry>,
    Result<(), LedgerError>,
)
    decreases records.len(),
{
    if records.len() == 0 {
        (s, Ok(()))
    } else {
        let (next, answer) = load_outcome(s, records[0]);
        if answer is Ok {
            load_all(next, records.skip(1))
        } else {
            (next, answer)
        }
    }
}

/// Replacing a row of a well-formed table by a well-formed row with the same
/// channel identifier gives a well-formed table.
pub proof fn lemma_update_keeps_rules(s: Seq<LedgerEntry>, i: int, entry: LedgerEntry)
    requires
        ledger_wf(s),
        0 <= i < s.len(),
        entry_wf(entry),
        entry.channel.id == s[i].channel.id,
    ensures
        ledger_wf(s.update(i, entry)),
{
    let t = s.update(i, entry);
    assert forall|j: int| 0 <= j < t.len() implies entry_wf(#[trigger] t[j]) by {
        if j != i {
            assert(t[j] == s[j]);
        }
    }
    assert forall|j: int, k: int| 0 <= j < k < t.len() implies (#[trigger] t[j]).channel.id != (
    #[trigger] t[k]).channel.id by {
        assert(t[j].channel.id == s[j].channel.id);
        assert(t[k].channel.id == s[k].channel.id);
    }
}

/// Paying keeps the table's rules: in particular the balances of every channel
/// still make up its capacity, and no two snapshots of a channel share a sequence
/// number.
pub proof fn lemma_pay_keeps_rules(
    s: Seq<LedgerEntry>,
    secret: Seq<u8>,
    id: Seq<char>,
    amount: nat,
    commitment_id: Seq<char>,
    payment_id: Seq<char>,
    now: Timestamp,
)
    requires
        ledger_wf(s),
    ensures
        ledger_wf(pay_outcome(s, secret, id, amount, commitment_id, payment_id, now).0),
{
    match position(s, id) {
        None => {},
        Some(i) => {
            assert(is_row(s, id, i));
            if s[i].channel.pay_refusal(amount) is None {
                let after = s[i].channel.after_pay(amount);
                let commitment = commitment_of(after, secret, commitment_id, now);
                let entry = LedgerEntry { channel: after, history: s[i].history.push(commitment) };
                assert(entry_wf(s[i]));
                assert forall|k: int| 0 <= k < entry.history.len() implies (
                #[trigger] entry.history[k]).channel_id == entry.channel.id
                    && entry.history[k].sequence <= entry.channel.sequence_number by {
                    if k < s[i].history.len() {
                        assert(entry.history[k] == s[i].history[k]);
                    }
                }
                assert forall|j: int, k: int| 0 <= j < k < entry.history.len() implies (
                #[trigger] entry.history[j]).sequence < (#[trigger] entry.history[k]).sequence by {
                    assert(entry.history[j] == s[i].history[j]);
                    if k < s[i].history.len() {
                        assert(entry.history[k] == s[i].history[k]);
                    }
                }
                lemma_update_keeps_rules(s, i, entry);
            }
        },
    }
}

/// Receiving keeps the table's rules.
pub proof fn lemma_receive_keeps_rules(
    s: Seq<LedgerEntry>,
    id: Seq<char>,
    amount: nat,
    sequence: nat,
    payment_id: Seq<char>,
    now: Timestamp,
)
    requires
        ledger_wf(s),
    ensures
        ledger_wf(receive_outcome(s, id, amount, sequence, payment_id, now).0),
{
    match position(s, id) {
        None => {},
        Some(i) => {
            assert(is_row(s, id, i));
            if s[i].channel.receive_refusal(amount, sequence) is None {
                let after = s[i].channel.after_receive(amount, sequence);
                let entry = LedgerEntry { channel: after, history: s[i].history };
                assert(entry_wf(s[i]));
                lemma_update_keeps_rules(s, i, entry);
            }
        },
    }
}

/// Closing keeps the table's rules.
pub proof fn lemma_close_keeps_rules(s: Seq<LedgerEntry>, id: Seq<char>)
    requires
        ledger_wf(s),
    ensures
        ledger_wf(close_outcome(s, id).0),
{
    match position(s, id) {
        None => {},
        Some(i) => {
            assert(is_row(s, id, i));
            let entry = LedgerEntry { channel: s[i].channel.after_close(), history: s[i].history };
            assert(entry_wf(s[i]));
            lemma_update_keeps_rules(s, i, entry);
        },
    }
}

/// Appending a well-formed row whose channel identifier is new to a well-formed
/// table gives a well-formed table.
pub proof fn lemma_push_keeps_rules(s: Seq<LedgerEntry>, entry: LedgerEntry)
    requires
        ledger_wf(s),
        entry_wf(entry),
        position(s, entry.channel.id) is None,
    ensures
        ledger_wf(s.push(entry)),
{
    let t = s.push(entry);
    assert forall|j: int| 0 <= j < t.len() implies entry_wf(#[trigger] t[j]) by {
        if j < s.len() {
            assert(t[j] == s[j]);
        }
    }
    assert forall|j: int, k: int| 0 <= j < k < t.len() implies (#[trigger] t[j]).channel.id != (
    #[trigger] t[k]).channel.id by {
        assert(t[j] == s[j]);
        if k < s.len() {
            assert(t[k] == s[k]);
        } else {
            assert(!is_row(s, entry.channel.id, j));
        }
    }
}

/// Opening a channel keeps the table's rules.
pub proof fn lemma_open_keeps_rules(
    s: Seq<LedgerEntry>,
    local_key: Seq<u8>,
    peer: Seq<char>,
    capacity: nat,
    channel_id: Seq<char>,
    funding_id: Seq<char>,
    seed: Seq<char>,
    now: Timestamp,
)
    requires
        ledger_wf(s),
    ensures
        ledger_wf(
            open_outcome(s, local_key, peer, capacity, channel_id, funding_id, seed, now).0,
        ),
{
    match joint_address_of(local_key, peer, seed) {
        Err(e) => {},
        Ok(address) => {
            if position(s, channel_id) is None {
                let channel = opened_channel(peer, capacity, channel_id, funding_id, address, now);
                lemma_push_keeps_rules(
                    s,
                    LedgerEntry { channel, history: Seq::<CommitmentState>::empty() },
                );
            }
        },
    }
}

/// Taking a stored record into the table keeps the table's rules.
pub proof fn lemma_load_keeps_rules(s: Seq<LedgerEntry>, record: LedgerEntry)
    requires
        ledger_wf(s),
    ensures
        ledger_wf(load_outcome(s, record).0),
{
    if entry_wf(record) && position(s, record.channel.id) is None {
        lemma_push_keeps_rules(s, record);
    }
}

/// Loading the rows `rest` behind the rows `done`, where both together are a
/// well-formed table, is accepted and gives that table.
proof fn lemma_reload_from(done: Seq<LedgerEntry>, rest: Seq<LedgerEntry>)
    requires
        ledger_wf(done + rest),
    ensures
        load_all(done, rest) == (done + rest, Ok::<(), LedgerError>(())),
    decreases rest.len(),
{
    let all = done + rest;
    if rest.len() == 0 {
        assert(all =~= done);
    } else {
        let record = rest[0];
        assert(all[done.len() as int] == record);
        assert(entry_wf(record));
        if position(done, record.channel.id) is Some {
            let j = position(done, record.channel.id).unwrap();
            assert(is_row(done, record.channel.id, j));
            assert(all[j] == done[j]);
            assert(all[j].channel.id != all[done.len() as int].channel.id);
        }
        assert(done.push(record) + rest.skip(1) =~= all);
        lemma_reload_from(done.push(record), rest.skip(1));
    }
}

/// A table survives a restart: when the rows of a well-formed table are stored
/// and loaded again in order into an empty table, every row is accepted and the
/// table that results is the one that was stored, with the same balances,
/// sequence numbers, open or closed states and histories.
pub proof fn lemma_reload_reproduces(s: Seq<LedgerEntry>)
    requires
        ledger_wf(s),
    ensures
        load_all(Seq::<LedgerEntry>::empty(), s) == (s, Ok::<(), LedgerError>(())),
{
    assert(Seq::<LedgerEntry>::empty() + s =~= s);
    lemma_reload_from(Seq::<LedgerEntry>::empty(), s);
}

/// Replacing the row of a channel by a row of the same channel leaves the
/// channel where it was.
pub proof fn lemma_position_after_update(s: Seq<LedgerEntry>, i: int, entry: LedgerEntry)
    requires
        ledger_wf(s),
        0 <= i < s.len(),
        entry_wf(entry),
        entry.channel.id == s[i].channel.id,
    ensures
        position(s.update(i, entry), entry.channel.id) == Some(i),
{
    lemma_update_keeps_rules(s, i, entry);
    assert(is_row(s.update(i, entry), entry.channel.id, i));
    lemma_position_unique(s.update(i, entry), entry.channel.id, i);
}

/// Every snapshot of a channel has a sequence number of its own.
pub proof fn lemma_snapshots_distinct(e: LedgerEntry, j: int, k: int)
    requires
        entry_wf(e),
        0 <= j < e.history.len(),
        0 <= k < e.history.len(),
        j != k,
    ensures
        e.history[j].sequence != e.history[k].sequence,
{
    if j < k {
        assert(e.history[j].sequence < e.history[k].sequence);
    } else {
        assert(e.history[k].sequence < e.history[j].sequence);
    }
}

/// An accepted payment raises the channel's sequence number by exactly one and
/// leaves a snapshot under the new number, which no earlier snapshot carries.
pub proof fn lemma_pay_advances(
    s: Seq<LedgerEntry>,
    secret: Seq<u8>,
    id: Seq<char>,
    amount: nat,
    commitment_id: Seq<char>,
    payment_id: Seq<char>,
    now: Timestamp,
)
    requires
        ledger_wf(s),
        pay_outcome(s, secret, id, amount, commitment_id, payment_id, now).1 is Ok,
    ensures
        ({
            let i = position(s, id).unwrap();
            let t = pay_outcome(s, secret, id, amount, commitment_id, payment_id, now).0;
            &&& position(t, id) == Some(i)
            &&& t[i].channel.sequence_number == s[i].channel.sequence_number + 1
            &&& t[i].channel.my_balance + t[i].channel.peer_balance == s[i].channel.capacity
            &&& t[i].history.len() == s[i].history.len() + 1
            &&& t[i].history.last().sequence == t[i].channel.sequence_number
            &&& forall|k: int|
                0 <= k < s[i].history.len() ==> (#[trigger] t[i].history[k]).sequence
                    < t[i].history.last().sequence
        }),
{
    let i = position(s, id).unwrap();
    assert(is_row(s, id, i));
    let t = pay_outcome(s, secret, id, amount, commitment_id, payment_id, now).0;
    lemma_pay_keeps_rules(s, secret, id, amount, commitment_id, payment_id, now);
    assert(entry_wf(s[i]));
    assert(entry_wf(t[i]));
    lemma_position_after_update(s, i, t[i]);
    assert(s.update(i, t[i]) =~= t);
    assert forall|k: int| 0 <= k < s[i].history.len() implies (#[trigger] t[i].history[k]).sequence
        < t[i].history.last().sequence by {
        assert(t[i].history[k] == s[i].history[k]);
    }
}

/// An accepted receipt raises the channel's sequence number by exactly one and
/// keeps the balances making up the capacity.
pub proof fn lemma_receive_advances(
    s: Seq<LedgerEntry>,
    id: Seq<char>,
    amount: nat,
    sequence: nat,
    payment_id: Seq<char>,
    now: Timestamp,
)
    requires
        ledger_wf(s),
        receive_outcome(s, id, amount, sequence, payment_id, now).1 is Ok,
    ensures
        ({
            let i = position(s, id).unwrap();
            let t = receive_outcome(s, id, amount, sequence, payment_id, now).0;
            &&& position(t, id) == Some(i)
            &&& t[i].channel.sequence_number == s[i].channel.sequence_number + 1
            &&& t[i].channel.my_balance + t[i].channel.peer_balance == s[i].channel.capacity
            &&& t[i].history == s[i].history
        }),
{
    let i = position(s, id).unwrap();
    assert(is_row(s, id, i));
    let t = receive_outcome(s, id, amount, sequence, payment_id, now).0;
    lemma_receive_keeps_rules(s, id, amount, sequence, payment_id, now);
    assert(entry_wf(s[i]));
    assert(entry_wf(t[i]));
    lemma_position_after_update(s, i, t[i]);
    assert(s.update(i, t[i]) =~= t);
}

/// A receipt for an open channel under any sequence number but the next one
/// fails as a sequence conflict and leaves the whole table, balances included,
/// as it was.
pub proof fn lemma_receive_conflict(
    s: Seq<LedgerEntry>,
    id: Seq<char>,
    amount: nat,
    sequence: nat,
    payment_id: Seq<char>,
    now: Timestamp,
)
    requires
        position(s, id) is Some,
        s[position(s, id).unwrap()].channel.is_open,
        sequence != s[position(s, id).unwrap()].channel.sequence_number + 1,
    ensures
        receive_outcome(s, id, amount, sequence, payment_id, now) == (
            s,
            Err::<PaymentState, LedgerError>(LedgerError::SequenceConflict),
        ),
{
}

/// A payment over an open channel of more than this node holds fails for
/// insufficient funds and leaves the whole table, balances and sequence numbers
/// included, as it was.
pub proof fn lemma_pay_insufficient(
    s: Seq<LedgerEntry>,
    secret: Seq<u8>,
    id: Seq<char>,
    amount: nat,
    commitment_id: Seq<char>,
    payment_id: Seq<char>,
    now: Timestamp,
)
    requires
        position(s, id) is Some,
        s[position(s, id).unwrap()].channel.is_open,
        amount > s[position(s, id).unwrap()].channel.my_balance,
    ensures
        pay_outcome(s, secret, id, amount, commitment_id, payment_id, now) == (
            s,
            Err::<PaymentState, LedgerError>(LedgerError::InsufficientBalance),
        ),
        LedgerError::InsufficientBalance.spec_kind() == ErrorKind::InsufficientFunds,
{
}

/// Once a channel of the table was closed, every payment and every receipt on it
/// fails as an operation on a closed channel and leaves the table as it was.
pub proof fn lemma_closed_channel_refuses(
    s: Seq<LedgerEntry>,
    secret: Seq<u8>,
    id: Seq<char>,
    amount: nat,
    sequence: nat,
    commitment_id: Seq<char>,
    payment_id: Seq<char>,
    now: Timestamp,
)
    requires
        ledger_wf(s),
        close_outcome(s, id).1 is Ok,
    ensures
        ({
            let closed = close_outcome(s, id).0;
            &&& pay_outcome(closed, secret, id, amount, commitment_id, payment_id, now) == (
                closed,
                Err::<PaymentState, LedgerError>(LedgerError::ChannelClosed),
            )
            &&& receive_outcome(closed, id, amount, sequence, payment_id, now) == (
                closed,
                Err::<PaymentState, LedgerError>(LedgerError::ChannelClosed),
            )
            &&& LedgerError::ChannelClosed.spec_kind() == ErrorKind::InvalidState
        }),
{
    let i = position(s, id).unwrap();
    assert(is_row(s, id, i));
    let entry = LedgerEntry { channel: s[i].channel.after_close(), history: s[i].history };
    assert(entry_wf(s[i]));
    lemma_position_after_update(s, i, entry);
}

/// A payment that came over the network keeps the table's rules, and it changes
/// the table only where the channel's peer vouched for it.
pub proof fn lemma_remote_payment_verified(
    s: Seq<LedgerEntry>,
    id: Seq<char>,
    amount: nat,
    sequence: nat,
    commitment_tx: Seq<char>,
    signature: Seq<char>,
    payment_id: Seq<char>,
    now: Timestamp,
)
    requires
        ledger_wf(s),
    ensures
        ({
            let outcome = remote_payment_outcome(
                s,
                id,
                amount,
                sequence,
                commitment_tx,
                signature,
                payment_id,
                now,
            );
            &&& ledger_wf(outcome.0)
            &&& outcome.0 != s ==> position(s, id) is Some && remote_signature_accepted(
                s[position(s, id).unwrap()].channel.peer_node_id,
                commitment_tx,
                signature,
            ) && s[position(s, id).unwrap()].channel.sequence_number + 1 == sequence
        }),
{
    lemma_receive_keeps_rules(s, id, amount, sequence, payment_id, now);
}

/// Every operation on a channel of the table is a step of that channel alone:
/// the channel moves as `ChannelState::apply` says, and every other row stays
/// as it was. So what holds of every sequence of steps of a channel holds of
/// every sequence of operations on the table.
pub proof fn lemma_operations_step_one_channel(
    s: Seq<LedgerEntry>,
    secret: Seq<u8>,
    id: Seq<char>,
    amount: nat,
    sequence: nat,
    commitment_id: Seq<char>,
    payment_id: Seq<char>,
    now: Timestamp,
)
    requires
        ledger_wf(s),
        position(s, id) is Some,
    ensures
        ({
            let i = position(s, id).unwrap();
            let paid = pay_outcome(s, secret, id, amount, commitment_id, payment_id, now).0;
            let received = receive_outcome(s, id, amount, sequence, payment_id, now).0;
            let closed = close_outcome(s, id).0;
            &&& paid.len() == s.len() && received.len() == s.len() && closed.len() == s.len()
            &&& paid[i].channel == s[i].channel.apply(ChannelOp::Pay { amount })
            &&& received[i].channel == s[i].channel.apply(ChannelOp::Receive { amount, sequence })
            &&& closed[i].channel == s[i].channel.apply(ChannelOp::Close)
            &&& forall|j: int|
                0 <= j < s.len() && j != i ==> paid[j] == s[j] && received[j] == s[j] && closed[j]
                    == s[j]
        }),
{
    let i = position(s, id).unwrap();
    assert(is_row(s, id, i));
}

} // verus!
