//! The shape in which channels, snapshots and payments are kept by a record
//! store: every quantity a signed 64-bit integer in the base unit, every
//! direction a word.

use crate::channel::{
    ChannelState, CommitmentState, CommitmentTransaction, PaymentChannel, PaymentDirection,
    PaymentRecord, PaymentState, Timestamp,
};
use crate::error::LedgerError;
use crate::ledger::{ledger_wf, lemma_reload_reproduces, load_all, LedgerEntry};
use vstd::prelude::*;
use vstd::string::*;

verus! {

/// Two to the power of sixty-four.
pub open spec fn two_to_64() -> int {
    0x1_0000_0000_0000_0000
}

/// The signed integer with the bit pattern of the unsigned `v`.
pub open spec fn signed_of(v: nat) -> int {
    if v <= i64::MAX {
        v as int
    } else {
        v - two_to_64()
    }
}

/// The unsigned integer with the bit pattern of the signed `v`.
pub open spec fn unsigned_of(v: int) -> nat {
    if v >= 0 {
        v as nat
    } else {
        (v + two_to_64()) as nat
    }
}

/// A quantity as the store keeps it.
pub fn stored_amount(v: u64) -> (s: i64)
    ensures
        s == signed_of(v as nat),
{
    if v <= 0x7fff_ffff_ffff_ffff {
        v as i64
    } else {
        ((v - 0x8000_0000_0000_0000) as i64) + i64::MIN
    }
}

/// A quantity as the ledger holds it.
pub fn loaded_amount(s: i64) -> (v: u64)
    ensures
        v == unsigned_of(s as int),
{
    if s >= 0 {
        s as u64
    } else {
        ((s - i64::MIN) as u64) + 0x8000_0000_0000_0000
    }
}

/// A quantity comes back from the store as it went in.
pub proof fn lemma_amount_round_trip(v: nat)
    requires
        v <= u64::MAX,
    ensures
        i64::MIN <= signed_of(v) <= i64::MAX,
        unsigned_of(signed_of(v)) == v,
{
}

/// A channel as the store keeps it.
#[derive(Debug)]
pub struct ChannelRow {
    pub id: String,
    pub peer_node_id: String,
    pub funding_txid: String,
    pub capacity: i64,
    pub my_balance: i64,
    pub peer_balance: i64,
    pub sequence_number: i64,
    pub is_open: bool,
    pub created_at: Timestamp,
    pub multisig_address: String,
}

/// A stored channel as the contracts see it.
pub ghost struct ChannelRowState {
    pub id: Seq<char>,
    pub peer_node_id: Seq<char>,
    pub funding_txid: Seq<char>,
    pub capacity: int,
    pub my_balance: int,
    pub peer_balance: int,
    pub sequence_number: int,
    pub is_open: bool,
    pub created_at: Timestamp,
    pub multisig_address: Seq<char>,
}

impl View for ChannelRow {
    type V = ChannelRowState;

    open spec fn view(&self) -> ChannelRowState {
        ChannelRowState {
            id: self.id@,
            peer_node_id: self.peer_node_id@,
            funding_txid: self.funding_txid@,
            capacity: self.capacity as int,
            my_balance: self.my_balance as int,
            peer_balance: self.peer_balance as int,
            sequence_number: self.sequence_number as int,
            is_open: self.is_open,
            created_at: self.created_at,
            multisig_address: self.multisig_address@,
        }
    }
}

/// The part of a channel that changes after it was opened, as the store keeps it.
#[derive(Debug)]
pub struct ChannelUpdate {
    pub id: String,
    pub my_balance: i64,
    pub peer_balance: i64,
    pub sequence_number: i64,
    pub is_open: bool,
}

/// A snapshot as the store keeps it.
#[derive(Debug)]
pub struct CommitmentRow {
    pub id: String,
    pub channel_id: String,
    pub sequence: i64,
    pub my_balance: i64,
    pub peer_balance: i64,
    pub raw_tx: String,
    pub signature: String,
    pub created_at: Timestamp,
}

/// A stored snapshot as the contracts see it.
pub ghost struct CommitmentRowState {
    pub id: Seq<char>,
    pub channel_id: Seq<char>,
    pub sequence: int,
    pub my_balance: int,
    pub peer_balance: int,
    pub raw_tx: Seq<char>,
    pub signature: Seq<char>,
    pub created_at: Timestamp,
}

impl View for CommitmentRow {
    type V = CommitmentRowState;

    open spec fn view(&self) -> CommitmentRowState {
        CommitmentRowState {
            id: self.id@,
            channel_id: self.channel_id@,
            sequence: self.sequence as int,
            my_balance: self.my_balance as int,
            peer_balance: self.peer_balance as int,
            raw_tx: self.raw_tx@,
            signature: self.signature@,
            created_at: self.created_at,
        }
    }
}

/// A payment as the store keeps it.
#[derive(Debug)]
pub struct PaymentRow {
    pub id: String,
    pub channel_id: String,
    pub amount: i64,
    pub direction: String,
    pub sequence: i64,
    pub timestamp: Timestamp,
    pub is_offline: bool,
}

/// A stored payment as the contracts see it.
pub ghost struct PaymentRowState {
    pub id: Seq<char>,
    pub channel_id: Seq<char>,
    pub amount: int,
    pub direction: Seq<char>,
    pub sequence: int,
    pub timestamp: Timestamp,
    pub is_offline: bool,
}

impl View for PaymentRow {
    type V = PaymentRowState;

    open spec fn view(&self) -> PaymentRowState {
        PaymentRowState {
            id: self.id@,
            channel_id: self.channel_id@,
            amount: self.amount as int,
            direction: self.direction@,
            sequence: self.sequence as int,
            timestamp: self.timestamp,
            is_offline: self.is_offline,
        }
    }
}

/// The row under which a channel is stored.
pub open spec fn channel_row_of(c: ChannelState) -> ChannelRowState {
    ChannelRowState {
        id: c.id,
        peer_node_id: c.peer_node_id,
        funding_txid: c.funding_txid,
        capacity: signed_of(c.capacity),
        my_balance: signed_of(c.my_balance),
        peer_balance: signed_of(c.peer_balance),
        sequence_number: signed_of(c.sequence_number),
        is_open: c.is_open,
        created_at: c.created_at,
        multisig_address: c.multisig_address,
    }
}

/// The channel that a row stands for.
pub open spec fn channel_of_row(r: ChannelRowState) -> ChannelState {
    ChannelState {
        id: r.id,
        peer_node_id: r.peer_node_id,
        funding_txid: r.funding_txid,
        capacity: unsigned_of(r.capacity),
        my_balance: unsigned_of(r.my_balance),
        peer_balance: unsigned_of(r.peer_balance),
        sequence_number: unsigned_of(r.sequence_number),
        is_open: r.is_open,
        created_at: r.created_at,
        multisig_address: r.multisig_address,
    }
}

/// The row under which a snapshot is stored.
pub open spec fn commitment_row_of(c: CommitmentState) -> CommitmentRowState {
    CommitmentRowState {
        id: c.id,
        channel_id: c.channel_id,
        sequence: signed_of(c.sequence),
        my_balance: signed_of(c.my_balance),
        peer_balance: signed_of(c.peer_balance),
        raw_tx: c.raw_tx,
        signature: c.signature,
        created_at: c.created_at,
    }
}

/// The snapshot that a row stands for.
pub open spec fn commitment_of_row(r: CommitmentRowState) -> CommitmentState {
    CommitmentState {
        id: r.id,
        channel_id: r.channel_id,
        sequence: unsigned_of(r.sequence),
        my_balance: unsigned_of(r.my_balance),
        peer_balance: unsigned_of(r.peer_balance),
        raw_tx: r.raw_tx,
        signature: r.signature,
        created_at: r.created_at,
    }
}

/// The row under which a payment is stored.
pub open spec fn payment_row_of(p: PaymentState) -> PaymentRowState {
    PaymentRowState {
        id: p.id,
        channel_id: p.channel_id,
        amount: signed_of(p.amount),
        direction: p.direction.spec_label(),
        sequence: signed_of(p.sequence),
        timestamp: p.timestamp,
        is_offline: p.is_offline,
    }
}

/// The direction that a stored word names, if it names one.
pub open spec fn direction_of(word: Seq<char>) -> Option<PaymentDirection> {
    if word == PaymentDirection::Outgoing.spec_label() {
        Some(PaymentDirection::Outgoing)
    } else if word == PaymentDirection::Incoming.spec_label() {
        Some(PaymentDirection::Incoming)
    } else {
        None
    }
}

/// The payment that a row stands for; a row whose direction is no known word
/// stands for none.
pub open spec fn payment_of_row(r: PaymentRowState) -> Result<PaymentState, LedgerError> {
    match direction_of(r.direction) {
        Some(direction) => Ok(
            PaymentState {
                id: r.id,
                channel_id: r.channel_id,
                amount: unsigned_of(r.amount),
                direction,
                sequence: unsigned_of(r.sequence),
                timestamp: r.timestamp,
                is_offline: r.is_offline,
            },
        ),
        None => Err(LedgerError::CorruptRecord),
    }
}

/// The row under which `channel` is stored when it is first saved.
pub fn channel_to_row(channel: &PaymentChannel) -> (row: ChannelRow)
    ensures
        row@ == channel_row_of(channel@),
{
    ChannelRow {
        id: channel.id.clone(),
        peer_node_id: channel.peer_node_id.clone(),
        funding_txid: channel.funding_txid.clone(),
        capacity: stored_amount(channel.capacity),
        my_balance: stored_amount(channel.my_balance),
        peer_balance: stored_amount(channel.peer_balance),
        sequence_number: stored_amount(channel.sequence_number),
        is_open: channel.is_open,
        created_at: channel.created_at,
        multisig_address: channel.multisig_address.clone(),
    }
}

/// What is written over the stored channel after `channel` changed: its
/// balances, its sequence number and whether it is open, under its identifier.
pub fn channel_to_update(channel: &PaymentChannel) -> (update: ChannelUpdate)
    ensures
        update.id@ == channel@.id,
        update.my_balance == signed_of(channel@.my_balance),
        update.peer_balance == signed_of(channel@.peer_balance),
        update.sequence_number == signed_of(channel@.sequence_number),
        update.is_open == channel@.is_open,
{
    ChannelUpdate {
        id: channel.id.clone(),
        my_balance: stored_amount(channel.my_balance),
        peer_balance: stored_amount(channel.peer_balance),
        sequence_number: stored_amount(channel.sequence_number),
        is_open: channel.is_open,
    }
}

/// The channel that a stored row stands for.
pub fn channel_from_row(row: ChannelRow) -> (channel: PaymentChannel)
    ensures
        channel@ == channel_of_row(row@),
{
    PaymentChannel {
        id: row.id,
        peer_node_id: row.peer_node_id,
        funding_txid: row.funding_txid,
        capacity: loaded_amount(row.capacity),
        my_balance: loaded_amount(row.my_balance),
        peer_balance: loaded_amount(row.peer_balance),
        sequence_number: loaded_amount(row.sequence_number),
        is_open: row.is_open,
        created_at: row.created_at,
        multisig_address: row.multisig_address,
    }
}

/// The row under which `commitment` is stored.
pub fn commitment_to_row(commitment: &CommitmentTransaction) -> (row: CommitmentRow)
    ensures
        row@ == commitment_row_of(commitment@),
{
    CommitmentRow {
        id: commitment.id.clone(),
        channel_id: commitment.channel_id.clone(),
        sequence: stored_amount(commitment.sequence),
        my_balance: stored_amount(commitment.my_balance),
        peer_balance: stored_amount(commitment.peer_balance),
        raw_tx: commitment.raw_tx.clone(),
        signature: commitment.signature.clone(),
        created_at: commitment.created_at,
    }
}

/// The snapshot that a stored row stands for.
pub fn commitment_from_row(row: CommitmentRow) -> (commitment: CommitmentTransaction)
    ensures
        commitment@ == commitment_of_row(row@),
{
    CommitmentTransaction {
        id: row.id,
        channel_id: row.channel_id,
        sequence: loaded_amount(row.sequence),
        my_balance: loaded_amount(row.my_balance),
        peer_balance: loaded_amount(row.peer_balance),
        raw_tx: row.raw_tx,
        signature: row.signature,
        created_at: row.created_at,
    }
}

/// The row under which `payment` is stored.
pub fn payment_to_row(payment: &PaymentRecord) -> (row: PaymentRow)
    ensures
        row@ == payment_row_of(payment@),
{
    PaymentRow {
        id: payment.id.clone(),
        channel_id: payment.channel_id.clone(),
        amount: stored_amount(payment.amount),
        direction: payment.direction.label(),
        sequence: stored_amount(payment.sequence),
        timestamp: payment.timestamp,
        is_offline: payment.is_offline,
    }
}

/// The payment that a stored row stands for. A row whose direction is neither of
/// the two known words is refused as corrupt.
pub fn payment_from_row(row: PaymentRow) -> (r: Result<PaymentRecord, LedgerError>)
    ensures
        match payment_of_row(row@) {
            Ok(state) => r matches Ok(payment) && payment@ == state,
            Err(e) => r matches Err(f) && f == e,
        },
{
    let direction = if row.direction == String::from_str("outgoing") {
        PaymentDirection::Outgoing
    } else if row.direction == String::from_str("incoming") {
        PaymentDirection::Incoming
    } else {
        return Err(LedgerError::CorruptRecord);
    };
    Ok(
        PaymentRecord {
            id: row.id,
            channel_id: row.channel_id,
            amount: loaded_amount(row.amount),
            direction,
            sequence: loaded_amount(row.sequence),
            timestamp: row.timestamp,
            is_offline: row.is_offline,
        },
    )
}

/// The two words for a direction differ, so a stored direction is read back as
/// the one that was written.
pub proof fn lemma_direction_round_trip(direction: PaymentDirection)
    ensures
        direction_of(direction.spec_label()) == Some(direction),
{
    reveal_strlit("outgoing");
    reveal_strlit("incoming");
    assert("outgoing"@[0] != "incoming"@[0]);
}

/// A channel comes back from the store as it went in: identical balances,
/// sequence number, open or closed state and every other field.
pub proof fn lemma_channel_round_trip(c: ChannelState)
    requires
        c.capacity <= u64::MAX,
        c.my_balance <= u64::MAX,
        c.peer_balance <= u64::MAX,
        c.sequence_number <= u64::MAX,
    ensures
        channel_of_row(channel_row_of(c)) == c,
{
}

/// A snapshot comes back from the store as it went in.
pub proof fn lemma_commitment_round_trip(c: CommitmentState)
    requires
        c.sequence <= u64::MAX,
        c.my_balance <= u64::MAX,
        c.peer_balance <= u64::MAX,
    ensures
        commitment_of_row(commitment_row_of(c)) == c,
{
}

/// A payment comes back from the store as it went in.
pub proof fn lemma_payment_round_trip(p: PaymentState)
    requires
        p.amount <= u64::MAX,
        p.sequence <= u64::MAX,
    ensures
        payment_of_row(payment_row_of(p)) == Ok::<PaymentState, LedgerError>(p),
{
    lemma_direction_round_trip(p.direction);
}

/// Whether every quantity of a channel can be held by the ledger.
pub open spec fn channel_fits(c: ChannelState) -> bool {
    &&& c.capacity <= u64::MAX
    &&& c.my_balance <= u64::MAX
    &&& c.peer_balance <= u64::MAX
    &&& c.sequence_number <= u64::MAX
}

/// Whether every quantity of a snapshot can be held by the ledger.
pub open spec fn commitment_fits(c: CommitmentState) -> bool {
    &&& c.sequence <= u64::MAX
    &&& c.my_balance <= u64::MAX
    &&& c.peer_balance <= u64::MAX
}

/// Whether every quantity of a row of the table can be held by the ledger.
pub open spec fn entry_fits(e: LedgerEntry) -> bool {
    channel_fits(e.channel) && forall|k: int|
        0 <= k < e.history.len() ==> commitment_fits(#[trigger] e.history[k])
}

/// A row of the table as it comes back from the store.
pub open spec fn stored_and_loaded(e: LedgerEntry) -> LedgerEntry {
    LedgerEntry {
        channel: channel_of_row(channel_row_of(e.channel)),
        history: e.history.map_values(
            |c: CommitmentState| commitment_of_row(commitment_row_of(c)),
        ),
    }
}

/// A table survives being stored and loaded again after a restart: every row
/// comes back from the store as it went in, every row is accepted, and the table
/// that results is the one that was stored, with the same balances, sequence
/// numbers, open or closed states and histories.
pub proof fn lemma_store_and_reload(s: Seq<LedgerEntry>)
    requires
        ledger_wf(s),
        forall|i: int| 0 <= i < s.len() ==> entry_fits(#[trigger] s[i]),
    ensures
        load_all(
            Seq::<LedgerEntry>::empty(),
            s.map_values(|e: LedgerEntry| stored_and_loaded(e)),
        ) == (s, Ok::<(), LedgerError>(())),
{
    let back = s.map_values(|e: LedgerEntry| stored_and_loaded(e));
    assert forall|i: int| 0 <= i < s.len() implies back[i] == s[i] by {
        let e = s[i];
        assert(entry_fits(e));
        lemma_channel_round_trip(e.channel);
        let history = stored_and_loaded(e).history;
        assert forall|k: int| 0 <= k < e.history.len() implies history[k] == e.history[k] by {
            assert(commitment_fits(e.history[k]));
            lemma_commitment_round_trip(e.history[k]);
        }
        assert(history =~= e.history);
    }
    assert(back =~= s);
    lemma_reload_reproduces(s);
}

} // verus!
