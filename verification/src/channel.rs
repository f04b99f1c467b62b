//! Channels, the records a channel leaves behind, and the rules by which a
//! channel's balances and sequence number move.

use crate::error::{ErrorKind, LedgerError};
use crate::text::{decimal_string, decimal_text};
use vstd::prelude::*;
use vstd::string::*;

verus! {

/// A point in time: whole seconds since the Unix epoch and the nanoseconds past them.
#[derive(Clone, Copy, Debug, PartialEq, Eq, Structural)]
pub struct Timestamp {
    pub secs: i64,
    pub nanos: u32,
}

/// Which way a payment went, seen from this node.
#[derive(Clone, Copy, Debug, PartialEq, Eq, Structural)]
pub enum PaymentDirection {
    Outgoing,
    Incoming,
}

/// A channel as the contracts see it.
pub ghost struct ChannelState {
    pub id: Seq<char>,
    pub peer_node_id: Seq<char>,
    pub funding_txid: Seq<char>,
    pub capacity: nat,
    pub my_balance: nat,
    pub peer_balance: nat,
    pub sequence_number: nat,
    pub is_open: bool,
    pub created_at: Timestamp,
    pub multisig_address: Seq<char>,
}

/// A commitment snapshot as the contracts see it.
pub ghost struct CommitmentState {
    pub id: Seq<char>,
    pub channel_id: Seq<char>,
    pub sequence: nat,
    pub my_balance: nat,
    pub peer_balance: nat,
    pub raw_tx: Seq<char>,
    pub signature: Seq<char>,
    pub created_at: Timestamp,
}

/// A payment record as the contracts see it.
pub ghost struct PaymentState {
    pub id: Seq<char>,
    pub channel_id: Seq<char>,
    pub amount: nat,
    pub direction: PaymentDirection,
    pub sequence: nat,
    pub timestamp: Timestamp,
    pub is_offline: bool,
}

/// The largest sequence number a channel can carry.
pub open spec fn max_sequence() -> nat {
    u64::MAX as nat
}

impl ChannelState {
    /// The two balances make up the capacity.
    pub open spec fn balanced(self) -> bool {
        self.my_balance + self.peer_balance == self.capacity
    }

    /// Why a payment of `amount` to the peer is refused, if it is.
    pub open spec fn pay_refusal(self, amount: nat) -> Option<LedgerError> {
        if !self.is_open {
            Some(LedgerError::ChannelClosed)
        } else if amount > self.my_balance {
            Some(LedgerError::InsufficientBalance)
        } else if self.sequence_number >= max_sequence() {
            Some(LedgerError::SequenceConflict)
        } else {
            None
        }
    }

    /// The channel after a payment of `amount` to the peer.
    pub open spec fn after_pay(self, amount: nat) -> ChannelState {
        ChannelState {
            my_balance: (self.my_balance - amount) as nat,
            peer_balance: self.peer_balance + amount,
            sequence_number: self.sequence_number + 1,
            ..self
        }
    }

    /// Why a payment of `amount` from the peer, announced under `sequence`, is
    /// refused, if it is.
    pub open spec fn receive_refusal(self, amount: nat, sequence: nat) -> Option<LedgerError> {
        if !self.is_open {
            Some(LedgerError::ChannelClosed)
        } else if sequence != self.sequence_number + 1 {
            Some(LedgerError::SequenceConflict)
        } else if amount > self.peer_balance {
            Some(LedgerError::InsufficientBalance)
        } else {
            None
        }
    }

    /// The channel after a payment of `amount` from the peer under `sequence`.
    pub open spec fn after_receive(self, amount: nat, sequence: nat) -> ChannelState {
        ChannelState {
            my_balance: self.my_balance + amount,
            peer_balance: (self.peer_balance - amount) as nat,
            sequence_number: sequence,
            ..self
        }
    }

    /// The channel after it was closed.
    pub open spec fn after_close(self) -> ChannelState {
        ChannelState { is_open: false, ..self }
    }
}

/// One thing that can be asked of a channel.
pub ghost enum ChannelOp {
    /// Pay `amount` to the peer.
    Pay { amount: nat },
    /// Apply a payment of `amount` that the peer made under `sequence`.
    Receive { amount: nat, sequence: nat },
    /// Close the channel.
    Close,
}

impl ChannelState {
    /// Why the operation is refused, if it is. Closing is never refused.
    pub open spec fn refusal(self, op: ChannelOp) -> Option<LedgerError> {
        match op {
            ChannelOp::Pay { amount } => self.pay_refusal(amount),
            ChannelOp::Receive { amount, sequence } => self.receive_refusal(amount, sequence),
            ChannelOp::Close => None,
        }
    }

    /// The channel after the operation was asked of it: changed as the operation
    /// says where it is accepted, unchanged where it is refused.
    pub open spec fn apply(self, op: ChannelOp) -> ChannelState {
        if self.refusal(op) is Some {
            self
        } else {
            match op {
                ChannelOp::Pay { amount } => self.after_pay(amount),
                ChannelOp::Receive { amount, sequence } => self.after_receive(amount, sequence),
                ChannelOp::Close => self.after_close(),
            }
        }
    }

    /// The channel after the operations were asked of it one after the other.
    pub open spec fn run(self, ops: Seq<ChannelOp>) -> ChannelState
        decreases ops.len(),
    {
        if ops.len() == 0 {
            self
        } else {
            self.run(ops.drop_last()).apply(ops.last())
        }
    }

    /// How many of the operations, asked one after the other, were accepted
    /// transfers.
    pub open spec fn transfers(self, ops: Seq<ChannelOp>) -> nat
        decreases ops.len(),
    {
        if ops.len() == 0 {
            0
        } else {
            let before = self.run(ops.drop_last());
            let counted = self.transfers(ops.drop_last());
            if ops.last() != ChannelOp::Close && before.refusal(ops.last()) is None {
                counted + 1
            } else {
                counted
            }
        }
    }
}

/// Funds are conserved by every single operation: a channel whose balances make
/// up its capacity keeps that capacity and balances that make it up, whether
/// the operation is accepted or refused.
pub proof fn lemma_apply_conserves(channel: ChannelState, op: ChannelOp)
    requires
        channel.balanced(),
    ensures
        channel.apply(op).balanced(),
        channel.apply(op).capacity == channel.capacity,
{
}

/// Funds are conserved over every sequence of operations: after each of them the
/// two balances make up the capacity the channel was opened with.
pub proof fn lemma_run_conserves(channel: ChannelState, ops: Seq<ChannelOp>)
    requires
        channel.balanced(),
    ensures
        channel.run(ops).balanced(),
        channel.run(ops).capacity == channel.capacity,
    decreases ops.len(),
{
    if ops.len() > 0 {
        lemma_run_conserves(channel, ops.drop_last());
        lemma_apply_conserves(channel.run(ops.drop_last()), ops.last());
    }
}

/// An accepted payment or receipt raises the sequence number by exactly one; a
/// refused operation and a close leave it as it is.
pub proof fn lemma_apply_advances_sequence(channel: ChannelState, op: ChannelOp)
    ensures
        op != ChannelOp::Close && channel.refusal(op) is None ==> channel.apply(op).sequence_number
            == channel.sequence_number + 1,
        op == ChannelOp::Close || channel.refusal(op) is Some ==> channel.apply(op).sequence_number
            == channel.sequence_number,
{
}

/// Over every sequence of operations the sequence number grows by exactly the
/// number of accepted transfers, so it never falls and never skips.
pub proof fn lemma_run_counts_sequence(channel: ChannelState, ops: Seq<ChannelOp>)
    ensures
        channel.run(ops).sequence_number == channel.sequence_number + channel.transfers(ops),
    decreases ops.len(),
{
    if ops.len() > 0 {
        lemma_run_counts_sequence(channel, ops.drop_last());
        lemma_apply_advances_sequence(channel.run(ops.drop_last()), ops.last());
    }
}

/// On an open channel a receipt under any sequence number but the next one is
/// refused as a sequence conflict and changes nothing.
pub proof fn lemma_receive_out_of_order(channel: ChannelState, amount: nat, sequence: nat)
    requires
        channel.is_open,
        sequence != channel.sequence_number + 1,
    ensures
        channel.receive_refusal(amount, sequence) == Some(LedgerError::SequenceConflict),
        channel.apply(ChannelOp::Receive { amount, sequence }) == channel,
{
}

/// On an open channel a payment of more than this node holds is refused for
/// insufficient funds and changes nothing.
pub proof fn lemma_pay_beyond_balance(channel: ChannelState, amount: nat)
    requires
        channel.is_open,
        amount > channel.my_balance,
    ensures
        channel.pay_refusal(amount) == Some(LedgerError::InsufficientBalance),
        channel.pay_refusal(amount).unwrap().spec_kind() == ErrorKind::InsufficientFunds,
        channel.apply(ChannelOp::Pay { amount }) == channel,
{
}

/// A closed channel refuses every payment and every receipt as an operation on a
/// closed channel.
pub proof fn lemma_closed_refuses(channel: ChannelState, op: ChannelOp)
    requires
        !channel.is_open,
        op != ChannelOp::Close,
    ensures
        channel.refusal(op) == Some(LedgerError::ChannelClosed),
        channel.refusal(op).unwrap().spec_kind() == ErrorKind::InvalidState,
        channel.apply(op) == channel,
{
}

/// Closing is final: whatever is asked of a channel after it was closed, it
/// stays closed with the balances and the sequence number it was closed with.
pub proof fn lemma_closed_forever(channel: ChannelState, ops: Seq<ChannelOp>)
    ensures
        channel.after_close().run(ops) == channel.after_close(),
    decreases ops.len(),
{
    if ops.len() > 0 {
        lemma_closed_forever(channel, ops.drop_last());
        if ops.last() != ChannelOp::Close {
            lemma_closed_refuses(channel.after_close(), ops.last());
        }
    }
}

/// A payment channel between this node and one peer.
#[derive(Debug)]
pub struct PaymentChannel {
    pub id: String,
    pub peer_node_id: String,
    pub funding_txid: String,
    pub capacity: u64,
    pub my_balance: u64,
    pub peer_balance: u64,
    pub sequence_number: u64,
    pub is_open: bool,
    pub created_at: Timestamp,
    pub multisig_address: String,
}

impl View for PaymentChannel {
    type V = ChannelState;

    open spec fn view(&self) -> ChannelState {
        ChannelState {
            id: self.id@,
            peer_node_id: self.peer_node_id@,
            funding_txid: self.funding_txid@,
            capacity: self.capacity as nat,
            my_balance: self.my_balance as nat,
            peer_balance: self.peer_balance as nat,
            sequence_number: self.sequence_number as nat,
            is_open: self.is_open,
            created_at: self.created_at,
            multisig_address: self.multisig_address@,
        }
    }
}

impl Clone for PaymentChannel {
    fn clone(&self) -> (copy: Self)
        ensures
            copy == *self,
    {
        PaymentChannel {
            id: self.id.clone(),
            peer_node_id: self.peer_node_id.clone(),
            funding_txid: self.funding_txid.clone(),
            capacity: self.capacity,
            my_balance: self.my_balance,
            peer_balance: self.peer_balance,
            sequence_number: self.sequence_number,
            is_open: self.is_open,
            created_at: self.created_at,
            multisig_address: self.multisig_address.clone(),
        }
    }
}

/// A signed record of a channel's balances at one sequence number.
#[derive(Debug)]
pub struct CommitmentTransaction {
    pub id: String,
    pub channel_id: String,
    pub sequence: u64,
    pub my_balance: u64,
    pub peer_balance: u64,
    pub raw_tx: String,
    pub signature: String,
    pub created_at: Timestamp,
}

impl View for CommitmentTransaction {
    type V = CommitmentState;

    open spec fn view(&self) -> CommitmentState {
        CommitmentState {
            id: self.id@,
            channel_id: self.channel_id@,
            sequence: self.sequence as nat,
            my_balance: self.my_balance as nat,
            peer_balance: self.peer_balance as nat,
            raw_tx: self.raw_tx@,
            signature: self.signature@,
            created_at: self.created_at,
        }
    }
}

impl Clone for CommitmentTransaction {
    fn clone(&self) -> (copy: Self)
        ensures
            copy == *self,
    {
        CommitmentTransaction {
            id: self.id.clone(),
            channel_id: self.channel_id.clone(),
            sequence: self.sequence,
            my_balance: self.my_balance,
            peer_balance: self.peer_balance,
            raw_tx: self.raw_tx.clone(),
            signature: self.signature.clone(),
            created_at: self.created_at,
        }
    }
}

/// One transfer of value over a channel.
#[derive(Debug)]
pub struct PaymentRecord {
    pub id: String,
    pub channel_id: String,
    pub amount: u64,
    pub direction: PaymentDirection,
    pub sequence: u64,
    pub timestamp: Timestamp,
    pub is_offline: bool,
}

impl View for PaymentRecord {
    type V = PaymentState;

    open spec fn view(&self) -> PaymentState {
        PaymentState {
            id: self.id@,
            channel_id: self.channel_id@,
            amount: self.amount as nat,
            direction: self.direction,
            sequence: self.sequence as nat,
            timestamp: self.timestamp,
            is_offline: self.is_offline,
        }
    }
}

impl Clone for PaymentRecord {
    fn clone(&self) -> (copy: Self)
        ensures
            copy == *self,
    {
        PaymentRecord {
            id: self.id.clone(),
            channel_id: self.channel_id.clone(),
            amount: self.amount,
            direction: self.direction,
            sequence: self.sequence,
            timestamp: self.timestamp,
            is_offline: self.is_offline,
        }
    }
}

impl PaymentDirection {
    /// The word under which the direction is stored and sent.
    pub open spec fn spec_label(self) -> Seq<char> {
        match self {
            PaymentDirection::Outgoing => "outgoing"@,
            PaymentDirection::Incoming => "incoming"@,
        }
    }

    /// The word under which the direction is stored and sent.
    pub fn label(self) -> (word: String)
        ensures
            word@ == self.spec_label(),
    {
        match self {
            PaymentDirection::Outgoing => String::from_str("outgoing"),
            PaymentDirection::Incoming => String::from_str("incoming"),
        }
    }
}

/// The canonical encoding of a channel's balances at one sequence number: the
/// funding reference, this node's balance, the peer's balance and the sequence
/// number, in that order, in a fixed frame.
pub open spec fn commitment_encoding(
    funding_txid: Seq<char>,
    my_balance: nat,
    peer_balance: nat,
    sequence: nat,
) -> Seq<char> {
    "{\"version\":2,\"inputs\":[{\"txid\":\""@ + funding_txid
        + "\",\"vout\":0}],\"outputs\":[{\"amount\":"@ + decimal_text(my_balance)
        + ",\"address\":\"my_address\"},{\"amount\":"@ + decimal_text(peer_balance)
        + ",\"address\":\"peer_address\"}],\"sequence\":"@ + decimal_text(sequence) + "}"@
}

/// Writes the canonical encoding of the channel's present balances.
pub fn encode_commitment(channel: &PaymentChannel) -> (raw_tx: String)
    ensures
        raw_tx@ == commitment_encoding(
            channel@.funding_txid,
            channel@.my_balance,
            channel@.peer_balance,
            channel@.sequence_number,
        ),
{
    let mut raw_tx = String::from_str("{\"version\":2,\"inputs\":[{\"txid\":\"");
    raw_tx.append(channel.funding_txid.as_str());
    raw_tx.append("\",\"vout\":0}],\"outputs\":[{\"amount\":");
    raw_tx.append(decimal_string(channel.my_balance).as_str());
    raw_tx.append(",\"address\":\"my_address\"},{\"amount\":");
    raw_tx.append(decimal_string(channel.peer_balance).as_str());
    raw_tx.append(",\"address\":\"peer_address\"}],\"sequence\":");
    raw_tx.append(decimal_string(channel.sequence_number).as_str());
    raw_tx.append("}");
    raw_tx
}

} // verus!
