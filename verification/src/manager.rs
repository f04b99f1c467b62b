//! The authoritative table of channels, and the operations that open, pay over,
//! receive over and close a channel.

use crate::channel::{
    encode_commitment, CommitmentState, CommitmentTransaction, PaymentChannel, PaymentDirection,
    PaymentRecord, Timestamp,
};
use crate::crypto::KeyManager;
use crate::error::LedgerError;
use crate::hexadecimal::{decode_hex, encode_hex};
use crate::ledger::{
    channel_view, close_outcome, commitment_of, funding_prefix, history_wf, is_row,
    joint_address_of, ledger_wf, lemma_close_keeps_rules, lemma_load_keeps_rules,
    lemma_open_keeps_rules, lemma_pay_keeps_rules, lemma_position_unique,
    lemma_receive_keeps_rules, load_outcome, message_outcome, open_outcome,
    optional_record_view, overlay_prefix, pay_outcome, placeholder_prefix, position,
    receive_outcome, record_view, remote_payment_outcome, remote_signature_accepted, snapshots,
    LedgerEntry,
};
use crate::p2p::P2PMessage;
use crate::text::{remove_char, starts_with, take_leading};
use vstd::prelude::*;
use vstd::string::*;

verus! {

/// `uuid::Uuid::new_v4` written as text: a random identifier. Nothing is known of
/// the text.
#[verifier::external_body]
fn fresh_uuid() -> (id: String) {
    uuid::Uuid::new_v4().to_string()
}

/// `chrono::Utc::now`: the present time as seconds since the Unix epoch and the
/// nanoseconds past them. Nothing is known of the time.
#[verifier::external_body]
fn current_time() -> (now: Timestamp) {
    let now = chrono::Utc::now();
    Timestamp { secs: now.timestamp(), nanos: now.timestamp_subsec_nanos() }
}

struct Entry {
    channel: PaymentChannel,
    commitments: Vec<CommitmentTransaction>,
}

impl View for Entry {
    type V = LedgerEntry;

    closed spec fn view(&self) -> LedgerEntry {
        LedgerEntry {
            channel: self.channel@,
            history: snapshots(self.commitments@),
        }
    }
}

impl Clone for Entry {
    fn clone(&self) -> (copy: Self)
        ensures
            copy@ == self@,
    {
        let mut commitments: Vec<CommitmentTransaction> = Vec::new();
        let mut k: usize = 0;
        while k < self.commitments.len()
            invariant
                k <= self.commitments.len(),
                snapshots(commitments@) == snapshots(self.commitments@).take(k as int),
            decreases self.commitments.len() - k,
        {
            let ghost done = snapshots(commitments@);
            commitments.push(self.commitments[k].clone());
            proof {
                assert(snapshots(commitments@) =~= done.push(self.commitments@[k as int]@));
                assert(snapshots(self.commitments@).take(k + 1) =~= done.push(
                    self.commitments@[k as int]@,
                ));
            }
            k += 1;
        }
        assert(snapshots(self.commitments@).take(self.commitments.len() as int) =~= snapshots(
            self.commitments@,
        ));
        Entry { channel: self.channel.clone(), commitments }
    }
}

/// Rows seen as the contracts see them.
spec fn rows(entries: Seq<Entry>) -> Seq<LedgerEntry> {
    entries.map_values(|e: Entry| e@)
}

/// The authoritative in-memory table of channels. Whatever is done to it, it
/// keeps the rules of the table.
pub struct ChannelManager {
    key_manager: KeyManager,
    entries: Vec<Entry>,
}

impl View for ChannelManager {
    type V = Seq<LedgerEntry>;

    closed spec fn view(&self) -> Seq<LedgerEntry> {
        rows(self.entries@)
    }
}

impl Clone for ChannelManager {
    /// A copy of the whole table, to go back to where an update cannot be made
    /// durable.
    fn clone(&self) -> (copy: Self)
        ensures
            copy@ == self@,
            copy.keys() == self.keys(),
    {
        proof {
            use_type_invariant(self);
        }
        let mut entries: Vec<Entry> = Vec::new();
        let mut i: usize = 0;
        while i < self.entries.len()
            invariant
                i <= self.entries.len(),
                entries@.len() == i,
                forall|j: int| 0 <= j < i ==> (#[trigger] entries@[j])@ == self.entries@[j]@,
            decreases self.entries.len() - i,
        {
            entries.push(self.entries[i].clone());
            i += 1;
        }
        assert(rows(entries@) =~= self@);
        ChannelManager { key_manager: self.key_manager.clone(), entries }
    }
}

impl ChannelManager {
    /// The table keeps its rules.
    #[verifier::type_invariant]
    pub open spec fn wf(&self) -> bool {
        ledger_wf(self@)
    }

    /// The identity under which this table signs.
    pub closed spec fn keys(&self) -> KeyManager {
        self.key_manager
    }

    /// A table without channels.
    pub fn new(key_manager: KeyManager) -> (manager: ChannelManager)
        ensures
            manager.wf(),
            manager@ == Seq::<LedgerEntry>::empty(),
            manager.keys() == key_manager,
    {
        let entries: Vec<Entry> = Vec::new();
        assert(rows(entries@) =~= Seq::<LedgerEntry>::empty());
        ChannelManager { key_manager, entries }
    }

    /// The identity under which this table signs.
    pub fn key_manager(&self) -> (keys: &KeyManager)
        ensures
            *keys == self.keys(),
    {
        &self.key_manager
    }

    /// Takes the rows out of the table, to change them and put them back. The
    /// table is empty meanwhile.
    fn take_entries(&mut self) -> (entries: Vec<Entry>)
        ensures
            entries == old(self).entries,
            final(self).entries@.len() == 0,
            final(self).key_manager == old(self).key_manager,
    {
        let mut entries: Vec<Entry> = Vec::new();
        assert(rows(entries@) =~= Seq::<LedgerEntry>::empty());
        std::mem::swap(&mut self.entries, &mut entries);
        entries
    }

    /// Finds the row of a channel.
    fn find(&self, channel_id: &str) -> (r: Option<usize>)
        ensures
            match r {
                Some(i) => position(self@, channel_id@) == Some(i as int) && i < self.entries.len(),
                None => position(self@, channel_id@) is None,
            },
    {
        proof {
            use_type_invariant(&*self);
        }
        let wanted = String::from_str(channel_id);
        let mut i: usize = 0;
        while i < self.entries.len()
            invariant
                self.wf(),
                wanted@ == channel_id@,
                i <= self.entries.len(),
                forall|j: int| 0 <= j < i ==> !is_row(self@, channel_id@, j),
            decreases self.entries.len() - i,
        {
            if self.entries[i].channel.id == wanted {
                proof {
                    assert(self@[i as int] == self.entries[i as int]@);
                    lemma_position_unique(self@, channel_id@, i as int);
                }
                return Some(i);
            }
            proof {
                assert(self@[i as int] == self.entries[i as int]@);
            }
            i += 1;
        }
        None
    }

    /// Takes the signed snapshot of a channel's present balances.
    fn create_commitment_transaction(
        &self,
        channel: &PaymentChannel,
        id: String,
        now: Timestamp,
    ) -> (r: Result<CommitmentTransaction, LedgerError>)
        ensures
            r matches Ok(commitment) && commitment@ == commitment_of(
                channel@,
                self.keys().secret(),
                id@,
                now,
            ),
    {
        let raw_tx = encode_commitment(channel);
        let signature = match self.key_manager.sign_message(raw_tx.as_str().as_bytes()) {
            Ok(signature) => encode_hex(signature.as_slice()),
            Err(e) => {
                return Err(e);
            },
        };
        Ok(
            CommitmentTransaction {
                id,
                channel_id: channel.id.clone(),
                sequence: channel.sequence_number,
                my_balance: channel.my_balance,
                peer_balance: channel.peer_balance,
                raw_tx,
                signature,
                created_at: now,
            },
        )
    }

    /// Pays `amount` to the peer over the channel `channel_id`. The identifiers of
    /// the snapshot and of the record, and the time, are the caller's.
    pub fn send_payment_with(
        &mut self,
        channel_id: &str,
        amount: u64,
        commitment_id: String,
        payment_id: String,
        now: Timestamp,
    ) -> (r: Result<PaymentRecord, LedgerError>)
        ensures
            final(self).wf(),
            final(self).keys() == old(self).keys(),
            (final(self)@, record_view(r)) == pay_outcome(
                old(self)@,
                old(self).keys().secret(),
                channel_id@,
                amount as nat,
                commitment_id@,
                payment_id@,
                now,
            ),
    {
        proof {
            use_type_invariant(&*self);
        }
        let i = match self.find(channel_id) {
            Some(i) => i,
            None => {
                return Err(LedgerError::ChannelNotFound);
            },
        };
        proof {
            assert(self@[i as int] == self.entries[i as int]@);
        }
        if !self.entries[i].channel.is_open {
            return Err(LedgerError::ChannelClosed);
        }
        if self.entries[i].channel.my_balance < amount {
            return Err(LedgerError::InsufficientBalance);
        }
        if self.entries[i].channel.sequence_number == u64::MAX {
            return Err(LedgerError::SequenceConflict);
        }
        let mut channel = self.entries[i].channel.clone();
        channel.my_balance = channel.my_balance - amount;
        channel.peer_balance = channel.peer_balance + amount;
        channel.sequence_number = channel.sequence_number + 1;
        let commitment = match self.create_commitment_transaction(&channel, commitment_id, now) {
            Ok(commitment) => commitment,
            Err(e) => {
                return Err(e);
            },
        };
        let payment = PaymentRecord {
            id: payment_id,
            channel_id: channel.id.clone(),
            amount,
            direction: PaymentDirection::Outgoing,
            sequence: channel.sequence_number,
            timestamp: now,
            is_offline: true,
        };
        let ghost before = self@;
        let ghost after = channel@;
        let ghost snapshot = commitment@;
        let mut entries = self.take_entries();
        entries[i].channel = channel;
        entries[i].commitments.push(commitment);
        proof {
            let entry = LedgerEntry {
                channel: after,
                history: before[i as int].history.push(snapshot),
            };
            assert(entries@[i as int]@.history =~= entry.history);
            assert(rows(entries@) =~= before.update(i as int, entry));
            lemma_pay_keeps_rules(
                before,
                self.keys().secret(),
                channel_id@,
                amount as nat,
                snapshot.id,
                payment.id@,
                now,
            );
        }
        self.entries = entries;
        Ok(payment)
    }

    /// Applies a payment of `amount` that the peer made under `sequence` to the
    /// channel `channel_id`. The identifier of the record and the time are the
    /// caller's.
    pub fn receive_payment_with(
        &mut self,
        channel_id: &str,
        amount: u64,
        sequence: u64,
        payment_id: String,
        now: Timestamp,
    ) -> (r: Result<PaymentRecord, LedgerError>)
        ensures
            final(self).wf(),
            final(self).keys() == old(self).keys(),
            (final(self)@, record_view(r)) == receive_outcome(
                old(self)@,
                channel_id@,
                amount as nat,
                sequence as nat,
                payment_id@,
                now,
            ),
    {
        proof {
            use_type_invariant(&*self);
        }
        let i = match self.find(channel_id) {
            Some(i) => i,
            None => {
                return Err(LedgerError::ChannelNotFound);
            },
        };
        proof {
            assert(self@[i as int] == self.entries[i as int]@);
        }
        if !self.entries[i].channel.is_open {
            return Err(LedgerError::ChannelClosed);
        }
        if self.entries[i].channel.sequence_number == u64::MAX || sequence
            != self.entries[i].channel.sequence_number + 1 {
            return Err(LedgerError::SequenceConflict);
        }
        if self.entries[i].channel.peer_balance < amount {
            return Err(LedgerError::InsufficientBalance);
        }
        let ghost before = self@;
        let payment = PaymentRecord {
            id: payment_id,
            channel_id: self.entries[i].channel.id.clone(),
            amount,
            direction: PaymentDirection::Incoming,
            sequence,
            timestamp: now,
            is_offline: true,
        };
        let mut entries = self.take_entries();
        entries[i].channel.peer_balance = entries[i].channel.peer_balance - amount;
        entries[i].channel.my_balance = entries[i].channel.my_balance + amount;
        entries[i].channel.sequence_number = sequence;
        proof {
            let entry = LedgerEntry {
                channel: before[i as int].channel.after_receive(amount as nat, sequence as nat),
                history: before[i as int].history,
            };
            assert(entries@[i as int]@.history =~= entry.history);
            assert(rows(entries@) =~= before.update(i as int, entry));
            lemma_receive_keeps_rules(
                before,
                channel_id@,
                amount as nat,
                sequence as nat,
                payment.id@,
                now,
            );
        }
        self.entries = entries;
        Ok(payment)
    }

    /// Closes the channel `channel_id`. Its balances stay as they are: they are
    /// what each side is owed at settlement.
    pub fn close_channel(&mut self, channel_id: &str) -> (r: Result<(), LedgerError>)
        ensures
            final(self).wf(),
            final(self).keys() == old(self).keys(),
            (final(self)@, r) == close_outcome(old(self)@, channel_id@),
    {
        proof {
            use_type_invariant(&*self);
        }
        let i = match self.find(channel_id) {
            Some(i) => i,
            None => {
                return Err(LedgerError::ChannelNotFound);
            },
        };
        let ghost before = self@;
        proof {
            assert(self@[i as int] == self.entries[i as int]@);
        }
        let mut entries = self.take_entries();
        entries[i].channel.is_open = false;
        proof {
            let entry = LedgerEntry {
                channel: before[i as int].channel.after_close(),
                history: before[i as int].history,
            };
            assert(entries@[i as int]@.history =~= entry.history);
            assert(rows(entries@) =~= before.update(i as int, entry));
            lemma_close_keeps_rules(before, channel_id@);
        }
        self.entries = entries;
        Ok(())
    }

    /// Derives the joint address of a channel with `peer_node_id`.
    fn joint_address(&self, peer_node_id: &str, address_seed: &str) -> (r: Result<
        String,
        LedgerError,
    >)
        ensures
            match joint_address_of(self.keys().public(), peer_node_id@, address_seed@) {
                Ok(address) => r matches Ok(text) && text@ == address,
                Err(e) => r matches Err(f) && f == e,
            },
    {
        proof {
            reveal_strlit("12D3");
            reveal_strlit("bcrt1q");
            assert("12D3"@ =~= overlay_prefix());
            assert("bcrt1q"@ =~= placeholder_prefix());
        }
        if starts_with(peer_node_id, "12D3") {
            let stripped = remove_char(address_seed, '-');
            let mut address = String::from_str("bcrt1q");
            address.append(take_leading(stripped.as_str(), 20).as_str());
            Ok(address)
        } else {
            match decode_hex(peer_node_id) {
                Some(decoded) => self.key_manager.create_multisig_address(decoded.as_slice()),
                None => Err(LedgerError::InvalidPeerIdentifier),
            }
        }
    }

    /// Opens a channel of the given capacity with `peer_node_id`. The identifiers
    /// of the channel and of its funding, the seed of a placeholder address, and
    /// the time are the caller's.
    pub fn open_channel_with(
        &mut self,
        peer_node_id: String,
        capacity: u64,
        channel_id: String,
        funding_id: String,
        address_seed: String,
        now: Timestamp,
    ) -> (r: Result<PaymentChannel, LedgerError>)
        ensures
            final(self).wf(),
            final(self).keys() == old(self).keys(),
            (final(self)@, channel_view(r)) == open_outcome(
                old(self)@,
                old(self).keys().public(),
                peer_node_id@,
                capacity as nat,
                channel_id@,
                funding_id@,
                address_seed@,
                now,
            ),
    {
        proof {
            use_type_invariant(&*self);
        }
        let multisig_address = match self.joint_address(
            peer_node_id.as_str(),
            address_seed.as_str(),
        ) {
            Ok(address) => address,
            Err(e) => {
                return Err(e);
            },
        };
        if self.find(channel_id.as_str()).is_some() {
            return Err(LedgerError::DuplicateChannel);
        }
        proof {
            reveal_strlit("funding_");
            assert("funding_"@ =~= funding_prefix());
        }
        let mut funding_txid = String::from_str("funding_");
        funding_txid.append(funding_id.as_str());
        let channel = PaymentChannel {
            id: channel_id,
            peer_node_id,
            funding_txid,
            capacity,
            my_balance: capacity / 2,
            peer_balance: capacity - capacity / 2,
            sequence_number: 0,
            is_open: true,
            created_at: now,
            multisig_address,
        };
        let ghost before = self@;
        let opened = channel.clone();
        let mut entries = self.take_entries();
        entries.push(Entry { channel, commitments: Vec::new() });
        proof {
            let entry = LedgerEntry { channel: opened@, history: Seq::<CommitmentState>::empty() };
            assert(entries@[before.len() as int]@.history =~= entry.history);
            assert(rows(entries@) =~= before.push(entry));
            lemma_open_keeps_rules(
                before,
                self.keys().public(),
                opened@.peer_node_id,
                capacity as nat,
                opened@.id,
                funding_id@,
                address_seed@,
                now,
            );
        }
        self.entries = entries;
        Ok(opened)
    }

    /// Checks a stored history against the rules of a row.
    fn history_fits(channel: &PaymentChannel, commitments: &Vec<CommitmentTransaction>) -> (ok:
        bool)
        ensures
            ok == history_wf(channel@, snapshots(commitments@)),
    {
        let ghost history = snapshots(commitments@);
        let mut k: usize = 0;
        while k < commitments.len()
            invariant
                k <= commitments.len(),
                history == snapshots(commitments@),
                forall|a: int|
                    0 <= a < k ==> (#[trigger] history[a]).channel_id == channel@.id
                        && history[a].sequence <= channel@.sequence_number,
                forall|a: int, b: int|
                    0 <= a < b < k ==> (#[trigger] history[a]).sequence < (
                    #[trigger] history[b]).sequence,
            decreases commitments.len() - k,
        {
            proof {
                assert(history[k as int] == commitments@[k as int]@);
            }
            if !(commitments[k].channel_id == channel.id) {
                return false;
            }
            if commitments[k].sequence > channel.sequence_number {
                return false;
            }
            if k > 0 {
                proof {
                    assert(history[k - 1] == commitments@[k - 1]@);
                }
                if commitments[k - 1].sequence >= commitments[k].sequence {
                    return false;
                }
                assert forall|a: int| 0 <= a < k implies (#[trigger] history[a]).sequence
                    < history[k as int].sequence by {
                    if a < k - 1 {
                        assert(history[a].sequence < history[k - 1].sequence);
                    }
                }
            }
            k += 1;
        }
        true
    }

    /// Takes a stored channel with its stored history, oldest snapshot first, into
    /// the table.
    pub fn load_channel(
        &mut self,
        channel: PaymentChannel,
        commitments: Vec<CommitmentTransaction>,
    ) -> (r: Result<(), LedgerError>)
        ensures
            final(self).wf(),
            final(self).keys() == old(self).keys(),
            (final(self)@, r) == load_outcome(
                old(self)@,
                LedgerEntry {
                    channel: channel@,
                    history: snapshots(commitments@),
                },
            ),
    {
        proof {
            use_type_invariant(&*self);
        }
        let ghost before = self@;
        let ghost record = LedgerEntry {
            channel: channel@,
            history: snapshots(commitments@),
        };
        if channel.my_balance > channel.capacity || channel.capacity - channel.my_balance
            != channel.peer_balance {
            return Err(LedgerError::CorruptRecord);
        }
        if !Self::history_fits(&channel, &commitments) {
            return Err(LedgerError::CorruptRecord);
        }
        if self.find(channel.id.as_str()).is_some() {
            return Err(LedgerError::CorruptRecord);
        }
        let mut entries = self.take_entries();
        entries.push(Entry { channel, commitments });
        proof {
            assert(entries@[before.len() as int]@.history =~= record.history);
            assert(rows(entries@) =~= before.push(record));
            lemma_load_keeps_rules(before, record);
        }
        self.entries = entries;
        Ok(())
    }

    /// Opens a channel of the given capacity with `peer_node_id`, under fresh
    /// random identifiers and at the present time. Whatever those are, the table
    /// and the answer are the ones that `open_channel_with` gives for them.
    pub fn open_channel(&mut self, peer_node_id: String, capacity: u64) -> (r: Result<
        PaymentChannel,
        LedgerError,
    >)
        ensures
            final(self).wf(),
            final(self).keys() == old(self).keys(),
            exists|channel_id: Seq<char>, funding_id: Seq<char>, seed: Seq<char>, now: Timestamp|
                (final(self)@, channel_view(r)) == #[trigger] open_outcome(
                    old(self)@,
                    old(self).keys().public(),
                    peer_node_id@,
                    capacity as nat,
                    channel_id,
                    funding_id,
                    seed,
                    now,
                ),
    {
        proof {
            use_type_invariant(&*self);
        }
        let channel_id = fresh_uuid();
        let funding_id = fresh_uuid();
        let address_seed = fresh_uuid();
        let now = current_time();
        self.open_channel_with(peer_node_id, capacity, channel_id, funding_id, address_seed, now)
    }

    /// Pays `amount` to the peer over the channel `channel_id`, under fresh random
    /// identifiers and at the present time. Whatever those are, the table and the
    /// answer are the ones that `send_payment_with` gives for them.
    pub fn send_payment(&mut self, channel_id: &str, amount: u64) -> (r: Result<
        PaymentRecord,
        LedgerError,
    >)
        ensures
            final(self).wf(),
            final(self).keys() == old(self).keys(),
            exists|commitment_id: Seq<char>, payment_id: Seq<char>, now: Timestamp|
                (final(self)@, record_view(r)) == #[trigger] pay_outcome(
                    old(self)@,
                    old(self).keys().secret(),
                    channel_id@,
                    amount as nat,
                    commitment_id,
                    payment_id,
                    now,
                ),
    {
        proof {
            use_type_invariant(&*self);
        }
        let commitment_id = fresh_uuid();
        let payment_id = fresh_uuid();
        let now = current_time();
        self.send_payment_with(channel_id, amount, commitment_id, payment_id, now)
    }

    /// Applies a payment of `amount` that the peer made under `sequence` to the
    /// channel `channel_id`, under a fresh random identifier and at the present
    /// time. Whatever those are, the table and the answer are the ones that
    /// `receive_payment_with` gives for them.
    pub fn receive_payment(&mut self, channel_id: &str, amount: u64, sequence: u64) -> (r: Result<
        PaymentRecord,
        LedgerError,
    >)
        ensures
            final(self).wf(),
            final(self).keys() == old(self).keys(),
            exists|payment_id: Seq<char>, now: Timestamp|
                (final(self)@, record_view(r)) == #[trigger] receive_outcome(
                    old(self)@,
                    channel_id@,
                    amount as nat,
                    sequence as nat,
                    payment_id,
                    now,
                ),
    {
        proof {
            use_type_invariant(&*self);
        }
        let payment_id = fresh_uuid();
        let now = current_time();
        self.receive_payment_with(channel_id, amount, sequence, payment_id, now)
    }

    /// Whether the channel's peer vouches for a payment that came over the
    /// network.
    fn remote_signature_ok(&self, peer_node_id: &str, commitment_tx: &str, signature: &str) -> (ok:
        bool)
        ensures
            ok == remote_signature_accepted(peer_node_id@, commitment_tx@, signature@),
    {
        let key = match decode_hex(peer_node_id) {
            Some(key) => key,
            None => {
                return false;
            },
        };
        let compact = match decode_hex(signature) {
            Some(compact) => compact,
            None => {
                return false;
            },
        };
        self.key_manager.verify_signature(
            commitment_tx.as_bytes(),
            compact.as_slice(),
            key.as_slice(),
        )
    }

    /// Applies a payment that came over the network, after verifying it. The
    /// identifier of the record and the time are the caller's.
    pub fn receive_remote_payment_with(
        &mut self,
        channel_id: &str,
        amount: u64,
        sequence: u64,
        commitment_tx: &str,
        signature: &str,
        payment_id: String,
        now: Timestamp,
    ) -> (r: Result<PaymentRecord, LedgerError>)
        ensures
            final(self).wf(),
            final(self).keys() == old(self).keys(),
            (final(self)@, record_view(r)) == remote_payment_outcome(
                old(self)@,
                channel_id@,
                amount as nat,
                sequence as nat,
                commitment_tx@,
                signature@,
                payment_id@,
                now,
            ),
    {
        proof {
            use_type_invariant(&*self);
        }
        let i = match self.find(channel_id) {
            Some(i) => i,
            None => {
                return Err(LedgerError::ChannelNotFound);
            },
        };
        proof {
            assert(self@[i as int] == self.entries[i as int]@);
        }
        if !self.remote_signature_ok(
            self.entries[i].channel.peer_node_id.as_str(),
            commitment_tx,
            signature,
        ) {
            return Err(LedgerError::InvalidSignature);
        }
        self.receive_payment_with(channel_id, amount, sequence, payment_id, now)
    }

    /// Takes a message that came over the network, under a fresh random
    /// identifier and at the present time. Whatever those are, the table and the
    /// answer are the ones that `apply_message_with` gives for them.
    pub fn apply_message(&mut self, message: &P2PMessage) -> (r: Result<
        Option<PaymentRecord>,
        LedgerError,
    >)
        ensures
            final(self).wf(),
            final(self).keys() == old(self).keys(),
            exists|payment_id: Seq<char>, now: Timestamp|
                (final(self)@, optional_record_view(r)) == #[trigger] message_outcome(
                    old(self)@,
                    message@,
                    payment_id,
                    now,
                ),
    {
        proof {
            use_type_invariant(&*self);
        }
        let payment_id = fresh_uuid();
        let now = current_time();
        self.apply_message_with(message, payment_id, now)
    }

    /// Takes a message that came over the network. The identifier of a record
    /// and the time are the caller's.
    pub fn apply_message_with(
        &mut self,
        message: &P2PMessage,
        payment_id: String,
        now: Timestamp,
    ) -> (r: Result<Option<PaymentRecord>, LedgerError>)
        ensures
            final(self).wf(),
            final(self).keys() == old(self).keys(),
            (final(self)@, optional_record_view(r)) == message_outcome(
                old(self)@,
                message@,
                payment_id@,
                now,
            ),
    {
        proof {
            use_type_invariant(&*self);
        }
        match message {
            P2PMessage::Payment { channel_id, amount, sequence, commitment_tx, signature } => {
                match self.receive_remote_payment_with(
                    channel_id.as_str(),
                    *amount,
                    *sequence,
                    commitment_tx.as_str(),
                    signature.as_str(),
                    payment_id,
                    now,
                ) {
                    Ok(payment) => Ok(Some(payment)),
                    Err(e) => Err(e),
                }
            },
            _ => Ok(None),
        }
    }

    /// The channel `channel_id`, if the table has it.
    pub fn get_channel(&self, channel_id: &str) -> (r: Option<&PaymentChannel>)
        ensures
            match position(self@, channel_id@) {
                Some(i) => r matches Some(channel) && channel@ == self@[i].channel,
                None => r is None,
            },
    {
        proof {
            use_type_invariant(&*self);
        }
        match self.find(channel_id) {
            Some(i) => {
                proof {
                    assert(self@[i as int] == self.entries[i as int]@);
                }
                Some(&self.entries[i].channel)
            },
            None => None,
        }
    }

    /// The commitment snapshots of the channel `channel_id`, oldest first, if the
    /// table has the channel.
    pub fn get_channel_commitments(&self, channel_id: &str) -> (r: Option<
        &Vec<CommitmentTransaction>,
    >)
        ensures
            match position(self@, channel_id@) {
                Some(i) => r matches Some(commitments) && snapshots(commitments@)
                    == self@[i].history,
                None => r is None,
            },
    {
        proof {
            use_type_invariant(&*self);
        }
        match self.find(channel_id) {
            Some(i) => {
                proof {
                    assert(self@[i as int] == self.entries[i as int]@);
                }
                Some(&self.entries[i].commitments)
            },
            None => None,
        }
    }

    /// All channels, in the order in which they came into the table.
    pub fn get_all_channels(&self) -> (all: Vec<&PaymentChannel>)
        ensures
            all@.len() == self@.len(),
            forall|i: int| 0 <= i < all@.len() ==> (#[trigger] all@[i])@ == self@[i].channel,
    {
        let mut all: Vec<&PaymentChannel> = Vec::new();
        let mut i: usize = 0;
        while i < self.entries.len()
            invariant
                i <= self.entries.len(),
                all@.len() == i,
                forall|j: int| 0 <= j < i ==> (#[trigger] all@[j])@ == self@[j].channel,
            decreases self.entries.len() - i,
        {
            proof {
                assert(self@[i as int] == self.entries[i as int]@);
            }
            all.push(&self.entries[i].channel);
            i += 1;
        }
        all
    }
}

} // verus!
