//! Gossip among nodes: the messages that travel on the shared topic, the table
//! of connected peers, and what a node does about each event its overlay
//! reports.
//!
//! The overlay itself, with its transport, is driven elsewhere. It hands every
//! event to `P2PNode::handle_event` and carries out the actions that come back.

use crate::channel::{
    ChannelState, CommitmentState, CommitmentTransaction, PaymentChannel, PaymentRecord,
    PaymentState,
};
use vstd::prelude::*;
use vstd::string::*;

verus! {

/// One message on the shared topic.
#[derive(Debug)]
pub enum P2PMessage {
    ChannelOpen { channel_id: String, funding_txid: String, capacity: u64, initial_balance: u64 },
    ChannelClose { channel_id: String, final_balance_a: u64, final_balance_b: u64 },
    Payment {
        channel_id: String,
        amount: u64,
        sequence: u64,
        commitment_tx: String,
        signature: String,
    },
    CommitmentSigned { channel_id: String, signature: String, sequence: u64 },
}

/// A message as the contracts see it.
pub ghost enum MessageState {
    ChannelOpen {
        channel_id: Seq<char>,
        funding_txid: Seq<char>,
        capacity: nat,
        initial_balance: nat,
    },
    ChannelClose { channel_id: Seq<char>, final_balance_a: nat, final_balance_b: nat },
    Payment {
        channel_id: Seq<char>,
        amount: nat,
        sequence: nat,
        commitment_tx: Seq<char>,
        signature: Seq<char>,
    },
    CommitmentSigned { channel_id: Seq<char>, signature: Seq<char>, sequence: nat },
}

impl View for P2PMessage {
    type V = MessageState;

    open spec fn view(&self) -> MessageState {
        match self {
            P2PMessage::ChannelOpen { channel_id, funding_txid, capacity, initial_balance } => {
                MessageState::ChannelOpen {
                    channel_id: channel_id@,
                    funding_txid: funding_txid@,
                    capacity: *capacity as nat,
                    initial_balance: *initial_balance as nat,
                }
            },
            P2PMessage::ChannelClose { channel_id, final_balance_a, final_balance_b } => {
                MessageState::ChannelClose {
                    channel_id: channel_id@,
                    final_balance_a: *final_balance_a as nat,
                    final_balance_b: *final_balance_b as nat,
                }
            },
            P2PMessage::Payment { channel_id, amount, sequence, commitment_tx, signature } => {
                MessageState::Payment {
                    channel_id: channel_id@,
                    amount: *amount as nat,
                    sequence: *sequence as nat,
                    commitment_tx: commitment_tx@,
                    signature: signature@,
                }
            },
            P2PMessage::CommitmentSigned { channel_id, signature, sequence } => {
                MessageState::CommitmentSigned {
                    channel_id: channel_id@,
                    signature: signature@,
                    sequence: *sequence as nat,
                }
            },
        }
    }
}

/// The announcement of a channel that was opened.
pub open spec fn open_announcement(channel: ChannelState) -> MessageState {
    MessageState::ChannelOpen {
        channel_id: channel.id,
        funding_txid: channel.funding_txid,
        capacity: channel.capacity,
        initial_balance: channel.my_balance,
    }
}

/// The announcement of a channel that was closed, with what each side is owed.
pub open spec fn close_announcement(channel: ChannelState) -> MessageState {
    MessageState::ChannelClose {
        channel_id: channel.id,
        final_balance_a: channel.my_balance,
        final_balance_b: channel.peer_balance,
    }
}

/// The announcement of a payment with the signed snapshot it left.
pub open spec fn payment_announcement(
    payment: PaymentState,
    commitment: CommitmentState,
) -> MessageState {
    MessageState::Payment {
        channel_id: payment.channel_id,
        amount: payment.amount,
        sequence: payment.sequence,
        commitment_tx: commitment.raw_tx,
        signature: commitment.signature,
    }
}

/// The announcement that a snapshot was signed.
pub open spec fn signed_announcement(commitment: CommitmentState) -> MessageState {
    MessageState::CommitmentSigned {
        channel_id: commitment.channel_id,
        signature: commitment.signature,
        sequence: commitment.sequence,
    }
}

impl P2PMessage {
    /// Announces that `channel` was opened.
    pub fn channel_open(channel: &PaymentChannel) -> (message: P2PMessage)
        ensures
            message@ == open_announcement(channel@),
    {
        P2PMessage::ChannelOpen {
            channel_id: channel.id.clone(),
            funding_txid: channel.funding_txid.clone(),
            capacity: channel.capacity,
            initial_balance: channel.my_balance,
        }
    }

    /// Announces that `channel` was closed.
    pub fn channel_close(channel: &PaymentChannel) -> (message: P2PMessage)
        ensures
            message@ == close_announcement(channel@),
    {
        P2PMessage::ChannelClose {
            channel_id: channel.id.clone(),
            final_balance_a: channel.my_balance,
            final_balance_b: channel.peer_balance,
        }
    }

    /// Announces `payment` together with the snapshot that it left.
    pub fn payment(payment: &PaymentRecord, commitment: &CommitmentTransaction) -> (message:
        P2PMessage)
        ensures
            message@ == payment_announcement(payment@, commitment@),
    {
        P2PMessage::Payment {
            channel_id: payment.channel_id.clone(),
            amount: payment.amount,
            sequence: payment.sequence,
            commitment_tx: commitment.raw_tx.clone(),
            signature: commitment.signature.clone(),
        }
    }

    /// Announces that `commitment` was signed.
    pub fn commitment_signed(commitment: &CommitmentTransaction) -> (message: P2PMessage)
        ensures
            message@ == signed_announcement(commitment@),
    {
        P2PMessage::CommitmentSigned {
            channel_id: commitment.channel_id.clone(),
            signature: commitment.signature.clone(),
            sequence: commitment.sequence,
        }
    }
}

/// The name of the one topic on which all messages are published.
pub fn gossip_topic() -> (topic: &'static str)
    ensures
        topic@ == "lightning-offline"@,
{
    "lightning-offline"
}

/// What the overlay reports to the node.
#[derive(Debug)]
pub enum OverlayEvent {
    /// The overlay listens on a new address.
    NewListenAddr { address: String },
    /// A connection to a peer was established.
    ConnectionEstablished { peer_id: String },
    /// The connection to a peer was closed.
    ConnectionClosed { peer_id: String },
    /// Peers were discovered on the local network.
    Discovered { peers: Vec<String> },
    /// Discovered peers were not seen for too long.
    Expired { peers: Vec<String> },
    /// A message arrived on the topic; `None` where its bytes were no message.
    Message { source: String, message: Option<P2PMessage> },
    /// Anything else.
    Other,
}

/// What the node asks of the overlay, or of the ledger, in answer to an event.
#[derive(Debug)]
pub enum OverlayAction {
    /// Keep the peer in the topic's mesh.
    AddExplicitPeer { peer_id: String },
    /// Connect to the peer.
    Dial { peer_id: String },
    /// Drop the peer from the topic's mesh.
    RemoveExplicitPeer { peer_id: String },
    /// Hand the message to the ledger.
    Deliver { message: P2PMessage },
    /// Publish the message on the topic.
    Publish { topic: String, message: P2PMessage },
}

/// An action as the contracts see it.
pub ghost enum ActionState {
    AddExplicitPeer { peer_id: Seq<char> },
    Dial { peer_id: Seq<char> },
    RemoveExplicitPeer { peer_id: Seq<char> },
    Deliver { message: MessageState },
    Publish { topic: Seq<char>, message: MessageState },
}

impl View for OverlayAction {
    type V = ActionState;

    open spec fn view(&self) -> ActionState {
        match self {
            OverlayAction::AddExplicitPeer { peer_id } => ActionState::AddExplicitPeer {
                peer_id: peer_id@,
            },
            OverlayAction::Dial { peer_id } => ActionState::Dial { peer_id: peer_id@ },
            OverlayAction::RemoveExplicitPeer { peer_id } => ActionState::RemoveExplicitPeer {
                peer_id: peer_id@,
            },
            OverlayAction::Deliver { message } => ActionState::Deliver { message: message@ },
            OverlayAction::Publish { topic, message } => ActionState::Publish {
                topic: topic@,
                message: message@,
            },
        }
    }
}

/// Texts seen as the contracts see them.
pub open spec fn texts(v: Seq<String>) -> Seq<Seq<char>> {
    v.map_values(|s: String| s@)
}

/// Actions seen as the contracts see them.
pub open spec fn actions(v: Seq<OverlayAction>) -> Seq<ActionState> {
    v.map_values(|a: OverlayAction| a@)
}

/// No peer occurs twice.
pub open spec fn distinct(peers: Seq<Seq<char>>) -> bool {
    forall|i: int, j: int| 0 <= i < j < peers.len() ==> peers[i] != peers[j]
}

/// The peers after `peer` connected: `peer` joins at the end unless it is there.
pub open spec fn with_peer(peers: Seq<Seq<char>>, peer: Seq<char>) -> Seq<Seq<char>> {
    if peers.contains(peer) {
        peers
    } else {
        peers.push(peer)
    }
}

/// The peers after `peer` disconnected: every other peer, in the old order.
pub open spec fn without_peer(peers: Seq<Seq<char>>, peer: Seq<char>) -> Seq<Seq<char>> {
    peers.filter(|p: Seq<char>| p != peer)
}

/// For every discovered peer, in order: keep it in the mesh, then connect to it.
pub open spec fn discovery_actions(peers: Seq<Seq<char>>) -> Seq<ActionState>
    decreases peers.len(),
{
    if peers.len() == 0 {
        Seq::<ActionState>::empty()
    } else {
        discovery_actions(peers.drop_last()).push(
            ActionState::AddExplicitPeer { peer_id: peers.last() },
        ).push(ActionState::Dial { peer_id: peers.last() })
    }
}

/// For every expired peer, in order: drop it from the mesh.
pub open spec fn expiry_actions(peers: Seq<Seq<char>>) -> Seq<ActionState>
    decreases peers.len(),
{
    if peers.len() == 0 {
        Seq::<ActionState>::empty()
    } else {
        expiry_actions(peers.drop_last()).push(
            ActionState::RemoveExplicitPeer { peer_id: peers.last() },
        )
    }
}

/// The table of connected peers. No peer is in it twice.
pub struct P2PNode {
    peers: Vec<String>,
}

impl View for P2PNode {
    type V = Seq<Seq<char>>;

    closed spec fn view(&self) -> Seq<Seq<char>> {
        texts(self.peers@)
    }
}

impl P2PNode {
    /// No peer is in the table twice.
    #[verifier::type_invariant]
    pub open spec fn wf(&self) -> bool {
        distinct(self@)
    }

    /// A node without connected peers.
    pub fn new() -> (node: P2PNode)
        ensures
            node.wf(),
            node@ == Seq::<Seq<char>>::empty(),
    {
        let peers: Vec<String> = Vec::new();
        assert(texts(peers@) =~= Seq::<Seq<char>>::empty());
        P2PNode { peers }
    }

    /// The connected peers, in the order in which they connected.
    pub fn get_connected_peers(&self) -> (peers: Vec<String>)
        ensures
            texts(peers@) == self@,
    {
        let mut out: Vec<String> = Vec::new();
        let mut i: usize = 0;
        while i < self.peers.len()
            invariant
                i <= self.peers.len(),
                texts(out@) == texts(self.peers@).take(i as int),
            decreases self.peers.len() - i,
        {
            let ghost done = texts(out@);
            let peer = self.peers[i].clone();
            out.push(peer);
            proof {
                assert(texts(out@) =~= done.push(self.peers@[i as int]@));
                assert(texts(self.peers@).take(i + 1) =~= texts(self.peers@).take(i as int).push(
                    self.peers@[i as int]@,
                ));
            }
            i += 1;
        }
        assert(texts(self.peers@).take(self.peers.len() as int) =~= texts(self.peers@));
        out
    }

    /// Asks for `message` to be published on the shared topic. Whether it reaches
    /// anyone is not the ledger's concern: what it announces is settled already.
    pub fn broadcast_message(&self, message: P2PMessage) -> (step: OverlayAction)
        ensures
            step@ == (ActionState::Publish { topic: "lightning-offline"@, message: message@ }),
    {
        OverlayAction::Publish { topic: String::from_str(gossip_topic()), message }
    }

    /// Notes that `peer_id` connected.
    pub fn connect(&mut self, peer_id: String)
        ensures
            final(self).wf(),
            final(self)@ == with_peer(old(self)@, peer_id@),
    {
        proof {
            use_type_invariant(&*self);
        }
        let ghost before = self@;
        let mut i: usize = 0;
        while i < self.peers.len()
            invariant
                i <= self.peers.len(),
                self@ == before,
                distinct(before),
                forall|j: int| 0 <= j < i ==> before[j] != peer_id@,
            decreases self.peers.len() - i,
        {
            if self.peers[i] == peer_id {
                assert(before[i as int] == peer_id@);
                assert(before.contains(peer_id@));
                return ;
            }
            i += 1;
        }
        assert(!before.contains(peer_id@));
        let mut peers: Vec<String> = Vec::new();
        assert(texts(peers@) =~= Seq::<Seq<char>>::empty());
        std::mem::swap(&mut self.peers, &mut peers);
        peers.push(peer_id);
        assert(texts(peers@) =~= before.push(peer_id@));
        self.peers = peers;
    }

    /// Notes that `peer_id` disconnected.
    pub fn disconnect(&mut self, peer_id: &str)
        ensures
            final(self).wf(),
            final(self)@ == without_peer(old(self)@, peer_id@),
    {
        proof {
            use_type_invariant(&*self);
        }
        let gone = String::from_str(peer_id);
        let ghost before = self@;
        let mut kept: Vec<String> = Vec::new();
        let mut i: usize = 0;
        assert(before.take(0) =~= Seq::<Seq<char>>::empty());
        while i < self.peers.len()
            invariant
                i <= self.peers.len(),
                before == self@,
                gone@ == peer_id@,
                distinct(before),
                texts(kept@) == without_peer(before.take(i as int), peer_id@),
            decreases self.peers.len() - i,
        {
            proof {
                let next = before.take(i + 1);
                assert(next.drop_last() =~= before.take(i as int));
                assert(next.last() == before[i as int]);
                reveal(Seq::filter);
            }
            if !(self.peers[i] == gone) {
                let ghost old_kept = texts(kept@);
                kept.push(self.peers[i].clone());
                assert(texts(kept@) =~= old_kept.push(before[i as int]));
            }
            i += 1;
        }
        assert(before.take(self.peers.len() as int) =~= before);
        proof {
            lemma_filter_keeps_distinct(before, peer_id@);
        }
        self.peers = kept;
    }

    /// Decides what is done about an event of the overlay. Connections change the
    /// table of peers. Discovered peers are kept in the mesh and dialled, expired
    /// ones are dropped from the mesh. A message that could be read is delivered
    /// to the ledger; one that could not is dropped. Nothing else has any effect.
    pub fn handle_event(&mut self, event: OverlayEvent) -> (steps: Vec<OverlayAction>)
        ensures
            final(self).wf(),
            final(self)@ == match event {
                OverlayEvent::ConnectionEstablished { peer_id } => with_peer(old(self)@, peer_id@),
                OverlayEvent::ConnectionClosed { peer_id } => without_peer(old(self)@, peer_id@),
                _ => old(self)@,
            },
            actions(steps@) == match event {
                OverlayEvent::Discovered { peers } => discovery_actions(texts(peers@)),
                OverlayEvent::Expired { peers } => expiry_actions(texts(peers@)),
                OverlayEvent::Message { source, message: Some(message) } => seq![
                    ActionState::Deliver { message: message@ },
                ],
                _ => Seq::<ActionState>::empty(),
            },
    {
        proof {
            use_type_invariant(&*self);
        }
        let mut steps: Vec<OverlayAction> = Vec::new();
        assert(actions(steps@) =~= Seq::<ActionState>::empty());
        match event {
            OverlayEvent::ConnectionEstablished { peer_id } => {
                self.connect(peer_id);
            },
            OverlayEvent::ConnectionClosed { peer_id } => {
                self.disconnect(peer_id.as_str());
            },
            OverlayEvent::Discovered { peers } => {
                let mut i: usize = 0;
                assert(texts(peers@).take(0) =~= Seq::<Seq<char>>::empty());
                while i < peers.len()
                    invariant
                        i <= peers.len(),
                        actions(steps@) == discovery_actions(texts(peers@).take(i as int)),
                    decreases peers.len() - i,
                {
                    let ghost done = actions(steps@);
                    steps.push(OverlayAction::AddExplicitPeer { peer_id: peers[i].clone() });
                    steps.push(OverlayAction::Dial { peer_id: peers[i].clone() });
                    proof {
                        let next = texts(peers@).take(i + 1);
                        assert(next.drop_last() =~= texts(peers@).take(i as int));
                        assert(next.last() == peers@[i as int]@);
                        assert(actions(steps@) =~= done.push(
                            ActionState::AddExplicitPeer { peer_id: next.last() },
                        ).push(ActionState::Dial { peer_id: next.last() }));
                    }
                    i += 1;
                }
                assert(texts(peers@).take(peers.len() as int) =~= texts(peers@));
            },
            OverlayEvent::Expired { peers } => {
                let mut i: usize = 0;
                assert(texts(peers@).take(0) =~= Seq::<Seq<char>>::empty());
                while i < peers.len()
                    invariant
                        i <= peers.len(),
                        actions(steps@) == expiry_actions(texts(peers@).take(i as int)),
                    decreases peers.len() - i,
                {
                    let ghost done = actions(steps@);
                    steps.push(OverlayAction::RemoveExplicitPeer { peer_id: peers[i].clone() });
                    proof {
                        let next = texts(peers@).take(i + 1);
                        assert(next.drop_last() =~= texts(peers@).take(i as int));
                        assert(next.last() == peers@[i as int]@);
                        assert(actions(steps@) =~= done.push(
                            ActionState::RemoveExplicitPeer { peer_id: next.last() },
                        ));
                    }
                    i += 1;
                }
                assert(texts(peers@).take(peers.len() as int) =~= texts(peers@));
            },
            OverlayEvent::Message { source, message } => {
                match message {
                    Some(message) => {
                        let ghost delivered = message@;
                        steps.push(OverlayAction::Deliver { message });
                        assert(actions(steps@) =~= seq![
                            ActionState::Deliver { message: delivered },
                        ]);
                    },
                    None => {},
                }
            },
            _ => {},
        }
        steps
    }
}

/// Leaving a peer out of a table without repetitions leaves a table without
/// repetitions, in which the peer does not occur.
pub proof fn lemma_filter_keeps_distinct(peers: Seq<Seq<char>>, peer: Seq<char>)
    requires
        distinct(peers),
    ensures
        distinct(without_peer(peers, peer)),
        !without_peer(peers, peer).contains(peer),
        forall|p: Seq<char>| without_peer(peers, peer).contains(p) ==> peers.contains(p),
    decreases peers.len(),
{
    reveal(Seq::filter);
    let pred = |p: Seq<char>| p != peer;
    if peers.len() > 0 {
        let front = peers.drop_last();
        let last = peers.last();
        assert forall|i: int, j: int| 0 <= i < j < front.len() implies front[i] != front[j] by {
            assert(front[i] == peers[i] && front[j] == peers[j]);
        }
        lemma_filter_keeps_distinct(front, peer);
        let kept = without_peer(front, peer);
        let all = without_peer(peers, peer);
        assert(all == if pred(last) {
            kept.push(last)
        } else {
            kept
        });
        assert forall|i: int| 0 <= i < kept.len() implies kept[i] != last by {
            assert(kept.contains(kept[i]));
            assert(front.contains(kept[i]));
            let k = choose|k: int| 0 <= k < front.len() && front[k] == kept[i];
            assert(peers[k] == kept[i]);
            assert(peers[k] != peers[peers.len() - 1]);
        }
        assert forall|p: Seq<char>| all.contains(p) implies peers.contains(p) by {
            let k = choose|k: int| 0 <= k < all.len() && all[k] == p;
            if k < kept.len() {
                assert(kept[k] == p);
                assert(kept.contains(p));
                assert(front.contains(p));
                let m = choose|m: int| 0 <= m < front.len() && front[m] == p;
                assert(peers[m] == p);
            } else {
                assert(peers[peers.len() - 1] == p);
            }
        }
        if all.contains(peer) {
            let k = choose|k: int| 0 <= k < all.len() && all[k] == peer;
            if k < kept.len() {
                assert(kept[k] == peer);
                assert(kept.contains(peer));
            }
        }
    }
}

} // verus!
