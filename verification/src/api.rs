//! What the request/response front end exchanges with the ledger: the bodies of
//! its requests, the node's description, and the status a failure is answered with.

use crate::channel::{ChannelState, PaymentChannel, PaymentRecord, PaymentState, Timestamp};
use crate::crypto::{p2wpkh_regtest_address, sha256_digest, KeyManager};
use crate::error::{ErrorKind, LedgerError};
use crate::hexadecimal::{encode_hex, hex_text};
use crate::ledger::{channel_view, close_outcome, open_outcome, pay_outcome, record_view};
use crate::manager::ChannelManager;
use vstd::prelude::*;
use vstd::string::*;

verus! {

/// The body of a request to open a channel.
#[derive(Debug)]
pub struct OpenChannelRequest {
    pub peer_node_id: String,
    pub capacity: u64,
}

/// The body of a request to send a payment.
#[derive(Debug)]
pub struct SendPaymentRequest {
    pub amount: u64,
}

/// What a node tells about itself.
#[derive(Debug)]
pub struct NodeInfo {
    pub node_id: String,
    pub public_key: String,
    pub bitcoin_address: String,
    pub connected_peers: Vec<String>,
}

/// The status for a request that was carried out.
pub const STATUS_OK: u16 = 200;

/// The status for a request that a rule of the ledger refuses.
pub const STATUS_BAD_REQUEST: u16 = 400;

/// The status for a request that failed in the node's own machinery.
pub const STATUS_INTERNAL_ERROR: u16 = 500;

/// The status that answers a failure: a refusal by the ledger's rules is the
/// caller's error, a failure of signing or of the store is the server's.
pub open spec fn status_of(kind: ErrorKind) -> u16 {
    match kind {
        ErrorKind::CryptoFailure => STATUS_INTERNAL_ERROR,
        ErrorKind::PersistenceFailure => STATUS_INTERNAL_ERROR,
        _ => STATUS_BAD_REQUEST,
    }
}

/// The status that answers the failure `error`.
pub fn failure_status(error: LedgerError) -> (status: u16)
    ensures
        status == status_of(error.spec_kind()),
{
    match error.kind() {
        ErrorKind::CryptoFailure => STATUS_INTERNAL_ERROR,
        ErrorKind::PersistenceFailure => STATUS_INTERNAL_ERROR,
        _ => STATUS_BAD_REQUEST,
    }
}

/// Describes the node: its identifier, its public key in hexadecimal, its address
/// and the peers it is connected to.
pub fn node_info(keys: &KeyManager, connected_peers: Vec<String>) -> (info: NodeInfo)
    ensures
        info.node_id@ == hex_text(sha256_digest(keys.public())),
        info.public_key@ == hex_text(keys.public()),
        p2wpkh_regtest_address(keys.public()) == Some(info.bitcoin_address@),
        info.connected_peers == connected_peers,
{
    let key = keys.get_public_key();
    NodeInfo {
        node_id: keys.get_node_id(),
        public_key: encode_hex(key.as_slice()),
        bitcoin_address: keys.get_bitcoin_address(),
        connected_peers,
    }
}

/// An answer of the ledger as the front end gives it: the value where there is
/// one, the status of the failure where there is none.
pub open spec fn answered<T>(r: Result<T, LedgerError>) -> Result<T, u16> {
    match r {
        Ok(value) => Ok(value),
        Err(e) => Err(status_of(e.spec_kind())),
    }
}

/// Serves a request to open a channel: the ledger opens it, and a refusal is
/// answered with its status.
pub fn open_channel(manager: &mut ChannelManager, request: OpenChannelRequest) -> (r: Result<
    PaymentChannel,
    u16,
>)
    ensures
        final(manager).wf(),
        final(manager).keys() == old(manager).keys(),
        exists|channel_id: Seq<char>, funding_id: Seq<char>, seed: Seq<char>, now: Timestamp|
            {
                let outcome = #[trigger] open_outcome(
                    old(manager)@,
                    old(manager).keys().public(),
                    request.peer_node_id@,
                    request.capacity as nat,
                    channel_id,
                    funding_id,
                    seed,
                    now,
                );
                &&& final(manager)@ == outcome.0
                &&& match r {
                    Ok(channel) => Ok::<ChannelState, u16>(channel@),
                    Err(status) => Err(status),
                } == answered(outcome.1)
            },
{
    let ghost before = manager@;
    let ghost peer = request.peer_node_id@;
    let opened = manager.open_channel(request.peer_node_id, request.capacity);
    proof {
        let (channel_id, funding_id, seed, now) = choose|
            channel_id: Seq<char>,
            funding_id: Seq<char>,
            seed: Seq<char>,
            now: Timestamp,
        |
            (manager@, channel_view(opened)) == #[trigger] open_outcome(
                before,
                manager.keys().public(),
                peer,
                request.capacity as nat,
                channel_id,
                funding_id,
                seed,
                now,
            );
        assert(manager@ == open_outcome(
            before,
            manager.keys().public(),
            peer,
            request.capacity as nat,
            channel_id,
            funding_id,
            seed,
            now,
        ).0);
    }
    match opened {
        Ok(channel) => Ok(channel),
        Err(e) => Err(failure_status(e)),
    }
}

/// Serves a request to pay over the channel `channel_id`: the ledger pays, and a
/// refusal is answered with its status.
pub fn send_payment(
    manager: &mut ChannelManager,
    channel_id: &str,
    request: SendPaymentRequest,
) -> (r: Result<PaymentRecord, u16>)
    ensures
        final(manager).wf(),
        final(manager).keys() == old(manager).keys(),
        exists|commitment_id: Seq<char>, payment_id: Seq<char>, now: Timestamp|
            {
                let outcome = #[trigger] pay_outcome(
                    old(manager)@,
                    old(manager).keys().secret(),
                    channel_id@,
                    request.amount as nat,
                    commitment_id,
                    payment_id,
                    now,
                );
                &&& final(manager)@ == outcome.0
                &&& match r {
                    Ok(payment) => Ok::<PaymentState, u16>(payment@),
                    Err(status) => Err(status),
                } == answered(outcome.1)
            },
{
    let ghost before = manager@;
    let paid = manager.send_payment(channel_id, request.amount);
    proof {
        let (commitment_id, payment_id, now) = choose|
            commitment_id: Seq<char>,
            payment_id: Seq<char>,
            now: Timestamp,
        |
            (manager@, record_view(paid)) == #[trigger] pay_outcome(
                before,
                manager.keys().secret(),
                channel_id@,
                request.amount as nat,
                commitment_id,
                payment_id,
                now,
            );
        assert(manager@ == pay_outcome(
            before,
            manager.keys().secret(),
            channel_id@,
            request.amount as nat,
            commitment_id,
            payment_id,
            now,
        ).0);
    }
    match paid {
        Ok(payment) => Ok(payment),
        Err(e) => Err(failure_status(e)),
    }
}

/// Serves a request to close the channel `channel_id`: the ledger closes it and
/// the answer is the status of success, or the status of the refusal.
pub fn close_channel(manager: &mut ChannelManager, channel_id: &str) -> (r: Result<u16, u16>)
    ensures
        final(manager).wf(),
        final(manager).keys() == old(manager).keys(),
        final(manager)@ == close_outcome(old(manager)@, channel_id@).0,
        r == match close_outcome(old(manager)@, channel_id@).1 {
            Ok(_) => Ok::<u16, u16>(STATUS_OK),
            Err(e) => Err::<u16, u16>(status_of(e.spec_kind())),
        },
{
    match manager.close_channel(channel_id) {
        Ok(()) => Ok(STATUS_OK),
        Err(e) => Err(failure_status(e)),
    }
}

/// A frame that arrives on the push channel.
#[derive(Debug)]
pub enum SocketFrame {
    /// A text frame.
    Text { text: String },
    /// The other side closes the channel.
    Close,
    /// Any other frame.
    Other,
}

/// What is done about a frame on the push channel.
#[derive(Debug)]
pub enum SocketStep {
    /// Send the text back and go on.
    Reply { text: String },
    /// Go on without an answer.
    Ignore,
    /// Stop serving the channel.
    Stop,
}

/// The characters that stand before an echoed text.
pub open spec fn echo_prefix() -> Seq<char> {
    seq!['E', 'c', 'h', 'o', ':', ' ']
}

/// Decides what is done about a frame on the push channel: a text is echoed, a
/// close ends the service, anything else is passed over.
pub fn socket_step(frame: SocketFrame) -> (step: SocketStep)
    ensures
        match frame {
            SocketFrame::Text { text } => step matches SocketStep::Reply { text: reply } && reply@
                == echo_prefix() + text@,
            SocketFrame::Close => step is Stop,
            SocketFrame::Other => step is Ignore,
        },
{
    match frame {
        SocketFrame::Text { text } => {
            proof {
                reveal_strlit("Echo: ");
                assert("Echo: "@ =~= echo_prefix());
            }
            let mut reply = String::from_str("Echo: ");
            reply.append(text.as_str());
            SocketStep::Reply { text: reply }
        },
        SocketFrame::Close => SocketStep::Stop,
        SocketFrame::Other => SocketStep::Ignore,
    }
}

} // verus!
