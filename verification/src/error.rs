//! Failures of ledger operations and the coarse kinds they fall into.

use vstd::prelude::*;
use vstd::string::*;

verus! {

/// Why a ledger operation was refused.
#[derive(Clone, Copy, Debug, PartialEq, Eq, Structural)]
pub enum LedgerError {
    /// The peer identifier is neither an overlay identifier nor a hex-encoded public key.
    InvalidPeerIdentifier,
    /// No joint address could be derived from the peer's key.
    KeyDerivationFailed,
    /// No channel with the given identifier is in the table.
    ChannelNotFound,
    /// The channel has been closed.
    ChannelClosed,
    /// A channel with the given identifier is in the table already.
    DuplicateChannel,
    /// The paying side does not hold the amount.
    InsufficientBalance,
    /// The update does not carry the sequence number that follows the channel's own.
    SequenceConflict,
    /// A remote update carries a signature that does not verify.
    InvalidSignature,
    /// The signing machinery refused the request.
    SigningFailed,
    /// The operating system supplied no random bytes.
    EntropyUnavailable,
    /// A stored record contradicts the ledger's rules.
    CorruptRecord,
}

/// The coarse classes by which callers tell failures apart.
#[derive(Clone, Copy, Debug, PartialEq, Eq, Structural)]
pub enum ErrorKind {
    InvalidInput,
    NotFound,
    InvalidState,
    InsufficientFunds,
    SequenceConflict,
    CryptoFailure,
    PersistenceFailure,
}

impl LedgerError {
    /// The class of this failure.
    pub open spec fn spec_kind(self) -> ErrorKind {
        match self {
            LedgerError::InvalidPeerIdentifier => ErrorKind::InvalidInput,
            LedgerError::InvalidSignature => ErrorKind::InvalidInput,
            LedgerError::KeyDerivationFailed => ErrorKind::CryptoFailure,
            LedgerError::SigningFailed => ErrorKind::CryptoFailure,
            LedgerError::EntropyUnavailable => ErrorKind::CryptoFailure,
            LedgerError::ChannelNotFound => ErrorKind::NotFound,
            LedgerError::ChannelClosed => ErrorKind::InvalidState,
            LedgerError::DuplicateChannel => ErrorKind::InvalidState,
            LedgerError::InsufficientBalance => ErrorKind::InsufficientFunds,
            LedgerError::SequenceConflict => ErrorKind::SequenceConflict,
            LedgerError::CorruptRecord => ErrorKind::PersistenceFailure,
        }
    }

    /// The sentence that tells a caller of this failure.
    pub open spec fn spec_message(self) -> Seq<char> {
        match self {
            LedgerError::InvalidPeerIdentifier => "Invalid peer node ID"@,
            LedgerError::KeyDerivationFailed => "Key derivation failed"@,
            LedgerError::ChannelNotFound => "Channel not found"@,
            LedgerError::ChannelClosed => "Channel is not open"@,
            LedgerError::DuplicateChannel => "Channel exists already"@,
            LedgerError::InsufficientBalance => "Insufficient balance"@,
            LedgerError::SequenceConflict => "Sequence conflict"@,
            LedgerError::InvalidSignature => "Invalid signature"@,
            LedgerError::SigningFailed => "Signing failed"@,
            LedgerError::EntropyUnavailable => "No entropy available"@,
            LedgerError::CorruptRecord => "Corrupt stored record"@,
        }
    }

    /// The sentence that tells a caller of this failure.
    pub fn message(self) -> (text: String)
        ensures
            text@ == self.spec_message(),
    {
        match self {
            LedgerError::InvalidPeerIdentifier => String::from_str("Invalid peer node ID"),
            LedgerError::KeyDerivationFailed => String::from_str("Key derivation failed"),
            LedgerError::ChannelNotFound => String::from_str("Channel not found"),
            LedgerError::ChannelClosed => String::from_str("Channel is not open"),
            LedgerError::DuplicateChannel => String::from_str("Channel exists already"),
            LedgerError::InsufficientBalance => String::from_str("Insufficient balance"),
            LedgerError::SequenceConflict => String::from_str("Sequence conflict"),
            LedgerError::InvalidSignature => String::from_str("Invalid signature"),
            LedgerError::SigningFailed => String::from_str("Signing failed"),
            LedgerError::EntropyUnavailable => String::from_str("No entropy available"),
            LedgerError::CorruptRecord => String::from_str("Corrupt stored record"),
        }
    }

    /// The class of this failure.
    #[verifier::when_used_as_spec(spec_kind)]
    pub fn kind(self) -> (k: ErrorKind)
        ensures
            k == self.spec_kind(),
    {
        match self {
            LedgerError::InvalidPeerIdentifier => ErrorKind::InvalidInput,
            LedgerError::InvalidSignature => ErrorKind::InvalidInput,
            LedgerError::KeyDerivationFailed => ErrorKind::CryptoFailure,
            LedgerError::SigningFailed => ErrorKind::CryptoFailure,
            LedgerError::EntropyUnavailable => ErrorKind::CryptoFailure,
            LedgerError::ChannelNotFound => ErrorKind::NotFound,
            LedgerError::ChannelClosed => ErrorKind::InvalidState,
            LedgerError::DuplicateChannel => ErrorKind::InvalidState,
            LedgerError::InsufficientBalance => ErrorKind::InsufficientFunds,
            LedgerError::SequenceConflict => ErrorKind::SequenceConflict,
            LedgerError::CorruptRecord => ErrorKind::PersistenceFailure,
        }
    }
}

} // verus!
