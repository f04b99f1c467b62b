//! The node's long-term identity: its key pair, the identifiers derived from it,
//! signatures over byte strings, and the address two parties hold jointly.
//!
//! Keys and signatures are held as their byte encodings. Hashing, curve arithmetic
//! and address encoding are done by `sha2`, `secp256k1` and `bitcoin`; what those
//! return is named here and not defined.

use crate::error::LedgerError;
use crate::hexadecimal::{encode_hex, hex_text};
use vstd::prelude::*;

verus! {

/// The SHA-256 digest of `data`.
pub uninterp spec fn sha256_digest(data: Seq<u8>) -> Seq<u8>;

/// Whether `secret` is accepted as a secp256k1 secret key.
pub uninterp spec fn secp_secret_valid(secret: Seq<u8>) -> bool;

/// The compressed encoding of the public key that belongs to an accepted secret key.
pub uninterp spec fn secp_public_key(secret: Seq<u8>) -> Seq<u8>;

/// The compressed encoding of the public key that `encoded` denotes, if it denotes one.
pub uninterp spec fn secp_compressed_key(encoded: Seq<u8>) -> Option<Seq<u8>>;

/// The compact ECDSA signature that an accepted secret key gives a 32-byte digest.
pub uninterp spec fn ecdsa_signature(secret: Seq<u8>, digest: Seq<u8>) -> Seq<u8>;

/// Whether `signature` is a compact ECDSA signature of `digest` under the key `key`.
pub uninterp spec fn ecdsa_accepts(digest: Seq<u8>, signature: Seq<u8>, key: Seq<u8>) -> bool;

/// The regtest pay-to-witness-public-key-hash address of an encoded public key.
pub uninterp spec fn p2wpkh_regtest_address(key: Seq<u8>) -> Option<Seq<char>>;

/// The regtest pay-to-witness-script-hash address of a script.
pub uninterp spec fn p2wsh_regtest_address(script: Seq<u8>) -> Seq<char>;

/// The bytes of the script that a builder has collected so far.
pub uninterp spec fn script_contents(builder: bitcoin::script::Builder) -> Seq<u8>;

#[verifier::external_type_specification]
#[verifier::external_body]
pub struct ExScriptBuilder(bitcoin::script::Builder);

/// `sha2::Sha256::digest`: the 32-byte SHA-256 digest of the input.
#[verifier::external_body]
fn sha256(data: &[u8]) -> (digest: [u8; 32])
    ensures
        digest@ == sha256_digest(data@),
{
    <sha2::Sha256 as sha2::Digest>::digest(data).into()
}

/// `rand::rngs::OsRng::try_fill_bytes` on a 32-byte buffer: bytes from the operating
/// system's entropy source, or `None` where the source fails. Nothing is known of
/// the bytes.
#[verifier::external_body]
fn random_secret_bytes() -> (r: Option<[u8; 32]>)
{
    let mut buffer = [0u8; 32];
    match rand::RngCore::try_fill_bytes(&mut rand::rngs::OsRng, &mut buffer) {
        Ok(()) => Some(buffer),
        Err(_) => None,
    }
}

/// `secp256k1::PublicKey::from_secret_key` after `SecretKey::from_slice`: the
/// compressed public key of the secret key, or `None` where the bytes are not
/// accepted as a secret key.
#[verifier::external_body]
fn derive_public_key(secret: &[u8; 32]) -> (r: Option<[u8; 33]>)
    ensures
        r is Some <==> secp_secret_valid(secret@),
        r matches Some(key) ==> key@ == secp_public_key(secret@),
{
    match bitcoin::secp256k1::SecretKey::from_slice(secret) {
        Ok(sk) => {
            let secp = bitcoin::secp256k1::Secp256k1::signing_only();
            Some(bitcoin::secp256k1::PublicKey::from_secret_key(&secp, &sk).serialize())
        },
        Err(_) => None,
    }
}

/// `secp256k1::PublicKey::from_slice` followed by `serialize`: the compressed
/// encoding of the key that the bytes denote, or `None` where they denote none.
#[verifier::external_body]
fn compress_public_key(encoded: &[u8]) -> (r: Option<[u8; 33]>)
    ensures
        match r {
            Some(key) => secp_compressed_key(encoded@) == Some(key@),
            None => secp_compressed_key(encoded@) is None,
        },
{
    match bitcoin::secp256k1::PublicKey::from_slice(encoded) {
        Ok(key) => Some(key.serialize()),
        Err(_) => None,
    }
}

/// `secp256k1::Secp256k1::sign_ecdsa` on a 32-byte digest, in compact encoding;
/// `None` where the bytes are not accepted as a secret key. The nonce is the
/// deterministic one of RFC 6979, so the result depends on the arguments alone.
/// The signature is one that `verify_ecdsa` accepts for the same digest under the
/// public key of the secret key, as the documentation of `verify_ecdsa` shows.
#[verifier::external_body]
fn ecdsa_sign(secret: &[u8; 32], digest: &[u8; 32]) -> (r: Option<[u8; 64]>)
    ensures
        r is Some <==> secp_secret_valid(secret@),
        r matches Some(signature) ==> signature@ == ecdsa_signature(secret@, digest@),
        r matches Some(signature) ==> ecdsa_accepts(digest@, signature@, secp_public_key(secret@)),
{
    match bitcoin::secp256k1::SecretKey::from_slice(secret) {
        Ok(sk) => {
            let secp = bitcoin::secp256k1::Secp256k1::signing_only();
            let message = bitcoin::secp256k1::Message::from_digest(*digest);
            Some(secp.sign_ecdsa(&message, &sk).serialize_compact())
        },
        Err(_) => None,
    }
}

/// `secp256k1::Secp256k1::verify_ecdsa` on a 32-byte digest, a compact signature and
/// an encoded public key; `false` too where the signature or the key does not parse.
#[verifier::external_body]
fn ecdsa_verify(digest: &[u8; 32], signature: &[u8], key: &[u8]) -> (ok: bool)
    ensures
        ok == ecdsa_accepts(digest@, signature@, key@),
{
    let parsed_signature = bitcoin::secp256k1::ecdsa::Signature::from_compact(signature);
    let parsed_key = bitcoin::secp256k1::PublicKey::from_slice(key);
    match (parsed_signature, parsed_key) {
        (Ok(s), Ok(k)) => {
            let secp = bitcoin::secp256k1::Secp256k1::verification_only();
            let message = bitcoin::secp256k1::Message::from_digest(*digest);
            secp.verify_ecdsa(&message, &s, &k).is_ok()
        },
        _ => false,
    }
}

/// `bitcoin::Address::p2wpkh` for the regtest network, written as text; `None`
/// where the bytes do not parse as a public key.
#[verifier::external_body]
fn p2wpkh_address(key: &[u8; 33]) -> (r: Option<String>)
    ensures
        match r {
            Some(address) => p2wpkh_regtest_address(key@) == Some(address@),
            None => p2wpkh_regtest_address(key@) is None,
        },
{
    match bitcoin::key::CompressedPublicKey::from_slice(key) {
        Ok(k) => Some(bitcoin::Address::p2wpkh(&k, bitcoin::Network::Regtest).to_string()),
        Err(_) => None,
    }
}

/// `bitcoin::script::Builder::new`: a builder that holds the empty script.
#[verifier::external_body]
fn script_begin() -> (builder: bitcoin::script::Builder)
    ensures
        script_contents(builder) == Seq::<u8>::empty(),
{
    bitcoin::script::Builder::new()
}

/// `bitcoin::script::Builder::push_opcode`: the script grows by the opcode's byte.
#[verifier::external_body]
fn script_push_opcode(builder: bitcoin::script::Builder, code: u8) -> (next:
    bitcoin::script::Builder)
    ensures
        script_contents(next) == script_contents(builder).push(code),
{
    builder.push_opcode(bitcoin::opcodes::Opcode::from(code))
}

/// `bitcoin::script::Builder::push_slice` on 33 bytes: the script grows by the
/// length byte 33 and then by the bytes themselves.
#[verifier::external_body]
fn script_push_key(builder: bitcoin::script::Builder, key: &[u8; 33]) -> (next:
    bitcoin::script::Builder)
    ensures
        script_contents(next) == script_contents(builder).push(33u8) + key@,
{
    builder.push_slice(key)
}

/// `bitcoin::Address::p2wsh` for the regtest network on the builder's script,
/// written as text.
#[verifier::external_body]
fn script_address(builder: bitcoin::script::Builder) -> (address: String)
    ensures
        address@ == p2wsh_regtest_address(script_contents(builder)),
{
    bitcoin::Address::p2wsh(builder.as_script(), bitcoin::Network::Regtest).to_string()
}

/// The opcode that pushes the number two.
pub const OP_PUSHNUM_2: u8 = 0x52;

/// The opcode that checks a multi-signature.
pub const OP_CHECKMULTISIG: u8 = 0xae;

/// Whether `a` comes before `b`, or equals it, in the byte-wise dictionary order.
pub open spec fn key_precedes(a: Seq<u8>, b: Seq<u8>) -> bool
    decreases a.len(),
{
    if a.len() == 0 {
        true
    } else if b.len() == 0 {
        false
    } else if a[0] != b[0] {
        a[0] < b[0]
    } else {
        key_precedes(a.skip(1), b.skip(1))
    }
}

/// The two-of-two locking script over two compressed keys. The keys stand in
/// dictionary order, so both holders build the same script.
pub open spec fn joint_script(a: Seq<u8>, b: Seq<u8>) -> Seq<u8> {
    let first = if key_precedes(a, b) { a } else { b };
    let second = if key_precedes(a, b) { b } else { a };
    seq![OP_PUSHNUM_2].push(33u8) + first + seq![33u8] + second + seq![
        OP_PUSHNUM_2,
        OP_CHECKMULTISIG,
    ]
}

/// Two byte strings of one length that precede each other are equal.
pub proof fn lemma_key_order_antisymmetric(a: Seq<u8>, b: Seq<u8>)
    requires
        a.len() == b.len(),
        key_precedes(a, b),
        key_precedes(b, a),
    ensures
        a == b,
    decreases a.len(),
{
    if a.len() == 0 {
        assert(a =~= b);
    } else {
        lemma_key_order_antisymmetric(a.skip(1), b.skip(1));
        assert(a =~= seq![a[0]] + a.skip(1));
        assert(b =~= seq![b[0]] + b.skip(1));
    }
}

/// Of two byte strings of one length, one precedes the other.
pub proof fn lemma_key_order_total(a: Seq<u8>, b: Seq<u8>)
    requires
        a.len() == b.len(),
    ensures
        key_precedes(a, b) || key_precedes(b, a),
    decreases a.len(),
{
    if a.len() > 0 && a[0] == b[0] {
        lemma_key_order_total(a.skip(1), b.skip(1));
    }
}

/// The joint script does not depend on which of the two keys is called the local
/// one: each party, with its own key and the other's, builds the same script.
pub proof fn lemma_joint_script_symmetric(a: Seq<u8>, b: Seq<u8>)
    requires
        a.len() == b.len(),
    ensures
        joint_script(a, b) == joint_script(b, a),
{
    lemma_key_order_total(a, b);
    if key_precedes(a, b) && key_precedes(b, a) {
        lemma_key_order_antisymmetric(a, b);
    }
}

/// Decides the dictionary order of two compressed keys.
fn precedes(a: &[u8; 33], b: &[u8; 33]) -> (r: bool)
    ensures
        r == key_precedes(a@, b@),
{
    let mut i: usize = 0;
    assert(a@.skip(0) =~= a@ && b@.skip(0) =~= b@);
    while i < 33
        invariant
            i <= 33,
            key_precedes(a@, b@) == key_precedes(a@.skip(i as int), b@.skip(i as int)),
        decreases 33 - i,
    {
        let x = a[i];
        let y = b[i];
        proof {
            let ra = a@.skip(i as int);
            let rb = b@.skip(i as int);
            assert(ra[0] == x && rb[0] == y);
            assert(ra.skip(1) =~= a@.skip(i + 1));
            assert(rb.skip(1) =~= b@.skip(i + 1));
        }
        if x != y {
            return x < y;
        }
        i += 1;
    }
    true
}

/// The key pair of this node with the identifiers derived from it.
pub struct KeyManager {
    secret_key: [u8; 32],
    public_key: [u8; 33],
    node_id: String,
    bitcoin_address: String,
}

impl Clone for KeyManager {
    fn clone(&self) -> (copy: Self)
        ensures
            copy == *self,
    {
        proof {
            use_type_invariant(self);
        }
        KeyManager {
            secret_key: self.secret_key,
            public_key: self.public_key,
            node_id: self.node_id.clone(),
            bitcoin_address: self.bitcoin_address.clone(),
        }
    }
}

impl KeyManager {
    /// What ties the fields together: the public key belongs to the secret key, the
    /// node identifier is the hexadecimal SHA-256 digest of the public key, and the
    /// address is the public key's pay-to-witness-public-key-hash address.
    #[verifier::type_invariant]
    pub closed spec fn consistent(&self) -> bool {
        &&& secp_secret_valid(self.secret_key@)
        &&& self.public_key@ == secp_public_key(self.secret_key@)
        &&& self.node_id@ == hex_text(sha256_digest(self.public_key@))
        &&& p2wpkh_regtest_address(self.public_key@) == Some(self.bitcoin_address@)
    }

    /// The secret key's bytes.
    pub closed spec fn secret(&self) -> Seq<u8> {
        self.secret_key@
    }

    /// The compressed public key's bytes.
    pub closed spec fn public(&self) -> Seq<u8> {
        self.public_key@
    }

    /// Draws a fresh secret key from the operating system and derives the identity
    /// from it. Which key comes out is not stated; whatever it is, the identity is
    /// the one that `from_secret_bytes` derives from it.
    pub fn new() -> (r: Result<KeyManager, LedgerError>)
        ensures
            r matches Ok(keys) ==> secp_secret_valid(keys.secret()) && keys.public()
                == secp_public_key(keys.secret()),
            r matches Err(e) ==> e == LedgerError::EntropyUnavailable || e
                == LedgerError::KeyDerivationFailed,
    {
        match random_secret_bytes() {
            Some(secret) => KeyManager::from_secret_bytes(secret),
            None => Err(LedgerError::EntropyUnavailable),
        }
    }

    /// Derives the identity that belongs to the given secret key. Fails with
    /// `KeyDerivationFailed` exactly where the bytes are not accepted as a secret
    /// key or the public key has no address.
    pub fn from_secret_bytes(secret: [u8; 32]) -> (r: Result<KeyManager, LedgerError>)
        ensures
            r is Ok <==> secp_secret_valid(secret@) && p2wpkh_regtest_address(
                secp_public_key(secret@),
            ) is Some,
            r matches Ok(keys) ==> {
                &&& keys.secret() == secret@
                &&& keys.public() == secp_public_key(secret@)
            },
            r matches Err(e) ==> e == LedgerError::KeyDerivationFailed,
    {
        let public_key = match derive_public_key(&secret) {
            Some(key) => key,
            None => {
                return Err(LedgerError::KeyDerivationFailed);
            },
        };
        let bitcoin_address = match p2wpkh_address(&public_key) {
            Some(address) => address,
            None => {
                return Err(LedgerError::KeyDerivationFailed);
            },
        };
        let digest = sha256(public_key.as_slice());
        let node_id = encode_hex(digest.as_slice());
        Ok(KeyManager { secret_key: secret, public_key, node_id, bitcoin_address })
    }

    /// The node identifier: the SHA-256 digest of the compressed public key in
    /// lower-case hexadecimal.
    pub fn get_node_id(&self) -> (id: String)
        ensures
            id@ == hex_text(sha256_digest(self.public())),
    {
        proof {
            use_type_invariant(self);
        }
        self.node_id.clone()
    }

    /// The compressed public key.
    pub fn get_public_key(&self) -> (key: [u8; 33])
        ensures
            key@ == self.public(),
            key@ == secp_public_key(self.secret()),
    {
        proof {
            use_type_invariant(self);
        }
        self.public_key
    }

    /// The address at which this node receives funds on the settlement layer.
    pub fn get_bitcoin_address(&self) -> (address: String)
        ensures
            p2wpkh_regtest_address(self.public()) == Some(address@),
    {
        proof {
            use_type_invariant(self);
        }
        self.bitcoin_address.clone()
    }

    /// Signs the SHA-256 digest of `message`. The identity's secret key is always
    /// accepted, so signing succeeds on every message, and the signature is one
    /// that `verify_signature` accepts for the same message under this node's
    /// public key.
    pub fn sign_message(&self, message: &[u8]) -> (r: Result<[u8; 64], LedgerError>)
        ensures
            r matches Ok(signature) && signature@ == ecdsa_signature(
                self.secret(),
                sha256_digest(message@),
            ),
            r matches Ok(signature) && ecdsa_accepts(
                sha256_digest(message@),
                signature@,
                self.public(),
            ),
    {
        proof {
            use_type_invariant(self);
        }
        let digest = sha256(message);
        match ecdsa_sign(&self.secret_key, &digest) {
            Some(signature) => Ok(signature),
            None => Err(LedgerError::SigningFailed),
        }
    }

    /// Whether `signature` is a compact signature of the SHA-256 digest of `message`
    /// under the encoded public key `pubkey`. A signature or key that does not parse
    /// gives `false`.
    pub fn verify_signature(&self, message: &[u8], signature: &[u8], pubkey: &[u8]) -> (ok: bool)
        ensures
            ok == ecdsa_accepts(sha256_digest(message@), signature@, pubkey@),
    {
        let digest = sha256(message);
        ecdsa_verify(&digest, signature, pubkey)
    }

    /// The address that this node and the holder of `other_pubkey` control jointly:
    /// the pay-to-witness-script-hash address of the two-of-two script over both
    /// keys. Fails with `InvalidPeerIdentifier` exactly where `other_pubkey` does
    /// not denote a public key.
    pub fn create_multisig_address(&self, other_pubkey: &[u8]) -> (r: Result<String, LedgerError>)
        ensures
            match secp_compressed_key(other_pubkey@) {
                Some(peer) => r matches Ok(address) && address@ == p2wsh_regtest_address(
                    joint_script(self.public(), peer),
                ),
                None => r == Err::<String, LedgerError>(LedgerError::InvalidPeerIdentifier),
            },
    {
        let peer = match compress_public_key(other_pubkey) {
            Some(key) => key,
            None => {
                return Err(LedgerError::InvalidPeerIdentifier);
            },
        };
        let local_first = precedes(&self.public_key, &peer);
        let builder = script_push_opcode(script_begin(), OP_PUSHNUM_2);
        let builder = if local_first {
            script_push_key(script_push_key(builder, &self.public_key), &peer)
        } else {
            script_push_key(script_push_key(builder, &peer), &self.public_key)
        };
        let builder = script_push_opcode(builder, OP_PUSHNUM_2);
        let builder = script_push_opcode(builder, OP_CHECKMULTISIG);
        assert(script_contents(builder) =~= joint_script(self.public(), peer@));
        Ok(script_address(builder))
    }
}

} // verus!
