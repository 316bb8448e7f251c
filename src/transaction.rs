//! A signed value-transfer record.
use vstd::prelude::*;
use vstd::string::*;
use vstd::utf8::{encode_scalar, encode_utf8};
use crate::primitives::{
    hex_decode, hex_decoded, is_hex_byte, is_hex_encoding, now_seconds, sha256, sha256_of,
};
use crate::signature::{compact_signature_parses, ecdsa_accepts, ecdsa_verify, public_key_parses};

verus! {

/// The reserved sender whose transfers mint value and carry no signature.
pub const FAUCET_MOCKCHAIN_ADDRESS: &'static str = "FAUCET_MOCKCHAIN_ADDRESS";

pub open spec fn is_faucet(address: Seq<char>) -> bool {
    address == FAUCET_MOCKCHAIN_ADDRESS@
}

/// A sender address that is hex text is never the faucet: the faucet
/// identifier holds a letter outside the hex digits.
pub proof fn lemma_hex_sender_is_not_faucet(from: Seq<char>)
    requires
        is_hex_encoding(encode_utf8(from)),
    ensures
        !is_faucet(from),
{
    if is_faucet(from) {
        reveal_strlit("FAUCET_MOCKCHAIN_ADDRESS");
        let c0 = from;
        let c1 = c0.drop_first();
        let c2 = c1.drop_first();
        assert(c0[0] == 'F' && c1[0] == 'A' && c2[0] == 'U');
        assert(encode_scalar('F' as u32).len() == 1);
        assert(encode_scalar('A' as u32).len() == 1);
        assert(0x55u32 & 0x7Fu32 == 0x55u32) by (bit_vector);
        assert(encode_scalar('U' as u32) =~= seq![0x55u8]);
        assert(c0.len() == 24);
        assert(encode_utf8(c0) == encode_scalar(c0[0] as u32) + encode_utf8(c1));
        assert(encode_utf8(c1) == encode_scalar(c1[0] as u32) + encode_utf8(c2));
        assert(encode_utf8(c2) == encode_scalar(c2[0] as u32) + encode_utf8(c2.drop_first()));
        let b = encode_utf8(from);
        assert(encode_utf8(c2)[0] == 0x55u8);
        assert(encode_utf8(c1)[1] == 0x55u8);
        assert(b[2] == 0x55u8);
        assert(!is_hex_byte(b[2]));
    }
}

#[derive(Debug)]
pub struct Transaction {
    pub from: String,
    pub to: String,
    pub amount: u64,
    pub timestamp: u64,
    pub signature: Vec<u8>,
}

/// What a transaction holds, as plain values.
pub struct TransactionView {
    pub from: Seq<char>,
    pub to: Seq<char>,
    pub amount: u64,
    pub timestamp: u64,
    pub signature: Seq<u8>,
}

impl View for Transaction {
    type V = TransactionView;

    open spec fn view(&self) -> TransactionView {
        TransactionView {
            from: self.from@,
            to: self.to@,
            amount: self.amount,
            timestamp: self.timestamp,
            signature: self.signature@,
        }
    }
}

/// The JSON text of the tuple `(from, to, amount, timestamp)`.
pub uninterp spec fn payload_json(from: Seq<char>, to: Seq<char>, amount: u64, timestamp: u64) -> Seq<char>;

/// Relies on serde_json::to_string on a tuple of two strings and two integers.
#[verifier::external_body]
fn payload_json_text(from: &String, to: &String, amount: u64, timestamp: u64) -> (r: String)
    ensures
        r@ == payload_json(from@, to@, amount, timestamp),
{
    serde_json::to_string(&(from, to, amount, timestamp)).unwrap_or_default()
}

impl TransactionView {
    /// The digest that a sender signs.
    pub open spec fn signing_digest(self) -> Seq<u8> {
        sha256_of(encode_utf8(payload_json(self.from, self.to, self.amount, self.timestamp)))
    }

    /// The sender address read as hex text.
    pub open spec fn sender_key_bytes(self) -> Seq<u8> {
        hex_decoded(encode_utf8(self.from))
    }

    /// Sender address and signature decode into a key and a signature.
    pub open spec fn credentials_well_formed(self) -> bool {
        &&& is_hex_encoding(encode_utf8(self.from))
        &&& public_key_parses(self.sender_key_bytes())
        &&& compact_signature_parses(self.signature)
    }

    /// The sender address is hex text, and the signature checks against the
    /// signing digest under the key it decodes to.
    pub open spec fn signature_checks(self) -> bool {
        &&& is_hex_encoding(encode_utf8(self.from))
        &&& ecdsa_accepts(self.signature, self.signing_digest(), self.sender_key_bytes())
    }

    /// The outcome of signature verification: faucet transfers pass, others
    /// pass when their signature checks.
    pub open spec fn verifies(self) -> bool {
        is_faucet(self.from) || self.signature_checks()
    }
}

impl Clone for Transaction {
    fn clone(&self) -> (r: Self)
        ensures
            r@ == self@,
    {
        Transaction {
            from: self.from.clone(),
            to: self.to.clone(),
            amount: self.amount,
            timestamp: self.timestamp,
            signature: self.signature.clone(),
        }
    }
}

impl Transaction {
    /// An unsigned transfer stamped with the current time.
    pub fn new(from: &str, to: &str, amount: u64) -> (r: Self)
        ensures
            r.from@ == from@,
            r.to@ == to@,
            r.amount == amount,
            r.signature@.len() == 0,
    {
        let now = now_seconds();
        let timestamp: u64 = if now < 0 {
            0
        } else {
            now as u64
        };
        Transaction {
            from: from.to_owned(),
            to: to.to_owned(),
            amount,
            timestamp,
            signature: Vec::new(),
        }
    }

    /// The SHA-256 digest of the canonical text of `(from, to, amount, timestamp)`.
    pub fn get_message_to_sign(&self) -> (r: Vec<u8>)
        ensures
            r@ == self@.signing_digest(),
            r@.len() == 32,
    {
        let text = payload_json_text(&self.from, &self.to, self.amount, self.timestamp);
        sha256(text.as_str().as_bytes())
    }

    /// Whether the transaction is admissible on its signature: faucet transfers
    /// always are; any other needs a hex sender key, a compact signature, and a
    /// signature that checks against the signing digest. Malformed input gives
    /// `false`.
    pub fn verify(&self) -> (r: bool)
        ensures
            r == self@.verifies(),
            r ==> is_faucet(self.from@) || self@.credentials_well_formed(),
    {
        let faucet = FAUCET_MOCKCHAIN_ADDRESS.to_owned();
        if self.from == faucet {
            return true;
        }
        let key_bytes = match hex_decode(self.from.as_str()) {
            Some(b) => b,
            None => return false,
        };
        let digest = self.get_message_to_sign();
        ecdsa_verify(self.signature.as_slice(), digest.as_slice(), key_bytes.as_slice())
    }
}

} // verus!
