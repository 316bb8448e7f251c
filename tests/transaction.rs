use mockchain::{Transaction, FAUCET_MOCKCHAIN_ADDRESS};
use secp256k1::{Message, Secp256k1};
use sha2::Digest;

#[test]
fn new_transaction_is_unsigned() {
    let tx = Transaction::new("a", "b", 42);
    assert_eq!(tx.from, "a");
    assert_eq!(tx.to, "b");
    assert_eq!(tx.amount, 42);
    assert!(tx.signature.is_empty());
    assert!(tx.timestamp > 0);
}

#[test]
fn signing_digest_is_sha256_of_json() {
    let tx = Transaction::new("a", "b", 7);
    let text = serde_json::to_string(&(&tx.from, &tx.to, tx.amount, tx.timestamp)).unwrap();
    let expected = sha2::Sha256::digest(text.as_bytes()).to_vec();
    assert_eq!(tx.get_message_to_sign(), expected);
    assert_eq!(tx.get_message_to_sign().len(), 32);
}

#[test]
fn valid_signature_verifies() {
    let secp = Secp256k1::new();
    let (sk, pk) = secp.generate_keypair(&mut rand::thread_rng());
    let mut tx = Transaction::new(&hex::encode(pk.serialize()), "bob", 3);
    let msg = Message::from_digest_slice(&tx.get_message_to_sign()).unwrap();
    tx.signature = secp.sign_ecdsa(&msg, &sk).serialize_compact().to_vec();
    assert!(tx.verify());
    tx.amount = 4;
    assert!(!tx.verify());
}

#[test]
fn uppercase_hex_sender_decodes() {
    let secp = Secp256k1::new();
    let (sk, pk) = secp.generate_keypair(&mut rand::thread_rng());
    let mut tx = Transaction::new(&hex::encode_upper(pk.serialize()), "bob", 3);
    let msg = Message::from_digest_slice(&tx.get_message_to_sign()).unwrap();
    tx.signature = secp.sign_ecdsa(&msg, &sk).serialize_compact().to_vec();
    assert!(tx.verify());
}

#[test]
fn malformed_inputs_fail_closed() {
    assert!(!Transaction::new("badaddr", "x", 1).verify());
    assert!(!Transaction::new("zz", "x", 1).verify());
    assert!(!Transaction::new("", "x", 1).verify());
    let secp = Secp256k1::new();
    let (_, pk) = secp.generate_keypair(&mut rand::thread_rng());
    let mut tx = Transaction::new(&hex::encode(pk.serialize()), "x", 1);
    assert!(!tx.verify());
    tx.signature = vec![0u8; 64];
    assert!(!tx.verify());
}

#[test]
fn faucet_transaction_verifies() {
    assert!(Transaction::new(FAUCET_MOCKCHAIN_ADDRESS, "x", 1).verify());
}
