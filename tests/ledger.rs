use mockchain::ledger::{FAUCET_AMOUNT, MINING_REWARD};
use mockchain::{Blockchain, ConsensusType, Transaction, FAUCET_MOCKCHAIN_ADDRESS};
use secp256k1::{Message, PublicKey, Secp256k1, SecretKey};

fn pow_ledger() -> Blockchain {
    let consensus = ConsensusType::ProofOfWorkType { difficulty: 2 }.create_consensus();
    Blockchain::new(consensus).expect("difficulty 2 is reachable")
}

fn keypair() -> (SecretKey, PublicKey, String) {
    let secp = Secp256k1::new();
    let (sk, pk) = secp.generate_keypair(&mut rand::thread_rng());
    (sk, pk, hex::encode(pk.serialize()))
}

fn signed(sk: &SecretKey, from: &str, to: &str, amount: u64) -> Transaction {
    let mut tx = Transaction::new(from, to, amount);
    let digest = tx.get_message_to_sign();
    let msg = Message::from_digest_slice(&digest).unwrap();
    tx.signature = Secp256k1::new().sign_ecdsa(&msg, sk).serialize_compact().to_vec();
    tx
}

fn fund(ledger: &mut Blockchain, address: &str, amount: u64) {
    assert!(ledger.add_transaction(Transaction::new(FAUCET_MOCKCHAIN_ADDRESS, address, amount)));
    assert!(ledger.produce_block("funder".to_string()).is_some());
}

#[test]
fn new_ledger_holds_genesis() {
    let ledger = pow_ledger();
    assert_eq!(ledger.chain().len(), 1);
    let genesis = &ledger.chain()[0];
    assert_eq!(genesis.index, 0);
    assert!(genesis.hash.starts_with("00"));
    assert_eq!(genesis.previous_hash, "0");
    assert!(genesis.transactions.is_empty());
    assert!(ledger.transaction_pool().is_empty());
}

#[test]
fn faucet_transfer_enters_pool() {
    let mut ledger = pow_ledger();
    let tx = Transaction::new(FAUCET_MOCKCHAIN_ADDRESS, "alice", 1000);
    assert!(ledger.add_transaction(tx));
    assert_eq!(ledger.transaction_pool().len(), 1);
}

#[test]
fn produce_block_commits_pool() {
    let mut ledger = pow_ledger();
    assert!(ledger.add_transaction(Transaction::new(FAUCET_MOCKCHAIN_ADDRESS, "alice", 1000)));
    let block = ledger.produce_block("m1".to_string()).expect("pool is not empty");
    assert_eq!(block.index, 1);
    assert_eq!(block.transactions.len(), 1);
    assert_eq!(block.transactions[0].to, "alice");
    assert_eq!(block.transactions[0].amount, 1000);
    assert_eq!(block.miner, "m1");
    assert_eq!(ledger.chain().len(), 2);
    assert!(ledger.transaction_pool().is_empty());
    assert_eq!(ledger.get_balance("alice"), 1000);
    assert_eq!(ledger.get_balance("m1"), 50);
}

#[test]
fn undecodable_sender_is_rejected() {
    let mut ledger = pow_ledger();
    let tx = Transaction::new("badaddr", "alice", 100);
    assert!(!ledger.add_transaction(tx));
    assert_eq!(ledger.transaction_pool().len(), 0);
}

#[test]
fn insufficient_balance_is_rejected() {
    let mut ledger = pow_ledger();
    let (sk, _, alice) = keypair();
    fund(&mut ledger, &alice, 1000);
    assert_eq!(ledger.get_balance(&alice), 1000);
    let tx = signed(&sk, &alice, "bob", 2000);
    assert!(tx.verify());
    assert!(!ledger.add_transaction(tx));
    assert_eq!(ledger.transaction_pool().len(), 0);
}

#[test]
fn produce_on_empty_pool_does_nothing() {
    let mut ledger = pow_ledger();
    assert!(ledger.produce_block("m1".to_string()).is_none());
    assert_eq!(ledger.chain().len(), 1);
}

#[test]
fn signed_transfer_within_balance_is_admitted() {
    let mut ledger = pow_ledger();
    let (sk, _, alice) = keypair();
    fund(&mut ledger, &alice, 1000);
    assert!(ledger.add_transaction(signed(&sk, &alice, "bob", 300)));
    assert_eq!(ledger.transaction_pool().len(), 1);
    ledger.produce_block("m2".to_string()).unwrap();
    assert_eq!(ledger.get_balance(&alice), 700);
    assert_eq!(ledger.get_balance("bob"), 300);
    assert_eq!(ledger.get_balance("m2"), MINING_REWARD);
}

#[test]
fn forged_signature_is_rejected() {
    let mut ledger = pow_ledger();
    let (_, _, alice) = keypair();
    let (other_sk, _, _) = keypair();
    fund(&mut ledger, &alice, 1000);
    assert!(!ledger.add_transaction(signed(&other_sk, &alice, "bob", 10)));
    let mut tampered = signed(&other_sk, &alice, "bob", 10);
    tampered.signature.truncate(10);
    assert!(!ledger.add_transaction(tampered));
    assert_eq!(ledger.transaction_pool().len(), 0);
}

#[test]
fn faucet_bypasses_signature_content() {
    let mut ledger = pow_ledger();
    let mut tx = Transaction::new(FAUCET_MOCKCHAIN_ADDRESS, "carol", 5);
    tx.signature = vec![1, 2, 3];
    assert!(tx.verify());
    assert!(ledger.add_transaction(tx));
    assert_eq!(ledger.transaction_pool().len(), 1);
}

#[test]
fn chain_stays_linked_over_several_blocks() {
    let mut ledger = pow_ledger();
    for round in 0..3u64 {
        ledger.add_transaction(Transaction::new(FAUCET_MOCKCHAIN_ADDRESS, "dave", round + 1));
        ledger.add_transaction(Transaction::new(FAUCET_MOCKCHAIN_ADDRESS, "erin", 7));
        ledger.produce_block(format!("miner{}", round)).unwrap();
    }
    let chain = ledger.chain();
    assert_eq!(chain.len(), 4);
    for i in 1..chain.len() {
        assert_eq!(chain[i].index, i as u64);
        assert_eq!(chain[i].previous_hash, chain[i - 1].hash);
        assert_eq!(chain[i].transactions.len(), 2);
        assert!(chain[i].hash.starts_with("00"));
        let prev = chain[i - 1].hash.clone();
        assert!(ledger.consensus().validate_block(&chain[i], &prev));
        assert!(ledger.consensus().validate_block(&chain[i], &prev));
    }
    assert!(ledger.consensus().validate_block(&chain[0], "0"));
    assert_eq!(ledger.get_balance("dave"), 6);
    assert_eq!(ledger.get_balance("erin"), 21);
    assert_eq!(ledger.get_balance("miner1"), 50);
}

#[test]
fn debit_is_floored_at_zero() {
    let mut ledger = pow_ledger();
    let (sk, _, alice) = keypair();
    fund(&mut ledger, &alice, 100);
    assert!(ledger.add_transaction(signed(&sk, &alice, "bob", 100)));
    assert!(ledger.add_transaction(signed(&sk, &alice, "bob", 100)));
    ledger.produce_block("m3".to_string()).unwrap();
    assert_eq!(ledger.get_balance(&alice), 0);
    assert_eq!(ledger.get_balance("bob"), 200);
}

#[test]
fn balance_counts_rewards_per_block() {
    let mut ledger = pow_ledger();
    for _ in 0..3 {
        ledger.add_transaction(Transaction::new(FAUCET_MOCKCHAIN_ADDRESS, "x", 1));
        ledger.produce_block("rich".to_string()).unwrap();
    }
    assert_eq!(ledger.get_balance("rich"), 150);
    assert!(ledger.check_balance("rich", 150));
    assert!(!ledger.check_balance("rich", 151));
    assert_eq!(ledger.get_balance("nobody"), 0);
}

#[test]
fn mined_block_credits_hex_of_key() {
    let mut ledger = pow_ledger();
    let (_, pk, address) = keypair();
    ledger.add_transaction(Transaction::new(FAUCET_MOCKCHAIN_ADDRESS, "y", 1));
    let block = ledger.mine_pending_transactions(&pk).unwrap();
    assert_eq!(block.miner, address);
    assert_eq!(block.miner.len(), 66);
    assert_eq!(ledger.get_balance(&address), 50);
}

#[test]
fn background_step_waits_for_full_pool() {
    let mut ledger = pow_ledger();
    let (_, pk, _) = keypair();
    for _ in 0..10 {
        ledger.add_transaction(Transaction::new(FAUCET_MOCKCHAIN_ADDRESS, "z", 1));
    }
    assert!(ledger.mine_if_pool_full(&pk).is_none());
    assert_eq!(ledger.transaction_pool().len(), 10);
    ledger.add_transaction(Transaction::new(FAUCET_MOCKCHAIN_ADDRESS, "z", 1));
    let block = ledger.mine_if_pool_full(&pk).unwrap();
    assert_eq!(block.transactions.len(), 11);
    assert!(ledger.transaction_pool().is_empty());
    assert_eq!(ledger.get_balance("z"), 11);
}

#[test]
fn faucet_request_credits_and_mines() {
    let mut ledger = pow_ledger();
    let (_, pk, _) = keypair();
    let receipt = ledger.request_faucet("frank", &pk);
    assert!(receipt.success);
    assert_eq!(receipt.amount, FAUCET_AMOUNT);
    let block = receipt.block.unwrap();
    assert_eq!(block.transactions[0].from, FAUCET_MOCKCHAIN_ADDRESS);
    assert_eq!(ledger.get_balance("frank"), 1000);
}

#[test]
fn pool_keeps_submission_order() {
    let mut ledger = pow_ledger();
    for amount in [5u64, 3, 9] {
        ledger.add_transaction(Transaction::new(FAUCET_MOCKCHAIN_ADDRESS, "g", amount));
    }
    let block = ledger.produce_block("m".to_string()).unwrap();
    let amounts: Vec<u64> = block.transactions.iter().map(|t| t.amount).collect();
    assert_eq!(amounts, vec![5, 3, 9]);
}

#[test]
fn stake_ledger_produces_blocks() {
    let consensus = ConsensusType::ProofOfStakeType { min_stake: 10 }.create_consensus();
    assert_eq!(consensus.name(), "proof of stake");
    let mut ledger = Blockchain::new(consensus).unwrap();
    ledger.add_transaction(Transaction::new(FAUCET_MOCKCHAIN_ADDRESS, "h", 4));
    let block = ledger.produce_block("v".to_string()).unwrap();
    assert_eq!(block.index, 1);
    assert_eq!(block.previous_hash, ledger.chain()[0].hash);
    assert!(ledger.consensus().validate_block(&block, &ledger.chain()[0].hash));
    assert_eq!(ledger.get_balance("h"), 4);
}

#[test]
fn faucet_request_commits_queued_transfers_too() {
    let mut ledger = pow_ledger();
    let (_, pk, miner) = keypair();
    ledger.add_transaction(Transaction::new(FAUCET_MOCKCHAIN_ADDRESS, "q", 7));
    let receipt = ledger.request_faucet("frank", &pk);
    let block = receipt.block.unwrap();
    assert_eq!(block.transactions.len(), 2);
    assert_eq!(block.transactions[0].to, "q");
    assert_eq!(block.transactions[1].to, "frank");
    assert_eq!(block.transactions[1].amount, FAUCET_AMOUNT);
    assert!(block.transactions[1].signature.is_empty());
    assert_eq!(block.miner, miner);
    assert_eq!(ledger.chain().len(), 2);
    assert!(ledger.transaction_pool().is_empty());
}

#[test]
fn genesis_has_no_miner_under_proof_of_work() {
    let ledger = pow_ledger();
    assert_eq!(ledger.chain()[0].miner, "");
    assert_eq!(ledger.get_balance(""), MINING_REWARD);
}
