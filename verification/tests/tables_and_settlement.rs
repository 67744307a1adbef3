use minichain::address_map::AddressMap;
use minichain::block::Block;
use minichain::blockchain::ConsensusAlgorithm;
use minichain::errors::BlockchainError;
use minichain::production::{credit_receiver, credit_receivers, finalize_block, sum_fees};
use minichain::text::{clone_texts, push_text};
use minichain::transaction::{clone_transactions, Transaction, TransactionType};
use minichain::wallet::Wallet;

fn transfer(sender: &str, receiver: &str, amount: u64) -> Transaction {
    Transaction::at(sender.to_string(), receiver.to_string(), amount, TransactionType::Transfer, 1234)
}

#[test]
fn table_holds_one_value_for_each_address() {
    let mut table: AddressMap<u64> = AddressMap::new();
    assert!(!table.contains_key(&"a".to_string()));
    assert!(table.get(&"a".to_string()).is_none());
    table.insert("a".to_string(), 1);
    table.insert("b".to_string(), 2);
    assert_eq!(table.get(&"a".to_string()), Some(&1));
    assert_eq!(table.get(&"b".to_string()), Some(&2));
    assert!(table.get(&"c".to_string()).is_none());
    table.insert("a".to_string(), 3);
    assert_eq!(table.get(&"a".to_string()), Some(&3));
    assert_eq!(table.get(&"b".to_string()), Some(&2));
    assert!(table.contains_key(&"b".to_string()));
}

#[test]
fn fees_are_summed_and_held_at_the_largest_amount() {
    assert_eq!(sum_fees(&Vec::new()), 0);
    let txs = vec![transfer("a", "b", 500_000), transfer("a", "b", 200_000), transfer("a", "b", 999)];
    assert_eq!(sum_fees(&txs), 700);
    let mut huge = transfer("a", "b", 1);
    huge.fee = u64::MAX - 100;
    let txs = vec![transfer("a", "b", 500_000), huge];
    assert_eq!(sum_fees(&txs), u64::MAX);
}

#[test]
fn settlement_credits_each_receiver_in_order() {
    let mut wallets: AddressMap<Wallet> = AddressMap::new();
    let mut bob = Wallet::new("bob".to_string());
    bob.balance = 10;
    bob.staking_balance = 4;
    bob.transaction_history.push("old".to_string());
    wallets.insert("bob".to_string(), bob);
    let txs = vec![transfer("alice", "bob", 5), transfer("alice", "carol", 7), transfer("bob", "carol", 1)];
    credit_receivers(&mut wallets, &txs);
    let bob = wallets.get(&"bob".to_string()).unwrap();
    assert_eq!(bob.balance, 15);
    assert_eq!(bob.staking_balance, 4);
    assert_eq!(bob.transaction_history, vec!["old".to_string(), txs[0].id.clone()]);
    let carol = wallets.get(&"carol".to_string()).unwrap();
    assert_eq!(carol.address, "carol");
    assert_eq!(carol.balance, 8);
    assert_eq!(carol.staking_balance, 0);
    assert_eq!(carol.transaction_history, vec![txs[1].id.clone(), txs[2].id.clone()]);
    assert!(wallets.get(&"alice".to_string()).is_none());
}

#[test]
fn settlement_pays_rewards_but_not_the_reward_address_itself() {
    let mut wallets: AddressMap<Wallet> = AddressMap::new();
    credit_receiver(&mut wallets, &transfer("BLOCKCHAIN_REWARD", "miner", 9));
    assert_eq!(wallets.get(&"miner".to_string()).unwrap().balance, 9);
    credit_receiver(&mut wallets, &transfer("BLOCKCHAIN_REWARD", "BLOCKCHAIN_REWARD", 9));
    assert!(wallets.get(&"BLOCKCHAIN_REWARD".to_string()).is_none());
    credit_receiver(&mut wallets, &transfer("alice", "BLOCKCHAIN_REWARD", 3));
    assert_eq!(wallets.get(&"BLOCKCHAIN_REWARD".to_string()).unwrap().balance, 3);
}

#[test]
fn settlement_holds_a_balance_at_the_largest_amount() {
    let mut wallets: AddressMap<Wallet> = AddressMap::new();
    credit_receiver(&mut wallets, &transfer("a", "rich", u64::MAX - 1));
    credit_receiver(&mut wallets, &transfer("a", "rich", 5));
    assert_eq!(wallets.get(&"rich".to_string()).unwrap().balance, u64::MAX);
}

#[test]
fn consensus_rule_finalizes_or_names_its_failure() {
    let mut validators: AddressMap<u64> = AddressMap::new();
    validators.insert("val".to_string(), 100);
    let start = Block::at(1, 1000, Vec::new(), "0".to_string(), 1);

    let mut block = start.clone();
    let done = finalize_block(ConsensusAlgorithm::ProofOfWork, &mut block, &validators, &"val".to_string(), 0, false);
    assert!(done.is_ok());
    assert!(block.hash.starts_with("0"));
    assert!(block.validator.is_none());
    assert_eq!(block.hash, block.calculate_hash());

    let mut block = start.clone();
    let done = finalize_block(ConsensusAlgorithm::ProofOfStake, &mut block, &validators, &"val".to_string(), 100, false);
    assert!(done.is_ok());
    assert_eq!(block.validator, Some("val".to_string()));
    assert_eq!(block.hash, start.hash);

    let mut block = start.clone();
    let done = finalize_block(ConsensusAlgorithm::ProofOfStake, &mut block, &validators, &"val".to_string(), 101, true);
    assert!(matches!(done, Err(BlockchainError::ConsensusError(_))));

    let mut block = start.clone();
    let done = finalize_block(ConsensusAlgorithm::ProofOfStake, &mut block, &validators, &"other".to_string(), 0, true);
    match done {
        Err(e) => assert_eq!(e.message(), "Consensus error: This address other is not a validator"),
        Ok(_) => panic!("an unregistered validator finalized a block"),
    }

    let mut block = start.clone();
    block.hash = "stale".to_string();
    let done = finalize_block(ConsensusAlgorithm::DelegatedProofOfStake, &mut block, &validators, &"d".to_string(), 0, true);
    assert!(done.is_ok());
    assert_eq!(block.validator, Some("d".to_string()));
    assert_eq!(block.hash, "stale");

    let mut block = start.clone();
    let done = finalize_block(ConsensusAlgorithm::DelegatedProofOfStake, &mut block, &validators, &"d".to_string(), 0, false);
    assert!(matches!(done, Err(BlockchainError::ConsensusError(_))));
}

#[test]
fn copies_keep_their_contents() {
    let texts = vec!["a".to_string(), String::new(), "bc".to_string()];
    assert_eq!(clone_texts(&texts), texts);
    let txs = vec![transfer("alice", "bob", 5), transfer("bob", "carol", 7)];
    let copy = clone_transactions(&txs);
    assert_eq!(copy.len(), 2);
    assert_eq!(copy[0].id, txs[0].id);
    assert_eq!(copy[1].id, txs[1].id);
    assert_eq!(copy[1].receiver, "carol");
    let mut out = "ab".to_string();
    push_text(&mut out, &"cd".to_string());
    assert_eq!(out, "abcd");
    let w = {
        let mut w = Wallet::new("w".to_string());
        w.balance = 3;
        w.transaction_history.push("t".to_string());
        w
    };
    let copy = w.clone();
    assert_eq!(copy.address, "w");
    assert_eq!(copy.balance, 3);
    assert_eq!(copy.transaction_history, vec!["t".to_string()]);
}
