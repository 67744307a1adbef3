use minichain::audit::ChainFault;
use minichain::block::Block;
use minichain::blockchain::{Blockchain, ConsensusAlgorithm};
use minichain::errors::BlockchainError;
use minichain::hashing::calculate_hash;
use minichain::transaction::{Transaction, TransactionType};

fn transfer(sender: &str, receiver: &str, amount: u64) -> Transaction {
    Transaction::at(sender.to_string(), receiver.to_string(), amount, TransactionType::Transfer, 1234)
}

fn funded_chain(algorithm: ConsensusAlgorithm) -> Blockchain {
    let mut chain = Blockchain::new(1, 1_000_000, algorithm);
    chain.create_wallet("alice".to_string());
    chain.create_wallet("bob".to_string());
    chain.create_wallet("miner".to_string());
    chain.add_funds_to_wallet("alice", 10_000_000).unwrap();
    chain.add_funds_to_wallet("bob", 5_000_000).unwrap();
    chain
}

fn mined_chain() -> Blockchain {
    let mut chain = funded_chain(ConsensusAlgorithm::ProofOfWork);
    chain.add_transaction(transfer("alice", "bob", 500_000)).unwrap();
    chain.produce_block("miner".to_string(), 2_000, 0, false).unwrap();
    chain.add_transaction(transfer("bob", "alice", 200_000)).unwrap();
    chain.add_transaction(transfer("bob", "carol", 100_000)).unwrap();
    chain.produce_block("miner".to_string(), 2_060, 0, false).unwrap();
    chain.add_transaction(transfer("alice", "carol", 10_000)).unwrap();
    chain.produce_block("miner".to_string(), 2_120, 0, false).unwrap();
    chain
}

#[test]
fn new_chain_has_a_genesis_block_and_is_valid() {
    let chain = Blockchain::new(2, 1_000_000, ConsensusAlgorithm::ProofOfWork);
    assert_eq!(chain.chain.len(), 1);
    assert_eq!(chain.chain[0].index, 0);
    assert!(chain.chain[0].transactions.is_empty());
    assert_eq!(chain.chain[0].previous_hash, "0");
    assert_eq!(chain.chain[0].merkle_root, "0");
    assert_eq!(chain.chain[0].difficulty, 2);
    assert_eq!(chain.chain[0].hash, chain.chain[0].calculate_hash());
    assert_eq!(chain.difficulty, 2);
    assert_eq!(chain.mining_reward, 1_000_000);
    assert_eq!(chain.transaction_fees, 0);
    assert!(chain.pending_transactions.is_empty());
    assert!(chain.is_chain_valid());
    assert_eq!(chain.first_invalid_block(), None);
    assert_eq!(chain.get_latest_block().index, 0);
}

#[test]
fn transfer_is_settled_after_mining() {
    let mut chain = Blockchain::new(2, 1_000_000, ConsensusAlgorithm::ProofOfWork);
    chain.create_wallet("alice".to_string());
    chain.create_wallet("bob".to_string());
    chain.create_wallet("miner".to_string());
    chain.add_funds_to_wallet("alice", 10_000_000).unwrap();
    chain.add_funds_to_wallet("bob", 5_000_000).unwrap();
    let tx = Transaction::new("alice".to_string(), "bob".to_string(), 500_000, TransactionType::Transfer);
    assert_eq!(tx.fee, 500);
    assert!(chain.add_transaction(tx).is_ok());
    assert_eq!(chain.get_balance("alice"), 9_499_500);
    assert_eq!(chain.get_balance("bob"), 5_000_000);
    assert!(chain.mine_pending_transactions("miner".to_string()).is_ok());
    assert_eq!(chain.get_balance("alice"), 9_499_500);
    assert_eq!(chain.get_balance("bob"), 5_500_000);
    assert_eq!(chain.get_balance("miner"), 1_000_500);
    assert_eq!(chain.chain.len(), 2);
    assert!(chain.chain[1].hash.starts_with("00"));
    assert_eq!(chain.chain[1].previous_hash, chain.chain[0].hash);
    assert_eq!(chain.chain[1].transactions.len(), 2);
    assert!(chain.pending_transactions.is_empty());
    assert_eq!(chain.transaction_fees, 0);
    assert!(chain.is_chain_valid());
}

#[test]
fn admission_debits_amount_and_fee_at_once() {
    let mut chain = funded_chain(ConsensusAlgorithm::ProofOfWork);
    let tx = transfer("alice", "bob", 500_000);
    let id = tx.id.clone();
    assert!(chain.add_transaction(tx).is_ok());
    assert_eq!(chain.get_balance("alice"), 10_000_000 - 500_000 - 500);
    assert_eq!(chain.get_balance("bob"), 5_000_000);
    assert_eq!(chain.get_balance("miner"), 0);
    assert_eq!(chain.pending_transactions.len(), 1);
    assert_eq!(chain.pending_transactions[0].id, id);
    let alice = chain.get_wallet_info("alice").unwrap();
    assert_eq!(alice.transaction_history, vec![id]);
    assert_eq!(alice.staking_balance, 0);
}

#[test]
fn admission_refuses_an_invalid_entry() {
    let mut chain = funded_chain(ConsensusAlgorithm::ProofOfWork);
    let refused = chain.add_transaction(transfer("alice", "bob", 0));
    match refused {
        Err(BlockchainError::InvalidTransaction(reason)) => assert_eq!(reason, "Транзакция невалидна"),
        _ => panic!("an invalid entry was admitted"),
    }
    assert!(chain.add_transaction(transfer("", "bob", 5)).is_err());
    assert!(chain.add_transaction(transfer("alice", "", 5)).is_err());
    assert!(chain.pending_transactions.is_empty());
    assert_eq!(chain.get_balance("alice"), 10_000_000);
}

#[test]
fn admission_refuses_an_unknown_sender() {
    let mut chain = funded_chain(ConsensusAlgorithm::ProofOfWork);
    let refused = chain.add_transaction(transfer("nobody", "bob", 5));
    match refused {
        Err(e) => assert_eq!(e.message(), "Invalid transaction: Wallet recipient nobody not found"),
        Ok(_) => panic!("an unknown sender was admitted"),
    }
    assert!(chain.pending_transactions.is_empty());
}

#[test]
fn admission_refuses_a_short_balance() {
    let mut chain = funded_chain(ConsensusAlgorithm::ProofOfWork);
    let refused = chain.add_transaction(transfer("bob", "alice", 5_000_000));
    assert!(matches!(
        refused,
        Err(BlockchainError::InsufficientBalance { required: 5_005_000, available: 5_000_000 })
    ));
    assert_eq!(chain.get_balance("bob"), 5_000_000);
    assert!(chain.pending_transactions.is_empty());
    let refused = chain.add_transaction(transfer("bob", "alice", u64::MAX));
    assert!(matches!(
        refused,
        Err(BlockchainError::InsufficientBalance { required: u64::MAX, available: 5_000_000 })
    ));
}

#[test]
fn admission_of_the_exact_balance_empties_the_wallet() {
    let mut chain = Blockchain::new(1, 0, ConsensusAlgorithm::ProofOfWork);
    chain.create_wallet("alice".to_string());
    chain.add_funds_to_wallet("alice", 1_001_000).unwrap();
    assert!(chain.add_transaction(transfer("alice", "bob", 1_000_000)).is_ok());
    assert_eq!(chain.get_balance("alice"), 0);
}

#[test]
fn reward_entries_need_no_wallet() {
    let mut chain = funded_chain(ConsensusAlgorithm::ProofOfWork);
    assert!(chain.add_transaction(transfer("BLOCKCHAIN_REWARD", "bob", 7)).is_ok());
    assert_eq!(chain.pending_transactions.len(), 1);
    assert_eq!(chain.get_balance("bob"), 5_000_000);
}

#[test]
fn funds_need_a_wallet() {
    let mut chain = Blockchain::new(1, 0, ConsensusAlgorithm::ProofOfWork);
    match chain.add_funds_to_wallet("ghost", 5) {
        Err(e) => assert_eq!(e.message(), "Invalid transaction: Кошелек ghost не найден"),
        Ok(_) => panic!("funds went to no wallet"),
    }
    assert_eq!(chain.get_balance("ghost"), 0);
    assert!(chain.get_wallet_info("ghost").is_none());
    let created = chain.create_wallet("ghost".to_string());
    assert_eq!(created.address, "ghost");
    assert_eq!(created.balance, 0);
    chain.add_funds_to_wallet("ghost", 5).unwrap();
    chain.add_funds_to_wallet("ghost", 6).unwrap();
    assert_eq!(chain.get_balance("ghost"), 11);
    let kept = chain.create_wallet("ghost".to_string());
    assert_eq!(kept.balance, 11);
    assert_eq!(chain.get_balance("ghost"), 11);
}

#[test]
fn creating_a_wallet_again_keeps_funds_stake_and_history() {
    let mut chain = funded_chain(ConsensusAlgorithm::ProofOfStake);
    chain.add_validator("alice".to_string(), 3_000_000).unwrap();
    chain.add_transaction(transfer("alice", "bob", 500_000)).unwrap();
    let again = chain.create_wallet("alice".to_string());
    assert_eq!(again.address, "alice");
    assert_eq!(again.balance, 10_000_000 - 3_000_000 - 500_500);
    assert_eq!(again.staking_balance, 3_000_000);
    assert_eq!(again.transaction_history.len(), 1);
    assert_eq!(chain.get_balance("bob"), 5_000_000);
    assert_eq!(chain.pending_transactions.len(), 1);
}

#[test]
fn production_needs_a_producer_wallet() {
    let mut chain = funded_chain(ConsensusAlgorithm::ProofOfWork);
    chain.add_transaction(transfer("alice", "bob", 500_000)).unwrap();
    match chain.produce_block("nobody".to_string(), 2_000, 0, false) {
        Err(e) => assert_eq!(e.message(), "Invalid transaction: Miner wallet nobody not found"),
        Ok(_) => panic!("a block was produced without a producer"),
    }
    assert_eq!(chain.pending_transactions.len(), 1);
    assert_eq!(chain.chain.len(), 1);
    assert_eq!(chain.transaction_fees, 0);
}

#[test]
fn production_settles_receivers_and_creates_wallets() {
    let chain = mined_chain();
    assert_eq!(chain.chain.len(), 4);
    assert!(chain.is_chain_valid());
    assert_eq!(chain.get_balance("alice"), 10_000_000 - 500_500 + 200_000 - 10_010);
    assert_eq!(chain.get_balance("bob"), 5_000_000 + 500_000 - 200_200 - 100_100);
    assert_eq!(chain.get_balance("carol"), 110_000);
    assert_eq!(chain.get_balance("miner"), 3_000_000 + 500 + 300 + 10);
    let carol = chain.get_wallet_info("carol").unwrap();
    assert_eq!(carol.address, "carol");
    assert_eq!(carol.transaction_history.len(), 2);
    assert_eq!(chain.chain[2].index, 2);
    assert_eq!(chain.chain[2].timestamp, 2_060);
    assert_eq!(chain.chain[2].transactions.len(), 3);
    assert_eq!(chain.chain[2].transactions[2].sender, "BLOCKCHAIN_REWARD");
    assert_eq!(chain.chain[2].transactions[2].receiver, "miner");
    assert_eq!(chain.chain[2].transactions[2].amount, 1_000_300);
    assert_eq!(chain.chain[2].previous_hash, chain.chain[1].hash);
    assert!(chain.chain[2].hash.starts_with("0"));
    assert!(chain.chain[2].validator.is_none());
}

#[test]
fn failed_stake_draw_keeps_the_pool() {
    let mut chain = funded_chain(ConsensusAlgorithm::ProofOfStake);
    chain.add_validator("miner".to_string(), 0).unwrap();
    chain.add_transaction(transfer("alice", "bob", 500_000)).unwrap();
    let first = chain.pending_transactions[0].id.clone();
    match chain.produce_block("miner".to_string(), 2_000, 1, false) {
        Err(BlockchainError::ConsensusError(reason)) => assert_eq!(reason, "Cannot validate block with PoS"),
        _ => panic!("a validator without stake succeeded"),
    }
    assert_eq!(chain.chain.len(), 1);
    assert_eq!(chain.pending_transactions.len(), 2);
    assert_eq!(chain.pending_transactions[0].id, first);
    assert_eq!(chain.pending_transactions[1].sender, "BLOCKCHAIN_REWARD");
    assert_eq!(chain.pending_transactions[1].receiver, "miner");
    assert_eq!(chain.pending_transactions[1].amount, 1_000_500);
    assert_eq!(chain.transaction_fees, 500);
    assert_eq!(chain.get_balance("alice"), 9_499_500);
    assert_eq!(chain.get_balance("bob"), 5_000_000);
    assert_eq!(chain.get_balance("miner"), 0);
}

#[test]
fn validator_without_stake_fails_with_a_consensus_error() {
    let mut chain = funded_chain(ConsensusAlgorithm::ProofOfStake);
    chain.add_validator("miner".to_string(), 0).unwrap();
    let mut failures = 0;
    let mut round = 0;
    while round < 20 {
        match chain.mine_pending_transactions("miner".to_string()) {
            Err(BlockchainError::ConsensusError(_)) => failures += 1,
            Err(_) => panic!("another failure than a consensus error"),
            Ok(_) => {}
        }
        round += 1;
    }
    assert!(failures >= 19);
}

#[test]
fn unregistered_producer_is_no_validator() {
    let mut chain = funded_chain(ConsensusAlgorithm::ProofOfStake);
    match chain.produce_block("miner".to_string(), 2_000, 0, false) {
        Err(e) => assert_eq!(e.message(), "Consensus error: This address miner is not a validator"),
        Ok(_) => panic!("an unregistered producer validated a block"),
    }
    assert_eq!(chain.pending_transactions.len(), 1);
}

#[test]
fn stake_draw_within_the_stake_appends_the_block() {
    let mut chain = funded_chain(ConsensusAlgorithm::ProofOfStake);
    chain.add_validator("alice".to_string(), 8_000_000).unwrap();
    assert_eq!(chain.get_balance("alice"), 2_000_000);
    assert_eq!(chain.get_wallet_info("alice").unwrap().staking_balance, 8_000_000);
    chain.add_transaction(transfer("bob", "alice", 250_000)).unwrap();
    assert!(chain.produce_block("alice".to_string(), 2_000, 8_000_000, false).is_ok());
    assert_eq!(chain.chain.len(), 2);
    assert_eq!(chain.chain[1].validator, Some("alice".to_string()));
    assert_eq!(chain.chain[1].hash, chain.chain[1].calculate_hash());
    assert_eq!(chain.get_balance("alice"), 2_000_000 + 250_000 + 1_000_000 + 250);
    assert!(chain.pending_transactions.is_empty());
    assert!(chain.is_chain_valid());
}

#[test]
fn validator_needs_a_wallet_and_the_stake() {
    let mut chain = funded_chain(ConsensusAlgorithm::ProofOfStake);
    match chain.add_validator("nobody".to_string(), 5) {
        Err(e) => assert_eq!(e.message(), "Invalid transaction: Cannot find wallet nobody"),
        Ok(_) => panic!("a validator without a wallet was registered"),
    }
    assert!(matches!(
        chain.add_validator("bob".to_string(), 5_000_001),
        Err(BlockchainError::InsufficientBalance { required: 5_000_001, available: 5_000_000 })
    ));
    assert_eq!(chain.get_balance("bob"), 5_000_000);
}

#[test]
fn delegate_selection_decides_the_round() {
    let mut chain = funded_chain(ConsensusAlgorithm::DelegatedProofOfStake);
    chain.add_transaction(transfer("alice", "bob", 500_000)).unwrap();
    match chain.produce_block("miner".to_string(), 2_000, 0, false) {
        Err(e) => assert_eq!(e.message(), "Consensus error: This address is not a delegate of this block"),
        Ok(_) => panic!("a block was produced without selection"),
    }
    assert_eq!(chain.pending_transactions.len(), 2);
    assert_eq!(chain.chain.len(), 1);
    assert_eq!(chain.get_balance("bob"), 5_000_000);
    assert!(chain.produce_block("miner".to_string(), 2_060, 0, true).is_ok());
    assert_eq!(chain.chain.len(), 2);
    assert_eq!(chain.chain[1].validator, Some("miner".to_string()));
    assert_eq!(chain.chain[1].transactions.len(), 3);
    assert!(chain.pending_transactions.is_empty());
    assert_eq!(chain.get_balance("bob"), 5_500_000);
    assert_eq!(chain.get_balance("miner"), 1_000_500 + 1_000_500 + 1_000);
    assert!(chain.is_chain_valid());
}

#[test]
fn delegated_round_by_the_coin_either_appends_or_keeps_the_pool() {
    let mut chain = funded_chain(ConsensusAlgorithm::DelegatedProofOfStake);
    chain.add_transaction(transfer("alice", "bob", 500_000)).unwrap();
    match chain.mine_pending_transactions("miner".to_string()) {
        Ok(_) => {
            assert_eq!(chain.chain.len(), 2);
            assert!(chain.pending_transactions.is_empty());
        }
        Err(BlockchainError::ConsensusError(_)) => {
            assert_eq!(chain.chain.len(), 1);
            assert_eq!(chain.pending_transactions.len(), 2);
        }
        Err(_) => panic!("another failure than a consensus error"),
    }
    assert!(chain.is_chain_valid());
}

#[test]
fn tampering_with_any_audited_field_is_found_at_its_block() {
    let sound = mined_chain();
    assert_eq!(sound.first_invalid_block(), None);

    let mut chain = mined_chain();
    chain.chain[2].hash = calculate_hash("forged");
    assert!(!chain.is_chain_valid());
    assert_eq!(chain.first_invalid_block(), Some(2));

    let mut chain = mined_chain();
    chain.chain[1].previous_hash = calculate_hash("forged");
    assert_eq!(chain.first_invalid_block(), Some(1));

    let mut chain = mined_chain();
    chain.chain[3].merkle_root = calculate_hash("forged");
    assert_eq!(chain.first_invalid_block(), Some(3));

    let mut chain = mined_chain();
    chain.chain[2].transactions[0].amount = 1;
    assert_eq!(chain.first_invalid_block(), Some(2));

    let mut chain = mined_chain();
    chain.chain[1].index = 7;
    assert_eq!(chain.first_invalid_block(), Some(1));

    let mut chain = mined_chain();
    chain.chain[1].timestamp += 1;
    assert_eq!(chain.first_invalid_block(), Some(1));

    let mut chain = mined_chain();
    chain.chain[3].nonce += 1;
    assert_eq!(chain.first_invalid_block(), Some(3));

    let mut chain = mined_chain();
    chain.chain[2].difficulty += 1;
    assert_eq!(chain.first_invalid_block(), Some(2));
    assert!(!chain.is_chain_valid());
}

#[test]
fn audit_names_the_first_check_that_fails() {
    assert_eq!(mined_chain().find_fault(), None);

    let mut chain = mined_chain();
    chain.chain[2].hash = calculate_hash("forged");
    assert_eq!(chain.find_fault(), Some((2, ChainFault::WrongHash)));

    let mut chain = mined_chain();
    chain.chain[1].nonce += 1;
    assert_eq!(chain.find_fault(), Some((1, ChainFault::WrongHash)));

    let mut chain = mined_chain();
    chain.chain[1].nonce += 1;
    chain.chain[1].hash = chain.chain[1].calculate_hash();
    assert_eq!(chain.find_fault(), Some((2, ChainFault::WrongPreviousHash)));

    let mut chain = mined_chain();
    chain.chain[3].transactions[0].amount = 1;
    assert_eq!(chain.find_fault(), Some((3, ChainFault::WrongMerkleRoot)));

    let mut chain = mined_chain();
    chain.chain[3].transactions[0].amount = 1;
    chain.chain[1].previous_hash = calculate_hash("forged");
    assert_eq!(chain.find_fault(), Some((1, ChainFault::WrongHash)));
}

#[test]
fn audit_does_not_read_the_validator() {
    let mut chain = mined_chain();
    chain.chain[2].validator = Some("someone".to_string());
    assert!(chain.is_chain_valid());
}

#[test]
fn resealed_block_breaks_the_link_of_the_next() {
    let mut chain = mined_chain();
    chain.chain[1].nonce += 1;
    chain.chain[1].hash = chain.chain[1].calculate_hash();
    assert_eq!(chain.first_invalid_block(), Some(2));
}

fn spaced_chain(difficulty: usize, interval: i64, blocks: u64) -> Blockchain {
    let mut chain = Blockchain::new(difficulty, 0, ConsensusAlgorithm::ProofOfWork);
    chain.chain.clear();
    let mut previous = "0".to_string();
    let mut i = 0;
    while i < blocks {
        let block = Block::at(i, 1_000 + interval * (i as i64), Vec::new(), previous.clone(), difficulty);
        previous = block.hash.clone();
        chain.chain.push(block);
        i += 1;
    }
    chain
}

#[test]
fn slow_blocks_lower_the_difficulty() {
    let mut chain = spaced_chain(5, 600, 10);
    chain.adjust_difficulty();
    assert_eq!(chain.difficulty, 4);
}

#[test]
fn fast_blocks_raise_the_difficulty() {
    let mut chain = spaced_chain(5, 10, 10);
    chain.adjust_difficulty();
    assert_eq!(chain.difficulty, 6);
}

#[test]
fn difficulty_stays_inside_the_dead_band_and_off_the_interval() {
    let mut chain = spaced_chain(5, 60, 10);
    chain.adjust_difficulty();
    assert_eq!(chain.difficulty, 5);
    let mut chain = spaced_chain(5, 600, 9);
    chain.adjust_difficulty();
    assert_eq!(chain.difficulty, 5);
    let mut chain = spaced_chain(5, 600, 11);
    chain.adjust_difficulty();
    assert_eq!(chain.difficulty, 5);
    let mut chain = spaced_chain(1, 600, 10);
    chain.adjust_difficulty();
    assert_eq!(chain.difficulty, 1);
    let mut chain = spaced_chain(3, 10, 20);
    chain.adjust_difficulty();
    assert_eq!(chain.difficulty, 4);
}

#[test]
fn difficulty_thresholds_are_exact() {
    let mut chain = spaced_chain(5, 0, 10);
    chain.chain[9].timestamp = 1_000 + 539;
    chain.adjust_difficulty();
    assert_eq!(chain.difficulty, 6);
    let mut chain = spaced_chain(5, 0, 10);
    chain.chain[9].timestamp = 1_000 + 540;
    chain.adjust_difficulty();
    assert_eq!(chain.difficulty, 5);
    let mut chain = spaced_chain(5, 0, 10);
    chain.chain[9].timestamp = 1_000 + 660;
    chain.adjust_difficulty();
    assert_eq!(chain.difficulty, 5);
    let mut chain = spaced_chain(5, 0, 10);
    chain.chain[9].timestamp = 1_000 + 661;
    chain.adjust_difficulty();
    assert_eq!(chain.difficulty, 4);
}

#[test]
fn history_lists_the_entries_of_an_address_in_chain_order() {
    let chain = mined_chain();
    let history = chain.get_transaction_history("carol");
    assert_eq!(history.len(), 2);
    assert_eq!(history[0].sender, "bob");
    assert_eq!(history[0].amount, 100_000);
    assert_eq!(history[1].sender, "alice");
    assert_eq!(history[1].amount, 10_000);
    let miner = chain.get_transaction_history("miner");
    assert_eq!(miner.len(), 3);
    assert_eq!(miner[0].amount, 1_000_500);
    let alice = chain.get_transaction_history("alice");
    assert_eq!(alice.len(), 3);
    assert!(chain.get_transaction_history("nobody").is_empty());
}

#[test]
fn entries_are_found_by_identifier() {
    let chain = mined_chain();
    let wanted = chain.chain[2].transactions[1].id.clone();
    let found = chain.find_transaction(&wanted).unwrap();
    assert_eq!(found.id, wanted);
    assert_eq!(found.sender, "bob");
    assert_eq!(found.receiver, "carol");
    assert_eq!(found.amount, 100_000);
    assert!(chain.find_transaction("none").is_none());
}

#[test]
fn contract_is_deployed_through_admission() {
    let mut chain = funded_chain(ConsensusAlgorithm::ProofOfWork);
    let address = chain
        .create_smart_contract_at("alice".to_string(), "code".to_string(), 100_000, 77)
        .unwrap();
    assert_eq!(
        address,
        "contract_1b29ed25cb8f0b88f83237eb5bd8fe80369aa7b7e92e6ca7708680d706904fcd"
    );
    assert_eq!(chain.get_balance("alice"), 10_000_000 - 100_000 - 6_000);
    assert_eq!(chain.pending_transactions.len(), 1);
    assert_eq!(chain.pending_transactions[0].receiver, address);
    assert!(chain.get_wallet_info(&address).is_some());
    assert_eq!(chain.get_balance(&address), 0);
    assert!(chain.execute_smart_contract(&address, "transfer", Vec::new()).is_err());
    chain.produce_block("miner".to_string(), 2_000, 0, false).unwrap();
    assert_eq!(chain.get_balance(&address), 100_000);
    let answer = chain
        .execute_smart_contract(&address, "transfer", vec!["a".to_string(), "b\"c".to_string()])
        .unwrap();
    assert_eq!(
        answer,
        format!("Called function transfer in smart contract {}: [\"a\", \"b\\\"c\"]", address)
    );
    let answer = chain.execute_smart_contract(&address, "transfer", Vec::new()).unwrap();
    assert_eq!(answer, format!("Called function transfer in smart contract {}: []", address));
}

#[test]
fn contract_deployment_is_refused_like_any_entry() {
    let mut chain = funded_chain(ConsensusAlgorithm::ProofOfWork);
    let refused = chain.create_smart_contract("bob".to_string(), "code".to_string(), 5_000_000);
    assert!(matches!(
        refused,
        Err(BlockchainError::InsufficientBalance { required: 5_055_000, available: 5_000_000 })
    ));
    assert!(chain.pending_transactions.is_empty());
    assert!(chain.create_smart_contract("alice".to_string(), "code".to_string(), 100_000).is_ok());
    assert_eq!(chain.pending_transactions.len(), 1);
}

#[test]
fn unknown_contract_is_not_called() {
    let mut chain = mined_chain();
    match chain.execute_smart_contract("contract_x", "f", Vec::new()) {
        Err(e) => assert_eq!(e.message(), "Invalid transaction: Smart contract contract_x not found"),
        Ok(_) => panic!("an unknown contract answered"),
    }
}

#[test]
fn payload_is_stored_through_admission() {
    let mut chain = funded_chain(ConsensusAlgorithm::ProofOfWork);
    let id = chain.store_data_at("bob".to_string(), vec![1, 2, 3], 5).unwrap();
    assert_eq!(id, "data_908e4fb8d33f02b002d8542f3bcabff5fcaf4a1bef5b174a81e8b55ab3f0d60f");
    assert_eq!(chain.pending_transactions.len(), 1);
    assert_eq!(chain.pending_transactions[0].receiver, "BLOCKCHAIN_DATA");
    assert_eq!(chain.pending_transactions[0].amount, 1_000);
    assert_eq!(chain.pending_transactions[0].fee, 8);
    assert_eq!(chain.get_balance("bob"), 5_000_000 - 1_008);
    assert!(chain.store_data("nobody".to_string(), vec![1]).is_err());
    let id = chain.store_data("bob".to_string(), vec![1, 2, 3]).unwrap();
    assert_eq!(id, "data_908e4fb8d33f02b002d8542f3bcabff5fcaf4a1bef5b174a81e8b55ab3f0d60f");
}
