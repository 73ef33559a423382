use ed25519_dalek::SigningKey;
use rand::rngs::OsRng;

use nebula::api::{
    build_transaction, finalize_transaction, get_latest_block, submit_transaction,
};
use nebula::consensus::{
    add_transaction, cancel_transaction, compute_transaction_hash, produce_block, validate_block,
    ConsensusEngine,
};
use nebula::crypto::{sign_data, signer_address, signer_public_bytes};
use nebula::errors::CoreError;
use nebula::nervous::NervousSystem;
use nebula::types::{TransactionType, ValidatorInfo};

fn wallet() -> (SigningKey, Vec<u8>, String) {
    let key = SigningKey::generate(&mut OsRng);
    let public = signer_public_bytes(&key);
    let address = signer_address(&key);
    (key, public, address)
}

#[test]
fn test_full_transaction_flow() {
    let _nervous_system = NervousSystem::new();

    let mut consensus_engine = ConsensusEngine::new(Vec::new());

    let (signing_key, public_key, address) = wallet();
    let (_recipient_signing_key, recipient_public_key, recipient_address) = wallet();

    let amount = 100;

    consensus_engine.init_ledger(address.clone(), public_key, amount);
    consensus_engine.init_ledger(recipient_address.clone(), recipient_public_key, amount);

    let mut tx = build_transaction(
        &consensus_engine,
        address.clone(),
        recipient_address.clone(),
        amount,
        0,
        0,
        TransactionType::Transfer,
    );

    finalize_transaction(&mut tx, &signing_key).expect("Finalization failed");

    submit_transaction(&mut consensus_engine, tx).expect("Transaction submission failed");

    assert_eq!(
        consensus_engine.mempool.len(),
        1,
        "Mempool should contain 1 transaction"
    );
}

#[test]
fn transfer_settles_and_block_validates() {
    let ns = NervousSystem::new();
    let (key, public, address) = wallet();
    let (_rkey, rpublic, raddress) = wallet();
    let mut engine = ConsensusEngine::new(vec![ValidatorInfo {
        address: address.clone(),
        neuron_id: 0,
        active: true,
    }]);
    engine.init_ledger(address.clone(), public, 100);
    engine.init_ledger(raddress.clone(), rpublic, 0);

    let mut tx = build_transaction(
        &engine,
        address.clone(),
        raddress.clone(),
        40,
        0,
        0,
        TransactionType::Transfer,
    );
    finalize_transaction(&mut tx, &key).unwrap();
    submit_transaction(&mut engine, tx).unwrap();

    assert_eq!(engine.mempool.len(), 1);
    assert_eq!(engine.get_balance(&address), 60);
    assert_eq!(engine.get_balance(&raddress), 40);

    let block = produce_block(&mut engine, &ns, &key).unwrap();
    assert_eq!(block.transactions.len(), 1);
    assert_eq!(engine.mempool.len(), 0);
    assert_eq!(engine.chain.len(), 1);
    assert!(validate_block(&engine, &block).is_ok());

    let latest = get_latest_block(&engine).unwrap();
    assert_eq!(latest.header.validator, address);
}

#[test]
fn canonical_hash_is_stable_under_clearing() {
    let (key, _public, address) = wallet();
    let (_rkey, _rpublic, raddress) = wallet();
    let engine = ConsensusEngine::new(Vec::new());
    let mut tx = build_transaction(
        &engine,
        address,
        raddress,
        5,
        7,
        9,
        TransactionType::Transfer,
    );
    finalize_transaction(&mut tx, &key).unwrap();
    let filled = compute_transaction_hash(&tx).unwrap();
    assert_eq!(filled, tx.hash);

    let mut cleared = tx.clone();
    cleared.hash = String::new();
    cleared.signature = Vec::new();
    let once = compute_transaction_hash(&cleared).unwrap();
    let twice = compute_transaction_hash(&cleared).unwrap();
    assert_eq!(once, twice);
    assert_eq!(once, filled);
}

#[test]
fn add_transaction_rejects_each_fault() {
    let (key, public, address) = wallet();
    let (_rkey, rpublic, raddress) = wallet();
    let mut engine = ConsensusEngine::new(Vec::new());
    engine.init_ledger(address.clone(), public, 50);
    engine.init_ledger(raddress.clone(), rpublic, 0);

    let mut good = build_transaction(
        &engine,
        address.clone(),
        raddress.clone(),
        10,
        0,
        0,
        TransactionType::Transfer,
    );
    finalize_transaction(&mut good, &key).unwrap();

    let mut wrong_hash = good.clone();
    wrong_hash.hash = "00".to_string();
    assert_eq!(add_transaction(&mut engine, wrong_hash), Err(CoreError::InvalidHash));

    let mut bad_address = good.clone();
    bad_address.from = "not-hex".to_string();
    let h = compute_transaction_hash(&bad_address).unwrap();
    bad_address.hash = h;
    assert_eq!(add_transaction(&mut engine, bad_address), Err(CoreError::InvalidAddress));

    let mut unsigned = good.clone();
    unsigned.signature = Vec::new();
    let h = compute_transaction_hash(&unsigned).unwrap();
    unsigned.hash = h;
    assert_eq!(add_transaction(&mut engine, unsigned), Err(CoreError::InvalidSignature));

    let other = SigningKey::generate(&mut OsRng);
    let mut forged = good.clone();
    forged.amount = 20;
    finalize_transaction(&mut forged, &other).unwrap();
    assert_eq!(add_transaction(&mut engine, forged), Err(CoreError::InvalidSignature));

    let mut too_big = build_transaction(
        &engine,
        address.clone(),
        raddress.clone(),
        60,
        0,
        0,
        TransactionType::Transfer,
    );
    finalize_transaction(&mut too_big, &key).unwrap();
    assert_eq!(add_transaction(&mut engine, too_big), Err(CoreError::InsufficientFunds));

    let (_, _, stranger) = wallet();
    let mut no_receiver = build_transaction(
        &engine,
        address.clone(),
        stranger,
        10,
        0,
        0,
        TransactionType::Transfer,
    );
    finalize_transaction(&mut no_receiver, &key).unwrap();
    assert_eq!(add_transaction(&mut engine, no_receiver), Err(CoreError::UnknownReceiver));

    assert_eq!(engine.get_balance(&address), 50);
    assert_eq!(engine.get_balance(&raddress), 0);
    assert_eq!(engine.mempool.len(), 0);
}

#[test]
fn unknown_sender_gains_an_empty_account() {
    let (key, _public, address) = wallet();
    let (_rkey, rpublic, raddress) = wallet();
    let mut engine = ConsensusEngine::new(Vec::new());
    engine.init_ledger(raddress.clone(), rpublic, 0);

    let mut tx = build_transaction(
        &engine,
        address.clone(),
        raddress,
        10,
        0,
        0,
        TransactionType::Transfer,
    );
    finalize_transaction(&mut tx, &key).unwrap();
    assert_eq!(add_transaction(&mut engine, tx), Err(CoreError::InsufficientFunds));
    let created = engine.get_ledger(&address).expect("sender account should be created");
    assert_eq!(created.balance, 0);
}

#[test]
fn cancel_transaction_removes_only_the_match() {
    let (key, public, address) = wallet();
    let (_rkey, rpublic, raddress) = wallet();
    let mut engine = ConsensusEngine::new(Vec::new());
    engine.init_ledger(address.clone(), public, 100);
    engine.init_ledger(raddress.clone(), rpublic, 0);
    let mut tx = build_transaction(
        &engine,
        address.clone(),
        raddress.clone(),
        10,
        0,
        0,
        TransactionType::Transfer,
    );
    finalize_transaction(&mut tx, &key).unwrap();
    let hash = tx.hash.clone();
    add_transaction(&mut engine, tx).unwrap();
    assert_eq!(
        cancel_transaction(&mut engine, "feed".to_string()),
        Err(CoreError::TransactionNotFound)
    );
    assert_eq!(engine.mempool.len(), 1);
    assert!(cancel_transaction(&mut engine, hash).is_ok());
    assert_eq!(engine.mempool.len(), 0);
}

#[test]
fn validate_block_rejects_each_fault() {
    let ns = NervousSystem::new();
    let (key, public, address) = wallet();
    let mut engine = ConsensusEngine::new(vec![ValidatorInfo {
        address: address.clone(),
        neuron_id: 0,
        active: true,
    }]);
    engine.init_ledger(address.clone(), public, 100);
    let block = produce_block(&mut engine, &ns, &key).unwrap();

    let inactive = ConsensusEngine::new(vec![ValidatorInfo {
        address: address.clone(),
        neuron_id: 0,
        active: false,
    }]);
    assert_eq!(
        validate_block(&inactive, &block),
        Err(CoreError::ValidatorInactive)
    );

    let mut tampered_root = block.clone();
    tampered_root.header.merkle_root[0] ^= 1;
    let signable = nebula::codec::serialize_header_for_signing(&tampered_root.header);
    tampered_root.header.signature = sign_data(&key, &signable);
    assert_eq!(
        validate_block(&engine, &tampered_root),
        Err(CoreError::MerkleMismatch)
    );

    let mut tampered_sig = block.clone();
    tampered_sig.header.signature[0] ^= 1;
    assert_eq!(
        validate_block(&engine, &tampered_sig),
        Err(CoreError::InvalidSignature)
    );

    let mut skewed = block.clone();
    skewed.header.timestamp += 100_000;
    let signable = nebula::codec::serialize_header_for_signing(&skewed.header);
    skewed.header.signature = sign_data(&key, &signable);
    assert_eq!(validate_block(&engine, &skewed), Err(CoreError::TimestampSkew));

    let mut bad_validator = block.clone();
    bad_validator.header.validator = "zz".to_string();
    assert_eq!(
        validate_block(&engine, &bad_validator),
        Err(CoreError::InvalidAddress)
    );

    assert!(validate_block(&engine, &block).is_ok());
}

#[test]
fn produced_blocks_link_by_parent_hash() {
    let ns = NervousSystem::new();
    let (key, public, address) = wallet();
    let mut engine = ConsensusEngine::new(Vec::new());
    engine.init_ledger(address.clone(), public, 100);
    let first = produce_block(&mut engine, &ns, &key).unwrap();
    assert_eq!(first.header.parent_hash, [0u8; 32]);
    let second = produce_block(&mut engine, &ns, &key).unwrap();
    assert_eq!(second.header.parent_hash, nebula::consensus::hash_block(&first));
}
