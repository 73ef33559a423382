use ed25519_dalek::SigningKey;
use rand::rngs::OsRng;

use nebula::consensus::{
    delegate_stake, register_validator, select_next_validator, slash, ConsensusEngine,
};
use nebula::merkle::compute_merkle_root;
use nebula::crypto::{signer_address, signer_public_bytes};
use nebula::errors::CoreError;
use nebula::nervous::{create_neuron, get_neuron, NervousSystem};
use nebula::staking::stake;
use nebula::types::{Transaction, TransactionStatus, TransactionType, ValidatorInfo};

fn wallet() -> (SigningKey, Vec<u8>, String) {
    let key = SigningKey::generate(&mut OsRng);
    let public = signer_public_bytes(&key);
    let address = signer_address(&key);
    (key, public, address)
}

fn plain_tx(amount: u64) -> Transaction {
    Transaction {
        hash: String::new(),
        kind: TransactionType::Transfer,
        status: TransactionStatus::Pending,
        index: 0,
        timestamp: 7,
        from: "aa".to_string(),
        to: "bb".to_string(),
        amount,
        fee: 0,
        memo: 0,
        nrc_memo: 0,
        signature: Vec::new(),
    }
}

#[test]
fn merkle_root_is_deterministic_and_order_sensitive() {
    let list = vec![plain_tx(1), plain_tx(2)];
    let again = vec![plain_tx(1), plain_tx(2)];
    let swapped = vec![plain_tx(2), plain_tx(1)];
    assert_eq!(compute_merkle_root(&list), compute_merkle_root(&again));
    assert_ne!(compute_merkle_root(&list), compute_merkle_root(&swapped));
    assert_eq!(compute_merkle_root(&[]), [0u8; 32]);
    assert_ne!(compute_merkle_root(&list[..1]), compute_merkle_root(&list));
}

#[test]
fn selection_returns_none_without_delegated_stake() {
    let ns = NervousSystem::new();
    let engine = ConsensusEngine::new(Vec::new());
    assert_eq!(select_next_validator(&engine, &ns), None);

    // A delegating neuron with zero stake still selects nobody.
    let mut ns = NervousSystem::new();
    let (key, _public, address) = wallet();
    create_neuron(&mut ns, &key, "zero".to_string(), 0).unwrap();
    let engine = ConsensusEngine::new(vec![ValidatorInfo {
        address: address.clone(),
        neuron_id: 1,
        active: true,
    }]);
    assert_eq!(select_next_validator(&engine, &ns), None);
}

#[test]
fn sole_delegate_is_always_selected() {
    let mut ns = NervousSystem::new();
    let (key, public, address) = wallet();
    let mut engine = ConsensusEngine::new(vec![ValidatorInfo {
        address: address.clone(),
        neuron_id: 1,
        active: true,
    }]);
    engine.init_ledger(address.clone(), public, 1000);
    let id = create_neuron(&mut ns, &key, "whale".to_string(), 0).unwrap();
    stake(&mut ns, &mut engine, &key, id, 700).unwrap();
    for _ in 0..10 {
        assert_eq!(select_next_validator(&engine, &ns), Some(address.clone()));
    }
}

#[test]
fn register_and_delegate_enforce_their_rules() {
    let mut ns = NervousSystem::new();
    let (key, public, address) = wallet();
    let mut engine = ConsensusEngine::new(Vec::new());
    engine.init_ledger(address.clone(), public, 500);
    let id = create_neuron(&mut ns, &key, "backer".to_string(), 0).unwrap();

    assert_eq!(register_validator(&mut engine, &ns, 9), Err(CoreError::NeuronNotFound));
    assert_eq!(
        register_validator(&mut engine, &ns, id),
        Err(CoreError::InsufficientStake)
    );
    stake(&mut ns, &mut engine, &key, id, 100).unwrap();
    assert!(register_validator(&mut engine, &ns, id).is_ok());
    assert!(engine.validators[0].active);
    assert_eq!(register_validator(&mut engine, &ns, id), Err(CoreError::ValidatorExists));

    assert_eq!(
        delegate_stake(&engine, &mut ns, id, "missing".to_string()),
        Err(CoreError::ValidatorNotFound)
    );
    assert!(delegate_stake(&engine, &mut ns, id, address.clone()).is_ok());
    assert_eq!(get_neuron(&ns, id).unwrap().validator, Some(address.clone()));

    let inactive_engine = ConsensusEngine::new(vec![ValidatorInfo {
        address: address.clone(),
        neuron_id: id,
        active: false,
    }]);
    assert_eq!(
        delegate_stake(&inactive_engine, &mut ns, id, address.clone()),
        Err(CoreError::ValidatorInactive)
    );
}

#[test]
fn slash_doubles_the_penalty_and_deactivates() {
    let mut ns = NervousSystem::new();
    let (key, public, address) = wallet();
    let mut engine = ConsensusEngine::new(Vec::new());
    engine.init_ledger(address.clone(), public, 500);
    let id = create_neuron(&mut ns, &key, "victim".to_string(), 0).unwrap();
    stake(&mut ns, &mut engine, &key, id, 300).unwrap();
    register_validator(&mut engine, &ns, id).unwrap();

    slash(&mut engine, &mut ns, &address, 50);
    // The penalty is twice the slash amount.
    assert_eq!(get_neuron(&ns, id).unwrap().staked_amount, 200);
    assert!(!engine.validators[0].active);

    // Slashing more than the remaining stake floors it at zero.
    let mut engine2 = ConsensusEngine::new(vec![ValidatorInfo {
        address: address.clone(),
        neuron_id: id,
        active: true,
    }]);
    slash(&mut engine2, &mut ns, &address, 500);
    assert_eq!(get_neuron(&ns, id).unwrap().staked_amount, 0);
}

#[test]
fn produced_block_pays_a_stake_proportional_reward() {
    let mut ns = NervousSystem::new();
    let (key, public, address) = wallet();
    let (okey, opublic, oaddress) = wallet();
    let mut engine = ConsensusEngine::new(Vec::new());
    engine.init_ledger(address.clone(), public, 1000);
    engine.init_ledger(oaddress.clone(), opublic, 1000);
    let mine = create_neuron(&mut ns, &key, "mine".to_string(), 0).unwrap();
    let other = create_neuron(&mut ns, &okey, "other".to_string(), 0).unwrap();
    stake(&mut ns, &mut engine, &key, mine, 300).unwrap();
    stake(&mut ns, &mut engine, &okey, other, 100).unwrap();
    // Both neurons start delegated to their own addresses, so the signer
    // holds 300 of 400 total stake: reward = round(10 * 300/400) = 8.
    let balance_before = engine.get_balance(&address);
    nebula::consensus::produce_block(&mut engine, &ns, &key).unwrap();
    assert_eq!(engine.get_balance(&address), balance_before + 8);
}
