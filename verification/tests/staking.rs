use ed25519_dalek::SigningKey;
use rand::rngs::OsRng;

use nebula::consensus::ConsensusEngine;
use nebula::crypto::{signer_address, signer_public_bytes};
use nebula::errors::CoreError;
use nebula::nervous::{create_neuron, get_neuron, NervousSystem};
use nebula::staking::{distribute_rewards, stake, unstake};

fn wallet() -> (SigningKey, Vec<u8>, String) {
    let key = SigningKey::generate(&mut OsRng);
    let public = signer_public_bytes(&key);
    let address = signer_address(&key);
    (key, public, address)
}

#[test]
fn test_stake() {
    let mut nervous_system = NervousSystem::new();

    let (signing_key, public_key, sender_address) = wallet();

    let mut consensus_engine = ConsensusEngine::new(Vec::new());
    consensus_engine
        .init_ledger(sender_address.clone(), public_key, 100)
        .expect("Failed to initialize sender ledger");

    let neuron_id = create_neuron(&mut nervous_system, &signing_key, "TestNeuron".to_string(), 30)
        .expect("Failed to create neuron");

    let amount_to_stake = 50;
    let result = stake(
        &mut nervous_system,
        &mut consensus_engine,
        &signing_key,
        neuron_id,
        amount_to_stake,
    );
    assert!(result.is_ok(), "Staking failed: {:?}", result.err());

    let updated_neuron = get_neuron(&nervous_system, neuron_id).expect("Neuron not found");
    assert_eq!(updated_neuron.staked_amount, amount_to_stake, "Stake amount incorrect");

    let sender_balance = consensus_engine.get_balance(&sender_address);
    assert_eq!(
        sender_balance,
        100 - amount_to_stake,
        "Ledger balance incorrect after staking"
    );
}

#[test]
fn stake_then_unstake_restores_balance_and_stake() {
    let mut ns = NervousSystem::new();
    let (key, public, address) = wallet();
    let mut engine = ConsensusEngine::new(Vec::new());
    engine.init_ledger(address.clone(), public, 100).unwrap();
    // A dissolve delay of zero days unlocks the neuron immediately.
    let id = create_neuron(&mut ns, &key, "round".to_string(), 0).unwrap();

    stake(&mut ns, &mut engine, &key, id, 40).unwrap();
    assert_eq!(engine.get_balance(&address), 60);
    assert_eq!(get_neuron(&ns, id).unwrap().staked_amount, 40);

    unstake(&mut ns, &mut engine, &key, id, 40).unwrap();
    assert_eq!(engine.get_balance(&address), 100);
    assert_eq!(get_neuron(&ns, id).unwrap().staked_amount, 0);
    assert!(!get_neuron(&ns, id).unwrap().staked);
}

#[test]
fn unstake_respects_dissolve_delay_and_stake() {
    let mut ns = NervousSystem::new();
    let (key, public, address) = wallet();
    let other = SigningKey::generate(&mut OsRng);
    let mut engine = ConsensusEngine::new(Vec::new());
    engine.init_ledger(address.clone(), public, 100).unwrap();
    let locked = create_neuron(&mut ns, &key, "locked".to_string(), 365).unwrap();
    let open = create_neuron(&mut ns, &key, "open".to_string(), 0).unwrap();
    stake(&mut ns, &mut engine, &key, locked, 10).unwrap();
    stake(&mut ns, &mut engine, &key, open, 10).unwrap();

    assert_eq!(
        unstake(&mut ns, &mut engine, &key, locked, 5),
        Err(CoreError::LockedByDissolveDelay)
    );
    assert_eq!(
        unstake(&mut ns, &mut engine, &key, open, 20),
        Err(CoreError::InsufficientStake)
    );
    assert_eq!(
        unstake(&mut ns, &mut engine, &other, open, 5),
        Err(CoreError::NotOwner)
    );
    assert_eq!(
        unstake(&mut ns, &mut engine, &key, 99, 5),
        Err(CoreError::NeuronNotFound)
    );
}

#[test]
fn stake_errors_name_the_cause() {
    let mut ns = NervousSystem::new();
    let (key, public, address) = wallet();
    let other = SigningKey::generate(&mut OsRng);
    let mut engine = ConsensusEngine::new(Vec::new());
    engine.init_ledger(address.clone(), public, 30).unwrap();
    let id = create_neuron(&mut ns, &key, "n".to_string(), 0).unwrap();

    assert_eq!(stake(&mut ns, &mut engine, &key, 9, 10), Err(CoreError::NeuronNotFound));
    assert_eq!(stake(&mut ns, &mut engine, &other, id, 10), Err(CoreError::NotOwner));
    assert_eq!(stake(&mut ns, &mut engine, &key, id, 31), Err(CoreError::InsufficientFunds));

    let (poor_key, _, _) = wallet();
    let poor = create_neuron(&mut ns, &poor_key, "poor".to_string(), 0).unwrap();
    assert_eq!(
        stake(&mut ns, &mut engine, &poor_key, poor, 1),
        Err(CoreError::AccountNotFound)
    );
}

#[test]
fn distribute_rewards_with_zero_stake_changes_nothing() {
    let mut ns = NervousSystem::new();
    let (key, _public, _address) = wallet();
    create_neuron(&mut ns, &key, "idle".to_string(), 10).unwrap();
    let before: Vec<(u64, u64)> =
        ns.neurons.iter().map(|n| (n.staked_amount, n.maturity)).collect();
    distribute_rewards(&mut ns, 50, 5);
    let after: Vec<(u64, u64)> =
        ns.neurons.iter().map(|n| (n.staked_amount, n.maturity)).collect();
    assert_eq!(before, after);
}

#[test]
fn distribute_rewards_compounds_stake_and_maturity() {
    let mut ns = NervousSystem::new();
    let (k1, pub1, a1) = wallet();
    let (k2, pub2, a2) = wallet();
    let mut engine = ConsensusEngine::new(Vec::new());
    engine.init_ledger(a1.clone(), pub1, 1000).unwrap();
    engine.init_ledger(a2.clone(), pub2, 1000).unwrap();
    let n1 = create_neuron(&mut ns, &k1, "one".to_string(), 0).unwrap();
    let n2 = create_neuron(&mut ns, &k2, "two".to_string(), 0).unwrap();
    stake(&mut ns, &mut engine, &k1, n1, 100).unwrap();
    stake(&mut ns, &mut engine, &k2, n2, 300).unwrap();

    distribute_rewards(&mut ns, 50, 5);

    // Total stake 400. First neuron: pool round(50*100/400) = 13 with the
    // half rounded up, yield round(100*5/100) = 5, so 100+13+5 = 118.
    // Second: pool round(50*300/400) = 38, yield 15, so 300+38+15 = 353.
    let first = get_neuron(&ns, n1).unwrap();
    let second = get_neuron(&ns, n2).unwrap();
    assert_eq!(first.staked_amount, 118);
    assert_eq!(first.maturity, 1);
    assert_eq!(second.staked_amount, 353);
    assert_eq!(second.maturity, 1);
}

#[test]
fn created_neuron_starts_unstaked_and_self_delegated() {
    let mut ns = NervousSystem::new();
    let (key, _public, address) = wallet();
    let id = create_neuron(&mut ns, &key, "fresh".to_string(), 7).unwrap();
    assert_eq!(id, 1);
    let n = get_neuron(&ns, id).unwrap();
    assert_eq!(n.name, "fresh");
    assert_eq!(n.staked_amount, 0);
    assert!(!n.staked);
    assert_eq!(n.maturity, 0);
    assert_eq!(n.bonus_multiplier, 100);
    assert_eq!(n.address, address);
    assert_eq!(n.validator, Some(address));
    assert_eq!(n.unlock_date - n.age, 7);
    let second = create_neuron(&mut ns, &key, "next".to_string(), 7).unwrap();
    assert_eq!(second, 2);
}
