use ed25519_dalek::SigningKey;
use rand::rngs::OsRng;

use nebula::crypto::signer_address;
use nebula::errors::CoreError;
use nebula::governance::{finalize, list_proposals, propose, vote, Governance};
use nebula::nervous::NervousSystem;
use nebula::types::{Neuron, NeuronStatus};

fn staked_neuron(key: &SigningKey, id: u64, name: &str, staked_amount: u64) -> Neuron {
    Neuron {
        address: signer_address(key),
        name: name.to_string(),
        visibility: true,
        id,
        state: NeuronStatus::NotDissolving,
        staked: staked_amount > 0,
        staked_amount,
        unlock_date: 0,
        age: 0,
        voting_power: 0,
        maturity: 0,
        bonus_multiplier: 100,
        date_created: 0,
        dissolve_delay_bonus: 0,
        age_bonus: 0,
        total_bonus: 0,
        is_genesis: false,
        is_known_neuron: false,
        validator: None,
    }
}

fn registry_with(neurons: Vec<Neuron>) -> NervousSystem {
    let mut ns = NervousSystem::new();
    let mut max_id = 0;
    for n in neurons {
        if n.id > max_id {
            max_id = n.id;
        }
        ns.neurons.push(n);
    }
    ns.next_id = max_id + 1;
    ns
}

#[test]
fn test_governance_proposal_and_voting() {
    let signing_key = SigningKey::generate(&mut OsRng);
    let neuron_id = 1;
    let ns = registry_with(vec![staked_neuron(&signing_key, neuron_id, "TestNeuron", 100)]);
    let mut governance = Governance::new();

    let proposal_id =
        propose(&mut governance, &ns, "Test Proposal".to_string(), &signing_key, neuron_id)
            .unwrap();
    assert!(proposal_id > 0);

    let vote_result = vote(&mut governance, &ns, &signing_key, neuron_id, proposal_id, true, 10);
    assert!(vote_result.is_ok());

    let finalize_result = finalize(&mut governance, &ns, proposal_id);
    assert!(finalize_result.is_ok());
}

#[test]
fn proposal_with_more_yes_power_finalizes_true() {
    let yes_key = SigningKey::generate(&mut OsRng);
    let no_key = SigningKey::generate(&mut OsRng);
    let ns = registry_with(vec![
        staked_neuron(&yes_key, 1, "yes", 30),
        staked_neuron(&no_key, 2, "no", 10),
    ]);
    let mut governance = Governance::new();
    let pid = propose(&mut governance, &ns, "raise".to_string(), &yes_key, 1).unwrap();
    vote(&mut governance, &ns, &yes_key, 1, pid, true, 30).unwrap();
    vote(&mut governance, &ns, &no_key, 2, pid, false, 10).unwrap();
    let p = list_proposals(&governance).pop().unwrap();
    assert_eq!(p.tally.yes, 30);
    assert_eq!(p.tally.no, 10);
    assert_eq!(finalize(&mut governance, &ns, pid).unwrap(), true);
}

#[test]
fn proposal_with_more_no_power_finalizes_false() {
    let yes_key = SigningKey::generate(&mut OsRng);
    let no_key = SigningKey::generate(&mut OsRng);
    let ns = registry_with(vec![
        staked_neuron(&yes_key, 1, "yes", 10),
        staked_neuron(&no_key, 2, "no", 30),
    ]);
    let mut governance = Governance::new();
    let pid = propose(&mut governance, &ns, "lower".to_string(), &yes_key, 1).unwrap();
    vote(&mut governance, &ns, &yes_key, 1, pid, true, 10).unwrap();
    vote(&mut governance, &ns, &no_key, 2, pid, false, 30).unwrap();
    let p = list_proposals(&governance).pop().unwrap();
    assert_eq!(p.tally.yes, 10);
    assert_eq!(p.tally.no, 30);
    assert_eq!(finalize(&mut governance, &ns, pid).unwrap(), false);
}

#[test]
fn double_vote_is_rejected_and_tally_unchanged() {
    let key = SigningKey::generate(&mut OsRng);
    let ns = registry_with(vec![staked_neuron(&key, 1, "solo", 100)]);
    let mut governance = Governance::new();
    let pid = propose(&mut governance, &ns, "once".to_string(), &key, 1).unwrap();
    vote(&mut governance, &ns, &key, 1, pid, true, 40).unwrap();
    let before = list_proposals(&governance).pop().unwrap().tally;
    let second = vote(&mut governance, &ns, &key, 1, pid, true, 40);
    assert_eq!(second, Err(CoreError::AlreadyVoted));
    let after = list_proposals(&governance).pop().unwrap().tally;
    assert_eq!(before, after);
    assert_eq!(after.yes, 40);
    assert_eq!(after.total, 40);
}

#[test]
fn vote_errors_name_the_cause() {
    let key = SigningKey::generate(&mut OsRng);
    let other = SigningKey::generate(&mut OsRng);
    let ns = registry_with(vec![staked_neuron(&key, 1, "n", 20)]);
    let mut governance = Governance::new();
    let pid = propose(&mut governance, &ns, "t".to_string(), &key, 1).unwrap();
    assert_eq!(
        vote(&mut governance, &ns, &key, 9, pid, true, 1),
        Err(CoreError::NeuronNotFound)
    );
    assert_eq!(
        vote(&mut governance, &ns, &other, 1, pid, true, 1),
        Err(CoreError::NotOwner)
    );
    assert_eq!(
        vote(&mut governance, &ns, &key, 1, pid, true, 21),
        Err(CoreError::InsufficientStake)
    );
    assert_eq!(
        vote(&mut governance, &ns, &key, 1, 77, true, 1),
        Err(CoreError::ProposalNotFound)
    );
    assert_eq!(
        finalize(&mut governance, &ns, 77),
        Err(CoreError::ProposalNotFound)
    );
}

#[test]
fn propose_requires_ownership() {
    let key = SigningKey::generate(&mut OsRng);
    let other = SigningKey::generate(&mut OsRng);
    let ns = registry_with(vec![staked_neuron(&key, 1, "n", 20)]);
    let mut governance = Governance::new();
    assert_eq!(
        propose(&mut governance, &ns, "t".to_string(), &other, 1),
        Err(CoreError::NotOwner)
    );
    assert_eq!(
        propose(&mut governance, &ns, "t".to_string(), &key, 2),
        Err(CoreError::NeuronNotFound)
    );
}

#[test]
fn list_proposals_sorts_by_net_tally() {
    let key = SigningKey::generate(&mut OsRng);
    let ns = registry_with(vec![staked_neuron(&key, 1, "n", 100)]);
    let mut governance = Governance::new();
    let losing = propose(&mut governance, &ns, "first".to_string(), &key, 1).unwrap();
    let winning = propose(&mut governance, &ns, "second".to_string(), &key, 1).unwrap();
    vote(&mut governance, &ns, &key, 1, winning, true, 50).unwrap();
    vote(&mut governance, &ns, &key, 1, losing, false, 20).unwrap();
    let sorted = list_proposals(&governance);
    assert_eq!(sorted.len(), 2);
    assert_eq!(sorted[0].id, losing);
    assert_eq!(sorted[1].id, winning);
    assert_eq!(sorted[0].topic, "first");
    assert_eq!(sorted[1].tally.yes, 50);
}

#[test]
fn finalize_uses_current_stake_not_recorded_tally() {
    let yes_key = SigningKey::generate(&mut OsRng);
    let no_key = SigningKey::generate(&mut OsRng);
    let mut ns = registry_with(vec![
        staked_neuron(&yes_key, 1, "yes", 30),
        staked_neuron(&no_key, 2, "no", 10),
    ]);
    let mut governance = Governance::new();
    let pid = propose(&mut governance, &ns, "shift".to_string(), &yes_key, 1).unwrap();
    vote(&mut governance, &ns, &yes_key, 1, pid, true, 30).unwrap();
    vote(&mut governance, &ns, &no_key, 2, pid, false, 10).unwrap();
    // The no-voter's stake grows past the yes-voter's before finalization.
    ns.neurons[1].staked_amount = 100;
    assert_eq!(finalize(&mut governance, &ns, pid).unwrap(), false);
}
