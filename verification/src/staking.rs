use vstd::prelude::*;
use crate::clock::today_days;
use crate::consensus::{find_account, lemma_account_idx_is, ConsensusEngine};
use crate::crypto::{address_of_key, signer_address};
use crate::errors::CoreError;
use crate::math::{rounded_div, staking_yield_spec};
use crate::nervous::{find_neuron, lemma_neuron_idx_is, NervousSystem};
use crate::types::{
    account_idx, has_account, has_neuron, neuron_idx, AccountV, Neuron, NeuronV,
};

verus! {

/// The neuron registry and ledger after a successful `stake`, or the
/// error it reports: the caller must own the neuron, the owner's account
/// must exist and cover `amount`, and then the ledger is debited and the
/// neuron's stake credited.
pub open spec fn stake_outcome(
    ns0: Seq<NeuronV>,
    l0: Seq<AccountV>,
    caller_addr: Seq<char>,
    neuron_id: u64,
    amount: u64,
) -> Result<(Seq<NeuronV>, Seq<AccountV>), CoreError> {
    if !has_neuron(ns0, neuron_id) {
        Err(CoreError::NeuronNotFound)
    } else {
        let i = neuron_idx(ns0, neuron_id);
        let n = ns0[i];
        if n.address != caller_addr {
            Err(CoreError::NotOwner)
        } else if !has_account(l0, n.address) {
            Err(CoreError::AccountNotFound)
        } else {
            let ai = account_idx(l0, n.address);
            let a = l0[ai];
            if a.balance < amount {
                Err(CoreError::InsufficientFunds)
            } else {
                Ok(
                    (
                        ns0.update(
                            i,
                            NeuronV {
                                staked: true,
                                staked_amount: (n.staked_amount + amount) as u64,
                                ..n
                            },
                        ),
                        l0.update(ai, AccountV { balance: (a.balance - amount) as u64, ..a }),
                    ),
                )
            }
        }
    }
}

/// `stake` adds to a stake that must stay within a 64-bit amount.
pub open spec fn stake_fits(ns0: Seq<NeuronV>, neuron_id: u64, amount: u64) -> bool {
    has_neuron(ns0, neuron_id) ==> neuron_of_stake(ns0, neuron_id) + amount <= u64::MAX
}

pub open spec fn neuron_of_stake(ns0: Seq<NeuronV>, neuron_id: u64) -> u64 {
    ns0[neuron_idx(ns0, neuron_id)].staked_amount
}

/// Moves `amount` from the neuron owner's ledger balance into the
/// neuron's stake and marks the neuron staked.
pub fn stake(
    ns: &mut NervousSystem,
    engine: &mut ConsensusEngine,
    caller: &ed25519_dalek::SigningKey,
    neuron_id: u64,
    amount: u64,
) -> (r: Result<(), CoreError>)
    requires
        old(ns).wf(),
        old(engine).wf(),
        stake_fits(old(ns).neurons.deep_view(), neuron_id, amount),
    ensures
        final (ns).wf(),
        final (engine).wf(),
        final (ns).next_id == old(ns).next_id,
        final (engine).validators == old(engine).validators,
        final (engine).mempool == old(engine).mempool,
        final (engine).chain == old(engine).chain,
        match stake_outcome(
            old(ns).neurons.deep_view(),
            old(engine).ledger.deep_view(),
            address_of_key(*caller),
            neuron_id,
            amount,
        ) {
            Ok((ns1, l1)) => r == Ok::<(), CoreError>(()) && final (ns).neurons.deep_view() =~~= ns1
                && final (engine).ledger.deep_view() =~~= l1,
            Err(e) => r == Err::<(), CoreError>(e) && final (ns).neurons == old(ns).neurons
                && final (engine).ledger == old(engine).ledger,
        },
{
    let caller_address = signer_address(caller);
    let ghost ns0 = ns.neurons.deep_view();
    let ghost l0 = engine.ledger.deep_view();
    let i = match find_neuron(&ns.neurons, neuron_id) {
        Some(i) => i,
        None => {
            return Err(CoreError::NeuronNotFound);
        },
    };
    proof {
        lemma_neuron_idx_is(ns0, neuron_id, i as int);
    }
    if !(ns.neurons[i].address == caller_address) {
        return Err(CoreError::NotOwner);
    }
    let ai = match find_account(&engine.ledger, &ns.neurons[i].address) {
        Some(ai) => ai,
        None => {
            return Err(CoreError::AccountNotFound);
        },
    };
    proof {
        lemma_account_idx_is(l0, ns0[i as int].address, ai as int);
    }
    if engine.ledger[ai].balance < amount {
        return Err(CoreError::InsufficientFunds);
    }
    let mut account = engine.ledger.remove(ai);
    account.balance = account.balance - amount;
    engine.ledger.insert(ai, account);
    let mut neuron = ns.neurons.remove(i);
    neuron.staked = true;
    neuron.staked_amount = neuron.staked_amount + amount;
    ns.neurons.insert(i, neuron);
    proof {
        let (ns1, l1) = stake_outcome(ns0, l0, address_of_key(*caller), neuron_id, amount).unwrap();
        assert forall|k: int| 0 <= k < ns.neurons@.len() implies #[trigger] ns.neurons.deep_view()[k]
            == ns1[k] by {
            assert(ns.neurons.deep_view()[k] == ns.neurons@[k]@);
        }
        assert(ns.neurons.deep_view() =~~= ns1);
        assert forall|k: int| 0 <= k < engine.ledger@.len() implies #[trigger] engine.ledger.deep_view()[k]
            == l1[k] by {
            assert(engine.ledger.deep_view()[k] == engine.ledger@[k]@);
        }
        assert(engine.ledger.deep_view() =~~= l1);
    }
    Ok(())
}

/// The neuron registry and ledger after a successful `unstake`, or the
/// error it reports: the caller must own the neuron, its dissolve delay
/// must have elapsed by `today`, its stake must cover `amount`, and its
/// owner's account must exist; then the stake is debited and the ledger
/// credited, and the staked flag cleared when the stake reaches zero.
pub open spec fn unstake_outcome(
    ns0: Seq<NeuronV>,
    l0: Seq<AccountV>,
    caller_addr: Seq<char>,
    neuron_id: u64,
    amount: u64,
    today: i64,
) -> Result<(Seq<NeuronV>, Seq<AccountV>), CoreError> {
    if !has_neuron(ns0, neuron_id) {
        Err(CoreError::NeuronNotFound)
    } else {
        let i = neuron_idx(ns0, neuron_id);
        let n = ns0[i];
        if n.address != caller_addr {
            Err(CoreError::NotOwner)
        } else if n.unlock_date > today {
            Err(CoreError::LockedByDissolveDelay)
        } else if n.staked_amount < amount {
            Err(CoreError::InsufficientStake)
        } else if !has_account(l0, n.address) {
            Err(CoreError::AccountNotFound)
        } else {
            let ai = account_idx(l0, n.address);
            let a = l0[ai];
            Ok(
                (
                    ns0.update(
                        i,
                        NeuronV {
                            staked: if n.staked_amount == amount {
                                false
                            } else {
                                n.staked
                            },
                            staked_amount: (n.staked_amount - amount) as u64,
                            ..n
                        },
                    ),
                    l0.update(ai, AccountV { balance: (a.balance + amount) as u64, ..a }),
                ),
            )
        }
    }
}

/// `unstake` credits a ledger balance that must stay within 64 bits.
pub open spec fn unstake_fits(
    ns0: Seq<NeuronV>,
    l0: Seq<AccountV>,
    neuron_id: u64,
    amount: u64,
) -> bool {
    has_neuron(ns0, neuron_id) && has_account(l0, ns0[neuron_idx(ns0, neuron_id)].address)
        ==> l0[account_idx(l0, ns0[neuron_idx(ns0, neuron_id)].address)].balance + amount
        <= u64::MAX
}

/// Moves `amount` from the neuron's stake back to its owner's ledger
/// balance, on the day `today`.
pub fn unstake_at(
    ns: &mut NervousSystem,
    engine: &mut ConsensusEngine,
    caller_address: &String,
    neuron_id: u64,
    amount: u64,
    today: i64,
) -> (r: Result<(), CoreError>)
    requires
        old(ns).wf(),
        old(engine).wf(),
        unstake_fits(old(ns).neurons.deep_view(), old(engine).ledger.deep_view(), neuron_id, amount),
    ensures
        final (ns).wf(),
        final (engine).wf(),
        final (ns).next_id == old(ns).next_id,
        final (engine).validators == old(engine).validators,
        final (engine).mempool == old(engine).mempool,
        final (engine).chain == old(engine).chain,
        match unstake_outcome(
            old(ns).neurons.deep_view(),
            old(engine).ledger.deep_view(),
            caller_address@,
            neuron_id,
            amount,
            today,
        ) {
            Ok((ns1, l1)) => r == Ok::<(), CoreError>(()) && final (ns).neurons.deep_view() =~~= ns1
                && final (engine).ledger.deep_view() =~~= l1,
            Err(e) => r == Err::<(), CoreError>(e) && final (ns).neurons == old(ns).neurons
                && final (engine).ledger == old(engine).ledger,
        },
{
    let ghost ns0 = ns.neurons.deep_view();
    let ghost l0 = engine.ledger.deep_view();
    let i = match find_neuron(&ns.neurons, neuron_id) {
        Some(i) => i,
        None => {
            return Err(CoreError::NeuronNotFound);
        },
    };
    proof {
        lemma_neuron_idx_is(ns0, neuron_id, i as int);
    }
    if !(ns.neurons[i].address == *caller_address) {
        return Err(CoreError::NotOwner);
    }
    if ns.neurons[i].unlock_date > today {
        return Err(CoreError::LockedByDissolveDelay);
    }
    if ns.neurons[i].staked_amount < amount {
        return Err(CoreError::InsufficientStake);
    }
    let ai = match find_account(&engine.ledger, &ns.neurons[i].address) {
        Some(ai) => ai,
        None => {
            return Err(CoreError::AccountNotFound);
        },
    };
    proof {
        lemma_account_idx_is(l0, ns0[i as int].address, ai as int);
    }
    let mut neuron = ns.neurons.remove(i);
    neuron.staked_amount = neuron.staked_amount - amount;
    if neuron.staked_amount == 0 {
        neuron.staked = false;
    }
    ns.neurons.insert(i, neuron);
    let mut account = engine.ledger.remove(ai);
    account.balance = account.balance + amount;
    engine.ledger.insert(ai, account);
    proof {
        let (ns1, l1) = unstake_outcome(
            ns0,
            l0,
            caller_address@,
            neuron_id,
            amount,
            today,
        ).unwrap();
        assert forall|k: int| 0 <= k < ns.neurons@.len() implies #[trigger] ns.neurons.deep_view()[k]
            == ns1[k] by {
            assert(ns.neurons.deep_view()[k] == ns.neurons@[k]@);
        }
        assert(ns.neurons.deep_view() =~~= ns1);
        assert forall|k: int| 0 <= k < engine.ledger@.len() implies #[trigger] engine.ledger.deep_view()[k]
            == l1[k] by {
            assert(engine.ledger.deep_view()[k] == engine.ledger@[k]@);
        }
        assert(engine.ledger.deep_view() =~~= l1);
    }
    Ok(())
}

/// Moves `amount` from the neuron's stake back to its owner's ledger
/// balance; the dissolve delay is judged against today's date.
pub fn unstake(
    ns: &mut NervousSystem,
    engine: &mut ConsensusEngine,
    caller: &ed25519_dalek::SigningKey,
    neuron_id: u64,
    amount: u64,
) -> (r: Result<(), CoreError>)
    requires
        old(ns).wf(),
        old(engine).wf(),
        unstake_fits(old(ns).neurons.deep_view(), old(engine).ledger.deep_view(), neuron_id, amount),
    ensures
        final (ns).wf(),
        final (engine).wf(),
        final (ns).next_id == old(ns).next_id,
        final (engine).validators == old(engine).validators,
        final (engine).mempool == old(engine).mempool,
        final (engine).chain == old(engine).chain,
        exists|today: i64|
            match #[trigger] unstake_outcome(
                old(ns).neurons.deep_view(),
                old(engine).ledger.deep_view(),
                address_of_key(*caller),
                neuron_id,
                amount,
                today,
            ) {
                Ok((ns1, l1)) => r == Ok::<(), CoreError>(()) && final (ns).neurons.deep_view()
                    =~~= ns1 && final (engine).ledger.deep_view() =~~= l1,
                Err(e) => r == Err::<(), CoreError>(e) && final (ns).neurons == old(ns).neurons
                    && final (engine).ledger == old(engine).ledger,
            },
{
    let caller_address = signer_address(caller);
    let today = today_days();
    unstake_at(ns, engine, &caller_address, neuron_id, amount, today)
}

/// Staking `amount` and then unstaking the same amount restores the
/// owner's ledger balance and the neuron's staked amount to their
/// pre-stake values, whenever both operations succeed.
pub proof fn lemma_stake_unstake_round_trip(
    ns0: Seq<NeuronV>,
    l0: Seq<AccountV>,
    caller_addr: Seq<char>,
    neuron_id: u64,
    amount: u64,
    today: i64,
    ns1: Seq<NeuronV>,
    l1: Seq<AccountV>,
)
    requires
        stake_outcome(ns0, l0, caller_addr, neuron_id, amount) == Ok::<_, CoreError>((ns1, l1)),
        stake_fits(ns0, neuron_id, amount),
        ns0[neuron_idx(ns0, neuron_id)].unlock_date <= today,
        crate::types::neuron_ids_unique(ns0),
        crate::types::account_addrs_unique(l0),
    ensures
        unstake_outcome(ns1, l1, caller_addr, neuron_id, amount, today) is Ok,
        ({
            let (ns2, l2) = unstake_outcome(ns1, l1, caller_addr, neuron_id, amount, today).unwrap();
            &&& l2 =~~= l0
            &&& ns2[neuron_idx(ns0, neuron_id)].staked_amount == ns0[neuron_idx(
                ns0,
                neuron_id,
            )].staked_amount
        }),
{
    let i = neuron_idx(ns0, neuron_id);
    let n = ns0[i];
    let ai = account_idx(l0, n.address);
    assert(crate::types::neuron_ids_unique(ns1)) by {
        assert forall|p: int, q: int| 0 <= p < q < ns1.len() implies ns1[p].id != ns1[q].id by {
            assert(ns1[p].id == ns0[p].id);
            assert(ns1[q].id == ns0[q].id);
        }
    }
    assert(crate::types::account_addrs_unique(l1)) by {
        assert forall|p: int, q: int| 0 <= p < q < l1.len() implies l1[p].address != l1[q].address by {
            assert(l1[p].address == l0[p].address);
            assert(l1[q].address == l0[q].address);
        }
    }
    lemma_neuron_idx_is(ns1, neuron_id, i);
    lemma_account_idx_is(l1, n.address, ai);
    let (ns2, l2) = unstake_outcome(ns1, l1, caller_addr, neuron_id, amount, today).unwrap();
    assert(l2 =~~= l0);
}

/// A neuron's share of one reward distribution: its stake grows by a
/// pool reward proportional to its share of the total stake, compounded
/// by its maturity bonus, plus a flat annual-yield reward; its maturity
/// counter advances by one.
pub open spec fn rewarded_neuron(
    n: NeuronV,
    reward_pool: u64,
    yield_percent: u64,
    total: int,
) -> NeuronV {
    let pool = rounded_div(reward_pool * n.staked_amount * (100 + n.maturity), total * 100);
    let yld = staking_yield_spec(n.staked_amount, yield_percent);
    NeuronV {
        staked_amount: (n.staked_amount + pool + yld) as u64,
        maturity: (n.maturity + 1) as u64,
        ..n
    }
}

/// The total staked amount over the first `k` neurons.
pub open spec fn total_staked(ns: Seq<NeuronV>, k: int) -> int
    recommends
        0 <= k <= ns.len(),
    decreases k,
{
    if k <= 0 {
        0
    } else {
        total_staked(ns, k - 1) + ns[k - 1].staked_amount
    }
}

proof fn lemma_total_staked_bounds(ns: Seq<NeuronV>, k: int)
    requires
        0 <= k <= ns.len(),
    ensures
        0 <= total_staked(ns, k) <= total_staked(ns, ns.len() as int),
    decreases ns.len() - k,
{
    if k < ns.len() {
        lemma_total_staked_bounds(ns, k + 1);
    }
    lemma_total_staked_nonneg(ns, k);
}

proof fn lemma_total_staked_nonneg(ns: Seq<NeuronV>, k: int)
    requires
        0 <= k <= ns.len(),
    ensures
        total_staked(ns, k) >= 0,
    decreases k,
{
    if k > 0 {
        lemma_total_staked_nonneg(ns, k - 1);
    }
}

/// Every reward and maturity step of one distribution stays within its
/// integer type.
pub open spec fn distribute_fits(ns: Seq<NeuronV>, reward_pool: u64, yield_percent: u64) -> bool {
    let total = total_staked(ns, ns.len() as int);
    &&& total <= u64::MAX
    &&& forall|i: int|
        0 <= i < ns.len() ==> (#[trigger] ns[i]).maturity < u64::MAX && reward_pool
            * ns[i].staked_amount * (100 + ns[i].maturity) + total * 50 <= u128::MAX && (total > 0
            ==> ns[i].staked_amount + rounded_div(
            reward_pool * ns[i].staked_amount * (100 + ns[i].maturity),
            total * 100,
        ) + staking_yield_spec(ns[i].staked_amount, yield_percent) <= u64::MAX)
}

/// Distributes one reward cycle over all neurons: a no-op when the total
/// staked amount is zero, and otherwise each neuron's stake is compounded
/// as `rewarded_neuron` describes.
pub fn distribute_rewards(ns: &mut NervousSystem, reward_pool: u64, annual_yield_percent: u64)
    requires
        old(ns).wf(),
        distribute_fits(old(ns).neurons.deep_view(), reward_pool, annual_yield_percent),
    ensures
        final (ns).wf(),
        final (ns).next_id == old(ns).next_id,
        ({
            let ns0 = old(ns).neurons.deep_view();
            let total = total_staked(ns0, ns0.len() as int);
            if total == 0 {
                final (ns).neurons == old(ns).neurons
            } else {
                final (ns).neurons.deep_view() =~~= Seq::new(
                    ns0.len(),
                    |i: int| rewarded_neuron(ns0[i], reward_pool, annual_yield_percent, total),
                )
            }
        }),
{
    let ghost ns0 = ns.neurons.deep_view();
    let ghost all: int = ns0.len() as int;
    let mut total: u64 = 0;
    let mut i: usize = 0;
    while i < ns.neurons.len()
        invariant
            0 <= i <= ns.neurons@.len(),
            ns0 == ns.neurons.deep_view(),
            all == ns0.len(),
            total_staked(ns0, all) <= u64::MAX,
            total == total_staked(ns0, i as int),
        decreases ns.neurons@.len() - i,
    {
        proof {
            lemma_total_staked_bounds(ns0, i + 1);
        }
        total = total + ns.neurons[i].staked_amount;
        i = i + 1;
    }
    if total == 0 {
        return ;
    }
    let mut out: Vec<Neuron> = Vec::new();
    let mut i: usize = 0;
    while i < ns.neurons.len()
        invariant
            0 <= i <= ns.neurons@.len(),
            ns0 == ns.neurons.deep_view(),
            all == ns0.len(),
            total == total_staked(ns0, all),
            total > 0,
            distribute_fits(ns0, reward_pool, annual_yield_percent),
            out@.len() == i,
            forall|k: int|
                0 <= k < i ==> #[trigger] out.deep_view()[k] == rewarded_neuron(
                    ns0[k],
                    reward_pool,
                    annual_yield_percent,
                    total as int,
                ),
        decreases ns.neurons@.len() - i,
    {
        let mut neuron = ns.neurons[i].duplicate();
        proof {
            assert(ns.neurons@[i as int]@ == ns0[i as int]);
            let nv = ns0[i as int];
            assert(reward_pool * nv.staked_amount * (100 + nv.maturity) + total_staked(ns0, all)
                * 50 <= u128::MAX);
            assert((reward_pool as int) * (nv.staked_amount as int) <= reward_pool
                * nv.staked_amount * (100 + nv.maturity) && reward_pool * nv.staked_amount * (100
                + nv.maturity) == (reward_pool as int) * (nv.staked_amount as int) * ((100
                + nv.maturity) as int)) by (nonlinear_arith)
                requires
                    0 <= reward_pool,
                    0 <= nv.staked_amount,
                    0 <= nv.maturity,
            ;
        }
        let num: u128 = (reward_pool as u128) * (neuron.staked_amount as u128) * (100u128
            + neuron.maturity as u128);
        let den: u128 = (total as u128) * 100;
        let pool_reward: u64 = ((num + den / 2) / den) as u64;
        let yield_reward: u64 = crate::math::staking_yield(
            neuron.staked_amount,
            annual_yield_percent,
        );
        let ghost prev = out.deep_view();
        neuron.staked_amount = neuron.staked_amount + pool_reward + yield_reward;
        neuron.maturity = neuron.maturity + 1;
        out.push(neuron);
        proof {
            assert(out.deep_view()[i as int] == rewarded_neuron(
                ns0[i as int],
                reward_pool,
                annual_yield_percent,
                total as int,
            ));
            assert forall|k: int| 0 <= k < i implies #[trigger] out.deep_view()[k]
                == rewarded_neuron(ns0[k], reward_pool, annual_yield_percent, total as int) by {
                assert(out.deep_view()[k] == out@[k]@);
                assert(out@[k]@ == prev[k]);
            }
        }
        i = i + 1;
    }
    ns.neurons = out;
    proof {
        assert(ns.neurons.deep_view() =~~= Seq::new(
            ns0.len(),
            |k: int| rewarded_neuron(ns0[k], reward_pool, annual_yield_percent, total as int),
        ));
    }
}

} // verus!
