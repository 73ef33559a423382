use vstd::prelude::*;
use crate::clock::today_days;
use crate::crypto::{address_of_key, signer_address};
use crate::errors::CoreError;
use crate::types::{
    has_neuron, neuron_ids_unique, neuron_idx, neuron_of, Neuron, NeuronStatus, NeuronV,
};

verus! {

/// The neuron registry: every neuron keyed by its id, and the monotonic
/// counter that allocates the next id.
pub struct NervousSystem {
    pub neurons: Vec<Neuron>,
    pub next_id: u64,
}

impl NervousSystem {
    /// Well-formedness: ids are unique and below the allocation counter.
    pub open spec fn wf(self) -> bool {
        &&& neuron_ids_unique(self.neurons.deep_view())
        &&& forall|i: int|
            0 <= i < self.neurons@.len() ==> #[trigger] self.neurons.deep_view()[i].id
                < self.next_id
    }

    /// An empty registry whose first neuron will get id 1.
    pub fn new() -> (r: NervousSystem)
        ensures
            r.wf(),
            r.neurons@.len() == 0,
            r.next_id == 1,
    {
        NervousSystem { neurons: Vec::new(), next_id: 1 }
    }
}

/// The index of the neuron with the given id, or `None` when there is
/// none.
pub(crate) fn find_neuron(neurons: &Vec<Neuron>, id: u64) -> (r: Option<usize>)
    ensures
        match r {
            Some(i) => i < neurons@.len() && neurons.deep_view()[i as int].id == id && has_neuron(
                neurons.deep_view(),
                id,
            ),
            None => !has_neuron(neurons.deep_view(), id),
        },
{
    let mut i: usize = 0;
    while i < neurons.len()
        invariant
            0 <= i <= neurons@.len(),
            forall|j: int| 0 <= j < i ==> #[trigger] neurons.deep_view()[j].id != id,
        decreases neurons@.len() - i,
    {
        if neurons[i].id == id {
            assert(neurons.deep_view()[i as int].id == id);
            return Some(i);
        }
        i = i + 1;
    }
    None
}

/// Under unique ids, an index holding `id` is the index `neuron_idx`
/// denotes.
pub proof fn lemma_neuron_idx_is(ns: Seq<NeuronV>, id: u64, i: int)
    requires
        neuron_ids_unique(ns),
        0 <= i < ns.len(),
        ns[i].id == id,
    ensures
        has_neuron(ns, id),
        neuron_idx(ns, id) == i,
        neuron_of(ns, id) == ns[i],
{
    assert(has_neuron(ns, id));
    let j = neuron_idx(ns, id);
    if i < j {
        assert(ns[i].id != ns[j].id);
    } else if j < i {
        assert(ns[j].id != ns[i].id);
    }
}

/// The view of the neuron that `create_neuron` makes for a caller whose
/// address is `address`, on the day `today` at time `now`.
pub open spec fn new_neuron_view(
    id: u64,
    address: Seq<char>,
    name: Seq<char>,
    dissolve_days: i64,
    today: i64,
    now: u64,
) -> NeuronV {
    NeuronV {
        address: address,
        name: name,
        visibility: true,
        id: id,
        state: NeuronStatus::NotDissolving,
        staked: false,
        staked_amount: 0,
        unlock_date: (today + dissolve_days) as i64,
        age: today,
        voting_power: 0,
        maturity: 0,
        bonus_multiplier: 100,
        date_created: now,
        dissolve_delay_bonus: 0,
        age_bonus: 0,
        total_bonus: 0,
        is_genesis: false,
        is_known_neuron: false,
        validator: Some(address),
    }
}

/// Registers a neuron for the caller on a given day and time: it gets the
/// next id, no stake, a neutral bonus multiplier, and an unlock date
/// `dissolve_days` after `today`; its delegate starts as the caller's own
/// address.
pub fn create_neuron_at(
    ns: &mut NervousSystem,
    caller_address: String,
    name: String,
    dissolve_days: i64,
    today: i64,
    now: u64,
) -> (r: u64)
    requires
        old(ns).wf(),
        old(ns).next_id < u64::MAX,
        -96_000_000 <= today <= 96_000_000,
        -1_000_000_000_000 <= dissolve_days <= 1_000_000_000_000,
    ensures
        final (ns).wf(),
        r == old(ns).next_id,
        final (ns).next_id == old(ns).next_id + 1,
        final (ns).neurons.deep_view() =~~= old(ns).neurons.deep_view().push(
            new_neuron_view(
                old(ns).next_id,
                caller_address@,
                name@,
                dissolve_days,
                today,
                now,
            ),
        ),
{
    let neuron_id = ns.next_id;
    ns.next_id = ns.next_id + 1;
    let address_copy = caller_address.clone();
    let neuron = Neuron {
        address: caller_address,
        name,
        visibility: true,
        id: neuron_id,
        state: NeuronStatus::NotDissolving,
        staked: false,
        staked_amount: 0,
        unlock_date: today + dissolve_days,
        age: today,
        voting_power: 0,
        maturity: 0,
        bonus_multiplier: 100,
        date_created: now,
        dissolve_delay_bonus: 0,
        age_bonus: 0,
        total_bonus: 0,
        is_genesis: false,
        is_known_neuron: false,
        validator: Some(address_copy),
    };
    let ghost prev = ns.neurons@;
    let ghost nv = neuron@;
    ns.neurons.push(neuron);
    proof {
        assert forall|k: int| 0 <= k < ns.neurons@.len() implies #[trigger] ns.neurons.deep_view()[k].id
            < ns.next_id by {
            assert(ns.neurons.deep_view()[k] == ns.neurons@[k]@);
            if k < prev.len() {
                assert(ns.neurons@[k]@ == old(ns).neurons.deep_view()[k]);
            }
        }
        assert(ns.neurons.deep_view() =~~= old(ns).neurons.deep_view().push(nv));
        assert(nv == new_neuron_view(
            neuron_id,
            nv.address,
            nv.name,
            dissolve_days,
            today,
            now,
        ));
    }
    neuron_id
}

/// Registers a neuron for the caller, dated by the system clock.
pub fn create_neuron(
    ns: &mut NervousSystem,
    caller: &ed25519_dalek::SigningKey,
    name: String,
    dissolve_days: i64,
) -> (r: Result<u64, CoreError>)
    requires
        old(ns).wf(),
        old(ns).next_id < u64::MAX,
        -1_000_000_000_000 <= dissolve_days <= 1_000_000_000_000,
    ensures
        final (ns).wf(),
        r == Ok::<u64, CoreError>(old(ns).next_id),
        final (ns).next_id == old(ns).next_id + 1,
        exists|today: i64, now: u64|
            final (ns).neurons.deep_view() =~~= old(ns).neurons.deep_view().push(
                new_neuron_view(
                    old(ns).next_id,
                    address_of_key(*caller),
                    name@,
                    dissolve_days,
                    today,
                    now,
                ),
            ),
{
    let address = signer_address(caller);
    let today = today_days();
    let now = crate::clock::now_seconds();
    let id = create_neuron_at(ns, address, name, dissolve_days, today, now);
    Ok(id)
}

/// The neuron with the given id, copied out of the registry.
pub fn get_neuron(ns: &NervousSystem, neuron_id: u64) -> (r: Option<Neuron>)
    requires
        ns.wf(),
    ensures
        match r {
            Some(n) => has_neuron(ns.neurons.deep_view(), neuron_id) && n@ == neuron_of(
                ns.neurons.deep_view(),
                neuron_id,
            ),
            None => !has_neuron(ns.neurons.deep_view(), neuron_id),
        },
{
    match find_neuron(&ns.neurons, neuron_id) {
        Some(i) => {
            proof {
                lemma_neuron_idx_is(ns.neurons.deep_view(), neuron_id, i as int);
            }
            Some(ns.neurons[i].duplicate())
        },
        None => None,
    }
}

/// Every neuron in the registry, in registration order.
pub fn list_neurons(ns: &NervousSystem) -> (r: Vec<Neuron>)
    ensures
        r.deep_view() =~~= ns.neurons.deep_view(),
{
    let mut out: Vec<Neuron> = Vec::new();
    let mut i: usize = 0;
    while i < ns.neurons.len()
        invariant
            0 <= i <= ns.neurons@.len(),
            out@.len() == i,
            out.deep_view() =~~= ns.neurons.deep_view().subrange(0, i as int),
        decreases ns.neurons@.len() - i,
    {
        let ghost prev = out.deep_view();
        out.push(ns.neurons[i].duplicate());
        proof {
            assert forall|k: int| 0 <= k < i + 1 implies out.deep_view()[k]
                == ns.neurons.deep_view()[k] by {
                assert(out.deep_view()[k] == out@[k]@);
                if k < i {
                    assert(out@[k]@ == prev[k]);
                    assert(prev[k] == ns.neurons.deep_view().subrange(0, i as int)[k]);
                } else {
                    assert(out@[k]@ == ns.neurons@[k]@);
                }
            }
            assert(out.deep_view() =~~= ns.neurons.deep_view().subrange(0, i + 1));
        }
        i = i + 1;
    }
    assert(out.deep_view() =~~= ns.neurons.deep_view());
    out
}

} // verus!
