use vstd::prelude::*;
use vstd::multiset::Multiset;
use crate::clock::now_seconds;
use crate::crypto::{address_of_key, signer_address};
use crate::errors::CoreError;
use crate::math::{abs_val, voting_power, voting_power_spec};
use crate::nervous::{find_neuron, lemma_neuron_idx_is, NervousSystem};
use crate::types::{
    has_neuron, has_proposal, has_vote, neuron_of, proposal_idx, proposal_ids_unique, NeuronV,
    Proposal, ProposalV, Tally, Vote, VotingNeuron, VotingNeuronV, VotingStatus,
};

verus! {

/// How long a proposal accepts votes, in seconds.
pub const VOTING_WINDOW_SECONDS: u64 = 3600;

/// No two recorded votes on one proposal come from the same neuron.
pub open spec fn vote_ids_unique(vs: Seq<VotingNeuronV>) -> bool {
    forall|i: int, j: int| 0 <= i < j < vs.len() ==> vs[i].id != vs[j].id
}

/// The governance module: open proposals and the counter that allocates
/// the next proposal id.
pub struct Governance {
    pub proposals: Vec<Proposal>,
    pub next_id: u64,
}

impl Governance {
    /// Well-formedness: proposal ids are unique and below the counter,
    /// and each proposal records at most one vote per neuron.
    pub open spec fn wf(self) -> bool {
        &&& proposal_ids_unique(self.proposals.deep_view())
        &&& forall|i: int|
            0 <= i < self.proposals@.len() ==> (#[trigger] self.proposals.deep_view()[i]).id
                < self.next_id
        &&& forall|i: int|
            0 <= i < self.proposals@.len() ==> vote_ids_unique(
                (#[trigger] self.proposals.deep_view()[i]).votes_of_neurons,
            )
    }

    /// An empty module whose first proposal will get id 1.
    pub fn new() -> (r: Governance)
        ensures
            r.wf(),
            r.proposals@.len() == 0,
            r.next_id == 1,
    {
        Governance { proposals: Vec::new(), next_id: 1 }
    }
}

/// The index of the proposal with the given id, or `None` when there is
/// none.
pub(crate) fn find_proposal(proposals: &Vec<Proposal>, id: u64) -> (r: Option<usize>)
    ensures
        match r {
            Some(i) => i < proposals@.len() && proposals.deep_view()[i as int].id == id
                && has_proposal(proposals.deep_view(), id),
            None => !has_proposal(proposals.deep_view(), id),
        },
{
    let mut i: usize = 0;
    while i < proposals.len()
        invariant
            0 <= i <= proposals@.len(),
            forall|j: int| 0 <= j < i ==> #[trigger] proposals.deep_view()[j].id != id,
        decreases proposals@.len() - i,
    {
        if proposals[i].id == id {
            assert(proposals.deep_view()[i as int].id == id);
            return Some(i);
        }
        i = i + 1;
    }
    None
}

/// Under unique ids, an index holding `id` is the index `proposal_idx`
/// denotes.
pub proof fn lemma_proposal_idx_is(ps: Seq<ProposalV>, id: u64, i: int)
    requires
        proposal_ids_unique(ps),
        0 <= i < ps.len(),
        ps[i].id == id,
    ensures
        has_proposal(ps, id),
        proposal_idx(ps, id) == i,
{
    assert(has_proposal(ps, id));
    let j = proposal_idx(ps, id);
    if i < j {
        assert(ps[i].id != ps[j].id);
    } else if j < i {
        assert(ps[j].id != ps[i].id);
    }
}

/// The view of the proposal that `propose` opens at time `now`.
pub open spec fn new_proposal_view(
    id: u64,
    topic: Seq<char>,
    proposer_id: u64,
    now: u64,
) -> ProposalV {
    ProposalV {
        id: id,
        topic: topic,
        status: VotingStatus::Open,
        proposer_id: proposer_id,
        date_created: now,
        voting_period_start: now,
        voting_period_end: (now + VOTING_WINDOW_SECONDS) as u64,
        votes_of_neurons: Seq::empty(),
        tally: Tally { yes: 0, no: 0, total: 0 },
    }
}

/// Opens a proposal at time `now`: the caller must own the proposing
/// neuron; the proposal gets the next id, an all-zero tally, and a voting
/// window of `VOTING_WINDOW_SECONDS` from `now`.
pub fn propose_at(
    gov: &mut Governance,
    ns: &NervousSystem,
    topic: String,
    caller_address: &String,
    proposer_id: u64,
    now: u64,
) -> (r: Result<u64, CoreError>)
    requires
        old(gov).wf(),
        ns.wf(),
        old(gov).next_id < u64::MAX,
        now < 0x4000000000000000,
    ensures
        final (gov).wf(),
        ({
            let ns0 = ns.neurons.deep_view();
            if !has_neuron(ns0, proposer_id) {
                r == Err::<u64, CoreError>(CoreError::NeuronNotFound) && *final (gov) == *old(gov)
            } else if neuron_of(ns0, proposer_id).address != caller_address@ {
                r == Err::<u64, CoreError>(CoreError::NotOwner) && *final (gov) == *old(gov)
            } else {
                &&& r == Ok::<u64, CoreError>(old(gov).next_id)
                &&& final (gov).next_id == old(gov).next_id + 1
                &&& final (gov).proposals.deep_view() =~~= old(gov).proposals.deep_view().push(
                    new_proposal_view(old(gov).next_id, topic@, proposer_id, now),
                )
            }
        }),
{
    let ghost ns0 = ns.neurons.deep_view();
    let ghost ps0 = gov.proposals.deep_view();
    let i = match find_neuron(&ns.neurons, proposer_id) {
        Some(i) => i,
        None => {
            return Err(CoreError::NeuronNotFound);
        },
    };
    proof {
        lemma_neuron_idx_is(ns0, proposer_id, i as int);
    }
    if !(ns.neurons[i].address == *caller_address) {
        return Err(CoreError::NotOwner);
    }
    let proposal_id = gov.next_id;
    gov.next_id = gov.next_id + 1;
    let proposal = Proposal {
        id: proposal_id,
        topic,
        status: VotingStatus::Open,
        proposer_id,
        date_created: now,
        voting_period_start: now,
        voting_period_end: now + VOTING_WINDOW_SECONDS,
        votes_of_neurons: Vec::new(),
        tally: Tally { yes: 0, no: 0, total: 0 },
    };
    let ghost pv = proposal@;
    let ghost pre = gov.proposals@;
    gov.proposals.push(proposal);
    proof {
        assert forall|k: int| 0 <= k < gov.proposals@.len() implies
            #[trigger] gov.proposals.deep_view()[k] == ps0.push(pv)[k] by {
            assert(gov.proposals.deep_view()[k] == gov.proposals@[k]@);
            if k < pre.len() {
                assert(gov.proposals@[k] == pre[k]);
            }
        }
        assert(gov.proposals.deep_view() =~~= ps0.push(pv));
        assert(pv.votes_of_neurons =~~= Seq::<VotingNeuronV>::empty());
        assert(pv =~~= new_proposal_view(proposal_id, pv.topic, proposer_id, now));
    }
    Ok(proposal_id)
}

/// Opens a proposal dated by the system clock.
pub fn propose(
    gov: &mut Governance,
    ns: &NervousSystem,
    topic: String,
    caller: &ed25519_dalek::SigningKey,
    proposer_id: u64,
) -> (r: Result<u64, CoreError>)
    requires
        old(gov).wf(),
        ns.wf(),
        old(gov).next_id < u64::MAX,
    ensures
        final (gov).wf(),
        ({
            let ns0 = ns.neurons.deep_view();
            if !has_neuron(ns0, proposer_id) {
                r == Err::<u64, CoreError>(CoreError::NeuronNotFound) && *final (gov) == *old(gov)
            } else if neuron_of(ns0, proposer_id).address != address_of_key(*caller) {
                r == Err::<u64, CoreError>(CoreError::NotOwner) && *final (gov) == *old(gov)
            } else {
                &&& r == Ok::<u64, CoreError>(old(gov).next_id)
                &&& final (gov).next_id == old(gov).next_id + 1
                &&& exists|now: u64|
                    final (gov).proposals.deep_view() =~~= old(gov).proposals.deep_view().push(
                        #[trigger] new_proposal_view(old(gov).next_id, topic@, proposer_id, now),
                    )
            }
        }),
{
    let caller_address = signer_address(caller);
    let now = now_seconds();
    let ghost the_now = now;
    let ghost topicv = topic@;
    let r = propose_at(gov, ns, topic, &caller_address, proposer_id, now);
    proof {
        let ns0 = ns.neurons.deep_view();
        if has_neuron(ns0, proposer_id) && neuron_of(ns0, proposer_id).address == address_of_key(
            *caller,
        ) {
            assert(gov.proposals.deep_view() =~~= old(gov).proposals.deep_view().push(
                new_proposal_view(old(gov).next_id, topicv, proposer_id, the_now),
            ));
        }
    }
    r
}

/// The proposal list after a successful `vote`, or the error it reports:
/// the caller must own a neuron whose stake covers the committed amount,
/// the proposal must exist, and the neuron must not have voted on it yet;
/// the vote is then recorded and its weighted power added to the tally.
pub open spec fn vote_outcome(
    ps0: Seq<ProposalV>,
    ns0: Seq<NeuronV>,
    caller_addr: Seq<char>,
    neuron_id: u64,
    proposal_id: u64,
    vote_for: bool,
    stake: u64,
) -> Result<Seq<ProposalV>, CoreError> {
    if !has_neuron(ns0, neuron_id) {
        Err(CoreError::NeuronNotFound)
    } else {
        let n = neuron_of(ns0, neuron_id);
        if n.address != caller_addr {
            Err(CoreError::NotOwner)
        } else if n.staked_amount < stake {
            Err(CoreError::InsufficientStake)
        } else if !has_proposal(ps0, proposal_id) {
            Err(CoreError::ProposalNotFound)
        } else {
            let pi = proposal_idx(ps0, proposal_id);
            let p = ps0[pi];
            if has_vote(p.votes_of_neurons, neuron_id) {
                Err(CoreError::AlreadyVoted)
            } else {
                let power = voting_power_spec(stake, n.bonus_multiplier);
                let vv = VotingNeuronV {
                    name: n.name,
                    id: neuron_id,
                    vote: if vote_for {
                        Vote::Yes
                    } else {
                        Vote::No
                    },
                };
                Ok(
                    ps0.update(
                        pi,
                        ProposalV {
                            votes_of_neurons: p.votes_of_neurons.push(vv),
                            tally: Tally {
                                yes: if vote_for {
                                    (p.tally.yes + power) as u64
                                } else {
                                    p.tally.yes
                                },
                                no: if vote_for {
                                    p.tally.no
                                } else {
                                    (p.tally.no + power) as u64
                                },
                                total: (p.tally.total + power) as u64,
                            },
                            ..p
                        },
                    ),
                )
            }
        }
    }
}

/// The tally additions of a `vote` stay within 64 bits.
pub open spec fn vote_fits(
    ps0: Seq<ProposalV>,
    ns0: Seq<NeuronV>,
    neuron_id: u64,
    proposal_id: u64,
    stake: u64,
) -> bool {
    has_neuron(ns0, neuron_id) && has_proposal(ps0, proposal_id) ==> {
        let n = neuron_of(ns0, neuron_id);
        let p = ps0[proposal_idx(ps0, proposal_id)];
        let power = voting_power_spec(stake, n.bonus_multiplier);
        &&& p.tally.yes + power <= u64::MAX
        &&& p.tally.no + power <= u64::MAX
        &&& p.tally.total + power <= u64::MAX
    }
}

/// Casts a weighted vote on a proposal: a neuron may vote at most once
/// per proposal, and a rejected vote leaves every tally unchanged.
pub fn vote(
    gov: &mut Governance,
    ns: &NervousSystem,
    caller: &ed25519_dalek::SigningKey,
    neuron_id: u64,
    proposal_id: u64,
    vote_for: bool,
    stake: u64,
) -> (r: Result<(), CoreError>)
    requires
        old(gov).wf(),
        ns.wf(),
        vote_fits(
            old(gov).proposals.deep_view(),
            ns.neurons.deep_view(),
            neuron_id,
            proposal_id,
            stake,
        ),
    ensures
        final (gov).wf(),
        final (gov).next_id == old(gov).next_id,
        match vote_outcome(
            old(gov).proposals.deep_view(),
            ns.neurons.deep_view(),
            address_of_key(*caller),
            neuron_id,
            proposal_id,
            vote_for,
            stake,
        ) {
            Ok(ps1) => r == Ok::<(), CoreError>(()) && final (gov).proposals.deep_view() =~~= ps1,
            Err(e) => r == Err::<(), CoreError>(e) && final (gov).proposals == old(gov).proposals,
        },
{
    let caller_address = signer_address(caller);
    let ghost ns0 = ns.neurons.deep_view();
    let ghost ps0 = gov.proposals.deep_view();
    let i = match find_neuron(&ns.neurons, neuron_id) {
        Some(i) => i,
        None => {
            return Err(CoreError::NeuronNotFound);
        },
    };
    proof {
        lemma_neuron_idx_is(ns0, neuron_id, i as int);
    }
    if !(ns.neurons[i].address == caller_address) {
        return Err(CoreError::NotOwner);
    }
    if ns.neurons[i].staked_amount < stake {
        return Err(CoreError::InsufficientStake);
    }
    let pi = match find_proposal(&gov.proposals, proposal_id) {
        Some(pi) => pi,
        None => {
            return Err(CoreError::ProposalNotFound);
        },
    };
    proof {
        lemma_proposal_idx_is(ps0, proposal_id, pi as int);
    }
    let mut already = false;
    let mut k: usize = 0;
    while k < gov.proposals[pi].votes_of_neurons.len()
        invariant
            pi < gov.proposals@.len(),
            0 <= k <= gov.proposals@[pi as int].votes_of_neurons@.len(),
            gov.proposals == old(gov).proposals,
            gov.next_id == old(gov).next_id,
            already == exists|j: int|
                0 <= j < k && (#[trigger] gov.proposals@[pi as int].votes_of_neurons.deep_view()[j]).id
                    == neuron_id,
        decreases gov.proposals@[pi as int].votes_of_neurons@.len() - k,
    {
        if gov.proposals[pi].votes_of_neurons[k].id == neuron_id {
            proof {
                assert((gov.proposals@[pi as int].votes_of_neurons.deep_view()[k as int]).id
                    == neuron_id);
            }
            already = true;
        }
        k = k + 1;
    }
    if already {
        return Err(CoreError::AlreadyVoted);
    }
    proof {
        assert(!has_vote(ps0[pi as int].votes_of_neurons, neuron_id));
    }
    let power = voting_power(stake, ns.neurons[i].bonus_multiplier);
    let mut proposal = gov.proposals.remove(pi);
    let ghost votes0 = proposal.votes_of_neurons.deep_view();
    let ghost prev_votes = proposal.votes_of_neurons@;
    let entry = VotingNeuron {
        name: ns.neurons[i].name.clone(),
        id: neuron_id,
        vote: if vote_for {
            Vote::Yes
        } else {
            Vote::No
        },
    };
    let ghost ev = entry@;
    proposal.votes_of_neurons.push(entry);
    proof {
        assert forall|j: int| 0 <= j < proposal.votes_of_neurons@.len() implies
            #[trigger] proposal.votes_of_neurons.deep_view()[j] == votes0.push(ev)[j] by {
            assert(proposal.votes_of_neurons.deep_view()[j] == proposal.votes_of_neurons@[j]@);
            if j < prev_votes.len() {
                assert(proposal.votes_of_neurons@[j] == prev_votes[j]);
            }
        }
        assert(proposal.votes_of_neurons.deep_view() =~~= votes0.push(ev));
    }
    if vote_for {
        proposal.tally.yes = proposal.tally.yes + power;
    } else {
        proposal.tally.no = proposal.tally.no + power;
    }
    proposal.tally.total = proposal.tally.total + power;
    gov.proposals.insert(pi, proposal);
    proof {
        let ps1 = vote_outcome(
            ps0,
            ns0,
            address_of_key(*caller),
            neuron_id,
            proposal_id,
            vote_for,
            stake,
        ).unwrap();
        assert forall|j: int| 0 <= j < gov.proposals@.len() implies
            #[trigger] gov.proposals.deep_view()[j] == ps1[j] by {
            assert(gov.proposals.deep_view()[j] == gov.proposals@[j]@);
        }
        assert(gov.proposals.deep_view() =~~= ps1);
    }
    Ok(())
}

/// The sign a vote contributes: yes counts for, no counts against, and
/// an abstention counts nothing.
pub open spec fn vote_sign(v: Vote) -> int {
    match v {
        Vote::Yes => 1,
        Vote::No => -1,
        Vote::Abstain => 0,
    }
}

/// One recorded vote's contribution to a finalization: the voter's
/// current voting power, signed by its vote; voters whose neuron no
/// longer exists contribute nothing.
pub open spec fn vote_term(ns0: Seq<NeuronV>, v: VotingNeuronV) -> int {
    if has_neuron(ns0, v.id) {
        voting_power_spec(
            neuron_of(ns0, v.id).staked_amount,
            neuron_of(ns0, v.id).bonus_multiplier,
        ) * vote_sign(v.vote)
    } else {
        0
    }
}

/// The signed outcome over the first `k` recorded votes, weighted by the
/// voters' current stake.
pub open spec fn finalize_sum(votes: Seq<VotingNeuronV>, ns0: Seq<NeuronV>, k: int) -> int
    recommends
        0 <= k <= votes.len(),
    decreases k,
{
    if k <= 0 {
        0
    } else {
        finalize_sum(votes, ns0, k - 1) + vote_term(ns0, votes[k - 1])
    }
}

/// The sum of the absolute contributions, which bounds every partial
/// outcome.
pub open spec fn finalize_abs_sum(votes: Seq<VotingNeuronV>, ns0: Seq<NeuronV>, k: int) -> int
    recommends
        0 <= k <= votes.len(),
    decreases k,
{
    if k <= 0 {
        0
    } else {
        finalize_abs_sum(votes, ns0, k - 1) + abs_val(vote_term(ns0, votes[k - 1]))
    }
}

proof fn lemma_finalize_sum_bounded(votes: Seq<VotingNeuronV>, ns0: Seq<NeuronV>, k: int)
    requires
        0 <= k <= votes.len(),
    ensures
        abs_val(finalize_sum(votes, ns0, k)) <= finalize_abs_sum(votes, ns0, k),
        finalize_abs_sum(votes, ns0, k) <= finalize_abs_sum(votes, ns0, votes.len() as int),
    decreases votes.len() - k,
{
    if k < votes.len() {
        lemma_finalize_sum_bounded(votes, ns0, k + 1);
    }
    lemma_finalize_sum_bounded_below(votes, ns0, k);
}

proof fn lemma_finalize_sum_bounded_below(votes: Seq<VotingNeuronV>, ns0: Seq<NeuronV>, k: int)
    requires
        0 <= k <= votes.len(),
    ensures
        abs_val(finalize_sum(votes, ns0, k)) <= finalize_abs_sum(votes, ns0, k),
    decreases k,
{
    if k > 0 {
        lemma_finalize_sum_bounded_below(votes, ns0, k - 1);
    }
}

/// Every voter's current power fits in 64 bits and the total absolute
/// outcome fits in 64 signed bits.
pub open spec fn finalize_fits(votes: Seq<VotingNeuronV>, ns0: Seq<NeuronV>) -> bool {
    &&& forall|k: int|
        0 <= k < votes.len() && has_neuron(ns0, (#[trigger] votes[k]).id) ==> voting_power_spec(
            neuron_of(ns0, votes[k].id).staked_amount,
            neuron_of(ns0, votes[k].id).bonus_multiplier,
        ) <= u64::MAX
    &&& finalize_abs_sum(votes, ns0, votes.len() as int) <= i64::MAX
}

/// Recomputes a proposal's outcome from the voters' current stake: the
/// sum over every recorded voter of its present voting power, positive
/// for yes and negative for no.
pub fn compute_voting_outcome(ns: &NervousSystem, proposal: &Proposal) -> (r: i64)
    requires
        ns.wf(),
        finalize_fits(proposal.votes_of_neurons.deep_view(), ns.neurons.deep_view()),
    ensures
        r == finalize_sum(
            proposal.votes_of_neurons.deep_view(),
            ns.neurons.deep_view(),
            proposal.votes_of_neurons.deep_view().len() as int,
        ),
{
    let ghost votes = proposal.votes_of_neurons.deep_view();
    let ghost ns0 = ns.neurons.deep_view();
    let ghost all: int = votes.len() as int;
    let mut acc: i128 = 0;
    let mut k: usize = 0;
    while k < proposal.votes_of_neurons.len()
        invariant
            ns.wf(),
            0 <= k <= votes.len(),
            votes == proposal.votes_of_neurons.deep_view(),
            ns0 == ns.neurons.deep_view(),
            all == votes.len(),
            finalize_fits(votes, ns0),
            acc == finalize_sum(votes, ns0, k as int),
        decreases votes.len() - k,
    {
        let voter = &proposal.votes_of_neurons[k];
        let sign: i128 = match voter.vote {
            Vote::Yes => 1,
            Vote::No => -1,
            Vote::Abstain => 0,
        };
        proof {
            lemma_finalize_sum_bounded(votes, ns0, k + 1);
            lemma_finalize_sum_bounded(votes, ns0, k as int);
        }
        match find_neuron(&ns.neurons, voter.id) {
            Some(ni) => {
                proof {
                    lemma_neuron_idx_is(ns0, voter.id, ni as int);
                }
                let power = voting_power(
                    ns.neurons[ni].staked_amount,
                    ns.neurons[ni].bonus_multiplier,
                );
                acc = acc + (power as i128) * sign;
            },
            None => {},
        }
        proof {
            assert(acc == finalize_sum(votes, ns0, k + 1));
        }
        k = k + 1;
    }
    proof {
        lemma_finalize_sum_bounded(votes, ns0, all);
    }
    acc as i64
}

/// Removes the proposal and decides it from the voters' current stake:
/// the outcome is true exactly when the weighted sum is positive.
pub fn finalize(gov: &mut Governance, ns: &NervousSystem, proposal_id: u64) -> (r: Result<
    bool,
    CoreError,
>)
    requires
        old(gov).wf(),
        ns.wf(),
        has_proposal(old(gov).proposals.deep_view(), proposal_id) ==> finalize_fits(
            old(gov).proposals.deep_view()[proposal_idx(
                old(gov).proposals.deep_view(),
                proposal_id,
            )].votes_of_neurons,
            ns.neurons.deep_view(),
        ),
    ensures
        final (gov).wf(),
        final (gov).next_id == old(gov).next_id,
        ({
            let ps0 = old(gov).proposals.deep_view();
            if !has_proposal(ps0, proposal_id) {
                r == Err::<bool, CoreError>(CoreError::ProposalNotFound) && final (gov).proposals
                    == old(gov).proposals
            } else {
                let pi = proposal_idx(ps0, proposal_id);
                let votes = ps0[pi].votes_of_neurons;
                &&& r == Ok::<bool, CoreError>(
                    finalize_sum(votes, ns.neurons.deep_view(), votes.len() as int) > 0,
                )
                &&& final (gov).proposals.deep_view() =~~= ps0.remove(pi)
            }
        }),
{
    let ghost ps0 = gov.proposals.deep_view();
    let pi = match find_proposal(&gov.proposals, proposal_id) {
        Some(pi) => pi,
        None => {
            return Err(CoreError::ProposalNotFound);
        },
    };
    proof {
        lemma_proposal_idx_is(ps0, proposal_id, pi as int);
    }
    let mut proposal = gov.proposals.remove(pi);
    proposal.status = VotingStatus::Terminated;
    proof {
        assert forall|j: int| 0 <= j < gov.proposals@.len() implies
            #[trigger] gov.proposals.deep_view()[j] == ps0.remove(pi as int)[j] by {
            assert(gov.proposals.deep_view()[j] == gov.proposals@[j]@);
        }
        assert(gov.proposals.deep_view() =~~= ps0.remove(pi as int));
        assert(proposal.votes_of_neurons.deep_view() == ps0[pi as int].votes_of_neurons);
    }
    let outcome = compute_voting_outcome(ns, &proposal);
    Ok(outcome > 0)
}

/// A proposal's ordering key: its yes votes less its no votes.
pub open spec fn proposal_net(p: ProposalV) -> int {
    p.tally.yes - p.tally.no
}

/// Whether a proposal list is sorted by ascending net tally.
pub open spec fn sorted_by_net(ps: Seq<ProposalV>) -> bool {
    forall|i: int, j: int|
        0 <= i < j < ps.len() ==> proposal_net(#[trigger] ps[i]) <= proposal_net(#[trigger] ps[j])
}

/// Whether `a` ranks at or below `b` in net tally.
fn net_le(a: &Proposal, b: &Proposal) -> (r: bool)
    ensures
        r == (proposal_net(a@) <= proposal_net(b@)),
{
    (a.tally.yes as u128) + (b.tally.no as u128) <= (b.tally.yes as u128) + (a.tally.no as u128)
}

/// Every proposal, sorted by ascending net tally; proposals with equal
/// nets may come out in either order.
pub fn list_proposals(gov: &Governance) -> (r: Vec<Proposal>)
    ensures
        r.deep_view().to_multiset() == gov.proposals.deep_view().to_multiset(),
        sorted_by_net(r.deep_view()),
{
    broadcast use vstd::seq_lib::group_to_multiset_ensures;

    let ghost ps0 = gov.proposals.deep_view();
    let mut rest: Vec<Proposal> = Vec::new();
    let mut i: usize = 0;
    while i < gov.proposals.len()
        invariant
            0 <= i <= gov.proposals@.len(),
            ps0 == gov.proposals.deep_view(),
            rest@.len() == i,
            rest.deep_view() =~~= ps0.subrange(0, i as int),
        decreases gov.proposals@.len() - i,
    {
        let ghost prev = rest.deep_view();
        rest.push(gov.proposals[i].duplicate());
        proof {
            assert forall|k: int| 0 <= k < i + 1 implies rest.deep_view()[k] == ps0[k] by {
                assert(rest.deep_view()[k] == rest@[k]@);
                if k < i {
                    assert(rest@[k]@ == prev[k]);
                    assert(prev[k] == ps0.subrange(0, i as int)[k]);
                }
            }
            assert(rest.deep_view() =~~= ps0.subrange(0, i + 1));
        }
        i = i + 1;
    }
    proof {
        assert(rest.deep_view() =~~= ps0);
    }
    let mut out: Vec<Proposal> = Vec::new();
    while rest.len() > 0
        invariant
            out.deep_view().to_multiset().add(rest.deep_view().to_multiset())
                =~= ps0.to_multiset(),
            sorted_by_net(out.deep_view()),
            forall|a: int, b: int|
                0 <= a < out.deep_view().len() && 0 <= b < rest.deep_view().len()
                    ==> proposal_net(#[trigger] out.deep_view()[a]) <= proposal_net(
                    #[trigger] rest.deep_view()[b],
                ),
        decreases rest@.len(),
    {
        broadcast use vstd::seq_lib::group_to_multiset_ensures;

        let mut mi: usize = 0;
        let mut j: usize = 1;
        while j < rest.len()
            invariant
                rest@.len() > 0,
                0 <= mi < rest@.len(),
                mi < j,
                0 < j <= rest@.len(),
                forall|k: int|
                    0 <= k < j ==> proposal_net(rest.deep_view()[mi as int]) <= proposal_net(
                        #[trigger] rest.deep_view()[k],
                    ),
            decreases rest@.len() - j,
        {
            if !net_le(&rest[mi], &rest[j]) {
                mi = j;
            }
            j = j + 1;
        }
        let ghost restv = rest.deep_view();
        let ghost outv = out.deep_view();
        let picked = rest.remove(mi);
        let ghost pv = picked@;
        out.push(picked);
        proof {
            assert forall|k: int| 0 <= k < rest.deep_view().len() implies
                #[trigger] rest.deep_view()[k] == restv.remove(mi as int)[k] by {
                assert(rest.deep_view()[k] == rest@[k]@);
            }
            assert(rest.deep_view() =~~= restv.remove(mi as int));
            assert forall|k: int| 0 <= k < out.deep_view().len() implies
                #[trigger] out.deep_view()[k] == outv.push(pv)[k] by {
                assert(out.deep_view()[k] == out@[k]@);
            }
            assert(out.deep_view() =~~= outv.push(pv));
            assert(restv[mi as int] == pv);
            assert(rest.deep_view().to_multiset() =~= restv.to_multiset().remove(pv));
            assert(out.deep_view().to_multiset() =~= outv.to_multiset().insert(pv));
            assert(out.deep_view().to_multiset().add(rest.deep_view().to_multiset())
                =~= ps0.to_multiset());
            assert forall|a: int, b: int|
                0 <= a < out.deep_view().len() && 0 <= b < rest.deep_view().len() implies
                proposal_net(#[trigger] out.deep_view()[a]) <= proposal_net(
                #[trigger] rest.deep_view()[b],
            ) by {
                if a < outv.len() {
                    assert(out.deep_view()[a] == outv[a]);
                }
                if b < mi {
                    assert(rest.deep_view()[b] == restv[b]);
                } else {
                    assert(rest.deep_view()[b] == restv[b + 1]);
                }
            }
        }
    }
    proof {
        assert(rest.deep_view().to_multiset() =~= Multiset::<ProposalV>::empty());
        assert(out.deep_view().to_multiset() =~= ps0.to_multiset());
    }
    out
}

} // verus!
