use vstd::prelude::*;

verus! {

/// A ledger address: the lower-case hexadecimal rendering of a 32-byte
/// public key.
pub type Address = String;

#[derive(Clone, Copy, Debug, PartialEq, Eq, Structural)]
pub enum VotingStatus {
    Open,
    Pending,
    Terminated,
    Unknown,
}

#[derive(Clone, Copy, Debug, PartialEq, Eq, Structural)]
pub enum TransactionType {
    Transfer,
    Mint,
    Approve,
    Burn,
}

#[derive(Clone, Copy, Debug, PartialEq, Eq, Structural)]
pub enum TransactionStatus {
    Completed,
    Failed,
    Pending,
    Unknown,
}

#[derive(Clone, Copy, Debug, PartialEq, Eq, Structural)]
pub enum NeuronStatus {
    NotDissolving,
    Dissolving,
    Dissolved,
    Spawning,
}

/// A vote cast on a proposal.
#[derive(Clone, Copy, Debug, PartialEq, Eq, Structural)]
pub enum Vote {
    Abstain,
    Yes,
    No,
}

/// Copies a byte vector, element by element.
pub fn copy_bytes(v: &Vec<u8>) -> (r: Vec<u8>)
    ensures
        r@ == v@,
{
    let mut r: Vec<u8> = Vec::new();
    let mut i: usize = 0;
    while i < v.len()
        invariant
            0 <= i <= v@.len(),
            r@ =~= v@.subrange(0, i as int),
        decreases v@.len() - i,
    {
        r.push(v[i]);
        i = i + 1;
    }
    assert(r@ =~= v@);
    r
}

/// A transfer between two ledger accounts. `hash` is the hexadecimal
/// SHA-256 digest of the transaction's canonical bytes with the hash and
/// signature fields cleared, and `signature` is an Ed25519 signature over
/// those same bytes.
#[derive(Clone, Debug)]
pub struct Transaction {
    pub hash: String,
    pub kind: TransactionType,
    pub status: TransactionStatus,
    pub index: u32,
    pub timestamp: u64,
    pub from: Address,
    pub to: Address,
    pub amount: u64,
    pub fee: u64,
    pub memo: u32,
    pub nrc_memo: u32,
    pub signature: Vec<u8>,
}

/// The mathematical content of a [`Transaction`].
#[verifier::ext_equal]
pub struct TransactionV {
    pub hash: Seq<char>,
    pub kind: TransactionType,
    pub status: TransactionStatus,
    pub index: u32,
    pub timestamp: u64,
    pub from: Seq<char>,
    pub to: Seq<char>,
    pub amount: u64,
    pub fee: u64,
    pub memo: u32,
    pub nrc_memo: u32,
    pub signature: Seq<u8>,
}

impl View for Transaction {
    type V = TransactionV;

    open spec fn view(&self) -> TransactionV {
        TransactionV {
            hash: self.hash@,
            kind: self.kind,
            status: self.status,
            index: self.index,
            timestamp: self.timestamp,
            from: self.from@,
            to: self.to@,
            amount: self.amount,
            fee: self.fee,
            memo: self.memo,
            nrc_memo: self.nrc_memo,
            signature: self.signature@,
        }
    }
}

impl DeepView for Transaction {
    type V = TransactionV;

    open spec fn deep_view(&self) -> TransactionV {
        self.view()
    }
}

impl Transaction {
    /// A field-by-field copy with the same view.
    pub fn duplicate(&self) -> (r: Transaction)
        ensures
            r@ == self@,
    {
        Transaction {
            hash: self.hash.clone(),
            kind: self.kind,
            status: self.status,
            index: self.index,
            timestamp: self.timestamp,
            from: self.from.clone(),
            to: self.to.clone(),
            amount: self.amount,
            fee: self.fee,
            memo: self.memo,
            nrc_memo: self.nrc_memo,
            signature: copy_bytes(&self.signature),
        }
    }
}

/// The signable part of a block: `signature` covers the canonical bytes of
/// the header with the signature field cleared.
#[derive(Clone, Debug)]
pub struct BlockHeader {
    pub parent_hash: [u8; 32],
    pub merkle_root: [u8; 32],
    pub timestamp: u64,
    pub validator: Address,
    pub signature: Vec<u8>,
}

/// The mathematical content of a [`BlockHeader`].
#[verifier::ext_equal]
pub struct BlockHeaderV {
    pub parent_hash: Seq<u8>,
    pub merkle_root: Seq<u8>,
    pub timestamp: u64,
    pub validator: Seq<char>,
    pub signature: Seq<u8>,
}

impl View for BlockHeader {
    type V = BlockHeaderV;

    open spec fn view(&self) -> BlockHeaderV {
        BlockHeaderV {
            parent_hash: self.parent_hash@,
            merkle_root: self.merkle_root@,
            timestamp: self.timestamp,
            validator: self.validator@,
            signature: self.signature@,
        }
    }
}

impl DeepView for BlockHeader {
    type V = BlockHeaderV;

    open spec fn deep_view(&self) -> BlockHeaderV {
        self.view()
    }
}

impl BlockHeader {
    /// A field-by-field copy with the same view.
    pub fn duplicate(&self) -> (r: BlockHeader)
        ensures
            r@ == self@,
    {
        BlockHeader {
            parent_hash: self.parent_hash,
            merkle_root: self.merkle_root,
            timestamp: self.timestamp,
            validator: self.validator.clone(),
            signature: copy_bytes(&self.signature),
        }
    }
}

#[derive(Clone, Debug)]
pub struct Block {
    pub header: BlockHeader,
    pub transactions: Vec<Transaction>,
}

/// The mathematical content of a [`Block`].
#[verifier::ext_equal]
pub struct BlockV {
    pub header: BlockHeaderV,
    pub transactions: Seq<TransactionV>,
}

impl View for Block {
    type V = BlockV;

    open spec fn view(&self) -> BlockV {
        BlockV { header: self.header@, transactions: self.transactions.deep_view() }
    }
}

impl DeepView for Block {
    type V = BlockV;

    open spec fn deep_view(&self) -> BlockV {
        self.view()
    }
}

impl Block {
    /// A field-by-field copy with the same view.
    pub fn duplicate(&self) -> (r: Block)
        ensures
            r@ == self@,
    {
        let mut txs: Vec<Transaction> = Vec::new();
        let mut i: usize = 0;
        while i < self.transactions.len()
            invariant
                0 <= i <= self.transactions@.len(),
                txs@.len() == i,
                txs.deep_view() =~~= self.transactions.deep_view().subrange(0, i as int),
            decreases self.transactions@.len() - i,
        {
            let ghost prev = txs.deep_view();
            txs.push(self.transactions[i].duplicate());
            proof {
                assert(txs@.len() == i + 1);
                assert forall|j: int| 0 <= j < i + 1 implies txs.deep_view()[j]
                    == self.transactions.deep_view()[j] by {
                    assert(txs.deep_view()[j] == txs@[j].deep_view());
                    if j < i {
                        assert(txs@[j] == txs@.subrange(0, i as int)[j]);
                        assert(prev[j] == self.transactions.deep_view().subrange(0, i as int)[j]);
                    } else {
                        assert(txs@[j]@ == self.transactions@[j]@);
                    }
                }
                assert(txs.deep_view() =~~= self.transactions.deep_view().subrange(0, i + 1));
            }
            i = i + 1;
        }
        assert(txs.deep_view() =~~= self.transactions.deep_view());
        let r = Block { header: self.header.duplicate(), transactions: txs };
        assert(r@ == self@);
        r
    }
}

/// A ledger account: an address, the raw 32-byte public key behind it, and
/// a balance.
#[derive(Clone, Debug)]
pub struct Account {
    pub address: Address,
    pub public_key: Vec<u8>,
    pub balance: u64,
}

/// The mathematical content of an [`Account`].
#[verifier::ext_equal]
pub struct AccountV {
    pub address: Seq<char>,
    pub public_key: Seq<u8>,
    pub balance: u64,
}

impl View for Account {
    type V = AccountV;

    open spec fn view(&self) -> AccountV {
        AccountV {
            address: self.address@,
            public_key: self.public_key@,
            balance: self.balance,
        }
    }
}

impl DeepView for Account {
    type V = AccountV;

    open spec fn deep_view(&self) -> AccountV {
        self.view()
    }
}

impl Account {
    /// A field-by-field copy with the same view.
    pub fn duplicate(&self) -> (r: Account)
        ensures
            r@ == self@,
    {
        Account {
            address: self.address.clone(),
            public_key: copy_bytes(&self.public_key),
            balance: self.balance,
        }
    }
}

/// An account-like staking unit owned by the identity behind `address`.
/// `bonus_multiplier` counts hundredths (100 is a neutral multiplier);
/// `unlock_date` and `age` count days of the common era.
#[derive(Clone, Debug)]
pub struct Neuron {
    pub address: Address,
    pub name: String,
    pub visibility: bool,
    pub id: u64,
    pub state: NeuronStatus,
    pub staked: bool,
    pub staked_amount: u64,
    pub unlock_date: i64,
    pub age: i64,
    pub voting_power: u32,
    pub maturity: u64,
    pub bonus_multiplier: u64,
    pub date_created: u64,
    pub dissolve_delay_bonus: u32,
    pub age_bonus: u32,
    pub total_bonus: u32,
    pub is_genesis: bool,
    pub is_known_neuron: bool,
    pub validator: Option<Address>,
}

/// The mathematical content of a [`Neuron`].
#[verifier::ext_equal]
pub struct NeuronV {
    pub address: Seq<char>,
    pub name: Seq<char>,
    pub visibility: bool,
    pub id: u64,
    pub state: NeuronStatus,
    pub staked: bool,
    pub staked_amount: u64,
    pub unlock_date: i64,
    pub age: i64,
    pub voting_power: u32,
    pub maturity: u64,
    pub bonus_multiplier: u64,
    pub date_created: u64,
    pub dissolve_delay_bonus: u32,
    pub age_bonus: u32,
    pub total_bonus: u32,
    pub is_genesis: bool,
    pub is_known_neuron: bool,
    pub validator: Option<Seq<char>>,
}

impl View for Neuron {
    type V = NeuronV;

    open spec fn view(&self) -> NeuronV {
        NeuronV {
            address: self.address@,
            name: self.name@,
            visibility: self.visibility,
            id: self.id,
            state: self.state,
            staked: self.staked,
            staked_amount: self.staked_amount,
            unlock_date: self.unlock_date,
            age: self.age,
            voting_power: self.voting_power,
            maturity: self.maturity,
            bonus_multiplier: self.bonus_multiplier,
            date_created: self.date_created,
            dissolve_delay_bonus: self.dissolve_delay_bonus,
            age_bonus: self.age_bonus,
            total_bonus: self.total_bonus,
            is_genesis: self.is_genesis,
            is_known_neuron: self.is_known_neuron,
            validator: self.validator.deep_view(),
        }
    }
}

impl DeepView for Neuron {
    type V = NeuronV;

    open spec fn deep_view(&self) -> NeuronV {
        self.view()
    }
}

impl Neuron {
    /// A field-by-field copy with the same view.
    pub fn duplicate(&self) -> (r: Neuron)
        ensures
            r@ == self@,
    {
        let validator: Option<Address> = match &self.validator {
            Some(v) => Some(v.clone()),
            None => None,
        };
        let r = Neuron {
            address: self.address.clone(),
            name: self.name.clone(),
            visibility: self.visibility,
            id: self.id,
            state: self.state,
            staked: self.staked,
            staked_amount: self.staked_amount,
            unlock_date: self.unlock_date,
            age: self.age,
            voting_power: self.voting_power,
            maturity: self.maturity,
            bonus_multiplier: self.bonus_multiplier,
            date_created: self.date_created,
            dissolve_delay_bonus: self.dissolve_delay_bonus,
            age_bonus: self.age_bonus,
            total_bonus: self.total_bonus,
            is_genesis: self.is_genesis,
            is_known_neuron: self.is_known_neuron,
            validator,
        };
        assert(r@ == self@);
        r
    }
}

/// An address authorized to produce blocks while `active`, backed by the
/// neuron that registered it.
#[derive(Clone, Debug)]
pub struct ValidatorInfo {
    pub address: Address,
    pub neuron_id: u64,
    pub active: bool,
}

/// The mathematical content of a [`ValidatorInfo`].
#[verifier::ext_equal]
pub struct ValidatorInfoV {
    pub address: Seq<char>,
    pub neuron_id: u64,
    pub active: bool,
}

impl View for ValidatorInfo {
    type V = ValidatorInfoV;

    open spec fn view(&self) -> ValidatorInfoV {
        ValidatorInfoV {
            address: self.address@,
            neuron_id: self.neuron_id,
            active: self.active,
        }
    }
}

impl DeepView for ValidatorInfo {
    type V = ValidatorInfoV;

    open spec fn deep_view(&self) -> ValidatorInfoV {
        self.view()
    }
}

impl ValidatorInfo {
    /// A field-by-field copy with the same view.
    pub fn duplicate(&self) -> (r: ValidatorInfo)
        ensures
            r@ == self@,
    {
        ValidatorInfo {
            address: self.address.clone(),
            neuron_id: self.neuron_id,
            active: self.active,
        }
    }
}

/// The running weighted totals of a proposal's votes.
#[derive(Clone, Copy, Debug, PartialEq, Eq, Structural)]
pub struct Tally {
    pub yes: u64,
    pub no: u64,
    pub total: u64,
}

/// The vote one neuron cast on one proposal, recorded at most once per
/// neuron.
#[derive(Clone, Debug)]
pub struct VotingNeuron {
    pub name: String,
    pub id: u64,
    pub vote: Vote,
}

/// The mathematical content of a [`VotingNeuron`].
#[verifier::ext_equal]
pub struct VotingNeuronV {
    pub name: Seq<char>,
    pub id: u64,
    pub vote: Vote,
}

impl View for VotingNeuron {
    type V = VotingNeuronV;

    open spec fn view(&self) -> VotingNeuronV {
        VotingNeuronV { name: self.name@, id: self.id, vote: self.vote }
    }
}

impl DeepView for VotingNeuron {
    type V = VotingNeuronV;

    open spec fn deep_view(&self) -> VotingNeuronV {
        self.view()
    }
}

impl VotingNeuron {
    /// A field-by-field copy with the same view.
    pub fn duplicate(&self) -> (r: VotingNeuron)
        ensures
            r@ == self@,
    {
        VotingNeuron { name: self.name.clone(), id: self.id, vote: self.vote }
    }
}

/// A governance proposal. Timestamps count seconds.
#[derive(Clone, Debug)]
pub struct Proposal {
    pub id: u64,
    pub topic: String,
    pub status: VotingStatus,
    pub proposer_id: u64,
    pub date_created: u64,
    pub voting_period_start: u64,
    pub voting_period_end: u64,
    pub votes_of_neurons: Vec<VotingNeuron>,
    pub tally: Tally,
}

/// The mathematical content of a [`Proposal`].
#[verifier::ext_equal]
pub struct ProposalV {
    pub id: u64,
    pub topic: Seq<char>,
    pub status: VotingStatus,
    pub proposer_id: u64,
    pub date_created: u64,
    pub voting_period_start: u64,
    pub voting_period_end: u64,
    pub votes_of_neurons: Seq<VotingNeuronV>,
    pub tally: Tally,
}

impl View for Proposal {
    type V = ProposalV;

    open spec fn view(&self) -> ProposalV {
        ProposalV {
            id: self.id,
            topic: self.topic@,
            status: self.status,
            proposer_id: self.proposer_id,
            date_created: self.date_created,
            voting_period_start: self.voting_period_start,
            voting_period_end: self.voting_period_end,
            votes_of_neurons: self.votes_of_neurons.deep_view(),
            tally: self.tally,
        }
    }
}

impl DeepView for Proposal {
    type V = ProposalV;

    open spec fn deep_view(&self) -> ProposalV {
        self.view()
    }
}

impl Proposal {
    /// A field-by-field copy with the same view.
    pub fn duplicate(&self) -> (r: Proposal)
        ensures
            r@ == self@,
    {
        let mut votes: Vec<VotingNeuron> = Vec::new();
        let mut i: usize = 0;
        while i < self.votes_of_neurons.len()
            invariant
                0 <= i <= self.votes_of_neurons@.len(),
                votes@.len() == i,
                votes.deep_view() =~~= self.votes_of_neurons.deep_view().subrange(0, i as int),
            decreases self.votes_of_neurons@.len() - i,
        {
            let ghost prev = votes.deep_view();
            votes.push(self.votes_of_neurons[i].duplicate());
            proof {
                assert(votes@.len() == i + 1);
                assert forall|j: int| 0 <= j < i + 1 implies votes.deep_view()[j]
                    == self.votes_of_neurons.deep_view()[j] by {
                    assert(votes.deep_view()[j] == votes@[j].deep_view());
                    if j < i {
                        assert(votes@[j] == votes@.subrange(0, i as int)[j]);
                        assert(prev[j] == self.votes_of_neurons.deep_view().subrange(0, i as int)[j]);
                    } else {
                        assert(votes@[j]@ == self.votes_of_neurons@[j]@);
                    }
                }
                assert(votes.deep_view() =~~= self.votes_of_neurons.deep_view().subrange(0, i + 1));
            }
            i = i + 1;
        }
        assert(votes.deep_view() =~~= self.votes_of_neurons.deep_view());
        let r = Proposal {
            id: self.id,
            topic: self.topic.clone(),
            status: self.status,
            proposer_id: self.proposer_id,
            date_created: self.date_created,
            voting_period_start: self.voting_period_start,
            voting_period_end: self.voting_period_end,
            votes_of_neurons: votes,
            tally: self.tally,
        };
        assert(r@ == self@);
        r
    }
}

/// Descriptive data of one network node; the core only stores it.
#[derive(Clone, Debug)]
pub struct Node {
    pub data_center_owner: String,
    pub fiber_state: String,
    pub dc_id: String,
    pub location: String,
    pub node_provider: String,
    pub status: String,
    pub node_provider_id: String,
    pub node_operator_id: String,
    pub subnet_id: String,
    pub ip_address: String,
}

/// No two neurons share an id.
pub open spec fn neuron_ids_unique(ns: Seq<NeuronV>) -> bool {
    forall|i: int, j: int| 0 <= i < j < ns.len() ==> ns[i].id != ns[j].id
}

pub open spec fn has_neuron(ns: Seq<NeuronV>, id: u64) -> bool {
    exists|i: int| 0 <= i < ns.len() && ns[i].id == id
}

/// The index of the neuron with the given id; meaningful under
/// `has_neuron` and `neuron_ids_unique`.
pub open spec fn neuron_idx(ns: Seq<NeuronV>, id: u64) -> int {
    choose|i: int| 0 <= i < ns.len() && ns[i].id == id
}

pub open spec fn neuron_of(ns: Seq<NeuronV>, id: u64) -> NeuronV {
    ns[neuron_idx(ns, id)]
}

/// No two accounts share an address.
pub open spec fn account_addrs_unique(accounts: Seq<AccountV>) -> bool {
    forall|i: int, j: int|
        0 <= i < j < accounts.len() ==> accounts[i].address != accounts[j].address
}

pub open spec fn has_account(accounts: Seq<AccountV>, addr: Seq<char>) -> bool {
    exists|i: int| 0 <= i < accounts.len() && accounts[i].address == addr
}

pub open spec fn account_idx(accounts: Seq<AccountV>, addr: Seq<char>) -> int {
    choose|i: int| 0 <= i < accounts.len() && accounts[i].address == addr
}

pub open spec fn account_of(accounts: Seq<AccountV>, addr: Seq<char>) -> AccountV {
    accounts[account_idx(accounts, addr)]
}

/// The balance of the account at `addr`, or zero when no account holds it.
pub open spec fn balance_of(accounts: Seq<AccountV>, addr: Seq<char>) -> u64 {
    if has_account(accounts, addr) {
        account_of(accounts, addr).balance
    } else {
        0
    }
}

/// No two validator entries share an address.
pub open spec fn validator_addrs_unique(vs: Seq<ValidatorInfoV>) -> bool {
    forall|i: int, j: int| 0 <= i < j < vs.len() ==> vs[i].address != vs[j].address
}

pub open spec fn has_validator(vs: Seq<ValidatorInfoV>, addr: Seq<char>) -> bool {
    exists|i: int| 0 <= i < vs.len() && vs[i].address == addr
}

pub open spec fn validator_idx(vs: Seq<ValidatorInfoV>, addr: Seq<char>) -> int {
    choose|i: int| 0 <= i < vs.len() && vs[i].address == addr
}

/// Whether some validator entry for `addr` is active.
pub open spec fn has_active_validator(vs: Seq<ValidatorInfoV>, addr: Seq<char>) -> bool {
    exists|i: int| 0 <= i < vs.len() && vs[i].address == addr && vs[i].active
}

pub open spec fn proposal_ids_unique(ps: Seq<ProposalV>) -> bool {
    forall|i: int, j: int| 0 <= i < j < ps.len() ==> ps[i].id != ps[j].id
}

pub open spec fn has_proposal(ps: Seq<ProposalV>, id: u64) -> bool {
    exists|i: int| 0 <= i < ps.len() && ps[i].id == id
}

pub open spec fn proposal_idx(ps: Seq<ProposalV>, id: u64) -> int {
    choose|i: int| 0 <= i < ps.len() && ps[i].id == id
}

pub open spec fn proposal_of(ps: Seq<ProposalV>, id: u64) -> ProposalV {
    ps[proposal_idx(ps, id)]
}

pub open spec fn has_vote(vs: Seq<VotingNeuronV>, id: u64) -> bool {
    exists|i: int| 0 <= i < vs.len() && vs[i].id == id
}

} // verus!
