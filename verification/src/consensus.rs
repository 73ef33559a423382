use vstd::prelude::*;
use crate::codec::{transaction_signable_bytes, tx_signable_bytes};
use crate::crypto::{
    address_of_key, crypto_hash, ed25519_signature, ed25519_verifies, is_valid_public_key,
    sha256_of, sign_data, signer_address, signer_public_key, valid_ed25519_key, verify_data,
};
use crate::errors::CoreError;
use crate::hexcode::{hex_decode, hex_decoding, hex_encode, hex_seq};
use crate::types::{
    account_addrs_unique, account_idx, account_of, balance_of, has_account, has_active_validator,
    has_neuron, has_validator, neuron_idx, neuron_of, validator_addrs_unique, validator_idx,
    Account, AccountV, Block, BlockHeaderV, BlockV, NeuronV, Transaction, TransactionV,
    ValidatorInfo, ValidatorInfoV,
};
use crate::codec::{header_signable_bytes, serialize_header_for_signing};
use crate::merkle::{compute_merkle_root, merkle_root_of, zero_hash};
use crate::math::rounded_div;
use crate::staking::total_staked;
use crate::types::Neuron;
use crate::types::BlockHeader;
use crate::nervous::{find_neuron, lemma_neuron_idx_is, NervousSystem};

verus! {

/// The consensus engine's shared state: the validator set, the pending
/// transaction buffer, the chain, and the ledger of accounts.
pub struct ConsensusEngine {
    pub validators: Vec<ValidatorInfo>,
    pub mempool: Vec<Transaction>,
    pub chain: Vec<Block>,
    pub ledger: Vec<Account>,
}

impl ConsensusEngine {
    /// Well-formedness: no two ledger accounts share an address, and no
    /// two validator entries do either.
    pub open spec fn wf(self) -> bool {
        &&& account_addrs_unique(self.ledger.deep_view())
        &&& validator_addrs_unique(self.validators.deep_view())
    }

    /// An engine over a given validator set, with an empty mempool, chain
    /// and ledger.
    pub fn new(validators: Vec<ValidatorInfo>) -> (r: ConsensusEngine)
        requires
            validator_addrs_unique(validators.deep_view()),
        ensures
            r.wf(),
            r.validators == validators,
            r.mempool@.len() == 0,
            r.chain@.len() == 0,
            r.ledger@.len() == 0,
    {
        ConsensusEngine {
            validators,
            mempool: Vec::new(),
            chain: Vec::new(),
            ledger: Vec::new(),
        }
    }
}

/// The index of the account with the given address, or `None` when there
/// is none.
pub(crate) fn find_account(ledger: &Vec<Account>, address: &String) -> (r: Option<usize>)
    ensures
        match r {
            Some(i) => i < ledger@.len() && ledger.deep_view()[i as int].address == address@
                && has_account(ledger.deep_view(), address@),
            None => !has_account(ledger.deep_view(), address@),
        },
{
    let mut i: usize = 0;
    while i < ledger.len()
        invariant
            0 <= i <= ledger@.len(),
            forall|j: int| 0 <= j < i ==> #[trigger] ledger.deep_view()[j].address != address@,
        decreases ledger@.len() - i,
    {
        if ledger[i].address == *address {
            assert(ledger.deep_view()[i as int].address == address@);
            return Some(i);
        }
        i = i + 1;
    }
    None
}

/// Under unique addresses, an index holding `addr` is the index
/// `account_idx` denotes.
pub proof fn lemma_account_idx_is(accounts: Seq<AccountV>, addr: Seq<char>, i: int)
    requires
        account_addrs_unique(accounts),
        0 <= i < accounts.len(),
        accounts[i].address == addr,
    ensures
        has_account(accounts, addr),
        account_idx(accounts, addr) == i,
        account_of(accounts, addr) == accounts[i],
{
    assert(has_account(accounts, addr));
    let j = account_idx(accounts, addr);
    if i < j {
        assert(accounts[i].address != accounts[j].address);
    } else if j < i {
        assert(accounts[j].address != accounts[i].address);
    }
}

/// The ledger after `init_ledger`: the account at `addr` is created, or
/// overwritten where it exists.
pub open spec fn ledger_with_account(l0: Seq<AccountV>, a: AccountV) -> Seq<AccountV> {
    if has_account(l0, a.address) {
        l0.update(account_idx(l0, a.address), a)
    } else {
        l0.push(a)
    }
}

impl ConsensusEngine {
    /// Creates or overwrites the ledger account at `address` with the
    /// given public key and balance, and hands a copy of it back.
    pub fn init_ledger(&mut self, address: String, public_key: Vec<u8>, balance: u64) -> (r: Option<
        Account,
    >)
        requires
            old(self).wf(),
        ensures
            final (self).wf(),
            final (self).ledger.deep_view() =~~= ledger_with_account(
                old(self).ledger.deep_view(),
                AccountV { address: address@, public_key: public_key@, balance },
            ),
            final (self).validators == old(self).validators,
            final (self).mempool == old(self).mempool,
            final (self).chain == old(self).chain,
            match r {
                Some(a) => a@ == (AccountV { address: address@, public_key: public_key@, balance }),
                None => false,
            },
    {
        let ghost l0 = self.ledger.deep_view();
        let ghost av = AccountV { address: address@, public_key: public_key@, balance };
        let account = Account { address, public_key, balance };
        let out = account.duplicate();
        match find_account(&self.ledger, &account.address) {
            Some(i) => {
                proof {
                    lemma_account_idx_is(l0, av.address, i as int);
                }
                let ghost pre = self.ledger@;
                vstd::pervasive::VecAdditionalExecFns::set(&mut self.ledger, i, account);
                proof {
                    assert forall|k: int| 0 <= k < self.ledger@.len() implies
                        #[trigger] self.ledger.deep_view()[k] == l0.update(i as int, av)[k] by {
                        assert(self.ledger.deep_view()[k] == self.ledger@[k]@);
                        if k != i {
                            assert(self.ledger@[k] == pre[k]);
                        }
                    }
                    assert(self.ledger.deep_view() =~~= l0.update(i as int, av));
                }
            },
            None => {
                let ghost pre = self.ledger@;
                self.ledger.push(account);
                proof {
                    assert forall|k: int| 0 <= k < self.ledger@.len() implies
                        #[trigger] self.ledger.deep_view()[k] == l0.push(av)[k] by {
                        assert(self.ledger.deep_view()[k] == self.ledger@[k]@);
                        if k < pre.len() {
                            assert(self.ledger@[k] == pre[k]);
                        }
                    }
                    assert(self.ledger.deep_view() =~~= l0.push(av));
                }
            },
        }
        Some(out)
    }

    /// A copy of the account at `address`, if the ledger holds one.
    pub fn get_ledger(&self, address: &String) -> (r: Option<Account>)
        requires
            self.wf(),
        ensures
            match r {
                Some(a) => has_account(self.ledger.deep_view(), address@) && a@ == account_of(
                    self.ledger.deep_view(),
                    address@,
                ),
                None => !has_account(self.ledger.deep_view(), address@),
            },
    {
        match find_account(&self.ledger, address) {
            Some(i) => {
                proof {
                    lemma_account_idx_is(self.ledger.deep_view(), address@, i as int);
                }
                Some(self.ledger[i].duplicate())
            },
            None => None,
        }
    }

    /// The balance at `address`, or zero where no account holds it.
    pub fn get_balance(&self, address: &String) -> (r: u64)
        requires
            self.wf(),
        ensures
            r == balance_of(self.ledger.deep_view(), address@),
    {
        match find_account(&self.ledger, address) {
            Some(i) => {
                proof {
                    lemma_account_idx_is(self.ledger.deep_view(), address@, i as int);
                }
                self.ledger[i].balance
            },
            None => 0,
        }
    }
}

/// The canonical hash of a transaction: the hexadecimal SHA-256 digest of
/// its canonical bytes with the hash and signature fields cleared.
pub open spec fn tx_hash_chars(t: TransactionV) -> Seq<char> {
    hex_seq(sha256_of(tx_signable_bytes(t)))
}

/// Computes the canonical hash of a transaction; its current `hash` and
/// `signature` fields do not enter the digest.
pub fn compute_transaction_hash(tx: &Transaction) -> (r: Result<String, CoreError>)
    ensures
        match r {
            Ok(h) => h@ == tx_hash_chars(tx@),
            Err(_) => false,
        },
{
    let signable = transaction_signable_bytes(tx);
    let digest = crypto_hash(signable.as_slice());
    Ok(hex_encode(digest.as_slice()))
}

/// The canonical hash is stable: it does not depend on the `hash` and
/// `signature` fields themselves, so recomputing it after those fields
/// are cleared or filled in yields the same digest.
pub proof fn lemma_hash_stability(t1: TransactionV, t2: TransactionV)
    requires
        t1.kind == t2.kind,
        t1.status == t2.status,
        t1.index == t2.index,
        t1.timestamp == t2.timestamp,
        t1.from == t2.from,
        t1.to == t2.to,
        t1.amount == t2.amount,
        t1.fee == t2.fee,
        t1.memo == t2.memo,
        t1.nrc_memo == t2.nrc_memo,
    ensures
        tx_hash_chars(t1) == tx_hash_chars(t2),
{
    crate::codec::lemma_signable_bytes_ignore_hash_and_signature(t1, t2);
}

/// The ledger after `add_transaction` and its result. The hash must match
/// its recomputation, the sender address must decode to a well-formed
/// public key, and the signature must verify over the canonical bytes; a
/// sender without an account gets one with zero balance, which remains
/// even when the transfer then fails for insufficient funds or a missing
/// receiver. On success the sender is debited and the receiver credited.
pub open spec fn add_tx_outcome(l0: Seq<AccountV>, t: TransactionV) -> (Seq<AccountV>, Result<
    (),
    CoreError,
>) {
    if t.hash != tx_hash_chars(t) {
        (l0, Err(CoreError::InvalidHash))
    } else if hex_decoding(t.from) is None {
        (l0, Err(CoreError::InvalidAddress))
    } else {
        let key = hex_decoding(t.from).unwrap();
        if key.len() != 32 || !valid_ed25519_key(key) {
            (l0, Err(CoreError::InvalidAddress))
        } else if t.signature.len() == 0 || !ed25519_verifies(key, tx_signable_bytes(t), t.signature) {
            (l0, Err(CoreError::InvalidSignature))
        } else {
            let l1 = if has_account(l0, t.from) {
                l0
            } else {
                l0.push(AccountV { address: t.from, public_key: key, balance: 0 })
            };
            let s = l1[account_idx(l1, t.from)];
            if s.balance < t.amount {
                (l1, Err(CoreError::InsufficientFunds))
            } else if !has_account(l1, t.to) {
                (l1, Err(CoreError::UnknownReceiver))
            } else {
                let si = account_idx(l1, t.from);
                let ri = account_idx(l1, t.to);
                let rcv = l1[ri];
                let l2 = l1.update(si, AccountV { balance: (s.balance - t.amount) as u64, ..s });
                let l3 = l2.update(
                    ri,
                    AccountV { balance: (rcv.balance + t.amount) as u64, ..rcv },
                );
                (l3, Ok(()))
            }
        }
    }
}

/// Validates a transaction and settles it against the ledger: recomputes
/// the canonical hash, decodes the sender address, verifies the Ed25519
/// signature, then atomically debits the sender, credits the receiver and
/// appends the transaction to the mempool.
pub fn add_transaction(engine: &mut ConsensusEngine, tx: Transaction) -> (r: Result<
    (),
    CoreError,
>)
    requires
        old(engine).wf(),
        balance_of(old(engine).ledger.deep_view(), tx.to@) + tx.amount <= u64::MAX,
    ensures
        final (engine).wf(),
        final (engine).validators == old(engine).validators,
        final (engine).chain == old(engine).chain,
        ({
            let (l1, res) = add_tx_outcome(old(engine).ledger.deep_view(), tx@);
            &&& r == res
            &&& final (engine).ledger.deep_view() =~~= l1
            &&& (res is Ok ==> final (engine).mempool.deep_view() =~~= old(
                engine,
            ).mempool.deep_view().push(tx@))
            &&& (res is Err ==> final (engine).mempool == old(engine).mempool)
        }),
{
    let ghost l0 = engine.ledger.deep_view();
    let signable = transaction_signable_bytes(&tx);
    let digest = crypto_hash(signable.as_slice());
    let expected = hex_encode(digest.as_slice());
    if !(tx.hash == expected) {
        return Err(CoreError::InvalidHash);
    }
    let sender_key = match hex_decode(tx.from.as_str()) {
        Some(b) => b,
        None => {
            return Err(CoreError::InvalidAddress);
        },
    };
    if sender_key.len() != 32 {
        return Err(CoreError::InvalidAddress);
    }
    if !is_valid_public_key(sender_key.as_slice()) {
        return Err(CoreError::InvalidAddress);
    }
    if tx.signature.len() == 0 {
        return Err(CoreError::InvalidSignature);
    }
    if !verify_data(sender_key.as_slice(), signable.as_slice(), tx.signature.as_slice()) {
        return Err(CoreError::InvalidSignature);
    }
    let si = match find_account(&engine.ledger, &tx.from) {
        Some(i) => {
            proof {
                lemma_account_idx_is(l0, tx.from@, i as int);
            }
            i
        },
        None => {
            let sender = Account {
                address: tx.from.clone(),
                public_key: crate::types::copy_bytes(&sender_key),
                balance: 0,
            };
            let ghost pre = engine.ledger@;
            let i = engine.ledger.len();
            engine.ledger.push(sender);
            proof {
                assert forall|k: int| 0 <= k < engine.ledger@.len() implies
                    #[trigger] engine.ledger.deep_view()[k] == l0.push(
                    AccountV { address: tx.from@, public_key: sender_key@, balance: 0 },
                )[k] by {
                    assert(engine.ledger.deep_view()[k] == engine.ledger@[k]@);
                    if k < pre.len() {
                        assert(engine.ledger@[k] == pre[k]);
                    }
                }
                assert(engine.ledger.deep_view() =~~= l0.push(
                    AccountV { address: tx.from@, public_key: sender_key@, balance: 0 },
                ));
                lemma_account_idx_is(engine.ledger.deep_view(), tx.from@, i as int);
            }
            i
        },
    };
    let ghost l1 = engine.ledger.deep_view();
    proof {
        assert(si as int == account_idx(l1, tx.from@));
    }
    if engine.ledger[si].balance < tx.amount {
        return Err(CoreError::InsufficientFunds);
    }
    let ri = match find_account(&engine.ledger, &tx.to) {
        Some(i) => {
            proof {
                lemma_account_idx_is(l1, tx.to@, i as int);
            }
            i
        },
        None => {
            return Err(CoreError::UnknownReceiver);
        },
    };
    let recv_balance = engine.ledger[ri].balance;
    proof {
        if has_account(l0, tx.to@) {
            lemma_account_idx_is(l0, tx.to@, account_idx(l1, tx.to@));
        }
        assert(recv_balance + tx.amount <= u64::MAX);
    }
    let mut sender = engine.ledger.remove(si);
    sender.balance = sender.balance - tx.amount;
    engine.ledger.insert(si, sender);
    let mut receiver = engine.ledger.remove(ri);
    receiver.balance = recv_balance + tx.amount;
    engine.ledger.insert(ri, receiver);
    let ghost txv = tx@;
    let ghost mem0 = engine.mempool.deep_view();
    engine.mempool.push(tx);
    proof {
        let (l3, res) = add_tx_outcome(l0, txv);
        assert forall|k: int| 0 <= k < engine.ledger@.len() implies
            #[trigger] engine.ledger.deep_view()[k] == l3[k] by {
            assert(engine.ledger.deep_view()[k] == engine.ledger@[k]@);
        }
        assert(engine.ledger.deep_view() =~~= l3);
        assert forall|k: int| 0 <= k < engine.mempool@.len() implies
            #[trigger] engine.mempool.deep_view()[k] == mem0.push(txv)[k] by {
            assert(engine.mempool.deep_view()[k] == engine.mempool@[k]@);
        }
        assert(engine.mempool.deep_view() =~~= mem0.push(txv));
    }
    Ok(())
}

/// Removes the pending transaction carrying `tx_hash` from the mempool:
/// the first match leaves, and everything else keeps its place.
pub fn cancel_transaction(engine: &mut ConsensusEngine, tx_hash: String) -> (r: Result<
    (),
    CoreError,
>)
    ensures
        final (engine).validators == old(engine).validators,
        final (engine).chain == old(engine).chain,
        final (engine).ledger == old(engine).ledger,
        match r {
            Ok(()) => exists|i: int|
                {
                    &&& 0 <= i < old(engine).mempool.deep_view().len()
                    &&& (#[trigger] old(engine).mempool.deep_view()[i]).hash == tx_hash@
                    &&& (forall|j: int|
                        0 <= j < i ==> (#[trigger] old(engine).mempool.deep_view()[j]).hash
                            != tx_hash@)
                    &&& final (engine).mempool.deep_view() =~~= old(
                        engine,
                    ).mempool.deep_view().remove(i)
                },
            Err(e) => e == CoreError::TransactionNotFound && final (engine).mempool == old(
                engine,
            ).mempool && (forall|j: int|
                0 <= j < old(engine).mempool.deep_view().len() ==> (#[trigger] old(
                    engine,
                ).mempool.deep_view()[j]).hash != tx_hash@),
        },
{
    let ghost mem0 = engine.mempool.deep_view();
    let mut i: usize = 0;
    while i < engine.mempool.len()
        invariant
            0 <= i <= engine.mempool@.len(),
            mem0 == engine.mempool.deep_view(),
            engine.validators == old(engine).validators,
            engine.chain == old(engine).chain,
            engine.ledger == old(engine).ledger,
            engine.mempool == old(engine).mempool,
            forall|j: int| 0 <= j < i ==> (#[trigger] mem0[j]).hash != tx_hash@,
        decreases engine.mempool@.len() - i,
    {
        if engine.mempool[i].hash == tx_hash {
            let ghost pre = engine.mempool@;
            engine.mempool.remove(i);
            proof {
                assert forall|k: int| 0 <= k < engine.mempool@.len() implies
                    #[trigger] engine.mempool.deep_view()[k] == mem0.remove(i as int)[k] by {
                    assert(engine.mempool.deep_view()[k] == engine.mempool@[k]@);
                    if k < i {
                        assert(engine.mempool@[k] == pre[k]);
                    } else {
                        assert(engine.mempool@[k] == pre[k + 1]);
                    }
                }
                assert(engine.mempool.deep_view() =~~= mem0.remove(i as int));
                assert(old(engine).mempool.deep_view() == mem0);
                assert((old(engine).mempool.deep_view()[i as int]).hash == tx_hash@);
                assert forall|j: int| 0 <= j < i as int implies (#[trigger] old(
                    engine,
                ).mempool.deep_view()[j]).hash != tx_hash@ by {
                    assert(mem0[j].hash != tx_hash@);
                }
            }
            return Ok(());
        }
        i = i + 1;
    }
    Err(CoreError::TransactionNotFound)
}

/// The hash of a block: the SHA-256 digest of its header's canonical
/// bytes with the signature cleared.
pub open spec fn block_hash(h: BlockHeaderV) -> Seq<u8> {
    sha256_of(header_signable_bytes(h))
}

/// Hashes a block's signable header.
pub fn hash_block(block: &Block) -> (r: [u8; 32])
    ensures
        r@ == block_hash(block.header@),
{
    let signable = serialize_header_for_signing(&block.header);
    crypto_hash(signable.as_slice())
}

/// Under unique addresses, an index holding `addr` is the index
/// `validator_idx` denotes.
pub proof fn lemma_validator_idx_is(vs: Seq<ValidatorInfoV>, addr: Seq<char>, i: int)
    requires
        validator_addrs_unique(vs),
        0 <= i < vs.len(),
        vs[i].address == addr,
    ensures
        has_validator(vs, addr),
        validator_idx(vs, addr) == i,
{
    assert(has_validator(vs, addr));
    let j = validator_idx(vs, addr);
    if i < j {
        assert(vs[i].address != vs[j].address);
    } else if j < i {
        assert(vs[j].address != vs[i].address);
    }
}

/// The index of the validator entry at `address`, or `None` when there is
/// none.
pub(crate) fn find_validator(validators: &Vec<ValidatorInfo>, address: &String) -> (r: Option<
    usize,
>)
    ensures
        match r {
            Some(i) => i < validators@.len() && validators.deep_view()[i as int].address
                == address@ && has_validator(validators.deep_view(), address@),
            None => !has_validator(validators.deep_view(), address@),
        },
{
    let mut i: usize = 0;
    while i < validators.len()
        invariant
            0 <= i <= validators@.len(),
            forall|j: int|
                0 <= j < i ==> #[trigger] validators.deep_view()[j].address != address@,
        decreases validators@.len() - i,
    {
        if validators[i].address == *address {
            assert(validators.deep_view()[i as int].address == address@);
            return Some(i);
        }
        i = i + 1;
    }
    None
}

/// Whether some validator entry at `address` is active.
pub(crate) fn find_active_validator(validators: &Vec<ValidatorInfo>, address: &String) -> (r:
    bool)
    ensures
        r == has_active_validator(validators.deep_view(), address@),
{
    let mut i: usize = 0;
    while i < validators.len()
        invariant
            0 <= i <= validators@.len(),
            forall|j: int|
                0 <= j < i ==> !((#[trigger] validators.deep_view()[j].address) == address@
                    && validators.deep_view()[j].active),
        decreases validators@.len() - i,
    {
        if validators[i].address == *address && validators[i].active {
            assert(validators.deep_view()[i as int].address == address@
                && validators.deep_view()[i as int].active);
            return true;
        }
        i = i + 1;
    }
    false
}

/// The result of `validate_block` at time `now`: the header's validator
/// address must decode to a well-formed public key backing an active
/// validator entry, the header signature must verify, the merkle root
/// must match the transaction list, and the timestamp may lie at most 600
/// seconds in the future.
pub open spec fn validate_outcome(vs: Seq<ValidatorInfoV>, b: BlockV, now: u64) -> Result<
    (),
    CoreError,
> {
    let hv = b.header;
    if hex_decoding(hv.validator) is None {
        Err(CoreError::InvalidAddress)
    } else {
        let key = hex_decoding(hv.validator).unwrap();
        if key.len() != 32 || !valid_ed25519_key(key) {
            Err(CoreError::InvalidAddress)
        } else if !has_active_validator(vs, hv.validator) {
            Err(CoreError::ValidatorInactive)
        } else if !ed25519_verifies(key, header_signable_bytes(hv), hv.signature) {
            Err(CoreError::InvalidSignature)
        } else if hv.merkle_root != merkle_root_of(b.transactions) {
            Err(CoreError::MerkleMismatch)
        } else if hv.timestamp > now + 600 {
            Err(CoreError::TimestampSkew)
        } else {
            Ok(())
        }
    }
}

/// Checks a block against the validator set at the given time.
pub fn validate_block_at(engine: &ConsensusEngine, block: &Block, now: u64) -> (r: Result<
    (),
    CoreError,
>)
    ensures
        r == validate_outcome(engine.validators.deep_view(), block@, now),
{
    let key = match hex_decode(block.header.validator.as_str()) {
        Some(b) => b,
        None => {
            return Err(CoreError::InvalidAddress);
        },
    };
    if key.len() != 32 {
        return Err(CoreError::InvalidAddress);
    }
    if !is_valid_public_key(key.as_slice()) {
        return Err(CoreError::InvalidAddress);
    }
    if !find_active_validator(&engine.validators, &block.header.validator) {
        return Err(CoreError::ValidatorInactive);
    }
    let signable = serialize_header_for_signing(&block.header);
    if !verify_data(key.as_slice(), signable.as_slice(), block.header.signature.as_slice()) {
        return Err(CoreError::InvalidSignature);
    }
    let computed = compute_merkle_root(block.transactions.as_slice());
    if !crate::codec::bytes32_eq(&block.header.merkle_root, &computed) {
        return Err(CoreError::MerkleMismatch);
    }
    let limit: u64 = if now > u64::MAX - 600 {
        u64::MAX
    } else {
        now + 600
    };
    if block.header.timestamp > limit {
        return Err(CoreError::TimestampSkew);
    }
    Ok(())
}

/// Checks a block against the validator set, judged at the present time.
pub fn validate_block(engine: &ConsensusEngine, block: &Block) -> (r: Result<(), CoreError>)
    ensures
        exists|now: u64| r == #[trigger] validate_outcome(engine.validators.deep_view(), block@, now),
{
    let now = crate::clock::now_seconds();
    validate_block_at(engine, block, now)
}

/// A validator entry backed by the given neuron, initially inactive.
pub fn build_validator(ns: &NervousSystem, neuron_id: u64) -> (r: Result<ValidatorInfo, CoreError>)
    requires
        ns.wf(),
    ensures
        match r {
            Ok(v) => has_neuron(ns.neurons.deep_view(), neuron_id) && v@ == (ValidatorInfoV {
                address: neuron_of(ns.neurons.deep_view(), neuron_id).address,
                neuron_id: neuron_id,
                active: false,
            }),
            Err(e) => e == CoreError::NeuronNotFound && !has_neuron(
                ns.neurons.deep_view(),
                neuron_id,
            ),
        },
{
    match find_neuron(&ns.neurons, neuron_id) {
        Some(i) => {
            proof {
                lemma_neuron_idx_is(ns.neurons.deep_view(), neuron_id, i as int);
            }
            Ok(
                ValidatorInfo {
                    address: ns.neurons[i].address.clone(),
                    neuron_id,
                    active: false,
                },
            )
        },
        None => Err(CoreError::NeuronNotFound),
    }
}

/// A validator set holding one entry.
pub fn wrap_validator(validator_info: ValidatorInfo) -> (r: Vec<ValidatorInfo>)
    ensures
        r.deep_view() =~~= seq![validator_info@],
{
    let mut v: Vec<ValidatorInfo> = Vec::new();
    v.push(validator_info);
    v
}

/// The stake a validator must have backing it before it may register.
pub const MIN_VALIDATOR_STAKE: u64 = 100;

/// Registers the neuron's address as an active validator: the neuron must
/// exist, its address must not be registered yet, and its stake must
/// reach the minimum threshold.
pub fn register_validator(engine: &mut ConsensusEngine, ns: &NervousSystem, neuron_id: u64) -> (r:
    Result<(), CoreError>)
    requires
        old(engine).wf(),
        ns.wf(),
    ensures
        final (engine).wf(),
        final (engine).mempool == old(engine).mempool,
        final (engine).chain == old(engine).chain,
        final (engine).ledger == old(engine).ledger,
        ({
            let ns0 = ns.neurons.deep_view();
            let vs0 = old(engine).validators.deep_view();
            if !has_neuron(ns0, neuron_id) {
                r == Err::<(), CoreError>(CoreError::NeuronNotFound) && final (engine).validators
                    == old(engine).validators
            } else {
                let n = neuron_of(ns0, neuron_id);
                if has_validator(vs0, n.address) {
                    r == Err::<(), CoreError>(CoreError::ValidatorExists) && final (
                    engine).validators == old(engine).validators
                } else if n.staked_amount < MIN_VALIDATOR_STAKE {
                    r == Err::<(), CoreError>(CoreError::InsufficientStake) && final (
                    engine).validators == old(engine).validators
                } else {
                    r == Ok::<(), CoreError>(()) && final (engine).validators.deep_view()
                        =~~= vs0.push(
                        ValidatorInfoV { address: n.address, neuron_id: neuron_id, active: true },
                    )
                }
            }
        }),
{
    let ghost vs0 = engine.validators.deep_view();
    let i = match find_neuron(&ns.neurons, neuron_id) {
        Some(i) => i,
        None => {
            return Err(CoreError::NeuronNotFound);
        },
    };
    proof {
        lemma_neuron_idx_is(ns.neurons.deep_view(), neuron_id, i as int);
    }
    match find_validator(&engine.validators, &ns.neurons[i].address) {
        Some(_) => {
            return Err(CoreError::ValidatorExists);
        },
        None => {},
    }
    if ns.neurons[i].staked_amount < MIN_VALIDATOR_STAKE {
        return Err(CoreError::InsufficientStake);
    }
    let entry = ValidatorInfo {
        address: ns.neurons[i].address.clone(),
        neuron_id,
        active: true,
    };
    let ghost ev = entry@;
    let ghost pre = engine.validators@;
    engine.validators.push(entry);
    proof {
        assert forall|k: int| 0 <= k < engine.validators@.len() implies
            #[trigger] engine.validators.deep_view()[k] == vs0.push(ev)[k] by {
            assert(engine.validators.deep_view()[k] == engine.validators@[k]@);
            if k < pre.len() {
                assert(engine.validators@[k] == pre[k]);
            }
        }
        assert(engine.validators.deep_view() =~~= vs0.push(ev));
    }
    Ok(())
}

/// Sets the neuron's delegate: the target validator must exist and be
/// active.
pub fn delegate_stake(
    engine: &ConsensusEngine,
    ns: &mut NervousSystem,
    neuron_id: u64,
    validator: String,
) -> (r: Result<(), CoreError>)
    requires
        old(ns).wf(),
        engine.wf(),
    ensures
        final (ns).wf(),
        final (ns).next_id == old(ns).next_id,
        ({
            let ns0 = old(ns).neurons.deep_view();
            let vs = engine.validators.deep_view();
            if !has_neuron(ns0, neuron_id) {
                r == Err::<(), CoreError>(CoreError::NeuronNotFound) && final (ns).neurons == old(
                    ns,
                ).neurons
            } else if !has_validator(vs, validator@) {
                r == Err::<(), CoreError>(CoreError::ValidatorNotFound) && final (ns).neurons
                    == old(ns).neurons
            } else if !vs[validator_idx(vs, validator@)].active {
                r == Err::<(), CoreError>(CoreError::ValidatorInactive) && final (ns).neurons
                    == old(ns).neurons
            } else {
                let i = neuron_idx(ns0, neuron_id);
                r == Ok::<(), CoreError>(()) && final (ns).neurons.deep_view() =~~= ns0.update(
                    i,
                    NeuronV { validator: Some(validator@), ..ns0[i] },
                )
            }
        }),
{
    let ghost ns0 = ns.neurons.deep_view();
    let i = match find_neuron(&ns.neurons, neuron_id) {
        Some(i) => i,
        None => {
            return Err(CoreError::NeuronNotFound);
        },
    };
    proof {
        lemma_neuron_idx_is(ns0, neuron_id, i as int);
    }
    let vi = match find_validator(&engine.validators, &validator) {
        Some(vi) => vi,
        None => {
            return Err(CoreError::ValidatorNotFound);
        },
    };
    proof {
        lemma_validator_idx_is(engine.validators.deep_view(), validator@, vi as int);
    }
    if !engine.validators[vi].active {
        return Err(CoreError::ValidatorInactive);
    }
    let mut neuron = ns.neurons.remove(i);
    neuron.validator = Some(validator);
    ns.neurons.insert(i, neuron);
    proof {
        assert forall|k: int| 0 <= k < ns.neurons@.len() implies #[trigger] ns.neurons.deep_view()[k]
            == ns0.update(i as int, NeuronV { validator: ns.neurons.deep_view()[i as int].validator, ..ns0[i as int] })[k] by {
            assert(ns.neurons.deep_view()[k] == ns.neurons@[k]@);
        }
        assert(ns.neurons.deep_view() =~~= ns0.update(
            i as int,
            NeuronV { validator: ns.neurons.deep_view()[i as int].validator, ..ns0[i as int] },
        ));
    }
    Ok(())
}

/// A neuron after a validator at `addr` is slashed with penalty `p`:
/// neurons delegating there lose `p` from their stake, floored at zero.
pub open spec fn slashed_neuron(n: NeuronV, addr: Seq<char>, p: u64) -> NeuronV {
    if n.validator == Some(addr) {
        NeuronV {
            staked_amount: if n.staked_amount > p {
                (n.staked_amount - p) as u64
            } else {
                0
            },
            ..n
        }
    } else {
        n
    }
}

/// Slashes a validator: every neuron delegating to it loses twice
/// `amount` from its stake, floored at zero, and the validator entry is
/// deactivated unconditionally.
pub fn slash(engine: &mut ConsensusEngine, ns: &mut NervousSystem, validator: &String, amount: u64)
    requires
        old(engine).wf(),
        old(ns).wf(),
        amount <= u64::MAX / 2,
    ensures
        final (engine).wf(),
        final (ns).wf(),
        final (ns).next_id == old(ns).next_id,
        final (engine).mempool == old(engine).mempool,
        final (engine).chain == old(engine).chain,
        final (engine).ledger == old(engine).ledger,
        final (ns).neurons.deep_view() =~~= Seq::new(
            old(ns).neurons.deep_view().len(),
            |i: int|
                slashed_neuron(old(ns).neurons.deep_view()[i], validator@, (2 * amount) as u64),
        ),
        ({
            let vs0 = old(engine).validators.deep_view();
            if has_validator(vs0, validator@) {
                final (engine).validators.deep_view() =~~= vs0.update(
                    validator_idx(vs0, validator@),
                    ValidatorInfoV { active: false, ..vs0[validator_idx(vs0, validator@)] },
                )
            } else {
                final (engine).validators == old(engine).validators
            }
        }),
{
    let penalty: u64 = amount * 2;
    let ghost ns0 = ns.neurons.deep_view();
    let mut out: Vec<Neuron> = Vec::new();
    let mut i: usize = 0;
    while i < ns.neurons.len()
        invariant
            0 <= i <= ns.neurons@.len(),
            ns0 == ns.neurons.deep_view(),
            penalty == 2 * amount,
            out@.len() == i,
            forall|k: int|
                0 <= k < i ==> #[trigger] out.deep_view()[k] == slashed_neuron(
                    ns0[k],
                    validator@,
                    penalty,
                ),
        decreases ns.neurons@.len() - i,
    {
        let mut neuron = ns.neurons[i].duplicate();
        let delegated = match &neuron.validator {
            Some(v) => *v == *validator,
            None => false,
        };
        if delegated {
            if neuron.staked_amount > penalty {
                neuron.staked_amount = neuron.staked_amount - penalty;
            } else {
                neuron.staked_amount = 0;
            }
        }
        let ghost prev = out.deep_view();
        out.push(neuron);
        proof {
            assert(out.deep_view()[i as int] == slashed_neuron(ns0[i as int], validator@, penalty));
            assert forall|k: int| 0 <= k < i implies #[trigger] out.deep_view()[k]
                == slashed_neuron(ns0[k], validator@, penalty) by {
                assert(out.deep_view()[k] == out@[k]@);
                assert(out@[k]@ == prev[k]);
            }
        }
        i = i + 1;
    }
    ns.neurons = out;
    let ghost vs0 = engine.validators.deep_view();
    match find_validator(&engine.validators, validator) {
        Some(vi) => {
            proof {
                lemma_validator_idx_is(vs0, validator@, vi as int);
            }
            let mut entry = engine.validators[vi].duplicate();
            entry.active = false;
            let ghost ev = entry@;
            let ghost pre = engine.validators@;
            vstd::pervasive::VecAdditionalExecFns::set(&mut engine.validators, vi, entry);
            proof {
                assert forall|k: int| 0 <= k < engine.validators@.len() implies
                    #[trigger] engine.validators.deep_view()[k] == vs0.update(vi as int, ev)[k] by {
                    assert(engine.validators.deep_view()[k] == engine.validators@[k]@);
                    if k != vi {
                        assert(engine.validators@[k] == pre[k]);
                    }
                }
                assert(engine.validators.deep_view() =~~= vs0.update(vi as int, ev));
            }
        },
        None => {},
    }
}

/// The block reward minted to a producing validator, scaled by its share
/// of the total stake.
pub const BLOCK_REWARD: u64 = 10;

/// The stake delegated to `addr` over the first `k` neurons.
pub open spec fn delegated_to(ns0: Seq<NeuronV>, addr: Seq<char>, k: int) -> int
    recommends
        0 <= k <= ns0.len(),
    decreases k,
{
    if k <= 0 {
        0
    } else {
        delegated_to(ns0, addr, k - 1) + if ns0[k - 1].validator == Some(addr) {
            ns0[k - 1].staked_amount as int
        } else {
            0
        }
    }
}

proof fn lemma_delegated_to_bounds(ns0: Seq<NeuronV>, addr: Seq<char>, k: int)
    requires
        0 <= k <= ns0.len(),
    ensures
        0 <= delegated_to(ns0, addr, k) <= total_staked(ns0, k),
    decreases k,
{
    if k > 0 {
        lemma_delegated_to_bounds(ns0, addr, k - 1);
    }
}

proof fn lemma_total_staked_prefix(ns0: Seq<NeuronV>, k: int)
    requires
        0 <= k <= ns0.len(),
    ensures
        total_staked(ns0, k) <= total_staked(ns0, ns0.len() as int),
        total_staked(ns0, k) >= 0,
    decreases ns0.len() - k,
{
    if k < ns0.len() {
        lemma_total_staked_prefix(ns0, k + 1);
        lemma_nonneg_prefix(ns0, k);
    } else {
        lemma_nonneg_prefix(ns0, k);
    }
}

proof fn lemma_nonneg_prefix(ns0: Seq<NeuronV>, k: int)
    requires
        0 <= k <= ns0.len(),
    ensures
        total_staked(ns0, k) >= 0,
    decreases k,
{
    if k > 0 {
        lemma_nonneg_prefix(ns0, k - 1);
    }
}

/// The header a validator produces at time `now` over the given parent
/// and merkle root: its signature is the validator's Ed25519 signature
/// over the header's canonical signable bytes.
pub open spec fn produced_header(
    key: ed25519_dalek::SigningKey,
    parent: Seq<u8>,
    root: Seq<u8>,
    now: u64,
) -> BlockHeaderV {
    let unsigned = BlockHeaderV {
        parent_hash: parent,
        merkle_root: root,
        timestamp: now,
        validator: address_of_key(key),
        signature: Seq::<u8>::empty(),
    };
    BlockHeaderV {
        signature: ed25519_signature(key, header_signable_bytes(unsigned)),
        ..unsigned
    }
}

/// The parent hash a new block records: the hash of the chain's last
/// header, or the zero hash for the genesis block.
pub open spec fn parent_hash_of(chain: Seq<BlockV>) -> Seq<u8> {
    if chain.len() == 0 {
        zero_hash()
    } else {
        block_hash(chain.last().header)
    }
}

/// Drains the whole mempool into a new signed block at time `now`,
/// appends it to the chain, and mints the signer a reward proportional
/// to its share of the total stake.
pub fn produce_block_at(
    engine: &mut ConsensusEngine,
    ns: &NervousSystem,
    signing_key: &ed25519_dalek::SigningKey,
    now: u64,
) -> (r: Result<Block, CoreError>)
    requires
        old(engine).wf(),
        ns.wf(),
        total_staked(ns.neurons.deep_view(), ns.neurons.deep_view().len() as int) <= u64::MAX,
        balance_of(old(engine).ledger.deep_view(), address_of_key(*signing_key)) + BLOCK_REWARD
            <= u64::MAX,
    ensures
        final (engine).wf(),
        final (engine).validators == old(engine).validators,
        final (engine).mempool@.len() == 0,
        ({
            let bv = BlockV {
                header: produced_header(
                    *signing_key,
                    parent_hash_of(old(engine).chain.deep_view()),
                    merkle_root_of(old(engine).mempool.deep_view()),
                    now,
                ),
                transactions: old(engine).mempool.deep_view(),
            };
            &&& final (engine).chain.deep_view() =~~= old(engine).chain.deep_view().push(bv)
            &&& match r {
                Ok(b) => b@ == bv,
                Err(_) => false,
            }
        }),
        ({
            let ns0 = ns.neurons.deep_view();
            let l0 = old(engine).ledger.deep_view();
            let addr = address_of_key(*signing_key);
            let total = total_staked(ns0, ns0.len() as int);
            let vstake = delegated_to(ns0, addr, ns0.len() as int);
            if total > 0 && has_account(l0, addr) {
                final (engine).ledger.deep_view() =~~= l0.update(
                    account_idx(l0, addr),
                    AccountV {
                        balance: (account_of(l0, addr).balance + rounded_div(
                            BLOCK_REWARD * vstake,
                            total,
                        )) as u64,
                        ..account_of(l0, addr)
                    },
                )
            } else {
                final (engine).ledger == old(engine).ledger
            }
        }),
{
    let ghost mem0 = engine.mempool.deep_view();
    let ghost chain0 = engine.chain.deep_view();
    let ghost l0 = engine.ledger.deep_view();
    let ghost ns0 = ns.neurons.deep_view();
    let mut transactions: Vec<Transaction> = Vec::new();
    core::mem::swap(&mut transactions, &mut engine.mempool);
    let merkle_root = compute_merkle_root(transactions.as_slice());
    let validator_address = signer_address(signing_key);
    let parent_hash: [u8; 32] = if engine.chain.len() == 0 {
        let z: [u8; 32] = [0u8; 32];
        proof {
            assert(z@ =~= zero_hash());
        }
        z
    } else {
        hash_block(&engine.chain[engine.chain.len() - 1])
    };
    proof {
        assert(parent_hash@ == parent_hash_of(chain0));
    }
    let mut header = BlockHeader {
        parent_hash,
        merkle_root,
        timestamp: now,
        validator: validator_address.clone(),
        signature: Vec::new(),
    };
    let signable = serialize_header_for_signing(&header);
    header.signature = sign_data(signing_key, signable.as_slice());
    proof {
        assert(header@ == produced_header(*signing_key, parent_hash@, merkle_root@, now));
    }
    let block = Block { header, transactions };
    let out = block.duplicate();
    let ghost bv = block@;
    let ghost pre_chain = engine.chain@;
    engine.chain.push(block);
    proof {
        assert forall|k: int| 0 <= k < engine.chain@.len() implies
            #[trigger] engine.chain.deep_view()[k] == chain0.push(bv)[k] by {
            assert(engine.chain.deep_view()[k] == engine.chain@[k]@);
            if k < pre_chain.len() {
                assert(engine.chain@[k] == pre_chain[k]);
            }
        }
        assert(engine.chain.deep_view() =~~= chain0.push(bv));
    }
    let ghost all: int = ns0.len() as int;
    let mut total: u64 = 0;
    let mut vstake: u64 = 0;
    let mut i: usize = 0;
    while i < ns.neurons.len()
        invariant
            0 <= i <= ns.neurons@.len(),
            ns0 == ns.neurons.deep_view(),
            all == ns0.len(),
            total_staked(ns0, all) <= u64::MAX,
            total == total_staked(ns0, i as int),
            vstake == delegated_to(ns0, validator_address@, i as int),
            validator_address@ == address_of_key(*signing_key),
        decreases ns.neurons@.len() - i,
    {
        proof {
            lemma_total_staked_prefix(ns0, i + 1);
            lemma_delegated_to_bounds(ns0, validator_address@, i + 1);
            lemma_delegated_to_bounds(ns0, validator_address@, i as int);
        }
        let n = &ns.neurons[i];
        total = total + n.staked_amount;
        let delegated = match &n.validator {
            Some(v) => *v == validator_address,
            None => false,
        };
        if delegated {
            proof {
                lemma_total_staked_prefix(ns0, i + 1);
            }
            vstake = vstake + n.staked_amount;
        }
        i = i + 1;
    }
    if total > 0 {
        match find_account(&engine.ledger, &validator_address) {
            Some(ai) => {
                proof {
                    lemma_account_idx_is(l0, validator_address@, ai as int);
                    lemma_delegated_to_bounds(ns0, validator_address@, all);
                }
                let num: u128 = (BLOCK_REWARD as u128) * (vstake as u128);
                let den: u128 = total as u128;
                let reward_wide: u128 = (num + den / 2) / den;
                proof {
                    assert(reward_wide as int <= 10) by (nonlinear_arith)
                        requires
                            reward_wide as int == (10 * (vstake as int) + (total as int) / 2) / (
                            total as int),
                            0 < total,
                            0 <= vstake <= total,
                    ;
                }
                let reward: u64 = reward_wide as u64;
                let mut account = engine.ledger.remove(ai);
                account.balance = account.balance + reward;
                engine.ledger.insert(ai, account);
                proof {
                    let target = l0.update(
                        ai as int,
                        AccountV {
                            balance: (account_of(l0, validator_address@).balance + rounded_div(
                                BLOCK_REWARD * delegated_to(ns0, validator_address@, all),
                                total_staked(ns0, all),
                            )) as u64,
                            ..account_of(l0, validator_address@)
                        },
                    );
                    assert forall|k: int| 0 <= k < engine.ledger@.len() implies
                        #[trigger] engine.ledger.deep_view()[k] == target[k] by {
                        assert(engine.ledger.deep_view()[k] == engine.ledger@[k]@);
                    }
                    assert(engine.ledger.deep_view() =~~= target);
                }
            },
            None => {},
        }
    }
    Ok(out)
}

/// Drains the whole mempool into a new signed block stamped with the
/// present time.
pub fn produce_block(
    engine: &mut ConsensusEngine,
    ns: &NervousSystem,
    signing_key: &ed25519_dalek::SigningKey,
) -> (r: Result<Block, CoreError>)
    requires
        old(engine).wf(),
        ns.wf(),
        total_staked(ns.neurons.deep_view(), ns.neurons.deep_view().len() as int) <= u64::MAX,
        balance_of(old(engine).ledger.deep_view(), address_of_key(*signing_key)) + BLOCK_REWARD
            <= u64::MAX,
    ensures
        final (engine).wf(),
        final (engine).validators == old(engine).validators,
        final (engine).mempool@.len() == 0,
        r is Ok,
        exists|now: u64|
            final (engine).chain.deep_view() =~~= old(engine).chain.deep_view().push(
                #[trigger] produced_block_view(
                    *signing_key,
                    old(engine).chain.deep_view(),
                    old(engine).mempool.deep_view(),
                    now,
                ),
            ) && r.unwrap()@ == produced_block_view(
                *signing_key,
                old(engine).chain.deep_view(),
                old(engine).mempool.deep_view(),
                now,
            ),
{
    let now = crate::clock::now_seconds();
    let r = produce_block_at(engine, ns, signing_key, now);
    proof {
        let bv = produced_block_view(
            *signing_key,
            old(engine).chain.deep_view(),
            old(engine).mempool.deep_view(),
            now,
        );
        assert(engine.chain.deep_view() =~~= old(engine).chain.deep_view().push(bv));
    }
    r
}

/// The block `produce_block` appends at time `now`, given the prior
/// chain and mempool.
pub open spec fn produced_block_view(
    key: ed25519_dalek::SigningKey,
    chain: Seq<BlockV>,
    mempool: Seq<TransactionV>,
    now: u64,
) -> BlockV {
    BlockV {
        header: produced_header(key, parent_hash_of(chain), merkle_root_of(mempool), now),
        transactions: mempool,
    }
}

/// A block that `produce_block` appends validates cleanly: when the
/// signer's public key is a well-formed 32-byte key, some validator entry
/// at its address is active, its signature over the header's signable
/// bytes verifies, and validation happens within the 600-second skew
/// window, `validate_block` accepts the block.
pub proof fn lemma_produced_block_validates(
    vs: Seq<ValidatorInfoV>,
    key: ed25519_dalek::SigningKey,
    chain: Seq<BlockV>,
    mempool: Seq<TransactionV>,
    produced_at: u64,
    checked_at: u64,
)
    requires
        signer_public_key(key).len() == 32,
        valid_ed25519_key(signer_public_key(key)),
        has_active_validator(vs, address_of_key(key)),
        ed25519_verifies(
            signer_public_key(key),
            header_signable_bytes(produced_block_view(key, chain, mempool, produced_at).header),
            produced_block_view(key, chain, mempool, produced_at).header.signature,
        ),
        produced_at <= checked_at + 600,
    ensures
        validate_outcome(vs, produced_block_view(key, chain, mempool, produced_at), checked_at)
            == Ok::<(), CoreError>(()),
{
    let bv = produced_block_view(key, chain, mempool, produced_at);
    let hv = bv.header;
    crate::hexcode::lemma_hex_round_trip(signer_public_key(key));
    assert(hex_decoding(hv.validator) == Some(signer_public_key(key)));
}

/// The (validator address, stake) pairs of all neurons with a delegation
/// to a registered validator, in neuron order.
pub open spec fn delegation_pairs(ns0: Seq<NeuronV>, vs: Seq<ValidatorInfoV>) -> Seq<
    (Seq<char>, u64),
>
    decreases ns0.len(),
{
    if ns0.len() == 0 {
        Seq::empty()
    } else {
        let init = delegation_pairs(ns0.drop_last(), vs);
        let n = ns0.last();
        if n.validator is Some && has_validator(vs, n.validator.unwrap()) {
            init.push((n.validator.unwrap(), n.staked_amount))
        } else {
            init
        }
    }
}

/// The total stake over the first `k` delegation pairs.
pub open spec fn pairs_total(ps: Seq<(Seq<char>, u64)>, k: int) -> int
    recommends
        0 <= k <= ps.len(),
    decreases k,
{
    if k <= 0 {
        0
    } else {
        pairs_total(ps, k - 1) + ps[k - 1].1
    }
}

/// The validator that a roll below the total stake selects: walking the
/// pairs, the first whose cumulative stake exceeds the roll.
pub open spec fn weighted_pick(ps: Seq<(Seq<char>, u64)>, roll: int) -> Seq<char>
    recommends
        0 <= roll < pairs_total(ps, ps.len() as int),
    decreases ps.len(),
{
    if ps.len() == 0 {
        Seq::empty()
    } else if roll < ps[0].1 {
        ps[0].0
    } else {
        weighted_pick(ps.drop_first(), roll - ps[0].1)
    }
}

proof fn lemma_pairs_total_prefix(ps: Seq<(Seq<char>, u64)>, k: int)
    requires
        0 <= k <= ps.len(),
    ensures
        0 <= pairs_total(ps, k) <= pairs_total(ps, ps.len() as int),
    decreases ps.len() - k,
{
    if k < ps.len() {
        lemma_pairs_total_prefix(ps, k + 1);
    }
    lemma_pairs_total_nonneg(ps, k);
}

proof fn lemma_pairs_total_nonneg(ps: Seq<(Seq<char>, u64)>, k: int)
    requires
        0 <= k <= ps.len(),
    ensures
        pairs_total(ps, k) >= 0,
    decreases k,
{
    if k > 0 {
        lemma_pairs_total_nonneg(ps, k - 1);
    }
}

proof fn lemma_pairs_total_drop_first(ps: Seq<(Seq<char>, u64)>, k: int)
    requires
        1 <= k <= ps.len(),
    ensures
        pairs_total(ps, k) == ps[0].1 + pairs_total(ps.drop_first(), k - 1),
    decreases k,
{
    if k == 1 {
        assert(pairs_total(ps, 1) == pairs_total(ps, 0) + ps[0].1);
        assert(pairs_total(ps.drop_first(), 0) == 0);
    } else {
        lemma_pairs_total_drop_first(ps, k - 1);
        assert(ps.drop_first()[k - 2] == ps[k - 1]);
        assert(pairs_total(ps.drop_first(), k - 1) == pairs_total(ps.drop_first(), k - 2)
            + ps.drop_first()[k - 2].1);
        assert(pairs_total(ps, k) == pairs_total(ps, k - 1) + ps[k - 1].1);
    }
}

/// A roll that lands in the `k`-th pair's cumulative slice selects the
/// `k`-th pair's validator.
proof fn lemma_weighted_pick_at(ps: Seq<(Seq<char>, u64)>, roll: int, k: int)
    requires
        0 <= k < ps.len(),
        pairs_total(ps, k) <= roll < pairs_total(ps, k + 1),
    ensures
        weighted_pick(ps, roll) == ps[k].0,
    decreases k,
{
    lemma_pairs_total_nonneg(ps, k);
    if k == 0 {
        assert(roll < ps[0].1);
    } else {
        lemma_pairs_total_drop_first(ps, k);
        lemma_pairs_total_drop_first(ps, k + 1);
        lemma_pairs_total_nonneg(ps.drop_first(), k - 1);
        assert(roll >= ps[0].1);
        lemma_weighted_pick_at(ps.drop_first(), roll - ps[0].1, k - 1);
        assert(ps.drop_first()[k - 1] == ps[k]);
    }
}

/// When every delegation pair names the same validator, every roll below
/// the total selects it: a sole delegate is always chosen.
pub proof fn lemma_sole_delegate_selected(ps: Seq<(Seq<char>, u64)>, roll: int, addr: Seq<char>)
    requires
        forall|i: int| 0 <= i < ps.len() ==> (#[trigger] ps[i]).0 == addr,
        0 <= roll < pairs_total(ps, ps.len() as int),
    ensures
        weighted_pick(ps, roll) == addr,
    decreases ps.len(),
{
    if ps.len() == 0 {
        lemma_pairs_total_nonneg(ps, 0);
    } else if roll < ps[0].1 {
    } else {
        lemma_pairs_total_drop_first(ps, ps.len() as int);
        assert forall|i: int| 0 <= i < ps.drop_first().len() implies (#[trigger] ps.drop_first()[
            i]).0 == addr by {
            assert(ps.drop_first()[i] == ps[i + 1]);
        }
        lemma_sole_delegate_selected(ps.drop_first(), roll - ps[0].1, addr);
    }
}

/// Samples the next validator by stake weight: `None` when no delegated
/// stake exists; otherwise a pseudo-random roll derived from the clock
/// picks a validator with probability proportional to its delegated
/// stake.
pub fn select_next_validator(engine: &ConsensusEngine, ns: &NervousSystem) -> (r: Option<
    crate::types::Address,
>)
    requires
        engine.wf(),
        ns.wf(),
        pairs_total(
            delegation_pairs(ns.neurons.deep_view(), engine.validators.deep_view()),
            delegation_pairs(ns.neurons.deep_view(), engine.validators.deep_view()).len() as int,
        ) <= u64::MAX,
    ensures
        ({
            let ps = delegation_pairs(ns.neurons.deep_view(), engine.validators.deep_view());
            let total = pairs_total(ps, ps.len() as int);
            match r {
                Some(a) => total > 0 && exists|roll: int|
                    0 <= roll < total && a@ == #[trigger] weighted_pick(ps, roll),
                None => total == 0,
            }
        }),
{
    let ghost ns0 = ns.neurons.deep_view();
    let ghost vs0 = engine.validators.deep_view();
    let ghost ps = delegation_pairs(ns0, vs0);
    let mut pairs: Vec<(crate::types::Address, u64)> = Vec::new();
    let mut i: usize = 0;
    while i < ns.neurons.len()
        invariant
            0 <= i <= ns.neurons@.len(),
            ns0 == ns.neurons.deep_view(),
            vs0 == engine.validators.deep_view(),
            pairs.deep_view() =~~= delegation_pairs(ns0.subrange(0, i as int), vs0),
        decreases ns.neurons@.len() - i,
    {
        let ghost prev = pairs.deep_view();
        let n = &ns.neurons[i];
        match &n.validator {
            Some(addr) => {
                match find_validator(&engine.validators, addr) {
                    Some(_) => {
                        pairs.push((addr.clone(), n.staked_amount));
                    },
                    None => {},
                }
            },
            None => {},
        }
        proof {
            let sub1 = ns0.subrange(0, i + 1);
            assert(sub1.drop_last() =~= ns0.subrange(0, i as int));
            assert(sub1.last() == ns0[i as int]);
            assert forall|k: int| 0 <= k < pairs.deep_view().len() implies
                #[trigger] pairs.deep_view()[k] == delegation_pairs(sub1, vs0)[k] by {
                assert(pairs.deep_view()[k] == pairs@[k].deep_view());
                if k < prev.len() {
                    assert(pairs@[k].deep_view() == prev[k]);
                }
            }
            assert(pairs.deep_view() =~~= delegation_pairs(sub1, vs0));
        }
        i = i + 1;
    }
    proof {
        assert(ns0.subrange(0, ns0.len() as int) =~= ns0);
        assert(pairs.deep_view() =~~= ps);
    }
    let ghost all: int = ps.len() as int;
    let mut total: u64 = 0;
    let mut k: usize = 0;
    while k < pairs.len()
        invariant
            0 <= k <= pairs@.len(),
            ps == pairs.deep_view(),
            ps == delegation_pairs(ns.neurons.deep_view(), engine.validators.deep_view()),
            all == ps.len(),
            pairs_total(ps, all) <= u64::MAX,
            total == pairs_total(ps, k as int),
        decreases pairs@.len() - k,
    {
        proof {
            lemma_pairs_total_prefix(ps, k + 1);
            assert(pairs@[k as int].deep_view() == ps[k as int]);
        }
        total = total + pairs[k].1;
        k = k + 1;
    }
    if total == 0 {
        proof {
            lemma_pairs_total_nonneg(ps, all);
        }
        return None;
    }
    let now = crate::clock::now_nanos();
    let seed: u64 = (#[verifier::truncate] (now as u64)) ^ total;
    let mut seed_bytes: Vec<u8> = Vec::new();
    crate::codec::push_u64_le(&mut seed_bytes, seed);
    let digest = crypto_hash(seed_bytes.as_slice());
    let mut roll_src: u64 = 0;
    let mut b: usize = 0;
    while b < 8
        invariant
            0 <= b <= 8,
        decreases 8 - b,
    {
        roll_src = (roll_src << 8u64) | (digest[b] as u64);
        b = b + 1;
    }
    let roll: u64 = roll_src % total;
    let ghost roll_i: int = roll as int;
    let mut cum: u64 = 0;
    let mut k: usize = 0;
    while k < pairs.len()
        invariant
            0 <= k <= pairs@.len(),
            ps == pairs.deep_view(),
            ps == delegation_pairs(ns.neurons.deep_view(), engine.validators.deep_view()),
            all == ps.len(),
            pairs_total(ps, all) <= u64::MAX,
            total == pairs_total(ps, all),
            total > 0,
            roll < total,
            roll_i == roll as int,
            cum == pairs_total(ps, k as int),
            roll_i >= cum,
        decreases pairs@.len() - k,
    {
        proof {
            lemma_pairs_total_prefix(ps, k + 1);
            assert(pairs@[k as int].deep_view() == ps[k as int]);
        }
        let next_cum = cum + pairs[k].1;
        if roll < next_cum {
            proof {
                lemma_weighted_pick_at(ps, roll_i, k as int);
                assert(weighted_pick(ps, roll_i) == ps[k as int].0);
                let outer_ps = delegation_pairs(
                    ns.neurons.deep_view(),
                    engine.validators.deep_view(),
                );
                assert(weighted_pick(outer_ps, roll_i) == ps[k as int].0);
            }
            return Some(pairs[k].0.clone());
        }
        cum = next_cum;
        k = k + 1;
    }
    proof {
        assert(false);
    }
    None
}

} // verus!
