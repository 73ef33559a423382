use vstd::prelude::*;
use crate::clock::now_seconds;
use crate::codec::{transaction_signable_bytes, tx_signable_bytes};
use crate::consensus::{
    add_transaction, add_tx_outcome, select_next_validator, tx_hash_chars, ConsensusEngine,
    delegation_pairs, pairs_total, weighted_pick,
};
use crate::crypto::{
    crypto_hash, ed25519_signature, ed25519_verifies, sign_data, signer_public_key,
};
use crate::errors::CoreError;
use crate::hexcode::hex_encode;
use crate::nervous::NervousSystem;
use crate::types::{
    balance_of, Address, Block, BlockV, Transaction, TransactionStatus, TransactionType,
    TransactionV,
};

verus! {

/// The number of transactions settled in the first `k` blocks of the
/// chain.
pub open spec fn chain_tx_count(chain: Seq<BlockV>, k: int) -> int
    recommends
        0 <= k <= chain.len(),
    decreases k,
{
    if k <= 0 {
        0
    } else {
        chain_tx_count(chain, k - 1) + chain[k - 1].transactions.len()
    }
}

proof fn lemma_chain_tx_count_prefix(chain: Seq<BlockV>, k: int)
    requires
        0 <= k <= chain.len(),
    ensures
        0 <= chain_tx_count(chain, k) <= chain_tx_count(chain, chain.len() as int),
    decreases chain.len() - k,
{
    if k < chain.len() {
        lemma_chain_tx_count_prefix(chain, k + 1);
    }
    lemma_chain_tx_count_nonneg(chain, k);
}

proof fn lemma_chain_tx_count_nonneg(chain: Seq<BlockV>, k: int)
    requires
        0 <= k <= chain.len(),
    ensures
        chain_tx_count(chain, k) >= 0,
    decreases k,
{
    if k > 0 {
        lemma_chain_tx_count_nonneg(chain, k - 1);
    }
}

/// The view of the transaction that `build_transaction` drafts at time
/// `now` against a chain and mempool holding `index` settled and pending
/// transactions: unhashed, unsigned, pending, with a one-percent fee.
pub open spec fn draft_transaction_view(
    from: Seq<char>,
    to: Seq<char>,
    amount: u64,
    memo: u32,
    nrc_memo: u32,
    tx_type: TransactionType,
    index: u32,
    now: u64,
) -> TransactionV {
    TransactionV {
        hash: Seq::empty(),
        kind: tx_type,
        status: TransactionStatus::Pending,
        index: index,
        timestamp: now,
        from: from,
        to: to,
        amount: amount,
        fee: amount / 100,
        memo: memo,
        nrc_memo: nrc_memo,
        signature: Seq::empty(),
    }
}

/// Drafts a transfer at time `now`: its index counts every transaction
/// already settled on the chain or waiting in the mempool, and its fee is
/// one percent of the amount.
pub fn build_transaction_at(
    engine: &ConsensusEngine,
    from: Address,
    to: Address,
    amount: u64,
    memo: u32,
    nrc_memo: u32,
    tx_type: TransactionType,
    now: u64,
) -> (r: Transaction)
    requires
        chain_tx_count(engine.chain.deep_view(), engine.chain.deep_view().len() as int)
            + engine.mempool.deep_view().len() <= u32::MAX,
    ensures
        r@ == draft_transaction_view(
            from@,
            to@,
            amount,
            memo,
            nrc_memo,
            tx_type,
            ((chain_tx_count(engine.chain.deep_view(), engine.chain.deep_view().len() as int)
                + engine.mempool.deep_view().len()) as u32),
            now,
        ),
{
    let ghost chain0 = engine.chain.deep_view();
    let ghost all: int = chain0.len() as int;
    let mut count: u64 = 0;
    let mut i: usize = 0;
    while i < engine.chain.len()
        invariant
            0 <= i <= engine.chain@.len(),
            chain0 == engine.chain.deep_view(),
            all == chain0.len(),
            chain_tx_count(chain0, all) <= u32::MAX,
            count == chain_tx_count(chain0, i as int),
        decreases engine.chain@.len() - i,
    {
        proof {
            lemma_chain_tx_count_prefix(chain0, i + 1);
            assert(engine.chain@[i as int]@.transactions.len() == engine.chain@[i as
                int].transactions@.len());
        }
        count = count + engine.chain[i].transactions.len() as u64;
        i = i + 1;
    }
    let index: u32 = (count + engine.mempool.len() as u64) as u32;
    Transaction {
        hash: String::new(),
        kind: tx_type,
        status: TransactionStatus::Pending,
        index,
        timestamp: now,
        from,
        to,
        amount,
        fee: amount / 100,
        memo,
        nrc_memo,
        signature: Vec::new(),
    }
}

/// Drafts a transfer stamped with the present time.
pub fn build_transaction(
    engine: &ConsensusEngine,
    from: Address,
    to: Address,
    amount: u64,
    memo: u32,
    nrc_memo: u32,
    tx_type: TransactionType,
) -> (r: Transaction)
    requires
        chain_tx_count(engine.chain.deep_view(), engine.chain.deep_view().len() as int)
            + engine.mempool.deep_view().len() <= u32::MAX,
    ensures
        exists|now: u64|
            r@ == #[trigger] draft_transaction_view(
                from@,
                to@,
                amount,
                memo,
                nrc_memo,
                tx_type,
                ((chain_tx_count(engine.chain.deep_view(), engine.chain.deep_view().len() as int)
                    + engine.mempool.deep_view().len()) as u32),
                now,
            ),
{
    let now = now_seconds();
    let ghost the_now = now;
    let r = build_transaction_at(engine, from, to, amount, memo, nrc_memo, tx_type, now);
    proof {
        assert(r@ == draft_transaction_view(
            r@.from,
            r@.to,
            amount,
            memo,
            nrc_memo,
            tx_type,
            r@.index,
            the_now,
        ));
    }
    r
}

/// Fills in a drafted transaction's hash and signature: the hash becomes
/// the hexadecimal SHA-256 digest of the canonical bytes with hash and
/// signature cleared, and the signature signs those same bytes, so the
/// finished transaction satisfies its own hash and signature checks.
pub fn finalize_transaction(
    tx: &mut Transaction,
    signing_key: &ed25519_dalek::SigningKey,
) -> (r: Result<(), CoreError>)
    ensures
        r == Ok::<(), CoreError>(()),
        final (tx).kind == old(tx).kind,
        final (tx).status == old(tx).status,
        final (tx).index == old(tx).index,
        final (tx).timestamp == old(tx).timestamp,
        final (tx).from@ == old(tx).from@,
        final (tx).to@ == old(tx).to@,
        final (tx).amount == old(tx).amount,
        final (tx).fee == old(tx).fee,
        final (tx).memo == old(tx).memo,
        final (tx).nrc_memo == old(tx).nrc_memo,
        tx_signable_bytes(final (tx)@) == tx_signable_bytes(old(tx)@),
        final (tx).hash@ == tx_hash_chars(final (tx)@),
        final (tx).signature@ == ed25519_signature(*signing_key, tx_signable_bytes(final (tx)@)),
        ed25519_verifies(
            signer_public_key(*signing_key),
            tx_signable_bytes(final (tx)@),
            final (tx).signature@,
        ),
        final (tx).signature@.len() == 64,
{
    let signable = transaction_signable_bytes(tx);
    let digest = crypto_hash(signable.as_slice());
    tx.hash = hex_encode(digest.as_slice());
    tx.signature = sign_data(signing_key, signable.as_slice());
    proof {
        crate::codec::lemma_signable_bytes_ignore_hash_and_signature(old(tx)@, tx@);
        crate::consensus::lemma_hash_stability(old(tx)@, tx@);
    }
    Ok(())
}

/// Validates and settles a transaction; a thin alias for
/// `add_transaction`.
pub fn submit_transaction(engine: &mut ConsensusEngine, tx: Transaction) -> (r: Result<
    (),
    CoreError,
>)
    requires
        old(engine).wf(),
        balance_of(old(engine).ledger.deep_view(), tx.to@) + tx.amount <= u64::MAX,
    ensures
        final (engine).wf(),
        final (engine).validators == old(engine).validators,
        final (engine).chain == old(engine).chain,
        ({
            let (l1, res) = add_tx_outcome(old(engine).ledger.deep_view(), tx@);
            &&& r == res
            &&& final (engine).ledger.deep_view() =~~= l1
            &&& (res is Ok ==> final (engine).mempool.deep_view() =~~= old(
                engine,
            ).mempool.deep_view().push(tx@))
            &&& (res is Err ==> final (engine).mempool == old(engine).mempool)
        }),
{
    add_transaction(engine, tx)
}

/// Samples the validator expected to produce the next block; a thin
/// alias for `select_next_validator`.
pub fn get_current_validator(engine: &ConsensusEngine, ns: &NervousSystem) -> (r: Option<Address>)
    requires
        engine.wf(),
        ns.wf(),
        pairs_total(
            delegation_pairs(ns.neurons.deep_view(), engine.validators.deep_view()),
            delegation_pairs(ns.neurons.deep_view(), engine.validators.deep_view()).len() as int,
        ) <= u64::MAX,
    ensures
        ({
            let ps = delegation_pairs(ns.neurons.deep_view(), engine.validators.deep_view());
            let total = pairs_total(ps, ps.len() as int);
            match r {
                Some(a) => total > 0 && exists|roll: int|
                    0 <= roll < total && a@ == #[trigger] weighted_pick(ps, roll),
                None => total == 0,
            }
        }),
{
    select_next_validator(engine, ns)
}

/// A copy of the newest block on the chain, if one exists.
pub fn get_latest_block(engine: &ConsensusEngine) -> (r: Option<Block>)
    ensures
        match r {
            Some(b) => engine.chain.deep_view().len() > 0 && b@ == engine.chain.deep_view().last(),
            None => engine.chain.deep_view().len() == 0,
        },
{
    if engine.chain.len() == 0 {
        None
    } else {
        Some(engine.chain[engine.chain.len() - 1].duplicate())
    }
}

} // verus!
