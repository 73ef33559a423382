use vstd::prelude::*;
use crate::codec::{transaction_leaf_bytes, tx_leaf_bytes};
use crate::crypto::{crypto_hash, sha256_of};
use crate::types::{Transaction, TransactionV};

verus! {

/// The root of an empty transaction set: 32 zero bytes.
pub open spec fn zero_hash() -> Seq<u8> {
    Seq::new(32, |i: int| 0u8)
}

/// One merkle level: nodes are combined pairwise by SHA-256, and a lone
/// last node on an odd level is combined with itself.
pub open spec fn merkle_level(hs: Seq<Seq<u8>>) -> Seq<Seq<u8>> {
    Seq::new(
        hs.len() / 2 + hs.len() % 2,
        |i: int|
            if 2 * i + 1 < hs.len() {
                sha256_of(hs[2 * i] + hs[2 * i + 1])
            } else {
                sha256_of(hs[2 * i] + hs[2 * i])
            },
    )
}

/// Collapses a level of hashes to a single root: the zero hash for no
/// nodes, the node itself for one, and otherwise the collapse of the next
/// level up.
pub open spec fn merkle_collapse(hs: Seq<Seq<u8>>) -> Seq<u8>
    decreases hs.len(),
{
    if hs.len() == 0 {
        zero_hash()
    } else if hs.len() == 1 {
        hs[0]
    } else {
        merkle_collapse(merkle_level(hs))
    }
}

/// The merkle leaves of a transaction list: the SHA-256 digest of each
/// transaction's canonical bytes with the hash field cleared.
pub open spec fn tx_leaf_hashes(txs: Seq<TransactionV>) -> Seq<Seq<u8>> {
    Seq::new(txs.len(), |i: int| sha256_of(tx_leaf_bytes(txs[i])))
}

/// The binary merkle root over a transaction list.
pub open spec fn merkle_root_of(txs: Seq<TransactionV>) -> Seq<u8> {
    merkle_collapse(tx_leaf_hashes(txs))
}

/// The merkle root over an ordered transaction list: pairwise SHA-256
/// combination, the last node duplicated on odd levels, 32 zero bytes for
/// an empty list.
#[verifier::rlimit(80)]
pub fn compute_merkle_root(transactions: &[Transaction]) -> (r: [u8; 32])
    ensures
        r@ == merkle_root_of(transactions.deep_view()),
{
    let ghost txs = transactions.deep_view();
    if transactions.len() == 0 {
        let z: [u8; 32] = [0u8; 32];
        proof {
            assert(tx_leaf_hashes(txs) =~= Seq::<Seq<u8>>::empty());
            assert(z@ =~= zero_hash());
        }
        return z;
    }
    let mut hashes: Vec<[u8; 32]> = Vec::new();
    let mut i: usize = 0;
    while i < transactions.len()
        invariant
            0 <= i <= transactions@.len(),
            txs == transactions.deep_view(),
            hashes@.len() == i,
            hashes.deep_view() =~= tx_leaf_hashes(txs).subrange(0, i as int),
        decreases transactions@.len() - i,
    {
        let leaf = transaction_leaf_bytes(&transactions[i]);
        let ghost prevh = hashes.deep_view();
        hashes.push(crypto_hash(leaf.as_slice()));
        proof {
            assert forall|k: int| 0 <= k < i + 1 implies hashes.deep_view()[k] == tx_leaf_hashes(
                txs,
            )[k] by {
                assert(hashes.deep_view()[k] == hashes@[k]@);
                if k < i {
                    assert(hashes@[k]@ == prevh[k]);
                    assert(prevh[k] == tx_leaf_hashes(txs).subrange(0, i as int)[k]);
                } else {
                    assert(hashes@[k]@ == sha256_of(tx_leaf_bytes(txs[k])));
                }
            }
            assert(hashes.deep_view() =~= tx_leaf_hashes(txs).subrange(0, i + 1));
        }
        i = i + 1;
    }
    proof {
        assert(hashes.deep_view() =~= tx_leaf_hashes(txs));
    }
    while hashes.len() > 1
        invariant
            hashes@.len() >= 1,
            merkle_collapse(hashes.deep_view()) == merkle_root_of(txs),
        decreases hashes@.len(),
    {
        let ghost level = hashes.deep_view();
        let mut next: Vec<[u8; 32]> = Vec::new();
        let count = hashes.len() / 2 + hashes.len() % 2;
        let mut j: usize = 0;
        while j < count
            invariant
                level == hashes.deep_view(),
                count == hashes@.len() / 2 + hashes@.len() % 2,
                hashes@.len() <= usize::MAX,
                hashes@.len() >= 1,
                0 <= j <= count,
                next@.len() == j,
                next.deep_view() =~= merkle_level(level).subrange(0, j as int),
            decreases count - j,
        {
            proof {
                assert(level.len() == hashes@.len());
                assert(2 * j < hashes@.len());
            }
            let mut buf: Vec<u8> = Vec::new();
            buf.extend_from_slice(hashes[2 * j].as_slice());
            if 2 * j + 1 < hashes.len() {
                buf.extend_from_slice(hashes[2 * j + 1].as_slice());
                assert(buf@ =~= level[2 * j as int] + level[2 * j as int + 1]);
            } else {
                buf.extend_from_slice(hashes[2 * j].as_slice());
                assert(buf@ =~= level[2 * j as int] + level[2 * j as int]);
            }
            let ghost prevn = next.deep_view();
            next.push(crypto_hash(buf.as_slice()));
            proof {
                assert forall|k: int| 0 <= k < j + 1 implies next.deep_view()[k] == merkle_level(
                    level,
                )[k] by {
                    assert(next.deep_view()[k] == next@[k]@);
                    if k < j {
                        assert(next@[k]@ == prevn[k]);
                        assert(prevn[k] == merkle_level(level).subrange(0, j as int)[k]);
                    } else {
                        assert(next@[k]@ == sha256_of(buf@));
                        assert(merkle_level(level)[k] == sha256_of(buf@));
                    }
                }
                assert(next.deep_view() =~= merkle_level(level).subrange(0, j + 1));
            }
            j = j + 1;
        }
        proof {
            assert(next.deep_view() =~= merkle_level(level));
        }
        hashes = next;
    }
    let r = hashes[0];
    proof {
        assert(hashes.deep_view()[0] == r@);
        assert(merkle_collapse(hashes.deep_view()) == hashes.deep_view()[0]);
    }
    r
}

/// The merkle root is a function of the ordered transaction views alone:
/// two lists equal element by element yield the same root.
pub proof fn lemma_merkle_root_deterministic(a: Seq<TransactionV>, b: Seq<TransactionV>)
    requires
        a =~~= b,
    ensures
        merkle_root_of(a) == merkle_root_of(b),
{
}

/// An empty transaction list yields the zero root.
pub proof fn lemma_merkle_root_empty(txs: Seq<TransactionV>)
    requires
        txs.len() == 0,
    ensures
        merkle_root_of(txs) == zero_hash(),
{
    assert(tx_leaf_hashes(txs) =~= Seq::<Seq<u8>>::empty());
}

} // verus!
