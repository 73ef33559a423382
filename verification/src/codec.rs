use vstd::prelude::*;
use vstd::utf8::encode_utf8;
use crate::types::{BlockHeader, BlockHeaderV, Transaction, TransactionStatus, TransactionType, TransactionV};

verus! {

/// The four little-endian bytes of a 32-bit integer.
pub open spec fn u32_le(x: u32) -> Seq<u8> {
    seq![
        (x % 0x100) as u8,
        ((x / 0x100) % 0x100) as u8,
        ((x / 0x10000) % 0x100) as u8,
        ((x / 0x1000000) % 0x100) as u8,
    ]
}

/// The eight little-endian bytes of a 64-bit integer.
pub open spec fn u64_le(x: u64) -> Seq<u8> {
    seq![
        (x % 0x100) as u8,
        ((x / 0x100) % 0x100) as u8,
        ((x / 0x10000) % 0x100) as u8,
        ((x / 0x1000000) % 0x100) as u8,
        ((x / 0x100000000) % 0x100) as u8,
        ((x / 0x10000000000) % 0x100) as u8,
        ((x / 0x1000000000000) % 0x100) as u8,
        ((x / 0x100000000000000) % 0x100) as u8,
    ]
}

/// A length-prefixed byte field: the length as eight little-endian bytes,
/// then the bytes themselves.
pub open spec fn enc_bytes(b: Seq<u8>) -> Seq<u8> {
    u64_le(b.len() as u64) + b
}

/// A length-prefixed string field: the UTF-8 byte length, then the UTF-8
/// bytes.
pub open spec fn enc_str(s: Seq<char>) -> Seq<u8> {
    enc_bytes(encode_utf8(s))
}

pub open spec fn tx_type_code(t: TransactionType) -> u32 {
    match t {
        TransactionType::Transfer => 0,
        TransactionType::Mint => 1,
        TransactionType::Approve => 2,
        TransactionType::Burn => 3,
    }
}

pub open spec fn tx_status_code(s: TransactionStatus) -> u32 {
    match s {
        TransactionStatus::Completed => 0,
        TransactionStatus::Failed => 1,
        TransactionStatus::Pending => 2,
        TransactionStatus::Unknown => 3,
    }
}

/// The canonical bytes of a transaction with its `hash` and `signature`
/// fields cleared: the form that is hashed to produce the transaction hash
/// and signed to produce the signature.
#[verifier::opaque]
pub open spec fn tx_signable_bytes(t: TransactionV) -> Seq<u8> {
    enc_str(Seq::<char>::empty()) + u32_le(tx_type_code(t.kind)) + u32_le(tx_status_code(t.status))
        + u32_le(t.index) + u64_le(t.timestamp) + enc_str(t.from) + enc_str(t.to) + u64_le(
        t.amount,
    ) + u64_le(t.fee) + u32_le(t.memo) + u32_le(t.nrc_memo) + enc_bytes(Seq::<u8>::empty())
}

/// The canonical bytes of a transaction with only its `hash` field
/// cleared: the form hashed into a merkle leaf.
#[verifier::opaque]
pub open spec fn tx_leaf_bytes(t: TransactionV) -> Seq<u8> {
    enc_str(Seq::<char>::empty()) + u32_le(tx_type_code(t.kind)) + u32_le(tx_status_code(t.status))
        + u32_le(t.index) + u64_le(t.timestamp) + enc_str(t.from) + enc_str(t.to) + u64_le(
        t.amount,
    ) + u64_le(t.fee) + u32_le(t.memo) + u32_le(t.nrc_memo) + enc_bytes(t.signature)
}

/// The canonical bytes of a block header with its `signature` field
/// cleared: the form that is signed, and hashed into the next block's
/// parent hash.
#[verifier::opaque]
pub open spec fn header_signable_bytes(h: BlockHeaderV) -> Seq<u8> {
    h.parent_hash + h.merkle_root + u64_le(h.timestamp) + enc_str(h.validator) + enc_bytes(
        Seq::<u8>::empty(),
    )
}

fn push_u32_le(out: &mut Vec<u8>, x: u32)
    ensures
        final (out)@ == old(out)@ + u32_le(x),
{
    out.push((x % 0x100) as u8);
    out.push(((x / 0x100) % 0x100) as u8);
    out.push(((x / 0x10000) % 0x100) as u8);
    out.push(((x / 0x1000000) % 0x100) as u8);
    assert(out@ =~= old(out)@ + u32_le(x));
}

pub(crate) fn push_u64_le(out: &mut Vec<u8>, x: u64)
    ensures
        final (out)@ == old(out)@ + u64_le(x),
{
    out.push((x % 0x100) as u8);
    out.push(((x / 0x100) % 0x100) as u8);
    out.push(((x / 0x10000) % 0x100) as u8);
    out.push(((x / 0x1000000) % 0x100) as u8);
    out.push(((x / 0x100000000) % 0x100) as u8);
    out.push(((x / 0x10000000000) % 0x100) as u8);
    out.push(((x / 0x1000000000000) % 0x100) as u8);
    out.push(((x / 0x100000000000000) % 0x100) as u8);
    assert(out@ =~= old(out)@ + u64_le(x));
}

fn push_len_bytes(out: &mut Vec<u8>, b: &[u8])
    ensures
        final (out)@ == old(out)@ + enc_bytes(b@),
{
    push_u64_le(out, b.len() as u64);
    out.extend_from_slice(b);
    assert(out@ =~= old(out)@ + enc_bytes(b@));
}

#[verifier::rlimit(50)]
fn push_str_field(out: &mut Vec<u8>, s: &str)
    ensures
        final (out)@ == old(out)@ + enc_str(s@),
{
    let b = s.as_bytes();
    push_u64_le(out, b.len() as u64);
    out.extend_from_slice(b);
    assert(out@ =~= old(out)@ + enc_str(s@));
}

fn transaction_type_code(t: &TransactionType) -> (r: u32)
    ensures
        r == tx_type_code(*t),
{
    match t {
        TransactionType::Transfer => 0,
        TransactionType::Mint => 1,
        TransactionType::Approve => 2,
        TransactionType::Burn => 3,
    }
}

fn transaction_status_code(s: &TransactionStatus) -> (r: u32)
    ensures
        r == tx_status_code(*s),
{
    match s {
        TransactionStatus::Completed => 0,
        TransactionStatus::Failed => 1,
        TransactionStatus::Pending => 2,
        TransactionStatus::Unknown => 3,
    }
}

/// The canonical bytes of `t` with hash and signature cleared.
pub fn transaction_signable_bytes(t: &Transaction) -> (r: Vec<u8>)
    ensures
        r@ == tx_signable_bytes(t@),
{
    let mut out: Vec<u8> = Vec::new();
    proof {
        reveal(tx_signable_bytes);
        reveal(tx_leaf_bytes);
    }
    push_u64_le(&mut out, 0);
    push_u32_le(&mut out, transaction_type_code(&t.kind));
    push_u32_le(&mut out, transaction_status_code(&t.status));
    push_u32_le(&mut out, t.index);
    push_u64_le(&mut out, t.timestamp);
    push_str_field(&mut out, t.from.as_str());
    push_str_field(&mut out, t.to.as_str());
    push_u64_le(&mut out, t.amount);
    push_u64_le(&mut out, t.fee);
    push_u32_le(&mut out, t.memo);
    push_u32_le(&mut out, t.nrc_memo);
    push_u64_le(&mut out, 0);
    assert(out@ =~= tx_signable_bytes(t@));
    out
}

/// The canonical bytes of `t` with only the hash cleared.
pub fn transaction_leaf_bytes(t: &Transaction) -> (r: Vec<u8>)
    ensures
        r@ == tx_leaf_bytes(t@),
{
    let mut out: Vec<u8> = Vec::new();
    proof {
        reveal(tx_signable_bytes);
        reveal(tx_leaf_bytes);
    }
    push_u64_le(&mut out, 0);
    push_u32_le(&mut out, transaction_type_code(&t.kind));
    push_u32_le(&mut out, transaction_status_code(&t.status));
    push_u32_le(&mut out, t.index);
    push_u64_le(&mut out, t.timestamp);
    push_str_field(&mut out, t.from.as_str());
    push_str_field(&mut out, t.to.as_str());
    push_u64_le(&mut out, t.amount);
    push_u64_le(&mut out, t.fee);
    push_u32_le(&mut out, t.memo);
    push_u32_le(&mut out, t.nrc_memo);
    push_len_bytes(&mut out, t.signature.as_slice());
    assert(out@ =~= tx_leaf_bytes(t@));
    out
}

/// The canonical bytes of a header with the signature cleared.
pub fn serialize_header_for_signing(h: &BlockHeader) -> (r: Vec<u8>)
    ensures
        r@ == header_signable_bytes(h@),
{
    let mut out: Vec<u8> = Vec::new();
    proof {
        reveal(header_signable_bytes);
    }
    out.extend_from_slice(h.parent_hash.as_slice());
    out.extend_from_slice(h.merkle_root.as_slice());
    push_u64_le(&mut out, h.timestamp);
    push_str_field(&mut out, h.validator.as_str());
    push_u64_le(&mut out, 0);
    assert(out@ =~= header_signable_bytes(h@));
    out
}

/// Whether two 32-byte digests are equal.
pub fn bytes32_eq(a: &[u8; 32], b: &[u8; 32]) -> (r: bool)
    ensures
        r == (a@ =~= b@),
{
    let mut i: usize = 0;
    while i < 32
        invariant
            0 <= i <= 32,
            forall|j: int| 0 <= j < i ==> a@[j] == b@[j],
        decreases 32 - i,
    {
        if a[i] != b[i] {
            return false;
        }
        i = i + 1;
    }
    true
}

/// The canonical signable bytes of a transaction do not depend on its
/// `hash` or `signature` fields: two transactions that agree on every
/// other field have the same signable bytes.
pub proof fn lemma_signable_bytes_ignore_hash_and_signature(t1: TransactionV, t2: TransactionV)
    requires
        t1.kind == t2.kind,
        t1.status == t2.status,
        t1.index == t2.index,
        t1.timestamp == t2.timestamp,
        t1.from == t2.from,
        t1.to == t2.to,
        t1.amount == t2.amount,
        t1.fee == t2.fee,
        t1.memo == t2.memo,
        t1.nrc_memo == t2.nrc_memo,
    ensures
        tx_signable_bytes(t1) == tx_signable_bytes(t2),
{
    reveal(tx_signable_bytes);
}

} // verus!
