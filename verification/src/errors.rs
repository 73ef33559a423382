use vstd::prelude::*;

verus! {

/// Every business-rule violation the core can report. All operations return
/// these as typed results; none of them aborts the process.
#[derive(Clone, Copy, Debug, PartialEq, Eq, Structural)]
pub enum CoreError {
    /// A transaction's recorded hash does not match its recomputed hash.
    InvalidHash,
    /// A sender or validator address is not a well-formed 32-byte public key.
    InvalidAddress,
    /// A transaction or block signature is missing or fails verification.
    InvalidSignature,
    /// A sender's ledger balance is below the transfer amount.
    InsufficientFunds,
    /// The transaction receiver has no ledger account.
    UnknownReceiver,
    /// A block was signed by a validator that is not active.
    ValidatorInactive,
    /// A block's merkle root does not match its transaction list.
    MerkleMismatch,
    /// A block's timestamp lies too far in the future.
    TimestampSkew,
    /// No neuron with the given id exists.
    NeuronNotFound,
    /// The caller's public address does not own the neuron.
    NotOwner,
    /// A neuron's staked amount is below the requested amount.
    InsufficientStake,
    /// A neuron's dissolve delay has not elapsed yet.
    LockedByDissolveDelay,
    /// No proposal with the given id exists.
    ProposalNotFound,
    /// The neuron has already voted on this proposal.
    AlreadyVoted,
    /// No validator with the given address exists.
    ValidatorNotFound,
    /// A validator entry for the address is already registered.
    ValidatorExists,
    /// The transaction to cancel is not in the mempool.
    TransactionNotFound,
    /// A staker has no ledger account to debit or credit.
    AccountNotFound,
}

} // verus!
