//! Plain data of the contract: accounts, tasks, reward streams, errors and
//! the token movements and outgoing requests that operations produce.
use vstd::prelude::*;

verus! {

/// An account on the ledger (a guardian, an admin, a contributor, a contract).
pub type AccountId = u64;

/// Number of guardian votes after which a task counts as verified.
pub const VOTE_THRESHOLD: u32 = 3;

/// Resolution status handed to the streaming protocol for a task that the
/// guardians have verified.
pub const RESOLUTION_VERIFIED: u32 = 1;

/// Errors returned by the contract's entry points.
#[derive(Clone, Copy, Debug, PartialEq, Eq, Structural)]
pub enum ContractError {
    AlreadyInitialized,
    NotInitialized,
    NotGuardian,
    StillGuardian,
    NotAuthorized,
    InsufficientLockedBalance,
    DuplicateVote,
    TaskAlreadyExists,
    TaskNotFound,
    TaskNotVerified,
    StreamAlreadyExists,
}

/// A contribution task that guardians vote on.
#[derive(Clone, Copy, Debug, PartialEq, Eq, Structural)]
pub struct Task {
    pub id: u64,
    pub votes: u32,
    pub is_done: bool,
}

/// The record of a reward stream started for a verified task, for a
/// contributor named by an `A`.
#[derive(Clone, Copy, Debug, PartialEq, Eq, Structural)]
pub struct RewardStream<A> {
    pub task_id: u64,
    pub contributor: A,
    pub active: bool,
}

/// Tokens that move from a guardian into the contract's custody.
#[derive(Clone, Copy, Debug, PartialEq, Eq, Structural)]
pub struct Deposit {
    pub from: AccountId,
    pub amount: i128,
}

/// Tokens that move from the contract's custody back to a guardian.
#[derive(Clone, Copy, Debug, PartialEq, Eq, Structural)]
pub struct Refund {
    pub to: AccountId,
    pub amount: i128,
}

/// The call that starts a stream on the streaming protocol's contract
/// `drips`, for accounts named by an `A`.
#[derive(Clone, Copy, Debug, PartialEq, Eq, Structural)]
pub struct DripsRequest<A> {
    pub drips: A,
    pub contributor: A,
    pub task_id: u64,
    pub resolution_status: u32,
}

/// The event published after an attempt to start a reward stream.
#[derive(Clone, Copy, Debug, PartialEq, Eq, Structural)]
pub enum RewardStreamEvent<A> {
    Started { task_id: u64, contributor: A },
    Failed { task_id: u64, contributor: A },
}

/// The writes of a successful `lock_tokens`: the amount that moves into the
/// contract's custody and the guardian's new locked balance.
#[derive(Clone, Copy, Debug, PartialEq, Eq, Structural)]
pub struct Locking {
    pub deposit: i128,
    pub locked: i128,
}

/// The writes of a successful `resign_guardian` or `unlock_tokens`: the new
/// guardian flag (if it changes), the new locked balance (if it changes), and
/// the amount handed back from the contract's custody (if any).
#[derive(Clone, Copy, Debug, PartialEq, Eq, Structural)]
pub struct Release {
    pub guardian_flag: Option<bool>,
    pub locked: Option<i128>,
    pub refund: Option<i128>,
}

/// The writes of a counted vote: the mark that the guardian voted on the
/// task, and the task with the vote counted.
#[derive(Clone, Copy, Debug, PartialEq, Eq, Structural)]
pub struct Voting {
    pub mark_voted: bool,
    pub task: Task,
}

} // verus!
