//! The decisions of each entry point, taken from the values that the entry
//! point reads from contract storage, and the writes that follow from them.
//! A host that keeps the ledger in its own storage reads those values, asks
//! these functions, and applies exactly the writes they return; the ledger
//! model in `contract` does the same on its own maps.
use vstd::prelude::*;
use crate::types::{
    ContractError,
    DripsRequest,
    Locking,
    Release,
    RESOLUTION_VERIFIED,
    RewardStream,
    RewardStreamEvent,
    Task,
    VOTE_THRESHOLD,
    Voting,
};

verus! {

/// A stored amount, or zero where nothing is stored.
pub open spec fn amount_or_zero(stored: Option<i128>) -> i128 {
    match stored {
        Some(a) => a,
        None => 0,
    }
}

/// A stored guardian flag, or `false` where nothing is stored.
pub open spec fn flag_or_false(stored: Option<bool>) -> bool {
    match stored {
        Some(b) => b,
        None => false,
    }
}

/// Whether `amount` can be added to the stored balance without overflow.
pub open spec fn lock_fits(current: Option<i128>, amount: i128) -> bool {
    i128::MIN <= amount_or_zero(current) + amount <= i128::MAX
}

/// What `initialize` decides, given whether a token is already stored.
pub open spec fn initialize_outcome(token_stored: bool) -> Result<(), ContractError> {
    if token_stored {
        Err(ContractError::AlreadyInitialized)
    } else {
        Ok(())
    }
}

/// What `lock_tokens` decides: `amount` moves into custody and the locked
/// balance grows by it.
pub open spec fn lock_outcome(initialized: bool, current: Option<i128>, amount: i128) -> Result<
    Locking,
    ContractError,
> {
    if !initialized {
        Err(ContractError::NotInitialized)
    } else {
        Ok(Locking { deposit: amount, locked: (amount_or_zero(current) + amount) as i128 })
    }
}

/// The amount handed back for a stored locked balance: all of it, when positive.
pub open spec fn refund_amount(locked: Option<i128>) -> Option<i128> {
    if amount_or_zero(locked) > 0 {
        Some(amount_or_zero(locked))
    } else {
        None
    }
}

/// The writes that hand back a stored locked balance: the balance drops to
/// zero exactly when something is handed back.
pub open spec fn release_of(guardian_flag: Option<bool>, locked: Option<i128>) -> Release {
    let refund = refund_amount(locked);
    Release {
        guardian_flag,
        locked: if refund is Some {
            Some(0i128)
        } else {
            None
        },
        refund,
    }
}

/// What `resign_guardian` decides: the guardian flag drops and the positive
/// locked balance is handed back.
pub open spec fn resign_outcome(initialized: bool, is_guardian: bool, locked: Option<i128>) -> Result<
    Release,
    ContractError,
> {
    if !initialized {
        Err(ContractError::NotInitialized)
    } else if !is_guardian {
        Err(ContractError::NotGuardian)
    } else {
        Ok(release_of(Some(false), locked))
    }
}

/// What `unlock_tokens` decides: the positive locked balance is handed back.
pub open spec fn unlock_outcome(initialized: bool, is_guardian: bool, locked: Option<i128>) -> Result<
    Release,
    ContractError,
> {
    if !initialized {
        Err(ContractError::NotInitialized)
    } else if is_guardian {
        Err(ContractError::StillGuardian)
    } else {
        Ok(release_of(None, locked))
    }
}

/// What `register_task` decides: the freshly registered task.
pub open spec fn register_outcome(existing: bool, task_id: u64) -> Result<Task, ContractError> {
    if existing {
        Err(ContractError::TaskAlreadyExists)
    } else {
        Ok(Task { id: task_id, votes: 0, is_done: false })
    }
}

/// A task with one more vote, done once the votes reach the threshold.
pub open spec fn counted_vote(t: Task) -> Task {
    Task {
        id: t.id,
        votes: (t.votes + 1) as u32,
        is_done: if t.votes + 1 >= VOTE_THRESHOLD {
            true
        } else {
            t.is_done
        },
    }
}

/// Whether a vote gets as far as counting on the task (where the count can overflow).
pub open spec fn vote_counts(
    is_guardian: bool,
    initialized: bool,
    threshold: Option<i128>,
    locked: Option<i128>,
    already_voted: bool,
) -> bool {
    is_guardian && initialized && amount_or_zero(locked) > amount_or_zero(threshold)
        && !already_voted
}

/// What `vote` decides: the guardian is marked as having voted, and the task
/// counts the vote.
pub open spec fn vote_outcome(
    is_guardian: bool,
    initialized: bool,
    threshold: Option<i128>,
    locked: Option<i128>,
    already_voted: bool,
    task: Option<Task>,
) -> Result<Voting, ContractError> {
    if !is_guardian {
        Err(ContractError::NotAuthorized)
    } else if !initialized {
        Err(ContractError::NotInitialized)
    } else if amount_or_zero(locked) <= amount_or_zero(threshold) {
        Err(ContractError::InsufficientLockedBalance)
    } else if already_voted {
        Err(ContractError::DuplicateVote)
    } else {
        match task {
            None => Err(ContractError::NotAuthorized),
            Some(t) => Ok(Voting { mark_voted: true, task: counted_vote(t) }),
        }
    }
}

/// Whether a stream can start for `task`: it must be registered, verified,
/// and without a stream yet.
pub open spec fn stream_check_outcome(task: Option<Task>, stream_exists: bool) -> Result<
    (),
    ContractError,
> {
    match task {
        None => Err(ContractError::TaskNotFound),
        Some(t) => if !t.is_done {
            Err(ContractError::TaskNotVerified)
        } else if stream_exists {
            Err(ContractError::StreamAlreadyExists)
        } else {
            Ok(())
        },
    }
}

/// What `start_reward_stream` decides: the request to the streaming protocol
/// and the stream record to keep.
pub open spec fn stream_outcome<A>(
    task: Option<Task>,
    stream_exists: bool,
    drips: A,
    contributor: A,
    task_id: u64,
) -> Result<(DripsRequest<A>, RewardStream<A>), ContractError> {
    match stream_check_outcome(task, stream_exists) {
        Err(e) => Err(e),
        Ok(_) => Ok(
            (
                DripsRequest { drips, contributor, task_id, resolution_status: RESOLUTION_VERIFIED },
                RewardStream { task_id, contributor, active: true },
            ),
        ),
    }
}

/// A stored amount, or zero where nothing is stored.
pub fn stored_amount(stored: Option<i128>) -> (a: i128)
    ensures
        a == amount_or_zero(stored),
{
    match stored {
        Some(a) => a,
        None => 0,
    }
}

/// A stored guardian flag, or `false` where nothing is stored.
pub fn stored_flag(stored: Option<bool>) -> (b: bool)
    ensures
        b == flag_or_false(stored),
{
    match stored {
        Some(b) => b,
        None => false,
    }
}

/// Decides `initialize`: a contract takes its token only once.
pub fn initialize_step(token_stored: bool) -> (r: Result<(), ContractError>)
    ensures
        r == initialize_outcome(token_stored),
{
    if token_stored {
        Err(ContractError::AlreadyInitialized)
    } else {
        Ok(())
    }
}

/// Decides `add_guardian`: the guardian flag to store.
pub fn enroll_step() -> (flag: bool)
    ensures
        flag,
{
    true
}

/// Decides `lock_tokens`: `amount` moves into custody and the guardian's
/// locked balance grows by `amount`.
pub fn lock_step(initialized: bool, current: Option<i128>, amount: i128) -> (r: Result<
    Locking,
    ContractError,
>)
    requires
        initialized ==> lock_fits(current, amount),
    ensures
        r == lock_outcome(initialized, current, amount),
{
    if !initialized {
        return Err(ContractError::NotInitialized);
    }
    let balance = stored_amount(current);
    Ok(Locking { deposit: amount, locked: balance + amount })
}

/// The amount handed back for a stored locked balance: all of it, when positive.
pub fn refund_step(locked: Option<i128>) -> (r: Option<i128>)
    ensures
        r == refund_amount(locked),
{
    let balance = stored_amount(locked);
    if balance > 0 {
        Some(balance)
    } else {
        None
    }
}

/// The writes that hand back a stored locked balance, with the guardian
/// flag to store (if it changes).
fn release_step(guardian_flag: Option<bool>, locked: Option<i128>) -> (r: Release)
    ensures
        r == release_of(guardian_flag, locked),
{
    let refund = refund_step(locked);
    let cleared = match refund {
        Some(_) => Some(0i128),
        None => None,
    };
    Release { guardian_flag, locked: cleared, refund }
}

/// Decides `resign_guardian`: only a guardian can resign; its flag drops and
/// it gets back all of its positive locked balance.
pub fn resign_step(initialized: bool, is_guardian: bool, locked: Option<i128>) -> (r: Result<
    Release,
    ContractError,
>)
    ensures
        r == resign_outcome(initialized, is_guardian, locked),
{
    if !initialized {
        return Err(ContractError::NotInitialized);
    }
    if !is_guardian {
        return Err(ContractError::NotGuardian);
    }
    Ok(release_step(Some(false), locked))
}

/// Decides `unlock_tokens`: only a non-guardian can unlock, and gets back all
/// of its positive locked balance.
pub fn unlock_step(initialized: bool, is_guardian: bool, locked: Option<i128>) -> (r: Result<
    Release,
    ContractError,
>)
    ensures
        r == unlock_outcome(initialized, is_guardian, locked),
{
    if !initialized {
        return Err(ContractError::NotInitialized);
    }
    if is_guardian {
        return Err(ContractError::StillGuardian);
    }
    Ok(release_step(None, locked))
}

/// Decides `register_task`: a task id is registered once, with no votes.
pub fn register_step(existing: bool, task_id: u64) -> (r: Result<Task, ContractError>)
    ensures
        r == register_outcome(existing, task_id),
{
    if existing {
        Err(ContractError::TaskAlreadyExists)
    } else {
        Ok(Task { id: task_id, votes: 0, is_done: false })
    }
}

/// Decides `vote`: an initialized contract counts one vote per guardian whose
/// locked balance exceeds the threshold, and marks the task done at
/// `VOTE_THRESHOLD` votes.
pub fn vote_step(
    is_guardian: bool,
    initialized: bool,
    threshold: Option<i128>,
    locked: Option<i128>,
    already_voted: bool,
    task: Option<Task>,
) -> (r: Result<Voting, ContractError>)
    requires
        vote_counts(is_guardian, initialized, threshold, locked, already_voted) ==> (
        task matches Some(t) ==> t.votes < u32::MAX),
    ensures
        r == vote_outcome(is_guardian, initialized, threshold, locked, already_voted, task),
{
    if !is_guardian {
        return Err(ContractError::NotAuthorized);
    }
    if !initialized {
        return Err(ContractError::NotInitialized);
    }
    let threshold = stored_amount(threshold);
    let locked = stored_amount(locked);
    if locked <= threshold {
        return Err(ContractError::InsufficientLockedBalance);
    }
    if already_voted {
        return Err(ContractError::DuplicateVote);
    }
    match task {
        None => Err(ContractError::NotAuthorized),
        Some(t) => {
            let mut t = t;
            t.votes = t.votes + 1;
            if t.votes >= VOTE_THRESHOLD {
                t.is_done = true;
            }
            Ok(Voting { mark_voted: true, task: t })
        },
    }
}

/// Decides whether `start_reward_stream` may start a stream: only for a
/// registered, verified task that has none yet.
pub fn stream_check(task: Option<Task>, stream_exists: bool) -> (r: Result<(), ContractError>)
    ensures
        r == stream_check_outcome(task, stream_exists),
{
    match task {
        None => Err(ContractError::TaskNotFound),
        Some(t) => {
            if !t.is_done {
                Err(ContractError::TaskNotVerified)
            } else if stream_exists {
                Err(ContractError::StreamAlreadyExists)
            } else {
                Ok(())
            }
        },
    }
}

/// Decides `start_reward_stream`: a stream starts only for a registered,
/// verified task that has none yet; the streaming protocol's contract
/// `drips` is asked to stream to `contributor` for the verified task, and the
/// active stream is recorded.
pub fn stream_step<A: Copy>(
    task: Option<Task>,
    stream_exists: bool,
    drips: A,
    contributor: A,
    task_id: u64,
) -> (r: Result<(DripsRequest<A>, RewardStream<A>), ContractError>)
    ensures
        r == stream_outcome(task, stream_exists, drips, contributor, task_id),
{
    match stream_check(task, stream_exists) {
        Err(e) => Err(e),
        Ok(()) => {
            let request = DripsRequest {
                drips,
                contributor,
                task_id,
                resolution_status: RESOLUTION_VERIFIED,
            };
            Ok((request, RewardStream { task_id, contributor, active: true }))
        },
    }
}

/// The event published for an attempt to start a stream: `Started` when it
/// succeeded, `Failed` otherwise.
pub fn stream_event<A>(task_id: u64, contributor: A, succeeded: bool) -> (e: RewardStreamEvent<A>)
    ensures
        e == (if succeeded {
            RewardStreamEvent::Started { task_id, contributor }
        } else {
            RewardStreamEvent::Failed { task_id, contributor }
        }),
{
    if succeeded {
        RewardStreamEvent::Started { task_id, contributor }
    } else {
        RewardStreamEvent::Failed { task_id, contributor }
    }
}

} // verus!
