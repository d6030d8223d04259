//! Properties of the contract that span several calls.
use vstd::prelude::*;
use crate::types::{
    AccountId,
    RESOLUTION_VERIFIED,
    ContractError,
    DripsRequest,
    Release,
    RewardStream,
    Task,
    VOTE_THRESHOLD,
    Voting,
};
use crate::rules::{amount_or_zero, lock_fits};
use crate::contract::{Call, LedgerView};

verus! {

/// The ledger after `calls`, made one after the other.
pub open spec fn run(s: LedgerView, calls: Seq<Call>) -> LedgerView
    decreases calls.len(),
{
    if calls.len() == 0 {
        s
    } else {
        run(s.after(calls[0]), calls.drop_first())
    }
}

/// Whether every call of `calls`, made one after the other, is admissible
/// (free of the overflows on which the contract panics).
pub open spec fn admissible_run(s: LedgerView, calls: Seq<Call>) -> bool
    decreases calls.len(),
{
    calls.len() == 0 || (s.admissible(calls[0]) && admissible_run(
        s.after(calls[0]),
        calls.drop_first(),
    ))
}

/// The tokens that `calls`, made one after the other, move into the
/// contract's custody: deposits minus refunds.
pub open spec fn run_net_deposit(s: LedgerView, calls: Seq<Call>) -> int
    decreases calls.len(),
{
    if calls.len() == 0 {
        0
    } else {
        s.net_deposit(calls[0]) + run_net_deposit(s.after(calls[0]), calls.drop_first())
    }
}

/// The sum of all locked balances.
pub open spec fn total_locked(m: Map<AccountId, i128>) -> int
    decreases m.dom().len(),
    when m.dom().finite()
{
    if m.dom().len() == 0 {
        0
    } else {
        let k = m.dom().choose();
        m[k] + total_locked(m.remove(k))
    }
}

/// Whether `call` makes `account` a guardian.
pub open spec fn adds_guardian(call: Call, account: AccountId) -> bool {
    call matches Call::AddGuardian { guardian, .. } && guardian == account
}

/// Any admissible run keeps the ledger well formed.
pub proof fn lemma_run_keeps_wf(s: LedgerView, calls: Seq<Call>)
    requires
        s.wf(),
        admissible_run(s, calls),
    ensures
        run(s, calls).wf(),
    decreases calls.len(),
{
    if calls.len() > 0 {
        crate::contract::lemma_after_keeps_wf(s, calls[0]);
        lemma_run_keeps_wf(s.after(calls[0]), calls.drop_first());
    }
}

/// A contract is initialized at most once: after `initialize` succeeded, it
/// refuses every further `initialize` with `AlreadyInitialized`.
pub proof fn lemma_initialize_once(
    s: LedgerView,
    token: AccountId,
    threshold: i128,
    calls: Seq<Call>,
)
    requires
        s.initialize_result() is Ok,
    ensures
        run(s.after(Call::Initialize { token, threshold }), calls).initialize_result() == Err::<
            (),
            ContractError,
        >(ContractError::AlreadyInitialized),
{
    lemma_initialized_stays(s.after(Call::Initialize { token, threshold }), calls);
}

/// Once initialized, a contract stays initialized.
pub proof fn lemma_initialized_stays(s: LedgerView, calls: Seq<Call>)
    requires
        s.initialized(),
    ensures
        run(s, calls).initialized(),
    decreases calls.len(),
{
    if calls.len() > 0 {
        let s1 = s.after(calls[0]);
        match calls[0] {
            Call::ResignGuardian { guardian } => {
                if s.resign_result(guardian) is Ok {
                    assert(s1.token == s.token);
                }
            },
            Call::UnlockTokens { guardian } => {
                if s.unlock_result(guardian) is Ok {
                    assert(s1.token == s.token);
                }
            },
            _ => {},
        }
        lemma_initialized_stays(s1, calls.drop_first());
    }
}

/// The mark that a guardian voted on a task survives every call.
pub proof fn lemma_vote_mark_survives_call(s: LedgerView, call: Call, task_id: u64, account: AccountId)
    requires
        s.wf(),
        s.has_voted(task_id, account),
    ensures
        s.after(call).has_voted(task_id, account),
{
    let s1 = s.after(call);
    match call {
        Call::Vote { guardian, task_id: id } => {
            if s.vote_result(guardian, id) is Ok {
                if id == task_id {
                    assert(s1.voters[task_id] == s.voters[task_id].push(guardian));
                    assert(s1.voters[task_id][s.voters[task_id].index_of(account)] == account);
                }
            }
        },
        Call::RegisterTask { admin, task_id: id } => {
            assert(s.tasks.contains_key(task_id));
        },
        Call::ResignGuardian { guardian } => {
            if s.resign_result(guardian) is Ok {
                assert(s1.voters == s.voters);
            }
        },
        Call::UnlockTokens { guardian } => {
            if s.unlock_result(guardian) is Ok {
                assert(s1.voters == s.voters);
            }
        },
        _ => {},
    }
}

/// The mark that a guardian voted on a task survives every admissible run.
pub proof fn lemma_vote_mark_survives(
    s: LedgerView,
    calls: Seq<Call>,
    task_id: u64,
    account: AccountId,
)
    requires
        s.wf(),
        admissible_run(s, calls),
        s.has_voted(task_id, account),
    ensures
        run(s, calls).has_voted(task_id, account),
    decreases calls.len(),
{
    if calls.len() > 0 {
        lemma_vote_mark_survives_call(s, calls[0], task_id, account);
        crate::contract::lemma_after_keeps_wf(s, calls[0]);
        lemma_vote_mark_survives(s.after(calls[0]), calls.drop_first(), task_id, account);
    }
}

/// A guardian never gets a second counted vote on a task: once its vote on
/// the task was counted, every later vote of it on that task, after any
/// admissible sequence of calls (resigning, being added again, locking
/// more), is refused, with `DuplicateVote` as soon as it is a guardian with
/// enough stake in an initialized contract.
pub proof fn lemma_one_vote_per_task(
    s: LedgerView,
    guardian: AccountId,
    task_id: u64,
    calls: Seq<Call>,
)
    requires
        s.wf(),
        s.admissible(Call::Vote { guardian, task_id }),
        s.vote_result(guardian, task_id) is Ok,
        admissible_run(s.after(Call::Vote { guardian, task_id }), calls),
    ensures
        ({
            let later = run(s.after(Call::Vote { guardian, task_id }), calls);
            &&& later.vote_result(guardian, task_id) is Err
            &&& (later.is_guardian(guardian) && later.initialized() && later.locked_of(guardian)
                > amount_or_zero(later.threshold)) ==> later.vote_result(guardian, task_id)
                == Err::<Voting, ContractError>(ContractError::DuplicateVote)
        }),
{
    let s1 = s.after(Call::Vote { guardian, task_id });
    crate::contract::lemma_after_keeps_wf(s, Call::Vote { guardian, task_id });
    assert(s1.voters[task_id].last() == guardian);
    assert(s1.has_voted(task_id, guardian));
    lemma_vote_mark_survives(s1, calls, task_id, guardian);
}

/// Not being a guardian survives every call but `add_guardian` for that account.
pub proof fn lemma_non_guardian_survives_call(s: LedgerView, call: Call, account: AccountId)
    requires
        !s.is_guardian(account),
        !adds_guardian(call, account),
    ensures
        !s.after(call).is_guardian(account),
{
    let s1 = s.after(call);
    match call {
        Call::AddGuardian { admin, guardian } => {
            assert(s1.guardian_entry(account) == s.guardian_entry(account));
        },
        Call::ResignGuardian { guardian } => {
            if s.resign_result(guardian) is Ok {
                assert(s1.guardian_entry(account) == s.guardian_entry(account) || s1.guardian_entry(
                    account,
                ) == Some(false));
            }
        },
        Call::UnlockTokens { guardian } => {
            if s.unlock_result(guardian) is Ok {
                assert(s1.guardians == s.guardians);
            }
        },
        _ => {},
    }
}

/// A stake is never refunded twice on resignation: once `resign_guardian`
/// succeeded for an account, after any sequence of calls that does not add
/// it as a guardian again, `resign_guardian` refuses it (with `NotGuardian`
/// in an initialized contract), moves no tokens and leaves the ledger as it
/// was.
pub proof fn lemma_resign_once(s: LedgerView, guardian: AccountId, calls: Seq<Call>)
    requires
        s.resign_result(guardian) is Ok,
        forall|i: int| 0 <= i < calls.len() ==> !adds_guardian(#[trigger] calls[i], guardian),
    ensures
        ({
            let later = run(s.after(Call::ResignGuardian { guardian }), calls);
            &&& !later.is_guardian(guardian)
            &&& later.resign_result(guardian) == Err::<Release, ContractError>(
                ContractError::NotGuardian,
            )
            &&& later.net_deposit(Call::ResignGuardian { guardian }) == 0
            &&& later.after(Call::ResignGuardian { guardian }) == later
        }),
{
    let s1 = s.after(Call::ResignGuardian { guardian });
    assert(s1.guardian_entry(guardian) == Some(false));
    assert(s1.initialized());
    lemma_non_guardian_survives(s1, calls, guardian);
    lemma_initialized_stays(s1, calls);
}

/// Not being a guardian survives every run without `add_guardian` for that account.
pub proof fn lemma_non_guardian_survives(s: LedgerView, calls: Seq<Call>, account: AccountId)
    requires
        !s.is_guardian(account),
        forall|i: int| 0 <= i < calls.len() ==> !adds_guardian(#[trigger] calls[i], account),
    ensures
        !run(s, calls).is_guardian(account),
    decreases calls.len(),
{
    if calls.len() > 0 {
        assert(!adds_guardian(calls[0], account));
        lemma_non_guardian_survives_call(s, calls[0], account);
        let rest = calls.drop_first();
        assert forall|i: int| 0 <= i < rest.len() implies !adds_guardian(#[trigger] rest[i], account) by {
            assert(rest[i] == calls[i + 1]);
        }
        lemma_non_guardian_survives(s.after(calls[0]), rest, account);
    }
}

/// The sum of locked balances splits off any one account's balance.
pub proof fn lemma_total_locked_remove(m: Map<AccountId, i128>, k: AccountId)
    requires
        m.dom().finite(),
        m.dom().contains(k),
    ensures
        total_locked(m) == m[k] + total_locked(m.remove(k)),
    decreases m.dom().len(),
{
    let c = m.dom().choose();
    assert(m.dom().contains(c));
    if c != k {
        lemma_total_locked_remove(m.remove(c), k);
        lemma_total_locked_remove(m.remove(k), c);
        assert(m.remove(c).remove(k) =~= m.remove(k).remove(c));
    }
}

/// Storing a balance for an account changes the sum of locked balances by
/// the difference to its previous balance.
pub proof fn lemma_total_locked_insert(m: Map<AccountId, i128>, k: AccountId, v: i128)
    requires
        m.dom().finite(),
    ensures
        total_locked(m.insert(k, v)) == total_locked(m) - (if m.dom().contains(k) {
            m[k] as int
        } else {
            0
        }) + v,
{
    lemma_total_locked_remove(m.insert(k, v), k);
    assert(m.insert(k, v).remove(k) =~= m.remove(k));
    if m.dom().contains(k) {
        lemma_total_locked_remove(m, k);
    } else {
        assert(m.remove(k) =~= m);
    }
}

/// Every admissible call moves the sum of locked balances by exactly the
/// tokens it moves into the contract's custody (its deposit, minus its refund).
pub proof fn lemma_call_custody(s: LedgerView, call: Call)
    requires
        s.wf(),
        s.admissible(call),
    ensures
        total_locked(s.after(call).locked) == total_locked(s.locked) + s.net_deposit(call),
{
    let s1 = s.after(call);
    match call {
        Call::LockTokens { guardian, amount } => {
            if s.lock_result(guardian, amount) is Ok {
                lemma_total_locked_insert(s.locked, guardian, s.lock_result(guardian, amount)->Ok_0.locked);
            }
        },
        Call::ResignGuardian { guardian } => {
            if s.resign_result(guardian) is Ok {
                let rel = s.resign_result(guardian)->Ok_0;
                if rel.refund is Some {
                    lemma_total_locked_insert(s.locked, guardian, 0);
                } else {
                    assert(s1.locked == s.locked);
                }
            }
        },
        Call::UnlockTokens { guardian } => {
            if s.unlock_result(guardian) is Ok {
                let rel = s.unlock_result(guardian)->Ok_0;
                if rel.refund is Some {
                    lemma_total_locked_insert(s.locked, guardian, 0);
                } else {
                    assert(s1.locked == s.locked);
                }
            }
        },
        _ => {},
    }
}

/// The contract always holds enough tokens to refund every locked balance:
/// over any admissible sequence of calls, the sum of locked balances moves
/// by exactly the tokens that the calls move into the contract's custody
/// (deposits minus refunds), so custody minus the sum of locked balances
/// never changes.
pub proof fn lemma_run_custody(s: LedgerView, calls: Seq<Call>)
    requires
        s.wf(),
        admissible_run(s, calls),
    ensures
        total_locked(run(s, calls).locked) == total_locked(s.locked) + run_net_deposit(s, calls),
    decreases calls.len(),
{
    if calls.len() > 0 {
        lemma_call_custody(s, calls[0]);
        crate::contract::lemma_after_keeps_wf(s, calls[0]);
        lemma_run_custody(s.after(calls[0]), calls.drop_first());
    }
}

/// Only a guardian whose locked balance exceeds the threshold, in an
/// initialized contract, has a vote counted, and only on a registered task.
pub proof fn lemma_vote_needs_stake(s: LedgerView, guardian: AccountId, task_id: u64)
    requires
        s.vote_result(guardian, task_id) is Ok,
    ensures
        s.is_guardian(guardian),
        s.initialized(),
        s.locked_of(guardian) > amount_or_zero(s.threshold),
        !s.has_voted(task_id, guardian),
        s.tasks.contains_key(task_id),
{
}

/// A guardian whose locked balance is at most the threshold cannot vote:
/// the vote is refused with `InsufficientLockedBalance`.
pub proof fn lemma_stake_at_threshold_cannot_vote(s: LedgerView, guardian: AccountId, task_id: u64)
    requires
        s.is_guardian(guardian),
        s.initialized(),
        s.locked_of(guardian) <= amount_or_zero(s.threshold),
    ensures
        s.vote_result(guardian, task_id) == Err::<Voting, ContractError>(
            ContractError::InsufficientLockedBalance,
        ),
{
}

/// Whether `guardian` can cast a counted vote on this ledger, stake-wise.
pub open spec fn eligible(s: LedgerView, guardian: AccountId) -> bool {
    &&& s.is_guardian(guardian)
    &&& s.locked_of(guardian) > amount_or_zero(s.threshold)
}

/// Three distinct eligible guardians voting on a freshly registered task
/// verify it: the first two votes leave it open, the third marks it done
/// with `VOTE_THRESHOLD` votes.
pub proof fn lemma_three_votes_verify(
    s: LedgerView,
    g1: AccountId,
    g2: AccountId,
    g3: AccountId,
    task_id: u64,
)
    requires
        s.wf(),
        s.initialized(),
        s.task(task_id) == Some(Task { id: task_id, votes: 0, is_done: false }),
        eligible(s, g1),
        eligible(s, g2),
        eligible(s, g3),
        g1 != g2,
        g1 != g3,
        g2 != g3,
    ensures
        ({
            let s1 = s.after(Call::Vote { guardian: g1, task_id });
            let s2 = s1.after(Call::Vote { guardian: g2, task_id });
            let s3 = s2.after(Call::Vote { guardian: g3, task_id });
            &&& s.vote_result(g1, task_id) is Ok
            &&& s1.vote_result(g2, task_id) is Ok
            &&& s2.vote_result(g3, task_id) is Ok
            &&& s1.task(task_id) == Some(Task { id: task_id, votes: 1, is_done: false })
            &&& s2.task(task_id) == Some(Task { id: task_id, votes: 2, is_done: false })
            &&& s3.task(task_id) == Some(
                Task { id: task_id, votes: VOTE_THRESHOLD, is_done: true },
            )
        }),
{
    assert(s.voters[task_id].len() == 0);
    assert(!s.has_voted(task_id, g1));
    let s1 = s.after(Call::Vote { guardian: g1, task_id });
    assert(s1.voters[task_id] =~= seq![g1]);
    assert(!s1.has_voted(task_id, g2));
    let s2 = s1.after(Call::Vote { guardian: g2, task_id });
    assert(s2.voters[task_id] =~= seq![g1, g2]);
    assert(!s2.has_voted(task_id, g3));
}

/// A verified task stays verified: no admissible call turns a done task
/// back or lowers its votes.
pub proof fn lemma_verified_stays_verified(s: LedgerView, call: Call, done_id: u64)
    requires
        s.wf(),
        s.admissible(call),
        s.tasks.contains_key(done_id),
        s.tasks[done_id].is_done,
    ensures
        s.after(call).tasks.contains_key(done_id),
        s.after(call).tasks[done_id].is_done,
        s.after(call).tasks[done_id].votes >= s.tasks[done_id].votes,
{
    let s1 = s.after(call);
    match call {
        Call::ResignGuardian { guardian } => {
            if s.resign_result(guardian) is Ok {
                assert(s1.tasks == s.tasks);
            }
        },
        Call::UnlockTokens { guardian } => {
            if s.unlock_result(guardian) is Ok {
                assert(s1.tasks == s.tasks);
            }
        },
        _ => {},
    }
}

/// Locking then unlocking returns to a non-guardian everything it locked:
/// the refund is its whole locked balance (what it had plus what it just
/// locked), after which nothing is left locked.
pub proof fn lemma_lock_then_unlock(s: LedgerView, account: AccountId, amount: i128)
    requires
        s.initialized(),
        !s.is_guardian(account),
        lock_fits(s.locked_entry(account), amount),
        s.locked_of(account) + amount > 0,
    ensures
        ({
            let s1 = s.after(Call::LockTokens { guardian: account, amount });
            &&& s1.unlock_result(account) is Ok
            &&& s1.unlock_result(account)->Ok_0.refund == Some(
                (s.locked_of(account) + amount) as i128,
            )
            &&& s1.after(Call::UnlockTokens { guardian: account }).locked_of(account) == 0
        }),
{
}

/// Resigning hands a guardian back all of its positive locked balance and
/// ends its guardianship; afterwards it has nothing left to unlock.
pub proof fn lemma_resign_refunds_all(s: LedgerView, guardian: AccountId)
    requires
        s.initialized(),
        s.is_guardian(guardian),
        s.locked_of(guardian) > 0,
    ensures
        ({
            let s1 = s.after(Call::ResignGuardian { guardian });
            &&& s.resign_result(guardian) is Ok
            &&& s.resign_result(guardian)->Ok_0.refund == Some(s.locked_of(guardian))
            &&& !s1.is_guardian(guardian)
            &&& s1.locked_of(guardian) == 0
            &&& s1.unlock_result(guardian) is Ok
            &&& s1.unlock_result(guardian)->Ok_0.refund == None::<i128>
        }),
{
}

/// A guardian's locked tokens stay locked: `unlock_tokens` refuses a
/// guardian with `StillGuardian` in an initialized contract.
pub proof fn lemma_guardian_cannot_unlock(s: LedgerView, guardian: AccountId)
    requires
        s.initialized(),
        s.is_guardian(guardian),
    ensures
        s.unlock_result(guardian) == Err::<Release, ContractError>(
            ContractError::StillGuardian,
        ),
{
}

/// A task gets at most one reward stream: after one was started, every
/// further start for that task is refused with `StreamAlreadyExists`.
pub proof fn lemma_stream_once(
    s: LedgerView,
    admin: AccountId,
    drips: AccountId,
    contributor: AccountId,
    task_id: u64,
    drips2: AccountId,
    contributor2: AccountId,
)
    requires
        s.stream_result(drips, contributor, task_id) is Ok,
    ensures
        s.after(Call::StartRewardStream { admin, drips, contributor, task_id }).stream_result(
            drips2,
            contributor2,
            task_id,
        ) == Err::<(DripsRequest<AccountId>, RewardStream<AccountId>), ContractError>(
            ContractError::StreamAlreadyExists,
        ),
{
}

/// A reward stream starts only for a registered task that the guardians
/// verified; for a missing task the refusal is `TaskNotFound`, for an
/// unverified one `TaskNotVerified`.
pub proof fn lemma_stream_needs_verified_task(
    s: LedgerView,
    drips: AccountId,
    contributor: AccountId,
    task_id: u64,
)
    ensures
        s.stream_result(drips, contributor, task_id) is Ok ==> s.tasks.contains_key(task_id)
            && s.tasks[task_id].is_done,
        !s.tasks.contains_key(task_id) ==> s.stream_result(drips, contributor, task_id)
            == Err::<(DripsRequest<AccountId>, RewardStream<AccountId>), ContractError>(
            ContractError::TaskNotFound,
        ),
        s.tasks.contains_key(task_id) && !s.tasks[task_id].is_done ==> s.stream_result(
            drips,
            contributor,
            task_id,
        ) == Err::<(DripsRequest<AccountId>, RewardStream<AccountId>), ContractError>(
            ContractError::TaskNotVerified,
        ),
{
}

/// The stake that `account` has locked, as stored (zero when nothing is stored).
pub open spec fn stake(s: LedgerView, account: AccountId) -> int {
    if s.locked.contains_key(account) {
        s.locked[account] as int
    } else {
        0
    }
}

/// The lookups of the ledger give what its maps store.
pub proof fn lemma_lookups(s: LedgerView, task_id: u64, account: AccountId)
    ensures
        s.task(task_id) is Some <==> s.tasks.contains_key(task_id),
        s.task(task_id) is Some ==> s.task(task_id)->0 == s.tasks[task_id],
        s.stream(task_id) is Some <==> s.streams.contains_key(task_id),
        s.stream(task_id) is Some ==> s.stream(task_id)->0 == s.streams[task_id],
        s.is_guardian(account) <==> (s.guardians.contains_key(account)
            && s.guardians[account]),
        s.locked_of(account) == stake(s, account),
        s.has_voted(task_id, account) <==> (s.voters.contains_key(task_id)
            && s.voters[task_id].contains(account)),
{
}

/// `initialize` succeeds exactly on a contract without a token; it then
/// stores the token and the threshold and nothing else.
pub proof fn lemma_initialize_effect(s: LedgerView, token: AccountId, threshold: i128)
    ensures
        s.token is None ==> ({
            let s1 = s.after(Call::Initialize { token, threshold });
            &&& s.initialize_result() == Ok::<(), ContractError>(())
            &&& s1.token == Some(token)
            &&& s1.threshold == Some(threshold)
            &&& s1.guardians == s.guardians
            &&& s1.locked == s.locked
            &&& s1.tasks == s.tasks
            &&& s1.voters == s.voters
            &&& s1.streams == s.streams
        }),
        s.token is Some ==> s.initialize_result() == Err::<(), ContractError>(
            ContractError::AlreadyInitialized,
        ) && s.after(Call::Initialize { token, threshold }) == s,
{
}

/// `add_guardian` makes any account a guardian, whatever it had locked or
/// was before, and changes nothing else.
pub proof fn lemma_add_guardian_effect(s: LedgerView, admin: AccountId, guardian: AccountId)
    ensures
        ({
            let s1 = s.after(Call::AddGuardian { admin, guardian });
            &&& s1.is_guardian(guardian)
            &&& s1.guardians.contains_key(guardian) && s1.guardians[guardian]
            &&& s1.guardians == s.guardians.insert(guardian, true)
            &&& s1.token == s.token
            &&& s1.threshold == s.threshold
            &&& s1.locked == s.locked
            &&& s1.tasks == s.tasks
            &&& s1.voters == s.voters
            &&& s1.streams == s.streams
        }),
{
}

/// In an initialized contract, any account (guardian or not, with any
/// stake) can lock any amount that keeps its stake within `i128`: exactly
/// `amount` moves into custody and its stake grows by `amount`; nothing else
/// changes. An uninitialized contract refuses with `NotInitialized`.
pub proof fn lemma_lock_effect(s: LedgerView, account: AccountId, amount: i128)
    ensures
        s.token is Some && i128::MIN <= stake(s, account) + amount <= i128::MAX ==> ({
            let s1 = s.after(Call::LockTokens { guardian: account, amount });
            &&& s.lock_result(account, amount) is Ok
            &&& s.lock_result(account, amount)->Ok_0.deposit == amount
            &&& s1.locked == s.locked.insert(account, (stake(s, account) + amount) as i128)
            &&& stake(s1, account) == stake(s, account) + amount
            &&& s.net_deposit(Call::LockTokens { guardian: account, amount }) == amount
            &&& s1.token == s.token
            &&& s1.threshold == s.threshold
            &&& s1.guardians == s.guardians
            &&& s1.tasks == s.tasks
            &&& s1.voters == s.voters
            &&& s1.streams == s.streams
        }),
        s.token is None ==> s.lock_result(account, amount) == Err::<crate::types::Locking, ContractError>(
            ContractError::NotInitialized,
        ) && s.after(Call::LockTokens { guardian: account, amount }) == s,
{
}

/// In an initialized contract, a guardian can always resign: its flag drops
/// to `false`, a positive stake is handed back in full and cleared, a stake
/// of zero or less is left as it is with nothing handed back; nothing else
/// changes. A non-guardian is refused with `NotGuardian`.
pub proof fn lemma_resign_effect(s: LedgerView, guardian: AccountId)
    ensures
        s.token is Some && s.guardians.contains_key(guardian) && s.guardians[guardian] ==> ({
            let s1 = s.after(Call::ResignGuardian { guardian });
            let rel = s.resign_result(guardian)->Ok_0;
            &&& s.resign_result(guardian) is Ok
            &&& s1.guardians == s.guardians.insert(guardian, false)
            &&& stake(s, guardian) > 0 ==> rel.refund == Some(stake(s, guardian) as i128)
                && s1.locked == s.locked.insert(guardian, 0)
            &&& stake(s, guardian) <= 0 ==> rel.refund == None::<i128> && s1.locked == s.locked
            &&& s1.token == s.token
            &&& s1.threshold == s.threshold
            &&& s1.tasks == s.tasks
            &&& s1.voters == s.voters
            &&& s1.streams == s.streams
        }),
        s.token is Some && !(s.guardians.contains_key(guardian) && s.guardians[guardian])
            ==> s.resign_result(guardian) == Err::<Release, ContractError>(
            ContractError::NotGuardian,
        ) && s.after(Call::ResignGuardian { guardian }) == s,
{
}

/// In an initialized contract, a non-guardian can always unlock: a positive
/// stake is handed back in full and cleared, a stake of zero or less is left
/// as it is with nothing handed back; nothing else changes. A guardian is
/// refused with `StillGuardian`.
pub proof fn lemma_unlock_effect(s: LedgerView, account: AccountId)
    ensures
        s.token is Some && !(s.guardians.contains_key(account) && s.guardians[account]) ==> ({
            let s1 = s.after(Call::UnlockTokens { guardian: account });
            let rel = s.unlock_result(account)->Ok_0;
            &&& s.unlock_result(account) is Ok
            &&& s1.guardians == s.guardians
            &&& stake(s, account) > 0 ==> rel.refund == Some(stake(s, account) as i128)
                && s1.locked == s.locked.insert(account, 0)
            &&& stake(s, account) <= 0 ==> rel.refund == None::<i128> && s1.locked == s.locked
            &&& s1.token == s.token
            &&& s1.threshold == s.threshold
            &&& s1.tasks == s.tasks
            &&& s1.voters == s.voters
            &&& s1.streams == s.streams
        }),
        s.token is Some && s.guardians.contains_key(account) && s.guardians[account]
            ==> s.unlock_result(account) == Err::<Release, ContractError>(
            ContractError::StillGuardian,
        ) && s.after(Call::UnlockTokens { guardian: account }) == s,
{
}

/// A new task id is registered with no votes and no voters; a known one is
/// refused with `TaskAlreadyExists`.
pub proof fn lemma_register_effect(s: LedgerView, admin: AccountId, task_id: u64)
    ensures
        !s.tasks.contains_key(task_id) ==> ({
            let s1 = s.after(Call::RegisterTask { admin, task_id });
            &&& s.register_result(task_id) is Ok
            &&& s1.tasks == s.tasks.insert(task_id, Task { id: task_id, votes: 0, is_done: false })
            &&& s1.voters == s.voters.insert(task_id, Seq::<AccountId>::empty())
            &&& s1.token == s.token
            &&& s1.threshold == s.threshold
            &&& s1.guardians == s.guardians
            &&& s1.locked == s.locked
            &&& s1.streams == s.streams
        }),
        s.tasks.contains_key(task_id) ==> s.register_result(task_id) == Err::<Task, ContractError>(
            ContractError::TaskAlreadyExists,
        ) && s.after(Call::RegisterTask { admin, task_id }) == s,
{
}

/// A guardian whose stake exceeds the threshold of an initialized contract,
/// voting for the first time on a registered task, has its vote counted,
/// whatever number of votes the task already has (short of the `u32` limit):
/// the task's votes grow by exactly one, it is done from `VOTE_THRESHOLD`
/// votes on (and stays done), the guardian joins its voters, and nothing
/// else changes.
pub proof fn lemma_vote_counts_one_more(s: LedgerView, guardian: AccountId, task_id: u64)
    requires
        s.wf(),
        s.threshold matches Some(t) && stake(s, guardian) > t,
        s.guardians.contains_key(guardian) && s.guardians[guardian],
        s.tasks.contains_key(task_id),
        !s.voters[task_id].contains(guardian),
        s.tasks[task_id].votes < u32::MAX,
    ensures
        ({
            let old_task = s.tasks[task_id];
            let s1 = s.after(Call::Vote { guardian, task_id });
            &&& s.vote_result(guardian, task_id) is Ok
            &&& s.admissible(Call::Vote { guardian, task_id })
            &&& s1.tasks.contains_key(task_id)
            &&& s1.tasks[task_id].id == task_id
            &&& s1.tasks[task_id].votes == old_task.votes + 1
            &&& s1.tasks[task_id].is_done == (old_task.is_done || old_task.votes + 1
                >= VOTE_THRESHOLD)
            &&& s1.tasks == s.tasks.insert(task_id, s1.tasks[task_id])
            &&& s1.voters == s.voters.insert(task_id, s.voters[task_id].push(guardian))
            &&& s1.token == s.token
            &&& s1.threshold == s.threshold
            &&& s1.guardians == s.guardians
            &&& s1.locked == s.locked
            &&& s1.streams == s.streams
        }),
{
}

/// The refusals of `vote`, in the order they are checked; a refused vote
/// changes nothing.
pub proof fn lemma_vote_refusals(s: LedgerView, guardian: AccountId, task_id: u64)
    ensures
        !(s.guardians.contains_key(guardian) && s.guardians[guardian]) ==> s.vote_result(
            guardian,
            task_id,
        ) == Err::<Voting, ContractError>(ContractError::NotAuthorized),
        (s.guardians.contains_key(guardian) && s.guardians[guardian]) && s.token is None
            ==> s.vote_result(guardian, task_id) == Err::<Voting, ContractError>(
            ContractError::NotInitialized,
        ),
        (s.guardians.contains_key(guardian) && s.guardians[guardian]) && s.token is Some
            && stake(s, guardian) <= amount_or_zero(s.threshold) ==> s.vote_result(
            guardian,
            task_id,
        ) == Err::<Voting, ContractError>(ContractError::InsufficientLockedBalance),
        (s.guardians.contains_key(guardian) && s.guardians[guardian]) && s.token is Some
            && stake(s, guardian) > amount_or_zero(s.threshold) && s.voters.contains_key(task_id)
            && s.voters[task_id].contains(guardian) ==> s.vote_result(guardian, task_id)
            == Err::<Voting, ContractError>(ContractError::DuplicateVote),
        (s.guardians.contains_key(guardian) && s.guardians[guardian]) && s.token is Some
            && stake(s, guardian) > amount_or_zero(s.threshold) && !s.voters.contains_key(task_id)
            && !s.tasks.contains_key(task_id) ==> s.vote_result(guardian, task_id) == Err::<
            Voting,
            ContractError,
        >(ContractError::NotAuthorized),
        s.vote_result(guardian, task_id) is Err ==> s.after(Call::Vote { guardian, task_id })
            == s,
{
}

/// A registered task that the guardians verified and that has no stream yet
/// gets one, whatever its number of votes: the request asks `drips` to
/// stream to `contributor` for the task with the verified status, the
/// active stream is recorded under the task, and nothing else changes.
pub proof fn lemma_stream_starts_for_verified_task(
    s: LedgerView,
    admin: AccountId,
    drips: AccountId,
    contributor: AccountId,
    task_id: u64,
)
    requires
        s.tasks.contains_key(task_id),
        s.tasks[task_id].is_done,
        !s.streams.contains_key(task_id),
    ensures
        ({
            let record = RewardStream { task_id, contributor, active: true };
            let s1 = s.after(Call::StartRewardStream { admin, drips, contributor, task_id });
            &&& s.stream_result(drips, contributor, task_id) == Ok::<
                (DripsRequest<AccountId>, RewardStream<AccountId>),
                ContractError,
            >(
                (
                    DripsRequest {
                        drips,
                        contributor,
                        task_id,
                        resolution_status: RESOLUTION_VERIFIED,
                    },
                    record,
                ),
            )
            &&& s1.streams == s.streams.insert(task_id, record)
            &&& s1.token == s.token
            &&& s1.threshold == s.threshold
            &&& s1.guardians == s.guardians
            &&& s1.locked == s.locked
            &&& s1.tasks == s.tasks
            &&& s1.voters == s.voters
        }),
{
}

/// Whether `call` starts a reward stream for `task_id`.
pub open spec fn starts_stream(call: Call, task_id: u64) -> bool {
    call matches Call::StartRewardStream { task_id: id, .. } && id == task_id
}

/// Only a start for a task touches its stream record: every other call
/// leaves whether it has one, and which, as it was.
pub proof fn lemma_stream_record_only_by_start(s: LedgerView, call: Call, task_id: u64)
    requires
        !starts_stream(call, task_id),
    ensures
        s.after(call).streams.contains_key(task_id) == s.streams.contains_key(task_id),
        s.streams.contains_key(task_id) ==> s.after(call).streams[task_id]
            == s.streams[task_id],
{
    let s1 = s.after(call);
    match call {
        Call::ResignGuardian { guardian } => {
            if s.resign_result(guardian) is Ok {
                assert(s1.streams == s.streams);
            }
        },
        Call::UnlockTokens { guardian } => {
            if s.unlock_result(guardian) is Ok {
                assert(s1.streams == s.streams);
            }
        },
        _ => {},
    }
}

/// A task for which no stream was started has none: after any sequence of
/// calls without a start for it, a task without a stream still has none, and
/// `get_reward_stream` gives `None` for it.
pub proof fn lemma_no_stream_without_start(s: LedgerView, calls: Seq<Call>, task_id: u64)
    requires
        !s.streams.contains_key(task_id),
        forall|i: int| 0 <= i < calls.len() ==> !starts_stream(#[trigger] calls[i], task_id),
    ensures
        !run(s, calls).streams.contains_key(task_id),
        run(s, calls).stream(task_id) == None::<RewardStream<AccountId>>,
    decreases calls.len(),
{
    if calls.len() > 0 {
        assert(!starts_stream(calls[0], task_id));
        lemma_stream_record_only_by_start(s, calls[0], task_id);
        let rest = calls.drop_first();
        assert forall|i: int| 0 <= i < rest.len() implies !starts_stream(#[trigger] rest[i], task_id) by {
            assert(rest[i] == calls[i + 1]);
        }
        lemma_no_stream_without_start(s.after(calls[0]), rest, task_id);
    }
}

} // verus!
