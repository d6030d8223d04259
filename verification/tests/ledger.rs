use vero_core_contracts::contract::VeroContract;
use vero_core_contracts::rules::{
    enroll_step, initialize_step, lock_step, refund_step, register_step, resign_step, stored_amount,
    stored_flag, stream_check, stream_event, stream_step, unlock_step, vote_step,
};
use vero_core_contracts::types::{
    ContractError, Deposit, DripsRequest, Locking, Refund, Release, RewardStream,
    RewardStreamEvent, Task, Voting, RESOLUTION_VERIFIED, VOTE_THRESHOLD,
};

fn ready() -> VeroContract {
    let mut c = VeroContract::new();
    c.initialize(2, 100).unwrap();
    c
}

#[test]
fn initialize_only_once() {
    let mut c = VeroContract::new();
    assert_eq!(c.initialize(2, 100), Ok(()));
    assert_eq!(c.initialize(3, 5), Err(ContractError::AlreadyInitialized));
    // the first threshold still applies: 100 locked is not enough to vote
    c.add_guardian(1, 10);
    c.register_task(1, 1).unwrap();
    c.lock_tokens(10, 100).unwrap();
    assert_eq!(c.vote(10, 1), Err(ContractError::InsufficientLockedBalance));
}

#[test]
fn uninitialized_contract_refuses_token_operations() {
    let mut c = VeroContract::new();
    assert_eq!(c.lock_tokens(10, 5), Err(ContractError::NotInitialized));
    assert_eq!(c.unlock_tokens(10), Err(ContractError::NotInitialized));
    c.add_guardian(1, 10);
    assert_eq!(c.resign_guardian(10), Err(ContractError::NotInitialized));
    assert!(c.is_guardian(10));
    c.register_task(1, 4).unwrap();
    assert_eq!(c.vote(10, 4), Err(ContractError::NotInitialized));
}

#[test]
fn non_guardian_is_refused_before_initialization_check() {
    let mut c = VeroContract::new();
    assert_eq!(c.vote(10, 4), Err(ContractError::NotAuthorized));
}

#[test]
fn lock_accumulates_and_unlock_refunds_the_total() {
    let mut c = ready();
    assert_eq!(c.lock_tokens(15, 100), Ok(Deposit { from: 15, amount: 100 }));
    assert_eq!(c.lock_tokens(15, 50), Ok(Deposit { from: 15, amount: 50 }));
    assert_eq!(c.unlock_tokens(15), Ok(Some(Refund { to: 15, amount: 150 })));
    // nothing left to hand back
    assert_eq!(c.unlock_tokens(15), Ok(None));
}

#[test]
fn unlock_with_nothing_locked_refunds_nothing() {
    let mut c = ready();
    assert_eq!(c.unlock_tokens(15), Ok(None));
}

#[test]
fn resign_refunds_all_then_guardian_can_unlock_nothing() {
    let mut c = ready();
    c.add_guardian(1, 10);
    c.lock_tokens(10, 70).unwrap();
    c.lock_tokens(10, 30).unwrap();
    assert_eq!(c.unlock_tokens(10), Err(ContractError::StillGuardian));
    assert_eq!(c.resign_guardian(10), Ok(Some(Refund { to: 10, amount: 100 })));
    assert!(!c.is_guardian(10));
    assert_eq!(c.unlock_tokens(10), Ok(None));
    assert_eq!(c.resign_guardian(10), Err(ContractError::NotGuardian));
}

#[test]
fn resign_without_locked_tokens() {
    let mut c = ready();
    c.add_guardian(1, 10);
    assert_eq!(c.resign_guardian(10), Ok(None));
    assert!(!c.is_guardian(10));
}

#[test]
fn resign_refused_for_non_guardian() {
    let mut c = ready();
    c.lock_tokens(10, 30).unwrap();
    assert_eq!(c.resign_guardian(10), Err(ContractError::NotGuardian));
    // the refused call changed nothing: the tokens are still there to unlock
    assert_eq!(c.unlock_tokens(10), Ok(Some(Refund { to: 10, amount: 30 })));
}

#[test]
fn guardian_added_again_after_resigning() {
    let mut c = ready();
    c.add_guardian(1, 10);
    c.resign_guardian(10).unwrap();
    c.add_guardian(1, 10);
    assert!(c.is_guardian(10));
    assert!(!c.is_guardian(11));
}

#[test]
fn register_task_twice_is_refused() {
    let mut c = ready();
    assert_eq!(c.register_task(1, 5), Ok(()));
    assert_eq!(c.register_task(1, 5), Err(ContractError::TaskAlreadyExists));
    assert_eq!(c.get_task(5), Some(Task { id: 5, votes: 0, is_done: false }));
    assert_eq!(c.get_task(6), None);
}

#[test]
fn vote_on_unregistered_task_records_nothing() {
    let mut c = ready();
    c.add_guardian(1, 10);
    c.lock_tokens(10, 101).unwrap();
    assert_eq!(c.vote(10, 8), Err(ContractError::NotAuthorized));
    c.register_task(1, 8).unwrap();
    // the refused vote left no trace, so this one counts
    assert_eq!(c.vote(10, 8), Ok(()));
    assert_eq!(c.get_task(8), Some(Task { id: 8, votes: 1, is_done: false }));
}

#[test]
fn duplicate_vote_error_and_count_unchanged() {
    let mut c = ready();
    c.add_guardian(1, 10);
    c.lock_tokens(10, 101).unwrap();
    c.register_task(1, 8).unwrap();
    c.vote(10, 8).unwrap();
    assert_eq!(c.vote(10, 8), Err(ContractError::DuplicateVote));
    assert_eq!(c.get_task(8).unwrap().votes, 1);
}

#[test]
fn same_guardian_votes_on_several_tasks() {
    let mut c = ready();
    c.add_guardian(1, 10);
    c.lock_tokens(10, 101).unwrap();
    c.register_task(1, 8).unwrap();
    c.register_task(1, 9).unwrap();
    c.vote(10, 8).unwrap();
    c.vote(10, 9).unwrap();
    assert_eq!(c.get_task(8).unwrap().votes, 1);
    assert_eq!(c.get_task(9).unwrap().votes, 1);
}

#[test]
fn two_votes_leave_task_open_and_fourth_keeps_it_done() {
    let mut c = ready();
    for g in 10..14u64 {
        c.add_guardian(1, g);
        c.lock_tokens(g, 101).unwrap();
    }
    c.register_task(1, 3).unwrap();
    c.vote(10, 3).unwrap();
    c.vote(11, 3).unwrap();
    assert_eq!(c.get_task(3), Some(Task { id: 3, votes: 2, is_done: false }));
    c.vote(12, 3).unwrap();
    assert_eq!(c.get_task(3), Some(Task { id: 3, votes: VOTE_THRESHOLD, is_done: true }));
    c.vote(13, 3).unwrap();
    assert_eq!(c.get_task(3), Some(Task { id: 3, votes: 4, is_done: true }));
    c.register_task(1, 4).unwrap();
    c.vote(10, 4).unwrap();
    assert_eq!(c.get_task(3), Some(Task { id: 3, votes: 4, is_done: true }));
}

#[test]
fn resigned_guardian_cannot_vote() {
    let mut c = ready();
    c.add_guardian(1, 10);
    c.lock_tokens(10, 101).unwrap();
    c.register_task(1, 3).unwrap();
    c.resign_guardian(10).unwrap();
    assert_eq!(c.vote(10, 3), Err(ContractError::NotAuthorized));
}

fn verified(c: &mut VeroContract, task_id: u64) {
    for g in 10..13u64 {
        c.add_guardian(1, g);
        if c.lock_tokens(g, 101).is_err() {
            panic!("lock refused");
        }
    }
    c.register_task(1, task_id).unwrap();
    for g in 10..13u64 {
        c.vote(g, task_id).unwrap();
    }
}

#[test]
fn stream_errors_and_events() {
    let mut c = ready();
    assert_eq!(
        c.start_reward_stream(1, 30, 20, 5),
        (Err(ContractError::TaskNotFound), RewardStreamEvent::Failed { task_id: 5, contributor: 20 })
    );
    c.register_task(1, 5).unwrap();
    assert_eq!(
        c.start_reward_stream(1, 30, 20, 5),
        (Err(ContractError::TaskNotVerified), RewardStreamEvent::Failed { task_id: 5, contributor: 20 })
    );
    assert_eq!(c.get_reward_stream(5), None);
}

#[test]
fn stream_request_record_and_duplicate() {
    let mut c = ready();
    verified(&mut c, 6);
    assert_eq!(
        c.start_reward_stream(1, 30, 20, 6),
        (
            Ok(DripsRequest { drips: 30, contributor: 20, task_id: 6, resolution_status: RESOLUTION_VERIFIED }),
            RewardStreamEvent::Started { task_id: 6, contributor: 20 }
        )
    );
    assert_eq!(c.get_reward_stream(6), Some(RewardStream { task_id: 6, contributor: 20, active: true }));
    assert_eq!(
        c.start_reward_stream(1, 31, 21, 6),
        (Err(ContractError::StreamAlreadyExists), RewardStreamEvent::Failed { task_id: 6, contributor: 21 })
    );
    // the refused start kept the first record
    assert_eq!(c.get_reward_stream(6), Some(RewardStream { task_id: 6, contributor: 20, active: true }));
}

#[test]
fn step_functions_decide_as_the_entry_points() {
    assert_eq!(stored_amount(None), 0);
    assert_eq!(stored_amount(Some(-4)), -4);
    assert!(!stored_flag(None));
    assert!(stored_flag(Some(true)));
    assert_eq!(initialize_step(true), Err(ContractError::AlreadyInitialized));
    assert_eq!(initialize_step(false), Ok(()));
    assert!(enroll_step());
    assert_eq!(lock_step(true, Some(7), 5), Ok(Locking { deposit: 5, locked: 12 }));
    assert_eq!(lock_step(true, None, 5), Ok(Locking { deposit: 5, locked: 5 }));
    assert_eq!(lock_step(true, Some(7), -2), Ok(Locking { deposit: -2, locked: 5 }));
    assert_eq!(lock_step(false, None, 5), Err(ContractError::NotInitialized));
    assert_eq!(refund_step(Some(0)), None);
    assert_eq!(refund_step(Some(-3)), None);
    assert_eq!(refund_step(Some(9)), Some(9));
    assert_eq!(
        resign_step(true, true, Some(9)),
        Ok(Release { guardian_flag: Some(false), locked: Some(0), refund: Some(9) })
    );
    assert_eq!(
        resign_step(true, true, Some(-1)),
        Ok(Release { guardian_flag: Some(false), locked: None, refund: None })
    );
    assert_eq!(resign_step(true, false, Some(9)), Err(ContractError::NotGuardian));
    assert_eq!(
        unlock_step(true, false, None),
        Ok(Release { guardian_flag: None, locked: None, refund: None })
    );
    assert_eq!(
        unlock_step(true, false, Some(4)),
        Ok(Release { guardian_flag: None, locked: Some(0), refund: Some(4) })
    );
    assert_eq!(unlock_step(true, true, Some(9)), Err(ContractError::StillGuardian));
    assert_eq!(unlock_step(false, false, Some(9)), Err(ContractError::NotInitialized));
    assert_eq!(register_step(false, 4), Ok(Task { id: 4, votes: 0, is_done: false }));
    assert_eq!(register_step(true, 4), Err(ContractError::TaskAlreadyExists));
    let t = Task { id: 4, votes: 2, is_done: false };
    assert_eq!(
        vote_step(true, true, Some(100), Some(101), false, Some(t)),
        Ok(Voting { mark_voted: true, task: Task { id: 4, votes: 3, is_done: true } })
    );
    assert_eq!(
        vote_step(true, true, None, Some(1), false, Some(Task { id: 4, votes: 0, is_done: false })),
        Ok(Voting { mark_voted: true, task: Task { id: 4, votes: 1, is_done: false } })
    );
    assert_eq!(
        vote_step(true, true, None, None, false, Some(t)),
        Err(ContractError::InsufficientLockedBalance)
    );
    assert_eq!(vote_step(false, false, None, None, true, None), Err(ContractError::NotAuthorized));
    assert_eq!(vote_step(true, true, Some(1), Some(2), true, Some(t)), Err(ContractError::DuplicateVote));
    assert_eq!(vote_step(true, true, Some(1), Some(2), false, None), Err(ContractError::NotAuthorized));
    let done = Task { id: 4, votes: 3, is_done: true };
    assert_eq!(stream_step(Some(done), true, 1, 2, 4), Err(ContractError::StreamAlreadyExists));
    assert_eq!(stream_step(Some(t), false, 1, 2, 4), Err(ContractError::TaskNotVerified));
    assert_eq!(stream_step(None, false, 1, 2, 4), Err(ContractError::TaskNotFound));
    assert_eq!(
        stream_step(Some(done), false, 1, 2, 4),
        Ok((
            DripsRequest { drips: 1, contributor: 2, task_id: 4, resolution_status: RESOLUTION_VERIFIED },
            RewardStream { task_id: 4, contributor: 2, active: true }
        ))
    );
    assert_eq!(stream_check(Some(done), false), Ok(()));
    assert_eq!(stream_check(Some(done), true), Err(ContractError::StreamAlreadyExists));
    assert_eq!(stream_check(Some(t), false), Err(ContractError::TaskNotVerified));
    assert_eq!(stream_check(None, true), Err(ContractError::TaskNotFound));
    assert_eq!(stream_event(4, 2, true), RewardStreamEvent::Started { task_id: 4, contributor: 2 });
    assert_eq!(stream_event(4, 2, false), RewardStreamEvent::Failed { task_id: 4, contributor: 2 });
}

#[test]
fn no_second_vote_after_resigning_and_rejoining() {
    let mut c = ready();
    c.add_guardian(1, 10);
    c.lock_tokens(10, 101).unwrap();
    c.register_task(1, 8).unwrap();
    c.vote(10, 8).unwrap();
    c.resign_guardian(10).unwrap();
    assert_eq!(c.vote(10, 8), Err(ContractError::NotAuthorized));
    c.add_guardian(1, 10);
    assert_eq!(c.vote(10, 8), Err(ContractError::InsufficientLockedBalance));
    c.lock_tokens(10, 500).unwrap();
    assert_eq!(c.vote(10, 8), Err(ContractError::DuplicateVote));
    assert_eq!(c.get_task(8).unwrap().votes, 1);
}

#[test]
fn no_second_refund_on_resigning() {
    let mut c = ready();
    c.add_guardian(1, 10);
    c.lock_tokens(10, 40).unwrap();
    assert_eq!(c.resign_guardian(10), Ok(Some(Refund { to: 10, amount: 40 })));
    c.lock_tokens(10, 5).unwrap();
    c.register_task(1, 2).unwrap();
    assert_eq!(c.resign_guardian(10), Err(ContractError::NotGuardian));
    // the locked 5 are still there, for unlocking
    assert_eq!(c.unlock_tokens(10), Ok(Some(Refund { to: 10, amount: 5 })));
}

#[test]
fn custody_moves_with_deposits_and_refunds() {
    let mut c = ready();
    let mut custody: i128 = 0;
    c.add_guardian(1, 10);
    c.add_guardian(1, 11);
    for (g, a) in [(10u64, 70i128), (11, 30), (12, 25), (10, 5)] {
        custody += c.lock_tokens(g, a).unwrap().amount;
    }
    assert_eq!(custody, 130);
    custody -= c.resign_guardian(10).unwrap().map_or(0, |r| r.amount);
    assert_eq!(custody, 55);
    custody -= c.unlock_tokens(12).unwrap().map_or(0, |r| r.amount);
    custody -= c.resign_guardian(11).unwrap().map_or(0, |r| r.amount);
    // every locked balance was handed back, and custody is empty
    assert_eq!(custody, 0);
    assert_eq!(c.unlock_tokens(10), Ok(None));
    assert_eq!(c.unlock_tokens(11), Ok(None));
    assert_eq!(c.unlock_tokens(12), Ok(None));
}
