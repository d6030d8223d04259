use vero_core_contracts::contract::VeroContract;
use vero_core_contracts::types::{AccountId, Deposit, Refund};

const ADMIN: AccountId = 1;
const TOKEN: AccountId = 2;

fn setup() -> (VeroContract, AccountId, AccountId) {
    let mut client = VeroContract::new();
    client.initialize(TOKEN, 100).unwrap();
    (client, ADMIN, TOKEN)
}

fn lock_for_guardian(client: &mut VeroContract, guardian: AccountId, amount: i128) {
    let deposit = client.lock_tokens(guardian, amount).unwrap();
    assert_eq!(deposit, Deposit { from: guardian, amount });
}

#[test]
fn test_add_guardian_and_register_task() {
    let (mut client, admin, _token) = setup();
    let guardian = 10;

    client.add_guardian(admin, guardian);
    client.register_task(admin, 1).unwrap();

    let task = client.get_task(1).unwrap();
    assert_eq!(task.id, 1);
    assert_eq!(task.votes, 0);
    assert!(!task.is_done);
}

#[test]
fn test_three_votes_flips_is_done() {
    let (mut client, admin, _token) = setup();

    let g1 = 11;
    let g2 = 12;
    let g3 = 13;

    client.add_guardian(admin, g1);
    client.add_guardian(admin, g2);
    client.add_guardian(admin, g3);
    client.register_task(admin, 42).unwrap();

    lock_for_guardian(&mut client, g1, 101);
    lock_for_guardian(&mut client, g2, 101);
    lock_for_guardian(&mut client, g3, 101);

    client.vote(g1, 42).unwrap();
    client.vote(g2, 42).unwrap();
    client.vote(g3, 42).unwrap();

    let task = client.get_task(42).unwrap();
    assert_eq!(task.votes, 3);
    assert!(task.is_done);
}

#[test]
fn test_duplicate_vote_rejected() {
    let (mut client, admin, _token) = setup();
    let g = 10;

    client.add_guardian(admin, g);
    client.register_task(admin, 7).unwrap();
    lock_for_guardian(&mut client, g, 101);
    client.vote(g, 7).unwrap();

    let result = client.vote(g, 7);
    assert!(result.is_err());
}

#[test]
fn test_non_guardian_vote_rejected() {
    let (mut client, admin, _token) = setup();
    let stranger = 99;

    client.register_task(admin, 99).unwrap();

    let result = client.vote(stranger, 99);
    assert!(result.is_err());
}

#[test]
fn test_reward_stream_rejected_for_unverified_task() {
    let (mut client, admin, _token) = setup();
    let contributor = 20;
    let drips_addr = 30;

    client.register_task(admin, 10).unwrap();

    let (result, _event) = client.start_reward_stream(admin, drips_addr, contributor, 10);
    assert!(result.is_err(), "should reject stream for unverified task");
}

#[test]
fn test_reward_stream_rejected_for_nonexistent_task() {
    let (mut client, admin, _token) = setup();
    let contributor = 20;
    let drips_addr = 30;

    let (result, _event) = client.start_reward_stream(admin, drips_addr, contributor, 999);
    assert!(result.is_err(), "should reject stream for nonexistent task");
}

fn verified_task(client: &mut VeroContract, admin: AccountId, task_id: u64) {
    let g1 = 11;
    let g2 = 12;
    let g3 = 13;

    client.add_guardian(admin, g1);
    client.add_guardian(admin, g2);
    client.add_guardian(admin, g3);
    client.register_task(admin, task_id).unwrap();

    lock_for_guardian(client, g1, 101);
    lock_for_guardian(client, g2, 101);
    lock_for_guardian(client, g3, 101);

    client.vote(g1, task_id).unwrap();
    client.vote(g2, task_id).unwrap();
    client.vote(g3, task_id).unwrap();
}

#[test]
fn test_reward_stream_duplicate_rejected() {
    let (mut client, admin, _token) = setup();
    let contributor = 20;
    verified_task(&mut client, admin, 50);

    let drips_contract_id = 31;

    let (first, _) = client.start_reward_stream(admin, drips_contract_id, contributor, 50);
    assert!(first.is_ok());

    let (result, _) = client.start_reward_stream(admin, drips_contract_id, contributor, 50);
    assert!(result.is_err(), "should reject duplicate stream");
}

#[test]
fn test_reward_stream_stored_after_success() {
    let (mut client, admin, _token) = setup();
    let contributor = 20;
    verified_task(&mut client, admin, 77);

    let drips_contract_id = 31;

    let (result, _) = client.start_reward_stream(admin, drips_contract_id, contributor, 77);
    assert!(result.is_ok());

    let stream = client.get_reward_stream(77).unwrap();
    assert_eq!(stream.task_id, 77);
    assert_eq!(stream.contributor, contributor);
    assert!(stream.active);
}

#[test]
fn test_voting_fails_if_tokens_not_locked() {
    let (mut client, admin, _token) = setup();
    let g = 10;

    client.add_guardian(admin, g);
    client.register_task(admin, 100).unwrap();

    let result = client.vote(g, 100);
    assert!(result.is_err());
}

#[test]
fn test_voting_fails_if_locked_balance_leq_threshold() {
    let (mut client, admin, _token) = setup();
    let g = 10;

    client.add_guardian(admin, g);
    client.register_task(admin, 100).unwrap();

    lock_for_guardian(&mut client, g, 100);

    let result = client.vote(g, 100);
    assert!(result.is_err());

    lock_for_guardian(&mut client, g, 1);

    client.vote(g, 100).unwrap();
    let task = client.get_task(100).unwrap();
    assert_eq!(task.votes, 1);
}

#[test]
fn test_resign_guardian_refunds_tokens() {
    let (mut client, admin, _token) = setup();
    let g = 10;

    client.add_guardian(admin, g);
    lock_for_guardian(&mut client, g, 200);

    let refund = client.resign_guardian(g).unwrap();

    assert!(!client.is_guardian(g));

    assert_eq!(refund, Some(Refund { to: g, amount: 200 }));
}

#[test]
fn test_unlock_fails_while_guardian() {
    let (mut client, admin, _token) = setup();
    let g = 10;

    client.add_guardian(admin, g);
    lock_for_guardian(&mut client, g, 200);

    let result = client.unlock_tokens(g);
    assert!(result.is_err());
}

#[test]
fn test_unlock_succeeds_for_non_guardian() {
    let (mut client, _admin, _token) = setup();
    let non_guardian = 15;

    lock_for_guardian(&mut client, non_guardian, 150);

    let refund = client.unlock_tokens(non_guardian).unwrap();

    assert_eq!(refund, Some(Refund { to: non_guardian, amount: 150 }));
}
