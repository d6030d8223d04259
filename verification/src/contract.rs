//! The contract together with its ledger: every entry point of the contract
//! as a method on the ledger it reads and writes. Each entry point applies
//! exactly the writes that `rules` decides; a call that fails leaves the
//! ledger as it was, as a failed contract invocation does.
use std::collections::HashMap;
use vstd::prelude::*;
use crate::types::{
    AccountId,
    ContractError,
    Deposit,
    DripsRequest,
    Locking,
    Refund,
    Release,
    RewardStream,
    RewardStreamEvent,
    Task,
    VOTE_THRESHOLD,
    Voting,
};
use crate::rules::{
    amount_or_zero,
    enroll_step,
    flag_or_false,
    initialize_outcome,
    initialize_step,
    lock_fits,
    lock_outcome,
    lock_step,
    register_outcome,
    register_step,
    resign_outcome,
    resign_step,
    stored_flag,
    stream_event,
    stream_outcome,
    stream_step,
    unlock_outcome,
    unlock_step,
    vote_counts,
    vote_outcome,
    vote_step,
};

verus! {

broadcast use vstd::std_specs::hash::group_hash_axioms;

/// The contract's storage, as mathematical maps.
pub struct LedgerView {
    /// The token that guardians lock; set once by `initialize`.
    pub token: Option<AccountId>,
    /// The locked balance a guardian must exceed to vote.
    pub threshold: Option<i128>,
    /// Guardian flags, by account.
    pub guardians: Map<AccountId, bool>,
    /// Locked token balances, by account.
    pub locked: Map<AccountId, i128>,
    /// Registered tasks, by id.
    pub tasks: Map<u64, Task>,
    /// The guardians that voted on each registered task, in voting order.
    pub voters: Map<u64, Seq<AccountId>>,
    /// Reward streams, by task id.
    pub streams: Map<u64, RewardStream<AccountId>>,
}

/// A call of one of the contract's entry points that can change its ledger.
#[derive(Clone, Copy, Debug)]
pub enum Call {
    Initialize { token: AccountId, threshold: i128 },
    LockTokens { guardian: AccountId, amount: i128 },
    ResignGuardian { guardian: AccountId },
    UnlockTokens { guardian: AccountId },
    AddGuardian { admin: AccountId, guardian: AccountId },
    RegisterTask { admin: AccountId, task_id: u64 },
    Vote { guardian: AccountId, task_id: u64 },
    StartRewardStream { admin: AccountId, drips: AccountId, contributor: AccountId, task_id: u64 },
}

/// The same result without its value.
pub open spec fn without_value<T>(r: Result<T, ContractError>) -> Result<(), ContractError> {
    match r {
        Ok(_) => Ok(()),
        Err(e) => Err(e),
    }
}

/// A refund of `amount` (if any) to `account`.
pub open spec fn refund_to(account: AccountId, amount: Option<i128>) -> Option<Refund> {
    match amount {
        Some(a) => Some(Refund { to: account, amount: a }),
        None => None,
    }
}

impl LedgerView {
    /// The storage of a freshly deployed contract.
    pub open spec fn empty() -> LedgerView {
        LedgerView {
            token: None,
            threshold: None,
            guardians: Map::empty(),
            locked: Map::empty(),
            tasks: Map::empty(),
            voters: Map::empty(),
            streams: Map::empty(),
        }
    }

    pub open spec fn initialized(self) -> bool {
        self.token is Some
    }

    pub open spec fn guardian_entry(self, account: AccountId) -> Option<bool> {
        if self.guardians.contains_key(account) {
            Some(self.guardians[account])
        } else {
            None
        }
    }

    pub open spec fn is_guardian(self, account: AccountId) -> bool {
        flag_or_false(self.guardian_entry(account))
    }

    pub open spec fn locked_entry(self, account: AccountId) -> Option<i128> {
        if self.locked.contains_key(account) {
            Some(self.locked[account])
        } else {
            None
        }
    }

    pub open spec fn locked_of(self, account: AccountId) -> i128 {
        amount_or_zero(self.locked_entry(account))
    }

    pub open spec fn task(self, task_id: u64) -> Option<Task> {
        if self.tasks.contains_key(task_id) {
            Some(self.tasks[task_id])
        } else {
            None
        }
    }

    pub open spec fn has_voted(self, task_id: u64, account: AccountId) -> bool {
        self.voters.contains_key(task_id) && self.voters[task_id].contains(account)
    }

    pub open spec fn stream(self, task_id: u64) -> Option<RewardStream<AccountId>> {
        if self.streams.contains_key(task_id) {
            Some(self.streams[task_id])
        } else {
            None
        }
    }

    /// What every reachable ledger satisfies: each task counts the distinct
    /// guardians that voted on it and is done exactly when that count reaches
    /// `VOTE_THRESHOLD`; streams exist only for done tasks, under their own
    /// id; finitely many accounts hold a locked balance.
    pub open spec fn wf(self) -> bool {
        &&& (self.token is Some <==> self.threshold is Some)
        &&& self.locked.dom().finite()
        &&& self.tasks.dom() == self.voters.dom()
        &&& forall|id: u64| #[trigger]
            self.tasks.contains_key(id) ==> {
                &&& self.tasks[id].id == id
                &&& self.tasks[id].votes == self.voters[id].len()
                &&& self.tasks[id].is_done == (self.tasks[id].votes >= VOTE_THRESHOLD)
                &&& self.voters[id].no_duplicates()
            }
        &&& forall|id: u64| #[trigger]
            self.streams.contains_key(id) ==> {
                &&& self.tasks.contains_key(id)
                &&& self.tasks[id].is_done
                &&& self.streams[id].task_id == id
                &&& self.streams[id].active
            }
    }

    pub open spec fn after_initialize(self, token: AccountId, threshold: i128) -> LedgerView {
        LedgerView { token: Some(token), threshold: Some(threshold), ..self }
    }

    pub open spec fn with_locked(self, account: AccountId, amount: i128) -> LedgerView {
        LedgerView { locked: self.locked.insert(account, amount), ..self }
    }

    pub open spec fn with_guardian(self, account: AccountId, flag: bool) -> LedgerView {
        LedgerView { guardians: self.guardians.insert(account, flag), ..self }
    }

    /// The ledger after the writes of a lock by `account`.
    pub open spec fn apply_lock(self, account: AccountId, l: Locking) -> LedgerView {
        self.with_locked(account, l.locked)
    }

    /// The ledger after the writes of a release for `account`.
    pub open spec fn apply_release(self, account: AccountId, rel: Release) -> LedgerView {
        let s1 = match rel.guardian_flag {
            Some(flag) => self.with_guardian(account, flag),
            None => self,
        };
        match rel.locked {
            Some(amount) => s1.with_locked(account, amount),
            None => s1,
        }
    }

    pub open spec fn with_registered(self, task: Task) -> LedgerView {
        LedgerView {
            tasks: self.tasks.insert(task.id, task),
            voters: self.voters.insert(task.id, Seq::empty()),
            ..self
        }
    }

    /// The ledger after the writes of `account`'s counted vote on `task_id`.
    pub open spec fn apply_vote(self, task_id: u64, account: AccountId, v: Voting) -> LedgerView {
        LedgerView {
            tasks: self.tasks.insert(task_id, v.task),
            voters: if v.mark_voted {
                self.voters.insert(task_id, self.voters[task_id].push(account))
            } else {
                self.voters
            },
            ..self
        }
    }

    pub open spec fn with_stream(self, stream: RewardStream<AccountId>) -> LedgerView {
        LedgerView { streams: self.streams.insert(stream.task_id, stream), ..self }
    }

    /// What `initialize` decides on this ledger.
    pub open spec fn initialize_result(self) -> Result<(), ContractError> {
        initialize_outcome(self.initialized())
    }

    /// What `lock_tokens` decides on this ledger.
    pub open spec fn lock_result(self, account: AccountId, amount: i128) -> Result<
        Locking,
        ContractError,
    > {
        lock_outcome(self.initialized(), self.locked_entry(account), amount)
    }

    /// What `resign_guardian` decides on this ledger.
    pub open spec fn resign_result(self, account: AccountId) -> Result<Release, ContractError> {
        resign_outcome(self.initialized(), self.is_guardian(account), self.locked_entry(account))
    }

    /// What `unlock_tokens` decides on this ledger.
    pub open spec fn unlock_result(self, account: AccountId) -> Result<Release, ContractError> {
        unlock_outcome(self.initialized(), self.is_guardian(account), self.locked_entry(account))
    }

    /// What `register_task` decides on this ledger: the new task.
    pub open spec fn register_result(self, task_id: u64) -> Result<Task, ContractError> {
        register_outcome(self.tasks.contains_key(task_id), task_id)
    }

    /// Whether `account`'s vote on `task_id` gets as far as counting.
    pub open spec fn vote_reaches_count(self, account: AccountId, task_id: u64) -> bool {
        vote_counts(
            self.is_guardian(account),
            self.initialized(),
            self.threshold,
            self.locked_entry(account),
            self.has_voted(task_id, account),
        )
    }

    /// What `vote` decides on this ledger.
    pub open spec fn vote_result(self, account: AccountId, task_id: u64) -> Result<
        Voting,
        ContractError,
    > {
        vote_outcome(
            self.is_guardian(account),
            self.initialized(),
            self.threshold,
            self.locked_entry(account),
            self.has_voted(task_id, account),
            self.task(task_id),
        )
    }

    /// What `start_reward_stream` decides on this ledger.
    pub open spec fn stream_result(
        self,
        drips: AccountId,
        contributor: AccountId,
        task_id: u64,
    ) -> Result<(DripsRequest<AccountId>, RewardStream<AccountId>), ContractError> {
        stream_outcome(
            self.task(task_id),
            self.streams.contains_key(task_id),
            drips,
            contributor,
            task_id,
        )
    }

    /// Whether `call` is free of the overflows on which the contract panics:
    /// a locked balance beyond `i128`, a vote count beyond `u32`.
    pub open spec fn admissible(self, call: Call) -> bool {
        match call {
            Call::LockTokens { guardian, amount } => self.initialized() ==> lock_fits(
                self.locked_entry(guardian),
                amount,
            ),
            Call::Vote { guardian, task_id } => self.vote_reaches_count(guardian, task_id) ==> (
            self.task(task_id) matches Some(t) ==> t.votes < u32::MAX),
            _ => true,
        }
    }

    /// The ledger after `call`: the call's writes when it succeeds, the same
    /// ledger when it fails.
    pub open spec fn after(self, call: Call) -> LedgerView {
        match call {
            Call::Initialize { token, threshold } => match self.initialize_result() {
                Ok(_) => self.after_initialize(token, threshold),
                Err(_) => self,
            },
            Call::LockTokens { guardian, amount } => match self.lock_result(guardian, amount) {
                Ok(l) => self.apply_lock(guardian, l),
                Err(_) => self,
            },
            Call::ResignGuardian { guardian } => match self.resign_result(guardian) {
                Ok(rel) => self.apply_release(guardian, rel),
                Err(_) => self,
            },
            Call::UnlockTokens { guardian } => match self.unlock_result(guardian) {
                Ok(rel) => self.apply_release(guardian, rel),
                Err(_) => self,
            },
            Call::AddGuardian { admin, guardian } => self.with_guardian(guardian, true),
            Call::RegisterTask { admin, task_id } => match self.register_result(task_id) {
                Ok(t) => self.with_registered(t),
                Err(_) => self,
            },
            Call::Vote { guardian, task_id } => match self.vote_result(guardian, task_id) {
                Ok(v) => self.apply_vote(task_id, guardian, v),
                Err(_) => self,
            },
            Call::StartRewardStream { admin, drips, contributor, task_id } => match self.stream_result(
                drips,
                contributor,
                task_id,
            ) {
                Ok((_, stream)) => self.with_stream(stream),
                Err(_) => self,
            },
        }
    }

    /// The tokens that `call` moves into the contract's custody: a lock's
    /// deposit, minus a release's refund.
    pub open spec fn net_deposit(self, call: Call) -> int {
        match call {
            Call::LockTokens { guardian, amount } => match self.lock_result(guardian, amount) {
                Ok(l) => l.deposit as int,
                Err(_) => 0,
            },
            Call::ResignGuardian { guardian } => match self.resign_result(guardian) {
                Ok(rel) => -amount_or_zero(rel.refund),
                Err(_) => 0,
            },
            Call::UnlockTokens { guardian } => match self.unlock_result(guardian) {
                Ok(rel) => -amount_or_zero(rel.refund),
                Err(_) => 0,
            },
            _ => 0,
        }
    }
}

/// Every admissible call keeps the ledger well formed.
pub proof fn lemma_after_keeps_wf(s: LedgerView, call: Call)
    requires
        s.wf(),
        s.admissible(call),
    ensures
        s.after(call).wf(),
{
    match call {
        Call::RegisterTask { admin, task_id } => {
            if s.register_result(task_id) is Ok {
                let s1 = s.after(call);
                assert(s1.tasks.dom() =~= s1.voters.dom());
            }
        },
        Call::Vote { guardian, task_id } => {
            if s.vote_result(guardian, task_id) is Ok {
                let s1 = s.after(call);
                assert forall|id: u64| #[trigger] s1.tasks.contains_key(id) implies {
                    &&& s1.tasks[id].id == id
                    &&& s1.tasks[id].votes == s1.voters[id].len()
                    &&& s1.tasks[id].is_done == (s1.tasks[id].votes >= VOTE_THRESHOLD)
                    &&& s1.voters[id].no_duplicates()
                } by {
                    if id == task_id {
                        assert(s.tasks.contains_key(id));
                    }
                }
                assert(s1.tasks.dom() =~= s1.voters.dom());
            }
        },
        _ => {},
    }
}

/// The storage behind the contract.
struct Ledger {
    token: Option<AccountId>,
    lock_threshold: Option<i128>,
    guardians: HashMap<AccountId, bool>,
    locked: HashMap<AccountId, i128>,
    tasks: HashMap<u64, Task>,
    voters: HashMap<u64, Vec<AccountId>>,
    streams: HashMap<u64, RewardStream<AccountId>>,
}

impl View for Ledger {
    type V = LedgerView;

    closed spec fn view(&self) -> LedgerView {
        LedgerView {
            token: self.token,
            threshold: self.lock_threshold,
            guardians: self.guardians@,
            locked: self.locked@,
            tasks: self.tasks@,
            voters: self.voters@.map_values(|v: Vec<AccountId>| v@),
            streams: self.streams@,
        }
    }
}

/// Whether `accounts` holds `account`.
fn holds_account(accounts: &Vec<AccountId>, account: AccountId) -> (b: bool)
    ensures
        b == accounts@.contains(account),
{
    let mut i: usize = 0;
    while i < accounts.len()
        invariant
            i <= accounts.len(),
            forall|j: int| 0 <= j < i ==> accounts@[j] != account,
        decreases accounts.len() - i,
    {
        if accounts[i] == account {
            return true;
        }
        i = i + 1;
    }
    false
}

impl Ledger {
    fn new() -> (l: Ledger)
        ensures
            l@ == LedgerView::empty(),
            l@.wf(),
    {
        let l = Ledger {
            token: None,
            lock_threshold: None,
            guardians: HashMap::new(),
            locked: HashMap::new(),
            tasks: HashMap::new(),
            voters: HashMap::new(),
            streams: HashMap::new(),
        };
        assert(l@.voters =~= Map::empty());
        l
    }

    fn guardian_entry(&self, account: AccountId) -> (r: Option<bool>)
        ensures
            r == self@.guardian_entry(account),
    {
        match self.guardians.get(&account) {
            Some(flag) => Some(*flag),
            None => None,
        }
    }

    fn locked_entry(&self, account: AccountId) -> (r: Option<i128>)
        ensures
            r == self@.locked_entry(account),
    {
        match self.locked.get(&account) {
            Some(amount) => Some(*amount),
            None => None,
        }
    }

    fn has_voted(&self, task_id: u64, account: AccountId) -> (b: bool)
        ensures
            b == self@.has_voted(task_id, account),
    {
        match self.voters.get(&task_id) {
            Some(accounts) => holds_account(accounts, account),
            None => false,
        }
    }

    fn task_entry(&self, task_id: u64) -> (r: Option<Task>)
        ensures
            r == self@.task(task_id),
    {
        match self.tasks.get(&task_id) {
            Some(t) => Some(*t),
            None => None,
        }
    }

    fn stream_entry(&self, task_id: u64) -> (r: Option<RewardStream<AccountId>>)
        ensures
            r == self@.stream(task_id),
    {
        match self.streams.get(&task_id) {
            Some(s) => Some(*s),
            None => None,
        }
    }

    fn initialize(&mut self, token: AccountId, threshold: i128) -> (r: Result<(), ContractError>)
        requires
            old(self)@.wf(),
        ensures
            final(self)@.wf(),
            r == old(self)@.initialize_result(),
            final(self)@ == old(self)@.after(Call::Initialize { token, threshold }),
    {
        let outcome = initialize_step(self.token.is_some());
        if outcome.is_ok() {
            self.token = Some(token);
            self.lock_threshold = Some(threshold);
        }
        outcome
    }

    fn lock_tokens(&mut self, guardian: AccountId, amount: i128) -> (r: Result<
        Deposit,
        ContractError,
    >)
        requires
            old(self)@.wf(),
            old(self)@.admissible(Call::LockTokens { guardian, amount }),
        ensures
            final(self)@.wf(),
            r == (match old(self)@.lock_result(guardian, amount) {
                Ok(l) => Ok(Deposit { from: guardian, amount: l.deposit }),
                Err(e) => Err(e),
            }),
            final(self)@ == old(self)@.after(Call::LockTokens { guardian, amount }),
    {
        proof {
            lemma_after_keeps_wf(self@, Call::LockTokens { guardian, amount });
        }
        match lock_step(self.token.is_some(), self.locked_entry(guardian), amount) {
            Err(e) => Err(e),
            Ok(l) => {
                self.locked.insert(guardian, l.locked);
                Ok(Deposit { from: guardian, amount: l.deposit })
            },
        }
    }

    /// Applies the writes of a release for `account` and gives its refund.
    fn apply_release(&mut self, account: AccountId, rel: Release) -> (r: Option<Refund>)
        ensures
            r == refund_to(account, rel.refund),
            final(self)@ == old(self)@.apply_release(account, rel),
    {
        match rel.guardian_flag {
            Some(flag) => {
                self.guardians.insert(account, flag);
            },
            None => {},
        }
        match rel.locked {
            Some(amount) => {
                self.locked.insert(account, amount);
            },
            None => {},
        }
        match rel.refund {
            Some(amount) => Some(Refund { to: account, amount }),
            None => None,
        }
    }

    fn resign_guardian(&mut self, guardian: AccountId) -> (r: Result<
        Option<Refund>,
        ContractError,
    >)
        requires
            old(self)@.wf(),
        ensures
            final(self)@.wf(),
            r == (match old(self)@.resign_result(guardian) {
                Ok(rel) => Ok(refund_to(guardian, rel.refund)),
                Err(e) => Err(e),
            }),
            final(self)@ == old(self)@.after(Call::ResignGuardian { guardian }),
    {
        proof {
            lemma_after_keeps_wf(self@, Call::ResignGuardian { guardian });
        }
        let is_guardian = stored_flag(self.guardian_entry(guardian));
        match resign_step(self.token.is_some(), is_guardian, self.locked_entry(guardian)) {
            Err(e) => Err(e),
            Ok(rel) => Ok(self.apply_release(guardian, rel)),
        }
    }

    fn unlock_tokens(&mut self, guardian: AccountId) -> (r: Result<
        Option<Refund>,
        ContractError,
    >)
        requires
            old(self)@.wf(),
        ensures
            final(self)@.wf(),
            r == (match old(self)@.unlock_result(guardian) {
                Ok(rel) => Ok(refund_to(guardian, rel.refund)),
                Err(e) => Err(e),
            }),
            final(self)@ == old(self)@.after(Call::UnlockTokens { guardian }),
    {
        proof {
            lemma_after_keeps_wf(self@, Call::UnlockTokens { guardian });
        }
        let is_guardian = stored_flag(self.guardian_entry(guardian));
        match unlock_step(self.token.is_some(), is_guardian, self.locked_entry(guardian)) {
            Err(e) => Err(e),
            Ok(rel) => Ok(self.apply_release(guardian, rel)),
        }
    }

    fn add_guardian(&mut self, admin: AccountId, guardian: AccountId)
        requires
            old(self)@.wf(),
        ensures
            final(self)@.wf(),
            final(self)@ == old(self)@.after(Call::AddGuardian { admin, guardian }),
    {
        self.guardians.insert(guardian, enroll_step());
    }

    fn register_task(&mut self, admin: AccountId, task_id: u64) -> (r: Result<(), ContractError>)
        requires
            old(self)@.wf(),
        ensures
            final(self)@.wf(),
            r == without_value(old(self)@.register_result(task_id)),
            final(self)@ == old(self)@.after(Call::RegisterTask { admin, task_id }),
    {
        proof {
            lemma_after_keeps_wf(self@, Call::RegisterTask { admin, task_id });
        }
        let existing = self.tasks.contains_key(&task_id);
        match register_step(existing, task_id) {
            Err(e) => Err(e),
            Ok(t) => {
                let ghost before = self@;
                self.tasks.insert(task_id, t);
                self.voters.insert(task_id, Vec::new());
                proof {
                    assert(self@.voters =~= before.voters.insert(task_id, Seq::empty()));
                }
                Ok(())
            },
        }
    }

    fn vote(&mut self, guardian: AccountId, task_id: u64) -> (r: Result<(), ContractError>)
        requires
            old(self)@.wf(),
            old(self)@.admissible(Call::Vote { guardian, task_id }),
        ensures
            final(self)@.wf(),
            r == without_value(old(self)@.vote_result(guardian, task_id)),
            final(self)@ == old(self)@.after(Call::Vote { guardian, task_id }),
    {
        proof {
            lemma_after_keeps_wf(self@, Call::Vote { guardian, task_id });
        }
        let is_guardian = stored_flag(self.guardian_entry(guardian));
        let already_voted = self.has_voted(task_id, guardian);
        let outcome = vote_step(
            is_guardian,
            self.token.is_some(),
            self.lock_threshold,
            self.locked_entry(guardian),
            already_voted,
            self.task_entry(task_id),
        );
        match outcome {
            Err(e) => Err(e),
            Ok(v) => {
                let ghost before = self@;
                self.tasks.insert(task_id, v.task);
                if v.mark_voted {
                    let mut accounts = match self.voters.remove(&task_id) {
                        Some(accounts) => accounts,
                        None => Vec::new(),
                    };
                    accounts.push(guardian);
                    self.voters.insert(task_id, accounts);
                    proof {
                        assert(self@.voters =~= before.voters.insert(
                            task_id,
                            before.voters[task_id].push(guardian),
                        ));
                    }
                }
                Ok(())
            },
        }
    }

    fn start_reward_stream(
        &mut self,
        admin: AccountId,
        drips: AccountId,
        contributor: AccountId,
        task_id: u64,
    ) -> (r: (Result<DripsRequest<AccountId>, ContractError>, RewardStreamEvent<AccountId>))
        requires
            old(self)@.wf(),
        ensures
            final(self)@.wf(),
            r.0 == (match old(self)@.stream_result(drips, contributor, task_id) {
                Ok((request, _)) => Ok(request),
                Err(e) => Err(e),
            }),
            r.1 == (if r.0 is Ok {
                RewardStreamEvent::Started { task_id, contributor }
            } else {
                RewardStreamEvent::Failed { task_id, contributor }
            }),
            final(self)@ == old(self)@.after(
                Call::StartRewardStream { admin, drips, contributor, task_id },
            ),
    {
        proof {
            lemma_after_keeps_wf(
                self@,
                Call::StartRewardStream { admin, drips, contributor, task_id },
            );
        }
        let exists = self.streams.contains_key(&task_id);
        match stream_step(self.task_entry(task_id), exists, drips, contributor, task_id) {
            Err(e) => (Err(e), stream_event(task_id, contributor, false)),
            Ok((request, stream)) => {
                self.streams.insert(task_id, stream);
                (Ok(request), stream_event(task_id, contributor, true))
            },
        }
    }
}

/// The guardian-voting contract with its ledger, which is always well formed.
pub struct VeroContract {
    ledger: Ledger,
}

impl View for VeroContract {
    type V = LedgerView;

    closed spec fn view(&self) -> LedgerView {
        self.ledger@
    }
}

impl VeroContract {
    #[verifier::type_invariant]
    spec fn ledger_well_formed(self) -> bool {
        self.ledger@.wf()
    }

    /// Takes the ledger out (leaving an empty one behind) to work on it.
    fn take_ledger(&mut self) -> (l: Ledger)
        ensures
            l@ == old(self)@,
            l@.wf(),
    {
        proof {
            use_type_invariant(&*self);
        }
        let mut l = Ledger::new();
        std::mem::swap(&mut l, &mut self.ledger);
        l
    }

    /// A freshly deployed contract with empty storage.
    pub fn new() -> (c: VeroContract)
        ensures
            c@ == LedgerView::empty(),
            c@.wf(),
    {
        VeroContract { ledger: Ledger::new() }
    }

    /// Sets the token that guardians lock and the locked balance a guardian
    /// must exceed to vote; refused once a token is set.
    pub fn initialize(&mut self, token: AccountId, threshold: i128) -> (r: Result<(), ContractError>)
        ensures
            final(self)@.wf(),
            r == old(self)@.initialize_result(),
            final(self)@ == old(self)@.after(Call::Initialize { token, threshold }),
    {
        let mut l = self.take_ledger();
        let r = l.initialize(token, threshold);
        self.ledger = l;
        r
    }

    /// Locks `amount` tokens of `guardian` in the contract: the guardian's
    /// tokens go into the contract's custody (the returned deposit) and its
    /// locked balance grows by `amount`.
    pub fn lock_tokens(&mut self, guardian: AccountId, amount: i128) -> (r: Result<
        Deposit,
        ContractError,
    >)
        requires
            old(self)@.admissible(Call::LockTokens { guardian, amount }),
        ensures
            final(self)@.wf(),
            r == (match old(self)@.lock_result(guardian, amount) {
                Ok(l) => Ok(Deposit { from: guardian, amount: l.deposit }),
                Err(e) => Err(e),
            }),
            final(self)@ == old(self)@.after(Call::LockTokens { guardian, amount }),
    {
        let mut l = self.take_ledger();
        let r = l.lock_tokens(guardian, amount);
        self.ledger = l;
        r
    }

    /// `guardian` stops being a guardian and gets back all of its positive
    /// locked balance, which drops to zero.
    pub fn resign_guardian(&mut self, guardian: AccountId) -> (r: Result<
        Option<Refund>,
        ContractError,
    >)
        ensures
            final(self)@.wf(),
            r == (match old(self)@.resign_result(guardian) {
                Ok(rel) => Ok(refund_to(guardian, rel.refund)),
                Err(e) => Err(e),
            }),
            final(self)@ == old(self)@.after(Call::ResignGuardian { guardian }),
    {
        let mut l = self.take_ledger();
        let r = l.resign_guardian(guardian);
        self.ledger = l;
        r
    }

    /// A non-guardian gets back all of its positive locked balance, which
    /// drops to zero.
    pub fn unlock_tokens(&mut self, guardian: AccountId) -> (r: Result<
        Option<Refund>,
        ContractError,
    >)
        ensures
            final(self)@.wf(),
            r == (match old(self)@.unlock_result(guardian) {
                Ok(rel) => Ok(refund_to(guardian, rel.refund)),
                Err(e) => Err(e),
            }),
            final(self)@ == old(self)@.after(Call::UnlockTokens { guardian }),
    {
        let mut l = self.take_ledger();
        let r = l.unlock_tokens(guardian);
        self.ledger = l;
        r
    }

    /// Makes `guardian` a guardian (on `admin`'s authority).
    pub fn add_guardian(&mut self, admin: AccountId, guardian: AccountId)
        ensures
            final(self)@.wf(),
            final(self)@ == old(self)@.after(Call::AddGuardian { admin, guardian }),
    {
        let mut l = self.take_ledger();
        l.add_guardian(admin, guardian);
        self.ledger = l;
    }

    /// Whether `guardian` is currently a guardian.
    pub fn is_guardian(&self, guardian: AccountId) -> (b: bool)
        ensures
            b == self@.is_guardian(guardian),
            b == (self@.guardians.contains_key(guardian) && self@.guardians[guardian]),
    {
        stored_flag(self.ledger.guardian_entry(guardian))
    }

    /// Registers task `task_id` with no votes (on `admin`'s authority);
    /// refused for an id already registered.
    pub fn register_task(&mut self, admin: AccountId, task_id: u64) -> (r: Result<
        (),
        ContractError,
    >)
        ensures
            final(self)@.wf(),
            r == without_value(old(self)@.register_result(task_id)),
            final(self)@ == old(self)@.after(Call::RegisterTask { admin, task_id }),
    {
        let mut l = self.take_ledger();
        let r = l.register_task(admin, task_id);
        self.ledger = l;
        r
    }

    /// Casts `guardian`'s vote on task `task_id`. The guardian must be one,
    /// the contract initialized, the guardian's locked balance above the
    /// threshold, the vote its first on the task, and the task registered;
    /// the task then counts one more vote and is done from `VOTE_THRESHOLD`
    /// votes on.
    pub fn vote(&mut self, guardian: AccountId, task_id: u64) -> (r: Result<(), ContractError>)
        requires
            old(self)@.admissible(Call::Vote { guardian, task_id }),
        ensures
            final(self)@.wf(),
            r == without_value(old(self)@.vote_result(guardian, task_id)),
            final(self)@ == old(self)@.after(Call::Vote { guardian, task_id }),
    {
        let mut l = self.take_ledger();
        let r = l.vote(guardian, task_id);
        self.ledger = l;
        r
    }

    /// The task registered under `task_id`, if any.
    pub fn get_task(&self, task_id: u64) -> (r: Option<Task>)
        ensures
            r == self@.task(task_id),
            r is Some <==> self@.tasks.contains_key(task_id),
            r is Some ==> r->0 == self@.tasks[task_id],
    {
        self.ledger.task_entry(task_id)
    }

    /// Starts a reward stream for `contributor` on the verified task
    /// `task_id` (on `admin`'s authority): returns the request to send to
    /// the streaming protocol's contract `drips`, records the stream, and
    /// gives the event to publish (`Failed` when refused).
    pub fn start_reward_stream(
        &mut self,
        admin: AccountId,
        drips: AccountId,
        contributor: AccountId,
        task_id: u64,
    ) -> (r: (Result<DripsRequest<AccountId>, ContractError>, RewardStreamEvent<AccountId>))
        ensures
            final(self)@.wf(),
            r.0 == (match old(self)@.stream_result(drips, contributor, task_id) {
                Ok((request, _)) => Ok(request),
                Err(e) => Err(e),
            }),
            r.1 == (if r.0 is Ok {
                RewardStreamEvent::Started { task_id, contributor }
            } else {
                RewardStreamEvent::Failed { task_id, contributor }
            }),
            final(self)@ == old(self)@.after(
                Call::StartRewardStream { admin, drips, contributor, task_id },
            ),
    {
        let mut l = self.take_ledger();
        let r = l.start_reward_stream(admin, drips, contributor, task_id);
        self.ledger = l;
        r
    }

    /// The reward stream recorded for `task_id`, if any.
    pub fn get_reward_stream(&self, task_id: u64) -> (r: Option<RewardStream<AccountId>>)
        ensures
            r == self@.stream(task_id),
            r is Some <==> self@.streams.contains_key(task_id),
            r is Some ==> r->0 == self@.streams[task_id],
    {
        self.ledger.stream_entry(task_id)
    }
}

} // verus!
