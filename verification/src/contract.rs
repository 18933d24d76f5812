//! The authority vocabulary, the lifecycle transition table and the
//! caller-owned failure budget of the control plane.
//!
//! Capability sets form a powerset lattice: no capability implies another.
use crate::canon::{json_text, push_text};
use vstd::prelude::*;

verus! {

pub const STATE_SLICE: &'static str = "security-alignment-os-foundation-v1";

/// The authority atoms. None implies another: `Secrets` does not imply
/// `Read`, `Execute` does not imply `Write`, `SelfModify` implies nothing.
#[derive(Clone, Copy, Debug, PartialEq, Eq, Structural, Hash, PartialOrd, Ord)]
pub enum Authority {
    Read,
    Write,
    Network,
    Secrets,
    Spend,
    Replicate,
    Execute,
    SelfModify,
}

/// Position of an atom in the fixed lattice order.
pub open spec fn rank(a: Authority) -> nat {
    match a {
        Authority::Read => 0,
        Authority::Write => 1,
        Authority::Network => 2,
        Authority::Secrets => 3,
        Authority::Spend => 4,
        Authority::Replicate => 5,
        Authority::Execute => 6,
        Authority::SelfModify => 7,
    }
}

pub open spec fn all_authorities() -> Seq<Authority> {
    seq![
        Authority::Read,
        Authority::Write,
        Authority::Network,
        Authority::Secrets,
        Authority::Spend,
        Authority::Replicate,
        Authority::Execute,
        Authority::SelfModify,
    ]
}

pub proof fn lemma_all_authorities(a: Authority)
    ensures
        all_authorities()[rank(a) as int] == a,
        all_authorities().contains(a),
        all_authorities().len() == 8,
{
    assert(all_authorities()[rank(a) as int] == a);
}

/// The authority's lowercase name, as its `Display` form writes it.
pub open spec fn authority_name(a: Authority) -> Seq<char> {
    match a {
        Authority::Read => "read"@,
        Authority::Write => "write"@,
        Authority::Network => "network"@,
        Authority::Secrets => "secrets"@,
        Authority::Spend => "spend"@,
        Authority::Replicate => "replicate"@,
        Authority::Execute => "execute"@,
        Authority::SelfModify => "self_modify"@,
    }
}

impl Authority {
    /// Every atom in the fixed lattice order.
    pub fn all() -> (r: [Authority; 8])
        ensures
            r@ == all_authorities(),
    {
        let r = [
            Authority::Read,
            Authority::Write,
            Authority::Network,
            Authority::Secrets,
            Authority::Spend,
            Authority::Replicate,
            Authority::Execute,
            Authority::SelfModify,
        ];
        assert(r@ =~= all_authorities());
        r
    }

    /// The lowercase name of the atom.
    pub fn name(&self) -> (r: &'static str)
        ensures
            r@ == authority_name(*self),
    {
        match self {
            Authority::Read => "read",
            Authority::Write => "write",
            Authority::Network => "network",
            Authority::Secrets => "secrets",
            Authority::Spend => "spend",
            Authority::Replicate => "replicate",
            Authority::Execute => "execute",
            Authority::SelfModify => "self_modify",
        }
    }

    pub fn rank(&self) -> (r: u8)
        ensures
            r as nat == rank(*self),
    {
        match self {
            Authority::Read => 0,
            Authority::Write => 1,
            Authority::Network => 2,
            Authority::Secrets => 3,
            Authority::Spend => 4,
            Authority::Replicate => 5,
            Authority::Execute => 6,
            Authority::SelfModify => 7,
        }
    }
}

/// Strictly increasing in lattice order.
pub open spec fn ranked(s: Seq<Authority>) -> bool {
    forall|i: int, j: int| 0 <= i < j < s.len() ==> rank(#[trigger] s[i]) < rank(#[trigger] s[j])
}

/// A set of authorities: bottom is the empty set, top is every atom, `join`
/// is union, `meet` is intersection and `leq` is inclusion.
pub struct CapabilitySet {
    authorities: Vec<Authority>,
}

impl View for CapabilitySet {
    type V = Set<Authority>;

    closed spec fn view(&self) -> Set<Authority> {
        self.authorities@.to_set()
    }
}

impl CapabilitySet {
    #[verifier::type_invariant]
    spec fn wf(self) -> bool {
        ranked(self.authorities@)
    }

    /// The members in lattice order.
    pub closed spec fn members(&self) -> Seq<Authority> {
        self.authorities@
    }

    /// Builds the set of the atoms that `keep` selects by rank.
    fn collect(keep: &[bool; 8]) -> (r: Self)
        ensures
            r@ == Set::new(|a: Authority| keep@[rank(a) as int]),
    {
        let atoms = Authority::all();
        let mut out: Vec<Authority> = Vec::new();
        for i in 0..8usize
            invariant
                atoms@ == all_authorities(),
                forall|k: int| 0 <= k < out@.len() ==> rank(#[trigger] out@[k]) < i,
                ranked(out@),
                forall|a: Authority|
                    #[trigger] out@.contains(a) <==> (rank(a) < i && keep@[rank(a) as int]),
        {
            proof {
                assert(rank(atoms@[i as int]) == i);
            }
            if keep[i] {
                let ghost before = out@;
                out.push(atoms[i]);
                proof {
                    assert forall|a: Authority|
                        #[trigger] out@.contains(a) <==> (rank(a) < i + 1 && keep@[rank(a) as int]) by {
                        if rank(a) == i {
                            lemma_all_authorities(a);
                            assert(out@[before.len() as int] == a);
                        }
                        if out@.contains(a) {
                            let k = choose|k: int| 0 <= k < out@.len() && out@[k] == a;
                            if k < before.len() {
                                assert(before.contains(a));
                            }
                        }
                        if before.contains(a) {
                            let k = choose|k: int| 0 <= k < before.len() && before[k] == a;
                            assert(out@[k] == a);
                        }
                    }
                }
            } else {
                proof {
                    assert forall|a: Authority|
                        #[trigger] out@.contains(a) <==> (rank(a) < i + 1 && keep@[rank(a) as int]) by {
                        if rank(a) == i && out@.contains(a) {
                            let k = choose|k: int| 0 <= k < out@.len() && out@[k] == a;
                        }
                    }
                }
            }
        }
        let r = CapabilitySet { authorities: out };
        proof {
            assert(r@ =~= Set::new(|a: Authority| keep@[rank(a) as int]));
        }
        r
    }

    pub fn empty() -> (r: Self)
        ensures
            r@ == Set::<Authority>::empty(),
    {
        let r = CapabilitySet { authorities: Vec::new() };
        assert(r@ =~= Set::<Authority>::empty());
        r
    }

    /// The top element: every atom.
    pub fn all() -> (r: Self)
        ensures
            r@ == Set::<Authority>::full(),
    {
        let keep = [true, true, true, true, true, true, true, true];
        let r = Self::collect(&keep);
        assert(r@ =~= Set::<Authority>::full());
        r
    }

    pub fn from_slice(authorities: &[Authority]) -> (r: Self)
        ensures
            r@ == authorities@.to_set(),
    {
        let mut keep = [false, false, false, false, false, false, false, false];
        let n = authorities.len();
        for i in 0..n
            invariant
                n == authorities@.len(),
                forall|a: Authority| #[trigger] keep@[rank(a) as int] <==> authorities@.subrange(0, i as int).contains(a),
        {
            let a = authorities[i];
            let k = a.rank() as usize;
            keep[k] = true;
            proof {
                assert forall|b: Authority| #[trigger] keep@[rank(b) as int] <==> authorities@.subrange(0, i + 1).contains(b) by {
                    if authorities@.subrange(0, i + 1).contains(b) {
                        let j = choose|j: int| 0 <= j < i + 1 && #[trigger] authorities@.subrange(0, i + 1)[j] == b;
                        if j < i {
                            assert(authorities@.subrange(0, i as int)[j] == b);
                        }
                    }
                    if authorities@.subrange(0, i as int).contains(b) {
                        let j = choose|j: int| 0 <= j < i && #[trigger] authorities@.subrange(0, i as int)[j] == b;
                        assert(authorities@.subrange(0, i + 1)[j] == b);
                    }
                    if rank(b) == rank(a) {
                        assert(b == a);
                        assert(authorities@.subrange(0, i + 1)[i as int] == b);
                    }
                }
            }
        }
        let r = Self::collect(&keep);
        proof {
            assert(authorities@.subrange(0, n as int) =~= authorities@);
            assert(r@ =~= authorities@.to_set());
        }
        r
    }

    pub fn contains(&self, authority: Authority) -> (r: bool)
        ensures
            r == self@.contains(authority),
    {
        let n = self.authorities.len();
        for i in 0..n
            invariant
                n == self.authorities@.len(),
                forall|k: int| 0 <= k < i ==> self.authorities@[k] != authority,
        {
            if self.authorities[i] == authority {
                proof {
                    assert(self.authorities@.contains(authority));
                }
                return true;
            }
        }
        false
    }

    pub fn is_empty(&self) -> (r: bool)
        ensures
            r == (self@ == Set::<Authority>::empty()),
    {
        if self.authorities.len() == 0 {
            assert(self@ =~= Set::<Authority>::empty());
            true
        } else {
            assert(self@.contains(self.authorities@[0]));
            false
        }
    }

    pub fn len(&self) -> (r: usize)
        ensures
            r == self@.len(),
    {
        proof {
            use_type_invariant(self);
            assert(self.authorities@.no_duplicates());
            self.authorities@.unique_seq_to_set();
        }
        self.authorities.len()
    }

    /// The members in lattice order.
    pub fn iter(&self) -> (r: Vec<Authority>)
        ensures
            r@.to_set() == self@,
            r@ == self.members(),
            ranked(r@),
    {
        proof {
            use_type_invariant(self);
        }
        let r = self.authorities.clone();
        proof {
            assert(r@ =~= self.authorities@);
        }
        r
    }

    /// Whether this set is below or equal to `other` in the lattice.
    pub fn leq(&self, other: &Self) -> (r: bool)
        ensures
            r == self@.subset_of(other@),
    {
        let n = self.authorities.len();
        for i in 0..n
            invariant
                n == self.authorities@.len(),
                forall|k: int| 0 <= k < i ==> other@.contains(#[trigger] self.authorities@[k]),
        {
            if !other.contains(self.authorities[i]) {
                proof {
                    assert(self@.contains(self.authorities@[i as int]));
                }
                return false;
            }
        }
        true
    }

    /// Whether `self` holds every authority in `requested`.
    pub fn covers(&self, requested: &Self) -> (r: bool)
        ensures
            r == requested@.subset_of(self@),
    {
        requested.leq(self)
    }

    fn membership(&self) -> (r: [bool; 8])
        ensures
            forall|a: Authority| #[trigger] r@[rank(a) as int] == self@.contains(a),
    {
        let atoms = Authority::all();
        let mut r = [false, false, false, false, false, false, false, false];
        for i in 0..8usize
            invariant
                atoms@ == all_authorities(),
                forall|a: Authority|
                    rank(a) < i ==> #[trigger] r@[rank(a) as int] == self@.contains(a),
        {
            let present = self.contains(atoms[i]);
            r[i] = present;
            proof {
                assert forall|a: Authority| rank(a) < i + 1 implies #[trigger] r@[rank(a) as int] == self@.contains(a) by {
                    if rank(a) == i {
                        lemma_all_authorities(a);
                    }
                }
            }
        }
        r
    }

    /// The least upper bound: set union.
    pub fn join(&self, other: &Self) -> (r: Self)
        ensures
            r@ == self@.union(other@),
    {
        let left = self.membership();
        let right = other.membership();
        let mut keep = [false, false, false, false, false, false, false, false];
        for i in 0..8usize
            invariant
                forall|a: Authority| rank(a) < i ==> #[trigger] keep@[rank(a) as int] == (left@[rank(a) as int] || right@[rank(a) as int]),
        {
            keep[i] = left[i] || right[i];
        }
        let r = Self::collect(&keep);
        assert(r@ =~= self@.union(other@));
        r
    }

    /// The greatest lower bound: set intersection.
    pub fn meet(&self, other: &Self) -> (r: Self)
        ensures
            r@ == self@.intersect(other@),
    {
        let left = self.membership();
        let right = other.membership();
        let mut keep = [false, false, false, false, false, false, false, false];
        for i in 0..8usize
            invariant
                forall|a: Authority| rank(a) < i ==> #[trigger] keep@[rank(a) as int] == (left@[rank(a) as int] && right@[rank(a) as int]),
        {
            keep[i] = left[i] && right[i];
        }
        let r = Self::collect(&keep);
        assert(r@ =~= self@.intersect(other@));
        r
    }
}

/// Lifecycle states of one proposal/capability execution record.
#[derive(Clone, Copy, Debug, PartialEq, Eq, Structural)]
pub enum LifecycleState {
    Proposal,
    Quarantined,
    Rejected,
    Admitted,
    Executing,
    Completed,
    RolledBack,
    Frozen,
    Killed,
}

impl LifecycleState {
    pub open spec fn spec_is_terminal(self) -> bool {
        self == LifecycleState::Rejected || self == LifecycleState::Frozen || self
            == LifecycleState::Killed
    }

    pub open spec fn spec_is_shutdown(self) -> bool {
        self == LifecycleState::Frozen || self == LifecycleState::Killed
    }

    pub fn is_terminal(self) -> (r: bool)
        ensures
            r == self.spec_is_terminal(),
    {
        matches!(self, LifecycleState::Rejected | LifecycleState::Frozen | LifecycleState::Killed)
    }

    pub fn is_shutdown(self) -> (r: bool)
        ensures
            r == self.spec_is_shutdown(),
    {
        matches!(self, LifecycleState::Frozen | LifecycleState::Killed)
    }
}

/// Events accepted by the lifecycle transition function.
#[derive(Clone, Copy, Debug, PartialEq, Eq, Structural)]
pub enum LifecycleEvent {
    Quarantine,
    Reject,
    Admit,
    BeginExecution,
    Complete,
    Rollback,
    Freeze,
    Kill,
}

/// The frozen transition table; `None` where the event is not accepted.
pub open spec fn next_state(state: LifecycleState, event: LifecycleEvent) -> Option<
    LifecycleState,
> {
    match (state, event) {
        (LifecycleState::Proposal, LifecycleEvent::Quarantine) => Some(LifecycleState::Quarantined),
        (LifecycleState::Proposal, LifecycleEvent::Reject) => Some(LifecycleState::Rejected),
        (LifecycleState::Proposal, LifecycleEvent::Admit) => Some(LifecycleState::Admitted),
        (LifecycleState::Quarantined, LifecycleEvent::Reject) => Some(LifecycleState::Rejected),
        (LifecycleState::Quarantined, LifecycleEvent::Admit) => Some(LifecycleState::Admitted),
        (LifecycleState::Admitted, LifecycleEvent::Quarantine) => Some(LifecycleState::Quarantined),
        (LifecycleState::Admitted, LifecycleEvent::BeginExecution) => Some(LifecycleState::Executing),
        (LifecycleState::Executing, LifecycleEvent::Complete) => Some(LifecycleState::Completed),
        (LifecycleState::Executing, LifecycleEvent::Rollback) => Some(LifecycleState::RolledBack),
        (LifecycleState::Completed, LifecycleEvent::Rollback) => Some(LifecycleState::RolledBack),
        (LifecycleState::RolledBack, LifecycleEvent::Admit) => Some(LifecycleState::Admitted),
        (LifecycleState::Frozen, LifecycleEvent::Kill) => Some(LifecycleState::Killed),
        (LifecycleState::Frozen, _) => None,
        (LifecycleState::Killed, _) => None,
        (_, LifecycleEvent::Freeze) => Some(LifecycleState::Frozen),
        (_, LifecycleEvent::Kill) => Some(LifecycleState::Killed),
        _ => None,
    }
}

/// A record can be admitted from a fresh proposal, from quarantine and after
/// a rollback, and from no other state; admission always leads to
/// `Admitted`.
pub proof fn lemma_admission_sources(s: LifecycleState)
    ensures
        next_state(s, LifecycleEvent::Admit) is Some <==> (s == LifecycleState::Proposal || s
            == LifecycleState::Quarantined || s == LifecycleState::RolledBack),
        next_state(s, LifecycleEvent::Admit) is Some ==> next_state(s, LifecycleEvent::Admit)
            == Some(LifecycleState::Admitted),
{
}

/// A record is quarantined only while it is a fresh proposal or admitted,
/// and a quarantined record can only be admitted, rejected or shut down.
pub proof fn lemma_quarantine_moves(s: LifecycleState, e: LifecycleEvent)
    ensures
        next_state(s, e) == Some(LifecycleState::Quarantined) <==> ((s == LifecycleState::Proposal
            || s == LifecycleState::Admitted) && e == LifecycleEvent::Quarantine),
        s == LifecycleState::Quarantined && next_state(s, e) is Some ==> (next_state(s, e)
            == Some(LifecycleState::Admitted) || next_state(s, e) == Some(LifecycleState::Rejected)
            || next_state(s, e)->0.spec_is_shutdown()),
{
}

/// Execution follows admission: a record enters `Executing` only from
/// `Admitted` by `BeginExecution`, `Completed` only from `Executing` by
/// `Complete`, and `RolledBack` only from `Executing` or `Completed` by
/// `Rollback`.
pub proof fn lemma_execution_order(s: LifecycleState, e: LifecycleEvent)
    ensures
        next_state(s, e) == Some(LifecycleState::Executing) <==> (s == LifecycleState::Admitted && e
            == LifecycleEvent::BeginExecution),
        next_state(s, e) == Some(LifecycleState::Completed) <==> (s == LifecycleState::Executing && e
            == LifecycleEvent::Complete),
        next_state(s, e) == Some(LifecycleState::RolledBack) <==> ((s == LifecycleState::Executing
            || s == LifecycleState::Completed) && e == LifecycleEvent::Rollback),
{
}

/// Why a lifecycle or budget operation was refused.
#[derive(Debug, PartialEq, Eq)]
pub enum ContractError {
    InvalidTransition { state: LifecycleState, event: LifecycleEvent },
    InvalidBudget(String),
    BudgetExhausted,
}

/// The error as text.
pub open spec fn contract_error_text(e: ContractError) -> Seq<char> {
    match e {
        ContractError::InvalidTransition { .. } => "invalid lifecycle transition"@,
        ContractError::InvalidBudget(m) => "failure budget is invalid: "@ + m@,
        ContractError::BudgetExhausted => "failure budget is already exhausted"@,
    }
}

impl ContractError {
    /// The error as text.
    pub fn message(&self) -> (r: String)
        ensures
            r@ == contract_error_text(*self),
    {
        match self {
            ContractError::InvalidTransition { .. } => "invalid lifecycle transition".to_owned(),
            ContractError::InvalidBudget(m) => {
                let mut r = "failure budget is invalid: ".to_owned();
                r.append(m.as_str());
                r
            },
            ContractError::BudgetExhausted => "failure budget is already exhausted".to_owned(),
        }
    }
}

/// Applies the transition table.
pub fn transition(state: LifecycleState, event: LifecycleEvent) -> (r: Result<
    LifecycleState,
    ContractError,
>)
    ensures
        match next_state(state, event) {
            Some(next) => r == Ok::<LifecycleState, ContractError>(next),
            None => r == Err::<LifecycleState, ContractError>(
                ContractError::InvalidTransition { state, event },
            ),
        },
{
    let next = match (state, event) {
        (LifecycleState::Proposal, LifecycleEvent::Quarantine) => LifecycleState::Quarantined,
        (LifecycleState::Proposal, LifecycleEvent::Reject) => LifecycleState::Rejected,
        (LifecycleState::Proposal, LifecycleEvent::Admit) => LifecycleState::Admitted,
        (LifecycleState::Quarantined, LifecycleEvent::Reject) => LifecycleState::Rejected,
        (LifecycleState::Quarantined, LifecycleEvent::Admit) => LifecycleState::Admitted,
        (LifecycleState::Admitted, LifecycleEvent::Quarantine) => LifecycleState::Quarantined,
        (LifecycleState::Admitted, LifecycleEvent::BeginExecution) => LifecycleState::Executing,
        (LifecycleState::Executing, LifecycleEvent::Complete) => LifecycleState::Completed,
        (LifecycleState::Executing, LifecycleEvent::Rollback) => LifecycleState::RolledBack,
        (LifecycleState::Completed, LifecycleEvent::Rollback) => LifecycleState::RolledBack,
        (LifecycleState::RolledBack, LifecycleEvent::Admit) => LifecycleState::Admitted,
        (LifecycleState::Frozen, LifecycleEvent::Kill) => LifecycleState::Killed,
        (LifecycleState::Frozen, _) | (LifecycleState::Killed, _) => {
            return Err(ContractError::InvalidTransition { state, event });
        },
        (_, LifecycleEvent::Freeze) => LifecycleState::Frozen,
        (_, LifecycleEvent::Kill) => LifecycleState::Killed,
        _ => {
            return Err(ContractError::InvalidTransition { state, event });
        },
    };
    Ok(next)
}

/// Freeze and kill are one-way controls: a frozen record accepts only `Kill`,
/// a killed record accepts nothing, and every other state accepts both.
pub proof fn lemma_shutdown_is_one_way(state: LifecycleState, event: LifecycleEvent)
    ensures
        state == LifecycleState::Killed ==> next_state(state, event) is None,
        state == LifecycleState::Frozen ==> (next_state(state, event) is Some <==> event
            == LifecycleEvent::Kill),
        state.spec_is_shutdown() && next_state(state, event) is Some ==> next_state(
            state,
            event,
        )->0.spec_is_shutdown(),
        !state.spec_is_shutdown() ==> next_state(state, LifecycleEvent::Freeze) == Some(
            LifecycleState::Frozen,
        ) && next_state(state, LifecycleEvent::Kill) == Some(LifecycleState::Killed),
        state == LifecycleState::Frozen ==> next_state(state, LifecycleEvent::Kill) == Some(
            LifecycleState::Killed,
        ),
{
}

/// A rejected record can only be shut down: `Rejected` leads nowhere else.
pub proof fn lemma_rejection_is_final(event: LifecycleEvent)
    ensures
        next_state(LifecycleState::Rejected, event) is Some ==> next_state(
            LifecycleState::Rejected,
            event,
        )->0.spec_is_shutdown(),
{
}

/// Execution is reached only from an admitted record.
pub proof fn lemma_execution_requires_admission(state: LifecycleState, event: LifecycleEvent)
    ensures
        next_state(state, event) == Some(LifecycleState::Executing) ==> state
            == LifecycleState::Admitted && event == LifecycleEvent::BeginExecution,
{
}

/// A caller-owned state machine with a transition counter.
#[derive(Clone, Copy, Debug, PartialEq, Eq, Structural)]
pub struct Lifecycle {
    pub state: LifecycleState,
    pub revision: u64,
}

pub open spec fn bump(n: u64) -> u64 {
    if n == u64::MAX {
        n
    } else {
        (n + 1) as u64
    }
}

impl Default for Lifecycle {
    fn default() -> (r: Self)
        ensures
            r.state == LifecycleState::Proposal,
            r.revision == 0,
    {
        Lifecycle { state: LifecycleState::Proposal, revision: 0 }
    }
}

impl Lifecycle {
    pub fn new() -> (r: Self)
        ensures
            r.state == LifecycleState::Proposal,
            r.revision == 0,
    {
        Lifecycle { state: LifecycleState::Proposal, revision: 0 }
    }

    /// Applies `event`; a refused event leaves the record unchanged.
    pub fn apply(&mut self, event: LifecycleEvent) -> (r: Result<LifecycleState, ContractError>)
        ensures
            match next_state(old(self).state, event) {
                Some(next) => {
                    &&& r == Ok::<LifecycleState, ContractError>(next)
                    &&& final(self).state == next
                    &&& final(self).revision == bump(old(self).revision)
                },
                None => {
                    &&& r == Err::<LifecycleState, ContractError>(
                        ContractError::InvalidTransition { state: old(self).state, event },
                    )
                    &&& *final(self) == *old(self)
                },
            },
    {
        let next = transition(self.state, event)?;
        self.state = next;
        self.revision = self.revision.saturating_add(1);
        Ok(next)
    }
}

/// Failure categories counted by the freeze policy.
#[derive(Clone, Copy, Debug, PartialEq, Eq, Structural)]
pub enum FailureKind {
    Rejection,
    Quarantine,
    Rollback,
}

/// Inclusive ceilings for caller-owned failure accounting.
#[derive(Clone, Copy, Debug, PartialEq, Eq, Structural)]
pub struct FailureBudget {
    pub max_rejections: u32,
    pub max_quarantines: u32,
    pub max_rollbacks: u32,
    pub max_consecutive_failures: u32,
    pub max_window_failures: u32,
    pub window_size: u32,
}

impl FailureBudget {
    pub open spec fn spec_valid(&self) -> bool {
        self.window_size > 0 && self.max_window_failures <= self.window_size
    }

    pub fn validate(&self) -> (r: Result<(), ContractError>)
        ensures
            r is Ok <==> self.spec_valid(),
            r matches Err(e) ==> e is InvalidBudget,
    {
        if self.window_size == 0 {
            return Err(ContractError::InvalidBudget("window_size must be positive".to_owned()));
        }
        if self.max_window_failures > self.window_size {
            return Err(
                ContractError::InvalidBudget(
                    "max_window_failures cannot exceed window_size".to_owned(),
                ),
            );
        }
        Ok(())
    }

    /// A fresh tracker for this budget.
    pub fn tracker(&self) -> (r: Result<FailureTracker, ContractError>)
        ensures
            self.spec_valid() ==> (r matches Ok(t) && t.budget == *self && t.rejections == 0
                && t.quarantines == 0 && t.rollbacks == 0 && t.consecutive_failures == 0
                && t.recent@.len() == 0),
            !self.spec_valid() ==> (r matches Err(e) && e is InvalidBudget),
    {
        self.validate()?;
        Ok(
            FailureTracker {
                budget: self.clone(),
                rejections: 0,
                quarantines: 0,
                rollbacks: 0,
                consecutive_failures: 0,
                recent: Vec::new(),
            },
        )
    }
}

#[derive(Clone, Copy, Debug, PartialEq, Eq, Structural)]
pub enum BudgetDecision {
    Continue,
    FreezeRequired,
}

/// Mutable observation state kept next to the validated budget.
#[derive(Clone, Debug, PartialEq, Eq)]
pub struct FailureTracker {
    pub budget: FailureBudget,
    pub rejections: u32,
    pub quarantines: u32,
    pub rollbacks: u32,
    pub consecutive_failures: u32,
    pub recent: Vec<FailureKind>,
}

pub open spec fn at_or_over(observed: int, limit: int) -> bool {
    observed > 0 && observed >= limit
}

/// The last `n` elements of `s` (all of `s` when it is shorter).
pub open spec fn last_n<A>(s: Seq<A>, n: int) -> Seq<A> {
    if s.len() > n {
        s.subrange(s.len() - n, s.len() as int)
    } else {
        s
    }
}

/// `after` is `before` with one failure of `kind` counted.
pub open spec fn failure_recorded(before: FailureTracker, after: FailureTracker, kind: FailureKind) -> bool {
    &&& after.budget == before.budget
    &&& after.rejections == before.rejections + if kind == FailureKind::Rejection {
        1int
    } else {
        0int
    }
    &&& after.quarantines == before.quarantines + if kind == FailureKind::Quarantine {
        1int
    } else {
        0int
    }
    &&& after.rollbacks == before.rollbacks + if kind == FailureKind::Rollback {
        1int
    } else {
        0int
    }
    &&& after.consecutive_failures == before.consecutive_failures + 1
    &&& after.recent@ == last_n(before.recent@.push(kind), before.budget.window_size as int)
    &&& after.spec_consistent()
}

/// What `record_failure` does: an inconsistent tracker is refused as it is,
/// an exhausted one answers `BudgetExhausted` unchanged, and any other counts
/// the failure and answers `FreezeRequired` exactly when the tracker it
/// leaves is exhausted.
pub open spec fn records_failure(
    before: FailureTracker,
    after: FailureTracker,
    kind: FailureKind,
    r: Result<BudgetDecision, ContractError>,
) -> bool {
    if !before.spec_consistent() {
        after == before && (r matches Err(e) && e is InvalidBudget)
    } else if before.spec_exhausted() {
        r == Err::<BudgetDecision, ContractError>(ContractError::BudgetExhausted) && after == before
    } else {
        &&& failure_recorded(before, after, kind)
        &&& r == Ok::<BudgetDecision, ContractError>(
            if after.spec_exhausted() {
                BudgetDecision::FreezeRequired
            } else {
                BudgetDecision::Continue
            },
        )
    }
}

/// A full failure window freezes: when recording a failure leaves a
/// non-empty window of recent failures at least as long as the budget's
/// window limit, the answer is `FreezeRequired` (or `BudgetExhausted`, when
/// the tracker was already exhausted), never `Continue`.
pub proof fn lemma_full_window_requires_freeze(
    before: FailureTracker,
    after: FailureTracker,
    kind: FailureKind,
    r: Result<BudgetDecision, ContractError>,
)
    requires
        before.spec_consistent(),
        records_failure(before, after, kind, r),
        after.recent@.len() > 0,
        after.recent@.len() >= after.budget.max_window_failures,
    ensures
        r == Ok::<BudgetDecision, ContractError>(BudgetDecision::FreezeRequired) || r == Err::<
            BudgetDecision,
            ContractError,
        >(ContractError::BudgetExhausted),
        r != Ok::<BudgetDecision, ContractError>(BudgetDecision::Continue),
{
}

/// A counter that reaches its limit freezes: when recording a failure brings
/// the failures of its kind, or the consecutive failures, to a non-zero
/// limit, the answer is `FreezeRequired` or `BudgetExhausted`.
pub proof fn lemma_reached_limit_requires_freeze(
    before: FailureTracker,
    after: FailureTracker,
    kind: FailureKind,
    r: Result<BudgetDecision, ContractError>,
)
    requires
        before.spec_consistent(),
        records_failure(before, after, kind, r),
        ({
            ||| (kind == FailureKind::Rejection && after.budget.max_rejections > 0 && after.rejections
                >= after.budget.max_rejections)
            ||| (kind == FailureKind::Quarantine && after.budget.max_quarantines > 0
                && after.quarantines >= after.budget.max_quarantines)
            ||| (kind == FailureKind::Rollback && after.budget.max_rollbacks > 0 && after.rollbacks
                >= after.budget.max_rollbacks)
            ||| (after.budget.max_consecutive_failures > 0 && after.consecutive_failures
                >= after.budget.max_consecutive_failures)
        }),
    ensures
        r != Ok::<BudgetDecision, ContractError>(BudgetDecision::Continue),
{
}

/// Below every limit the work goes on: when, after recording a failure,
/// each counter and the window of recent failures is still empty or below
/// its limit, the answer is `Continue`.
pub proof fn lemma_below_limits_continues(
    before: FailureTracker,
    after: FailureTracker,
    kind: FailureKind,
    r: Result<BudgetDecision, ContractError>,
)
    requires
        before.spec_consistent(),
        records_failure(before, after, kind, r),
        after.rejections == 0 || after.rejections < after.budget.max_rejections,
        after.quarantines == 0 || after.quarantines < after.budget.max_quarantines,
        after.rollbacks == 0 || after.rollbacks < after.budget.max_rollbacks,
        after.consecutive_failures == 0 || after.consecutive_failures
            < after.budget.max_consecutive_failures,
        after.recent@.len() == 0 || after.recent@.len() < after.budget.max_window_failures,
    ensures
        r == Ok::<BudgetDecision, ContractError>(BudgetDecision::Continue),
{
}

/// Once a failure required a freeze, every later failure is refused as
/// `BudgetExhausted` and leaves the tracker unchanged.
pub proof fn lemma_freeze_is_final(
    t0: FailureTracker,
    t1: FailureTracker,
    t2: FailureTracker,
    k1: FailureKind,
    k2: FailureKind,
    r2: Result<BudgetDecision, ContractError>,
)
    requires
        records_failure(t0, t1, k1, Ok::<BudgetDecision, ContractError>(BudgetDecision::FreezeRequired)),
        records_failure(t1, t2, k2, r2),
    ensures
        r2 == Err::<BudgetDecision, ContractError>(ContractError::BudgetExhausted),
        t2 == t1,
{
}

impl FailureTracker {
    pub open spec fn spec_consistent(&self) -> bool {
        &&& self.budget.spec_valid()
        &&& self.recent@.len() <= self.budget.window_size
        &&& self.consecutive_failures <= self.rejections + self.quarantines + self.rollbacks
        &&& !(self.recent@.len() == 0 && self.consecutive_failures > 0)
    }

    pub open spec fn spec_exhausted(&self) -> bool {
        ||| at_or_over(self.rejections as int, self.budget.max_rejections as int)
        ||| at_or_over(self.quarantines as int, self.budget.max_quarantines as int)
        ||| at_or_over(self.rollbacks as int, self.budget.max_rollbacks as int)
        ||| at_or_over(
            self.consecutive_failures as int,
            self.budget.max_consecutive_failures as int,
        )
        ||| at_or_over(self.recent@.len() as int, self.budget.max_window_failures as int)
    }

    pub fn validate(&self) -> (r: Result<(), ContractError>)
        ensures
            r is Ok <==> self.spec_consistent(),
            r matches Err(e) ==> e is InvalidBudget,
    {
        self.budget.validate()?;
        if self.recent.len() > self.budget.window_size as usize {
            return Err(
                ContractError::InvalidBudget(
                    "recent failure window exceeds its budget".to_owned(),
                ),
            );
        }
        let total = self.rejections as u64 + self.quarantines as u64 + self.rollbacks as u64;
        if self.consecutive_failures as u64 > total || (self.recent.len() == 0
            && self.consecutive_failures > 0) {
            return Err(
                ContractError::InvalidBudget("failure counters are inconsistent".to_owned()),
            );
        }
        Ok(())
    }

    fn at_or_over(observed: u32, limit: u32) -> (r: bool)
        ensures
            r == at_or_over(observed as int, limit as int),
    {
        observed > 0 && observed >= limit
    }

    pub fn is_exhausted(&self) -> (r: bool)
        ensures
            r == self.spec_exhausted(),
    {
        let window_len: u32 = if self.recent.len() > u32::MAX as usize {
            u32::MAX
        } else {
            self.recent.len() as u32
        };
        let over_window = if self.recent.len() > u32::MAX as usize {
            true
        } else {
            Self::at_or_over(window_len, self.budget.max_window_failures)
        };
        Self::at_or_over(self.rejections, self.budget.max_rejections) || Self::at_or_over(
            self.quarantines,
            self.budget.max_quarantines,
        ) || Self::at_or_over(self.rollbacks, self.budget.max_rollbacks) || Self::at_or_over(
            self.consecutive_failures,
            self.budget.max_consecutive_failures,
        ) || over_window
    }

    /// A copy with the same budget, counters and window.
    pub fn copy_tracker(&self) -> (r: FailureTracker)
        ensures
            r.budget == self.budget,
            r.rejections == self.rejections,
            r.quarantines == self.quarantines,
            r.rollbacks == self.rollbacks,
            r.consecutive_failures == self.consecutive_failures,
            r.recent@ == self.recent@,
    {
        let recent = self.recent.clone();
        proof {
            assert(recent@ =~= self.recent@);
        }
        FailureTracker {
            budget: self.budget,
            rejections: self.rejections,
            quarantines: self.quarantines,
            rollbacks: self.rollbacks,
            consecutive_failures: self.consecutive_failures,
            recent,
        }
    }

    /// Resets the consecutive-failure streak.
    pub fn record_success(&mut self)
        ensures
            final(self).consecutive_failures == 0,
            final(self).budget == old(self).budget,
            final(self).rejections == old(self).rejections,
            final(self).quarantines == old(self).quarantines,
            final(self).rollbacks == old(self).rollbacks,
            final(self).recent@ == old(self).recent@,
    {
        self.consecutive_failures = 0;
    }

    /// Counts one failure and says whether the budget now requires a freeze.
    pub fn record_failure(&mut self, kind: FailureKind) -> (r: Result<BudgetDecision, ContractError>)
        ensures
            records_failure(*old(self), *final(self), kind, r),
            !old(self).spec_consistent() ==> *final(self) == *old(self) && (r matches Err(e)
                && e is InvalidBudget),
            old(self).spec_consistent() && old(self).spec_exhausted() ==> r == Err::<
                BudgetDecision,
                ContractError,
            >(ContractError::BudgetExhausted) && *final(self) == *old(self),
            old(self).spec_consistent() && !old(self).spec_exhausted() ==> failure_recorded(
                *old(self),
                *final(self),
                kind,
            ),
            old(self).spec_consistent() && !old(self).spec_exhausted() ==> {
                &&& final(self).budget == old(self).budget
                &&& final(self).rejections == old(self).rejections + if kind
                    == FailureKind::Rejection {
                    1int
                } else {
                    0int
                }
                &&& final(self).quarantines == old(self).quarantines + if kind
                    == FailureKind::Quarantine {
                    1int
                } else {
                    0int
                }
                &&& final(self).rollbacks == old(self).rollbacks + if kind == FailureKind::Rollback {
                    1int
                } else {
                    0int
                }
                &&& final(self).consecutive_failures == old(self).consecutive_failures + 1
                &&& final(self).recent@ == last_n(
                    old(self).recent@.push(kind),
                    old(self).budget.window_size as int,
                )
                &&& final(self).spec_consistent()
                &&& r == Ok::<BudgetDecision, ContractError>(
                    if final(self).spec_exhausted() {
                        BudgetDecision::FreezeRequired
                    } else {
                        BudgetDecision::Continue
                    },
                )
            },
    {
        self.validate()?;
        if self.is_exhausted() {
            return Err(ContractError::BudgetExhausted);
        }
        // A counter at u32::MAX is at or over any limit, so none overflows here.
        match kind {
            FailureKind::Rejection => {
                self.rejections = self.rejections + 1;
            },
            FailureKind::Quarantine => {
                self.quarantines = self.quarantines + 1;
            },
            FailureKind::Rollback => {
                self.rollbacks = self.rollbacks + 1;
            },
        }
        self.consecutive_failures = self.consecutive_failures + 1;
        let ghost pushed = old(self).recent@.push(kind);
        self.recent.push(kind);
        let window = self.budget.window_size as usize;
        if self.recent.len() > window {
            let excess = self.recent.len() - window;
            let mut kept: Vec<FailureKind> = Vec::new();
            let n = self.recent.len();
            for i in excess..n
                invariant
                    n == self.recent@.len(),
                    self.recent@ == pushed,
                    excess <= n,
                    kept@ == pushed.subrange(excess as int, i as int),
            {
                kept.push(self.recent[i]);
                proof {
                    assert(kept@ =~= pushed.subrange(excess as int, i + 1));
                }
            }
            self.recent = kept;
        }
        proof {
            assert(self.recent@ =~= last_n(pushed, old(self).budget.window_size as int));
        }
        Ok(
            if self.is_exhausted() {
                BudgetDecision::FreezeRequired
            } else {
                BudgetDecision::Continue
            },
        )
    }
}

/// Exhaustion is monotone: a tracker whose counters and window did not shrink
/// stays exhausted.
pub proof fn lemma_exhaustion_is_sticky(before: FailureTracker, after: FailureTracker)
    requires
        before.spec_exhausted(),
        after.budget == before.budget,
        after.rejections >= before.rejections,
        after.quarantines >= before.quarantines,
        after.rollbacks >= before.rollbacks,
        after.consecutive_failures >= before.consecutive_failures,
        after.recent@.len() >= before.recent@.len(),
    ensures
        after.spec_exhausted(),
{
}

} // verus!
