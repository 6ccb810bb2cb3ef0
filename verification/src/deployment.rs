//! One bounded staged deployment and its explicit safe apply protocol.
//!
//! The lifecycle owns immutable candidates but delegates authoritative domain
//! mutation to one serialized owner through [`ApplyPort`]. The port intentionally
//! exposes no rearm operation: a failed safe barrier can retain the old committed
//! configuration, but cannot recreate an old lease or armed epoch.
//!
//! Times are monotonic elapsed nanoseconds.
use crate::configuration::{
    DeploymentChanges, FrozenDeployment, changes_admissible, digest_equals, law_unchanged_deployment_changes_nothing,
    records_reflexive, spec_model_changed,
};
use crate::dto::{DtoEq, InstrumentDto, law_model_setting_change_is_not_live, model_settings_differ};
use crate::host::MAX_DURATION_NANOS;
use vstd::prelude::*;

verus! {

/// Residence of one staged candidate: thirty seconds.
pub const CANDIDATE_LIFETIME_NANOS: u128 = 30_000_000_000u128;

/// One required effect in a bounded explicit configuration diff, in report order.
#[derive(Clone, Copy, Debug, PartialEq, Eq, Structural)]
pub enum DiffEffect {
    /// Display/provenance-only state can change without resetting execution.
    LiveSafe,
    /// A schedule cadence changes from commit time without catch-up work.
    OrdinaryLive,
    /// A virtual or managed component must reset and warm again.
    Reinitialize,
    /// A physical resource binding must be replaced and fenced.
    TransportRebind,
    /// Dependent native control must stop and warm again.
    ControllerRewarm,
    /// Current authority must be revoked and safe evidence obtained first.
    OutputSafeBarrier,
    /// Live apply is unsupported; process restart is required.
    RestartRequired,
}

impl DiffEffect {
    /// Stable wire name.
    pub fn as_str(&self) -> (name: &'static str)
        ensures
            name@ == effect_name(*self)@,
    {
        match self {
            DiffEffect::LiveSafe => "live_safe",
            DiffEffect::OrdinaryLive => "ordinary_live",
            DiffEffect::Reinitialize => "reinitialize",
            DiffEffect::TransportRebind => "transport_rebind",
            DiffEffect::ControllerRewarm => "controller_rewarm",
            DiffEffect::OutputSafeBarrier => "output_safe_barrier",
            DiffEffect::RestartRequired => "restart_required",
        }
    }
}

/// Stable wire name of an effect.
pub open spec fn effect_name(e: DiffEffect) -> &'static str {
    match e {
        DiffEffect::LiveSafe => "live_safe",
        DiffEffect::OrdinaryLive => "ordinary_live",
        DiffEffect::Reinitialize => "reinitialize",
        DiffEffect::TransportRebind => "transport_rebind",
        DiffEffect::ControllerRewarm => "controller_rewarm",
        DiffEffect::OutputSafeBarrier => "output_safe_barrier",
        DiffEffect::RestartRequired => "restart_required",
    }
}

/// The effects a change set requires, in report order, each at most once.
pub open spec fn effects_of(c: DeploymentChanges) -> Seq<DiffEffect> {
    let s0 = Seq::<DiffEffect>::empty();
    let s1 = if c.live_safe { s0.push(DiffEffect::LiveSafe) } else { s0 };
    let s2 = if c.ordinary_live { s1.push(DiffEffect::OrdinaryLive) } else { s1 };
    let s3 = if c.reinitialize { s2.push(DiffEffect::Reinitialize) } else { s2 };
    let s4 = if c.rebind { s3.push(DiffEffect::TransportRebind) } else { s3 };
    let s5 = if c.controller_rewarm { s4.push(DiffEffect::ControllerRewarm) } else { s4 };
    let s6 = if c.safe_barrier { s5.push(DiffEffect::OutputSafeBarrier) } else { s5 };
    if c.restart_required { s6.push(DiffEffect::RestartRequired) } else { s6 }
}

/// Bounded aggregate effects computed before any Runtime mutation.
#[derive(Clone, Debug)]
pub struct ConfigurationDiff {
    effects: Vec<DiffEffect>,
}

impl ConfigurationDiff {
    /// Effects, in report order.
    pub closed spec fn spec_effects(&self) -> Seq<DiffEffect> {
        self.effects@
    }

    /// Ordered unique effect list suitable for a bounded snapshot.
    pub fn effects(&self) -> (effects: &Vec<DiffEffect>)
        ensures
            effects@ == self.spec_effects(),
    {
        &self.effects
    }

    /// Whether apply must enter the existing Rust-owned safe path.
    pub fn requires_safe_barrier(&self) -> (required: bool)
        ensures
            required == self.spec_effects().contains(DiffEffect::OutputSafeBarrier),
    {
        self.contains(DiffEffect::OutputSafeBarrier)
    }

    /// Whether one effect is required.
    pub fn contains(&self, effect: DiffEffect) -> (found: bool)
        ensures
            found == self.spec_effects().contains(effect),
    {
        let mut i: usize = 0;
        while i < self.effects.len()
            invariant
                i <= self.effects@.len(),
                forall|j: int| 0 <= j < i ==> self.effects@[j] != effect,
            decreases self.effects@.len() - i,
        {
            if self.effects[i] == effect {
                return true;
            }
            i += 1;
        }
        false
    }

    /// The effects a change set requires.
    pub fn from_changes(changes: DeploymentChanges) -> (diff: Self)
        ensures
            diff.spec_effects() == effects_of(changes),
    {
        let mut effects: Vec<DiffEffect> = Vec::new();
        if changes.live_safe {
            effects.push(DiffEffect::LiveSafe);
        }
        if changes.ordinary_live {
            effects.push(DiffEffect::OrdinaryLive);
        }
        if changes.reinitialize {
            effects.push(DiffEffect::Reinitialize);
        }
        if changes.rebind {
            effects.push(DiffEffect::TransportRebind);
        }
        if changes.controller_rewarm {
            effects.push(DiffEffect::ControllerRewarm);
        }
        if changes.safe_barrier {
            effects.push(DiffEffect::OutputSafeBarrier);
        }
        if changes.restart_required {
            effects.push(DiffEffect::RestartRequired);
        }
        ConfigurationDiff { effects }
    }
}

/// Read-only identity and diff returned by staging.
#[derive(Clone, Debug)]
pub struct StagedConfiguration {
    id: u64,
    base_revision: u64,
    expires_at: u128,
    diff: ConfigurationDiff,
}

impl StagedConfiguration {
    /// Candidate identity.
    pub closed spec fn spec_id(&self) -> u64 {
        self.id
    }

    /// Revision the candidate was staged against.
    pub closed spec fn spec_base_revision(&self) -> u64 {
        self.base_revision
    }

    /// Expiry time.
    pub closed spec fn spec_expires_at(&self) -> u128 {
        self.expires_at
    }

    /// Effects.
    pub closed spec fn spec_diff(&self) -> ConfigurationDiff {
        self.diff
    }

    /// Process-local bounded candidate identity.
    pub fn id(&self) -> (id: u64)
        ensures
            id == self.spec_id(),
    {
        self.id
    }

    /// Active revision against which apply performs optimistic validation.
    pub fn base_revision(&self) -> (revision: u64)
        ensures
            revision == self.spec_base_revision(),
    {
        self.base_revision
    }

    /// Monotonic time at which the candidate expires.
    pub fn expires_at(&self) -> (at: u128)
        ensures
            at == self.spec_expires_at(),
    {
        self.expires_at
    }

    /// Effects that will occur if the candidate is applied.
    pub fn diff(&self) -> (diff: &ConfigurationDiff)
        ensures
            *diff == self.spec_diff(),
    {
        &self.diff
    }
}

/// Failure to retain a new staged candidate.
#[derive(Clone, Copy, Debug, PartialEq, Eq, Structural)]
pub enum StageError {
    /// One candidate already occupies the fixed slot.
    Busy,
    /// The process-local candidate counter cannot advance safely.
    CounterExhausted,
    /// Monotonic candidate expiry could not be represented.
    DeadlineOverflow,
}

/// Failure before or during explicit apply.
#[derive(Clone, Copy, Debug, PartialEq, Eq, Structural)]
pub enum ApplyError {
    /// Candidate identity is not the retained staged candidate.
    UnknownCandidate,
    /// Caller or candidate was based on a different committed revision.
    Conflict,
    /// The 30-second staged-candidate residence elapsed.
    Expired,
    /// Diff requires process restart and caused no barrier side effect.
    RestartRequired,
    /// The trusted owner could not perform a bounded preparation/commit step.
    OwnerFailure,
}

/// Honest terminal result after apply entered the owner lifecycle.
#[derive(Clone, Copy, Debug, PartialEq, Eq, Structural)]
pub enum ApplyResult {
    /// Candidate became the coherent active deployment revision.
    Applied {
        /// New nonzero checked active deployment revision.
        revision: u64,
    },
    /// Old configuration remains selected; completed safety side effects remain.
    FailedBeforeCommit,
}

/// One call an owner received, with what it handed to the owner and what the owner
/// answered.
#[derive(Debug)]
pub enum OwnerCallRecord {
    /// `enter_safe_barrier(at)` answered `answer`.
    Barrier {
        /// Apply time handed to the owner.
        at: u128,
        /// The owner's answer.
        answer: Result<bool, ApplyError>,
    },
    /// `prepare_bindings(candidate)` answered `answer`.
    Prepare {
        /// Candidate handed to the owner.
        candidate: FrozenDeployment,
        /// The owner's answer.
        answer: Result<(), ApplyError>,
    },
    /// `commit_configuration(candidate)` answered `answer`.
    Commit {
        /// Candidate handed to the owner.
        candidate: FrozenDeployment,
        /// The owner's answer.
        answer: Result<(), ApplyError>,
    },
}

/// Serialized owner seam used by the deployment lifecycle.
///
/// An implementation keeps the record of every call it received: each call appends
/// what it was handed and what it answered, and `spec_calls` is that record.
/// Nothing is demanded of the answers themselves.
pub trait ApplyPort {
    /// Every call received so far, oldest first.
    spec fn spec_calls(&self) -> &Vec<OwnerCallRecord>;

    /// Stop affected production, revoke authority and prove current-profile safe evidence.
    fn enter_safe_barrier(&mut self, at: u128) -> (answer: Result<bool, ApplyError>)
        ensures
            final(self).spec_calls()@ == old(self).spec_calls()@.push(OwnerCallRecord::Barrier { at, answer }),
    ;

    /// Prepare a replacement binding after the safe fence, without committing config.
    fn prepare_bindings(&mut self, candidate: &FrozenDeployment) -> (answer: Result<(), ApplyError>)
        ensures
            final(self).spec_calls()@ == old(self).spec_calls()@.push(
                OwnerCallRecord::Prepare { candidate: *candidate, answer },
            ),
    ;

    /// Atomically install one already validated immutable candidate.
    fn commit_configuration(&mut self, candidate: &FrozenDeployment) -> (answer: Result<(), ApplyError>)
        ensures
            final(self).spec_calls()@ == old(self).spec_calls()@.push(
                OwnerCallRecord::Commit { candidate: *candidate, answer },
            ),
    ;
}

/// The calls one protocol run makes, given the answers it received: the barrier,
/// the preparation and the commit, each where it was answered.
pub open spec fn owner_log(
    at: u128,
    candidate: FrozenDeployment,
    barrier: Option<Result<bool, ApplyError>>,
    prepare: Option<Result<(), ApplyError>>,
    commit: Option<Result<(), ApplyError>>,
) -> Seq<OwnerCallRecord> {
    let b = match barrier {
        Some(answer) => seq![OwnerCallRecord::Barrier { at, answer }],
        None => Seq::empty(),
    };
    let p = match prepare {
        Some(answer) => seq![OwnerCallRecord::Prepare { candidate, answer }],
        None => Seq::empty(),
    };
    let c = match commit {
        Some(answer) => seq![OwnerCallRecord::Commit { candidate, answer }],
        None => Seq::empty(),
    };
    b + p + c
}

/// One call of the apply protocol into the owner.
#[derive(Clone, Copy, Debug, PartialEq, Eq, Structural)]
pub enum OwnerCall {
    /// `enter_safe_barrier` at the apply time.
    EnterSafeBarrier,
    /// `prepare_bindings` with the candidate.
    PrepareBindings,
    /// `commit_configuration` with the candidate.
    CommitConfiguration,
}

/// The barrier was not required or was entered.
pub open spec fn barrier_passed(barrier: Option<Result<bool, ApplyError>>) -> bool {
    barrier is None || barrier == Some(Ok::<bool, ApplyError>(true))
}

/// Binding preparation was not required or succeeded.
pub open spec fn prepare_passed(prepare: Option<Result<(), ApplyError>>) -> bool {
    prepare is None || prepare matches Some(Ok(_))
}

/// The next owner call given the answers so far: the barrier first when the diff
/// requires it, binding preparation next when it rebinds transports, then the
/// commit; nothing once a step failed or the commit was answered.
pub open spec fn spec_next_owner_call(
    barrier_required: bool,
    rebind: bool,
    barrier: Option<Result<bool, ApplyError>>,
    prepare: Option<Result<(), ApplyError>>,
    commit: Option<Result<(), ApplyError>>,
) -> Option<OwnerCall> {
    if barrier_required && barrier is None {
        Some(OwnerCall::EnterSafeBarrier)
    } else if !barrier_passed(barrier) {
        None
    } else if rebind && prepare is None {
        Some(OwnerCall::PrepareBindings)
    } else if !prepare_passed(prepare) {
        None
    } else if commit is None {
        Some(OwnerCall::CommitConfiguration)
    } else {
        None
    }
}

/// The answers are those of one complete run of the protocol: the barrier was
/// asked exactly when required, preparation exactly when rebinding after a passed
/// barrier, and the commit exactly when every earlier step passed.
pub open spec fn owner_run(
    barrier_required: bool,
    rebind: bool,
    barrier: Option<Result<bool, ApplyError>>,
    prepare: Option<Result<(), ApplyError>>,
    commit: Option<Result<(), ApplyError>>,
) -> bool {
    &&& barrier is Some <==> barrier_required
    &&& prepare is Some <==> rebind && barrier_passed(barrier)
    &&& commit is Some <==> barrier_passed(barrier) && prepare_passed(prepare)
}

/// What apply answers, given the owner's answers and the committed revision: a
/// barrier error or a commit error is returned as it is; a barrier that could not
/// be entered or a failed preparation leaves the old configuration selected; a
/// passed commit yields the next revision.
pub open spec fn spec_apply_outcome(
    barrier: Option<Result<bool, ApplyError>>,
    prepare: Option<Result<(), ApplyError>>,
    commit: Option<Result<(), ApplyError>>,
    revision: u64,
) -> Result<ApplyResult, ApplyError> {
    match barrier {
        Some(Err(e)) => Err(e),
        Some(Ok(false)) => Ok(ApplyResult::FailedBeforeCommit),
        _ => match prepare {
            Some(Err(_)) => Ok(ApplyResult::FailedBeforeCommit),
            _ => match commit {
                Some(Err(e)) => Err(e),
                _ => if revision == u64::MAX {
                    Err(ApplyError::OwnerFailure)
                } else {
                    Ok(ApplyResult::Applied { revision: (revision + 1) as u64 })
                },
            },
        },
    }
}

/// The next owner call of the apply protocol.
pub fn next_owner_call(
    barrier_required: bool,
    rebind: bool,
    barrier: Option<Result<bool, ApplyError>>,
    prepare: Option<Result<(), ApplyError>>,
    commit: Option<Result<(), ApplyError>>,
) -> (call: Option<OwnerCall>)
    ensures
        call == spec_next_owner_call(barrier_required, rebind, barrier, prepare, commit),
{
    let barrier_ok = match barrier {
        None => true,
        Some(Ok(entered)) => entered,
        Some(Err(_)) => false,
    };
    let prepare_ok = match prepare {
        None => true,
        Some(Ok(())) => true,
        Some(Err(_)) => false,
    };
    proof {
        assert(barrier_ok == barrier_passed(barrier));
        assert(prepare_ok == prepare_passed(prepare));
    }
    if barrier_required && barrier.is_none() {
        Some(OwnerCall::EnterSafeBarrier)
    } else if !barrier_ok {
        None
    } else if rebind && prepare.is_none() {
        Some(OwnerCall::PrepareBindings)
    } else if !prepare_ok {
        None
    } else if commit.is_none() {
        Some(OwnerCall::CommitConfiguration)
    } else {
        None
    }
}

/// The result of apply once the owner answered.
pub fn apply_outcome(
    barrier: Option<Result<bool, ApplyError>>,
    prepare: Option<Result<(), ApplyError>>,
    commit: Option<Result<(), ApplyError>>,
    revision: u64,
) -> (r: Result<ApplyResult, ApplyError>)
    ensures
        r == spec_apply_outcome(barrier, prepare, commit, revision),
{
    match barrier {
        Some(Err(e)) => {
            return Err(e);
        },
        Some(Ok(false)) => {
            return Ok(ApplyResult::FailedBeforeCommit);
        },
        _ => {},
    }
    if let Some(Err(_)) = prepare {
        return Ok(ApplyResult::FailedBeforeCommit);
    }
    if let Some(Err(e)) = commit {
        return Err(e);
    }
    if revision == u64::MAX {
        return Err(ApplyError::OwnerFailure);
    }
    Ok(ApplyResult::Applied { revision: revision + 1 })
}

/// Two snapshots carry the same identity, base revision, expiry and effects.
pub open spec fn same_snapshot(a: StagedConfiguration, b: StagedConfiguration) -> bool {
    &&& a.spec_id() == b.spec_id()
    &&& a.spec_base_revision() == b.spec_base_revision()
    &&& a.spec_expires_at() == b.spec_expires_at()
    &&& a.spec_diff().spec_effects() == b.spec_diff().spec_effects()
}

/// A retained candidate: its snapshot, bundle and expiry.
#[derive(Clone, Debug)]
pub struct Candidate {
    snapshot: StagedConfiguration,
    loaded: FrozenDeployment,
}

impl Candidate {
    /// Snapshot handed to the caller at staging.
    pub closed spec fn spec_snapshot(&self) -> StagedConfiguration {
        self.snapshot
    }

    /// Staged bundle.
    pub closed spec fn spec_loaded(&self) -> FrozenDeployment {
        self.loaded
    }
}

/// Active immutable deployment plus exactly one optional staged candidate.
pub struct DeploymentLifecycle {
    active: FrozenDeployment,
    revision: u64,
    next_candidate: u64,
    staged: Option<Candidate>,
}

/// Why apply stops before reaching the owner, if it does.
pub open spec fn apply_precheck(
    staged: Option<Candidate>,
    revision: u64,
    candidate_id: u64,
    expected_revision: u64,
    at: u128,
) -> Option<ApplyError> {
    match staged {
        None => Some(ApplyError::UnknownCandidate),
        Some(c) => if c.spec_snapshot().spec_id() != candidate_id {
            Some(ApplyError::UnknownCandidate)
        } else if expected_revision != revision || c.spec_snapshot().spec_base_revision() != revision {
            Some(ApplyError::Conflict)
        } else if at >= c.spec_snapshot().spec_expires_at() {
            Some(ApplyError::Expired)
        } else if c.spec_snapshot().spec_diff().spec_effects().contains(DiffEffect::RestartRequired) {
            Some(ApplyError::RestartRequired)
        } else {
            None
        },
    }
}

impl DeploymentLifecycle {
    /// Active bundle.
    pub closed spec fn spec_active(&self) -> FrozenDeployment {
        self.active
    }

    /// Committed revision.
    pub closed spec fn spec_revision(&self) -> u64 {
        self.revision
    }

    /// Identity the next staged candidate receives.
    pub closed spec fn spec_next_candidate(&self) -> u64 {
        self.next_candidate
    }

    /// Retained candidate.
    pub closed spec fn spec_staged(&self) -> Option<Candidate> {
        self.staged
    }

    /// Start at deployment revision one with no staged candidate.
    pub fn new(active: FrozenDeployment) -> (lifecycle: Self)
        ensures
            lifecycle.spec_active() == active,
            lifecycle.spec_revision() == 1,
            lifecycle.spec_next_candidate() == 1,
            lifecycle.spec_staged() is None,
    {
        DeploymentLifecycle { active, revision: 1, next_candidate: 1, staged: None }
    }

    /// Current committed deployment revision.
    pub fn revision(&self) -> (revision: u64)
        ensures
            revision == self.spec_revision(),
    {
        self.revision
    }

    /// Current exact immutable deployment bundle.
    pub fn active(&self) -> (active: &FrozenDeployment)
        ensures
            *active == self.spec_active(),
    {
        &self.active
    }

    /// Snapshot of the staged candidate, if any.
    pub fn staged(&self) -> (staged: Option<&StagedConfiguration>)
        ensures
            match self.spec_staged() {
                None => staged is None,
                Some(c) => staged is Some && *staged->Some_0 == c.spec_snapshot(),
            },
    {
        match &self.staged {
            None => None,
            Some(candidate) => Some(&candidate.snapshot),
        }
    }

    /// Validate and retain one candidate without touching the Runtime owner.
    pub fn stage(&mut self, candidate: FrozenDeployment, at: u128) -> (result: Result<
        StagedConfiguration,
        StageError,
    >)
        requires
            at <= MAX_DURATION_NANOS,
        ensures
            final(self).spec_active() == old(self).spec_active(),
            final(self).spec_revision() == old(self).spec_revision(),
            old(self).spec_staged() is Some ==> result == Err::<StagedConfiguration, StageError>(StageError::Busy)
                && *final(self) == *old(self),
            old(self).spec_staged() is None && old(self).spec_next_candidate() == u64::MAX
                ==> result == Err::<StagedConfiguration, StageError>(StageError::CounterExhausted)
                && *final(self) == *old(self),
            old(self).spec_staged() is None && old(self).spec_next_candidate() < u64::MAX
                && at + CANDIDATE_LIFETIME_NANOS > MAX_DURATION_NANOS
                ==> result == Err::<StagedConfiguration, StageError>(StageError::DeadlineOverflow)
                && final(self).spec_staged() is None
                && final(self).spec_next_candidate() == old(self).spec_next_candidate() + 1,
            old(self).spec_staged() is None && old(self).spec_next_candidate() < u64::MAX
                && at + CANDIDATE_LIFETIME_NANOS <= MAX_DURATION_NANOS ==> {
                &&& result is Ok
                &&& result->Ok_0.spec_id() == old(self).spec_next_candidate()
                &&& result->Ok_0.spec_base_revision() == old(self).spec_revision()
                &&& result->Ok_0.spec_expires_at() == at + CANDIDATE_LIFETIME_NANOS
                &&& exists|c: DeploymentChanges| changes_admissible(c, candidate, old(self).spec_active())
                    && result->Ok_0.spec_diff().spec_effects() == effects_of(c)
                &&& final(self).spec_next_candidate() == old(self).spec_next_candidate() + 1
                &&& final(self).spec_staged() is Some
                &&& same_snapshot(final(self).spec_staged()->Some_0.spec_snapshot(), result->Ok_0)
                &&& final(self).spec_staged()->Some_0.spec_loaded() == candidate
            },
    {
        if self.staged.is_some() {
            return Err(StageError::Busy);
        }
        let id = self.next_candidate;
        if id == u64::MAX {
            return Err(StageError::CounterExhausted);
        }
        self.next_candidate = id + 1;
        if at > MAX_DURATION_NANOS - CANDIDATE_LIFETIME_NANOS {
            return Err(StageError::DeadlineOverflow);
        }
        let expires_at = at + CANDIDATE_LIFETIME_NANOS;
        let changes = candidate.changes_from(&self.active);
        let snapshot = StagedConfiguration {
            id,
            base_revision: self.revision,
            expires_at,
            diff: ConfigurationDiff::from_changes(changes),
        };
        let result = StagedConfiguration {
            id,
            base_revision: self.revision,
            expires_at,
            diff: ConfigurationDiff::from_changes(changes),
        };
        self.staged = Some(Candidate { snapshot, loaded: candidate });
        Ok(result)
    }
}

impl DeploymentLifecycle {
    /// Apply through an explicit barrier/prepare/atomic-commit sequence.
    pub fn apply<P: ApplyPort>(
        &mut self,
        candidate_id: u64,
        expected_revision: u64,
        at: u128,
        owner: &mut P,
    ) -> (result: Result<ApplyResult, ApplyError>)
        ensures
            final(self).spec_next_candidate() == old(self).spec_next_candidate(),
            ({
                let pre = apply_precheck(
                    old(self).spec_staged(),
                    old(self).spec_revision(),
                    candidate_id,
                    expected_revision,
                    at,
                );
                &&& pre is Some ==> result == Err::<ApplyResult, ApplyError>(pre->Some_0)
                &&& pre is Some ==> *final(owner) == *old(owner)
                &&& pre is Some && pre->Some_0 != ApplyError::Expired ==> *final(self) == *old(self)
                &&& pre == Some(ApplyError::Expired) ==> final(self).spec_staged() is None
                    && final(self).spec_active() == old(self).spec_active()
                    && final(self).spec_revision() == old(self).spec_revision()
                &&& pre is None ==> {
                    let staged = old(self).spec_staged()->Some_0;
                    let effects = staged.spec_snapshot().spec_diff().spec_effects();
                    &&& final(self).spec_staged() is None
                    &&& exists|
                        barrier: Option<Result<bool, ApplyError>>,
                        prepare: Option<Result<(), ApplyError>>,
                        commit: Option<Result<(), ApplyError>>,
                    |
                        #[trigger] owner_run(
                            effects.contains(DiffEffect::OutputSafeBarrier),
                            effects.contains(DiffEffect::TransportRebind),
                            barrier,
                            prepare,
                            commit,
                        ) && final(owner).spec_calls()@ == old(owner).spec_calls()@ + owner_log(
                            at,
                            staged.spec_loaded(),
                            barrier,
                            prepare,
                            commit,
                        ) && result == spec_apply_outcome(barrier, prepare, commit, old(self).spec_revision())
                    &&& (result matches Ok(ApplyResult::Applied { revision }) ==> {
                        &&& old(self).spec_revision() < u64::MAX
                        &&& revision == old(self).spec_revision() + 1
                        &&& final(self).spec_revision() == revision
                        &&& final(self).spec_active() == staged.spec_loaded()
                    })
                    &&& (!(result matches Ok(ApplyResult::Applied { .. })) ==> {
                        &&& final(self).spec_revision() == old(self).spec_revision()
                        &&& final(self).spec_active() == old(self).spec_active()
                    })
                    &&& (result == Ok::<ApplyResult, ApplyError>(ApplyResult::FailedBeforeCommit) ==> (
                    effects.contains(DiffEffect::OutputSafeBarrier) || effects.contains(
                        DiffEffect::TransportRebind,
                    )))
                }
            }),
    {
        let (known, id_matches, base_revision, expires_at) = match &self.staged {
            None => (false, false, 0, 0),
            Some(candidate) => (
                true,
                candidate.snapshot.id == candidate_id,
                candidate.snapshot.base_revision,
                candidate.snapshot.expires_at,
            ),
        };
        if !known || !id_matches {
            return Err(ApplyError::UnknownCandidate);
        }
        if expected_revision != self.revision || base_revision != self.revision {
            return Err(ApplyError::Conflict);
        }
        if at >= expires_at {
            self.staged = None;
            return Err(ApplyError::Expired);
        }
        let restart = match &self.staged {
            None => false,
            Some(candidate) => candidate.snapshot.diff.contains(DiffEffect::RestartRequired),
        };
        if restart {
            return Err(ApplyError::RestartRequired);
        }
        let taken = self.staged.take();
        let candidate = match taken {
            Some(candidate) => candidate,
            None => {
                return Err(ApplyError::UnknownCandidate);
            },
        };
        let barrier_required = candidate.snapshot.diff.requires_safe_barrier();
        let rebind = candidate.snapshot.diff.contains(DiffEffect::TransportRebind);
        let mut barrier: Option<Result<bool, ApplyError>> = None;
        let mut prepare: Option<Result<(), ApplyError>> = None;
        let mut commit: Option<Result<(), ApplyError>> = None;
        let ghost calls0 = owner.spec_calls()@;
        let ghost loaded = candidate.loaded;
        loop
            invariant
                loaded == candidate.loaded,
                owner.spec_calls()@ == calls0 + owner_log(at, loaded, barrier, prepare, commit),
                barrier is Some ==> barrier_required,
                prepare is Some ==> rebind && barrier_passed(barrier) && (barrier_required ==> barrier is Some),
                commit is Some ==> barrier_passed(barrier) && prepare_passed(prepare) && (barrier_required
                    ==> barrier is Some) && (rebind ==> prepare is Some),
            ensures
                owner.spec_calls()@ == calls0 + owner_log(at, loaded, barrier, prepare, commit),
                spec_next_owner_call(barrier_required, rebind, barrier, prepare, commit) is None,
                barrier is Some ==> barrier_required,
                prepare is Some ==> rebind && barrier_passed(barrier) && (barrier_required ==> barrier is Some),
                commit is Some ==> barrier_passed(barrier) && prepare_passed(prepare) && (barrier_required
                    ==> barrier is Some) && (rebind ==> prepare is Some),
            decreases (if barrier is None { 1int } else { 0int }) + (if prepare is None { 1int } else { 0int }) + (
            if commit is None { 1int } else { 0int }),
        {
            match next_owner_call(barrier_required, rebind, barrier, prepare, commit) {
                Some(OwnerCall::EnterSafeBarrier) => {
                    let answer = owner.enter_safe_barrier(at);
                    proof {
                        assert(owner_log(at, loaded, Some(answer), prepare, commit) =~= owner_log(
                            at,
                            loaded,
                            barrier,
                            prepare,
                            commit,
                        ).push(OwnerCallRecord::Barrier { at, answer }));
                        assert(owner.spec_calls()@ =~= calls0 + owner_log(at, loaded, Some(answer), prepare, commit));
                    }
                    barrier = Some(answer);
                },
                Some(OwnerCall::PrepareBindings) => {
                    let answer = owner.prepare_bindings(&candidate.loaded);
                    proof {
                        assert(owner_log(at, loaded, barrier, Some(answer), commit) =~= owner_log(
                            at,
                            loaded,
                            barrier,
                            prepare,
                            commit,
                        ).push(OwnerCallRecord::Prepare { candidate: loaded, answer }));
                        assert(owner.spec_calls()@ =~= calls0 + owner_log(at, loaded, barrier, Some(answer), commit));
                    }
                    prepare = Some(answer);
                },
                Some(OwnerCall::CommitConfiguration) => {
                    let answer = owner.commit_configuration(&candidate.loaded);
                    proof {
                        assert(owner_log(at, loaded, barrier, prepare, Some(answer)) =~= owner_log(
                            at,
                            loaded,
                            barrier,
                            prepare,
                            commit,
                        ).push(OwnerCallRecord::Commit { candidate: loaded, answer }));
                        assert(owner.spec_calls()@ =~= calls0 + owner_log(at, loaded, barrier, prepare, Some(answer)));
                    }
                    commit = Some(answer);
                },
                None => {
                    break ;
                },
            }
        }
        proof {
            assert(owner_run(barrier_required, rebind, barrier, prepare, commit));
        }
        let outcome = apply_outcome(barrier, prepare, commit, self.revision);
        if let Ok(ApplyResult::Applied { revision }) = outcome {
            self.active = candidate.loaded;
            self.revision = revision;
        }
        outcome
    }
}

impl DeploymentLifecycle {
    /// A source-only bundle keeps the active TOML identity and effective document.
    pub open spec fn spec_sources_candidate_valid(&self, candidate: FrozenDeployment) -> bool {
        candidate.spec_toml_hash() == self.spec_active().spec_toml_hash() && candidate.spec_dto().same(
            &self.spec_active().spec_dto(),
        )
    }

    /// Check that a bundle replaces only the frozen managed-source contents.
    pub fn validate_managed_sources_candidate(&self, candidate: &FrozenDeployment) -> (r: Result<
        (),
        ApplyError,
    >)
        ensures
            r is Ok <==> self.spec_sources_candidate_valid(*candidate),
            r is Err ==> r == Err::<(), ApplyError>(ApplyError::Conflict),
    {
        let candidate_hash = candidate.toml_hash();
        let active_hash = self.active.toml_hash();
        if !digest_equals(&candidate_hash, &active_hash) || !candidate.effective().dto().equals(
            self.active.effective().dto(),
        ) {
            return Err(ApplyError::Conflict);
        }
        Ok(())
    }

    /// Commit a source bundle whose identity was checked before owner mutation; the
    /// configuration revision does not change.
    pub fn commit_validated_managed_sources(&mut self, candidate: FrozenDeployment)
        requires
            old(self).spec_sources_candidate_valid(candidate),
        ensures
            final(self).spec_active() == candidate,
            final(self).spec_revision() == old(self).spec_revision(),
            final(self).spec_staged() == old(self).spec_staged(),
            final(self).spec_next_candidate() == old(self).spec_next_candidate(),
    {
        self.active = candidate;
    }
}

/// A candidate that was just staged reaches the owner when applied against the same
/// revision before it expires, unless its diff requires a restart: apply's prechecks
/// never reject it.
pub proof fn law_fresh_candidate_reaches_owner(
    lifecycle: DeploymentLifecycle,
    snapshot: StagedConfiguration,
    at: u128,
)
    requires
        lifecycle.spec_staged() is Some,
        same_snapshot(lifecycle.spec_staged()->Some_0.spec_snapshot(), snapshot),
        snapshot.spec_base_revision() == lifecycle.spec_revision(),
        at < snapshot.spec_expires_at(),
        !snapshot.spec_diff().spec_effects().contains(DiffEffect::RestartRequired),
    ensures
        apply_precheck(
            lifecycle.spec_staged(),
            lifecycle.spec_revision(),
            snapshot.spec_id(),
            lifecycle.spec_revision(),
            at,
        ) is None,
{
}

/// Staging a candidate equal to the active deployment reports no effect and needs no
/// safe barrier, provided its records equal themselves: whichever change set stage
/// admitted, its effect list is empty.
pub proof fn law_unchanged_candidate_stages_without_effects(c: DeploymentChanges, d: FrozenDeployment)
    requires
        changes_admissible(c, d, d),
        records_reflexive(d.spec_dto()),
    ensures
        effects_of(c).len() == 0,
        !effects_of(c).contains(DiffEffect::OutputSafeBarrier),
{
    law_unchanged_deployment_changes_nothing(d, c);
    assert(effects_of(c) =~= Seq::<DiffEffect>::empty());
}

/// Staging a candidate in which a thermal plant or virtual measurement keeps its
/// position but changes a model setting reinitializes the instruments, rewarms the
/// controllers and enters the output safe barrier, whichever change set stage
/// admitted.
pub proof fn law_model_change_reinitializes(
    c: DeploymentChanges,
    candidate: FrozenDeployment,
    active: FrozenDeployment,
    i: int,
)
    requires
        changes_admissible(c, candidate, active),
        0 <= i < active.spec_dto().instruments@.len(),
        i < candidate.spec_dto().instruments@.len(),
        model_settings_differ(active.spec_dto().instruments@[i], candidate.spec_dto().instruments@[i]),
    ensures
        effects_of(c).contains(DiffEffect::Reinitialize),
        effects_of(c).contains(DiffEffect::ControllerRewarm),
        effects_of(c).contains(DiffEffect::OutputSafeBarrier),
{
    let old: Seq<InstrumentDto> = active.spec_dto().instruments@;
    let new: Seq<InstrumentDto> = candidate.spec_dto().instruments@;
    law_model_setting_change_is_not_live(old[i], new[i]);
    assert(old[i].spec_kind() == new[i].spec_kind());
    assert(spec_model_changed(old, new));
    lemma_effects_membership(c);
}

/// Candidate identities grow: a candidate staged later, from a lifecycle whose
/// counter has not gone back, carries a larger identity. Stage hands out the counter
/// and advances it; apply and a refused stage never lower it; a new lifecycle
/// starts it at one.
pub proof fn law_staged_identities_grow(
    first: StagedConfiguration,
    after_first: DeploymentLifecycle,
    before_second: DeploymentLifecycle,
    second: StagedConfiguration,
)
    requires
        first.spec_id() < after_first.spec_next_candidate(),
        after_first.spec_next_candidate() <= before_second.spec_next_candidate(),
        second.spec_id() == before_second.spec_next_candidate(),
    ensures
        first.spec_id() < second.spec_id(),
{
}

/// What apply answers for each answer of the owner, over one complete protocol run:
/// a barrier that could not be entered, or a failed preparation, leaves the old
/// configuration selected and asks no commit; a barrier error or a commit error is
/// returned as it is; a passed commit applies the next revision.
pub proof fn law_apply_answers(
    barrier_required: bool,
    rebind: bool,
    barrier: Option<Result<bool, ApplyError>>,
    prepare: Option<Result<(), ApplyError>>,
    commit: Option<Result<(), ApplyError>>,
    revision: u64,
)
    requires
        owner_run(barrier_required, rebind, barrier, prepare, commit),
        revision < u64::MAX,
    ensures
        barrier == Some(Ok::<bool, ApplyError>(false)) ==> commit is None && spec_apply_outcome(
            barrier,
            prepare,
            commit,
            revision,
        ) == Ok::<ApplyResult, ApplyError>(ApplyResult::FailedBeforeCommit),
        barrier matches Some(Err(e)) ==> commit is None && spec_apply_outcome(barrier, prepare, commit, revision)
            == Err::<ApplyResult, ApplyError>(e),
        (barrier_passed(barrier) && prepare matches Some(Err(_))) ==> commit is None && spec_apply_outcome(
            barrier,
            prepare,
            commit,
            revision,
        ) == Ok::<ApplyResult, ApplyError>(ApplyResult::FailedBeforeCommit),
        commit matches Some(Err(e)) ==> spec_apply_outcome(barrier, prepare, commit, revision) == Err::<
            ApplyResult,
            ApplyError,
        >(e),
        commit matches Some(Ok(_)) ==> spec_apply_outcome(barrier, prepare, commit, revision) == Ok::<
            ApplyResult,
            ApplyError,
        >(ApplyResult::Applied { revision: (revision + 1) as u64 }),
{
}

/// The safe barrier is requested exactly when the diff requires it, and before any
/// other owner call: in one protocol run the first call is the barrier if and only
/// if the barrier is required.
pub proof fn law_barrier_requested_exactly_when_required(
    at: u128,
    candidate: FrozenDeployment,
    barrier_required: bool,
    rebind: bool,
    barrier: Option<Result<bool, ApplyError>>,
    prepare: Option<Result<(), ApplyError>>,
    commit: Option<Result<(), ApplyError>>,
)
    requires
        owner_run(barrier_required, rebind, barrier, prepare, commit),
    ensures
        (owner_log(at, candidate, barrier, prepare, commit).len() > 0 && owner_log(
            at,
            candidate,
            barrier,
            prepare,
            commit,
        )[0] is Barrier) <==> barrier_required,
        forall|i: int|
            0 < i < owner_log(at, candidate, barrier, prepare, commit).len() ==> !(#[trigger] owner_log(
                at,
                candidate,
                barrier,
                prepare,
                commit,
            )[i] is Barrier),
{
    let log = owner_log(at, candidate, barrier, prepare, commit);
    if !barrier_required {
        assert(log.len() > 0 ==> !(log[0] is Barrier));
    }
}

/// Effects escalate: a rebind or a reinitialization always rewarms dependent
/// controllers, and a controller rewarm always enters the output safe barrier.
pub proof fn law_effects_escalate(c: DeploymentChanges, candidate: FrozenDeployment, active: FrozenDeployment)
    requires
        changes_admissible(c, candidate, active),
    ensures
        effects_of(c).contains(DiffEffect::TransportRebind) ==> effects_of(c).contains(DiffEffect::ControllerRewarm),
        effects_of(c).contains(DiffEffect::Reinitialize) ==> effects_of(c).contains(DiffEffect::ControllerRewarm),
        effects_of(c).contains(DiffEffect::ControllerRewarm) ==> effects_of(c).contains(DiffEffect::OutputSafeBarrier),
{
    lemma_effects_membership(c);
}

/// An effect is listed exactly when its change flag is set.
pub proof fn lemma_effects_membership(c: DeploymentChanges)
    ensures
        effects_of(c).contains(DiffEffect::LiveSafe) == c.live_safe,
        effects_of(c).contains(DiffEffect::OrdinaryLive) == c.ordinary_live,
        effects_of(c).contains(DiffEffect::Reinitialize) == c.reinitialize,
        effects_of(c).contains(DiffEffect::TransportRebind) == c.rebind,
        effects_of(c).contains(DiffEffect::ControllerRewarm) == c.controller_rewarm,
        effects_of(c).contains(DiffEffect::OutputSafeBarrier) == c.safe_barrier,
        effects_of(c).contains(DiffEffect::RestartRequired) == c.restart_required,
{
    let s0 = Seq::<DiffEffect>::empty();
    let s1 = if c.live_safe { s0.push(DiffEffect::LiveSafe) } else { s0 };
    let s2 = if c.ordinary_live { s1.push(DiffEffect::OrdinaryLive) } else { s1 };
    let s3 = if c.reinitialize { s2.push(DiffEffect::Reinitialize) } else { s2 };
    let s4 = if c.rebind { s3.push(DiffEffect::TransportRebind) } else { s3 };
    let s5 = if c.controller_rewarm { s4.push(DiffEffect::ControllerRewarm) } else { s4 };
    let s6 = if c.safe_barrier { s5.push(DiffEffect::OutputSafeBarrier) } else { s5 };
    let s7 = if c.restart_required { s6.push(DiffEffect::RestartRequired) } else { s6 };
    assert(effects_of(c) == s7);
    assert forall|e: DiffEffect| #[trigger] s7.contains(e) <==> (
        (e == DiffEffect::LiveSafe && c.live_safe)
        || (e == DiffEffect::OrdinaryLive && c.ordinary_live)
        || (e == DiffEffect::Reinitialize && c.reinitialize)
        || (e == DiffEffect::TransportRebind && c.rebind)
        || (e == DiffEffect::ControllerRewarm && c.controller_rewarm)
        || (e == DiffEffect::OutputSafeBarrier && c.safe_barrier)
        || (e == DiffEffect::RestartRequired && c.restart_required)) by {
        assert(s1.contains(e) <==> (e == DiffEffect::LiveSafe && c.live_safe)) by {
            if c.live_safe { assert(s1[0] == DiffEffect::LiveSafe); }
        }
        assert(s2.contains(e) <==> (s1.contains(e) || (e == DiffEffect::OrdinaryLive && c.ordinary_live))) by {
            if c.ordinary_live { lemma_push_contains(s1, DiffEffect::OrdinaryLive, e); }
        }
        assert(s3.contains(e) <==> (s2.contains(e) || (e == DiffEffect::Reinitialize && c.reinitialize))) by {
            if c.reinitialize { lemma_push_contains(s2, DiffEffect::Reinitialize, e); }
        }
        assert(s4.contains(e) <==> (s3.contains(e) || (e == DiffEffect::TransportRebind && c.rebind))) by {
            if c.rebind { lemma_push_contains(s3, DiffEffect::TransportRebind, e); }
        }
        assert(s5.contains(e) <==> (s4.contains(e) || (e == DiffEffect::ControllerRewarm && c.controller_rewarm))) by {
            if c.controller_rewarm { lemma_push_contains(s4, DiffEffect::ControllerRewarm, e); }
        }
        assert(s6.contains(e) <==> (s5.contains(e) || (e == DiffEffect::OutputSafeBarrier && c.safe_barrier))) by {
            if c.safe_barrier { lemma_push_contains(s5, DiffEffect::OutputSafeBarrier, e); }
        }
        assert(s7.contains(e) <==> (s6.contains(e) || (e == DiffEffect::RestartRequired && c.restart_required))) by {
            if c.restart_required { lemma_push_contains(s6, DiffEffect::RestartRequired, e); }
        }
    }
    assert(s7.contains(DiffEffect::LiveSafe) == c.live_safe);
    assert(s7.contains(DiffEffect::OrdinaryLive) == c.ordinary_live);
    assert(s7.contains(DiffEffect::Reinitialize) == c.reinitialize);
    assert(s7.contains(DiffEffect::TransportRebind) == c.rebind);
    assert(s7.contains(DiffEffect::ControllerRewarm) == c.controller_rewarm);
    assert(s7.contains(DiffEffect::OutputSafeBarrier) == c.safe_barrier);
    assert(s7.contains(DiffEffect::RestartRequired) == c.restart_required);
}

proof fn lemma_push_contains(s: Seq<DiffEffect>, x: DiffEffect, e: DiffEffect)
    ensures
        s.push(x).contains(e) <==> (s.contains(e) || e == x),
{
    if s.contains(e) {
        let i = choose|i: int| 0 <= i < s.len() && s[i] == e;
        assert(s.push(x)[i] == e);
    }
    if e == x {
        assert(s.push(x)[s.len() as int] == x);
    }
    if s.push(x).contains(e) {
        let i = choose|i: int| 0 <= i < s.push(x).len() && s.push(x)[i] == e;
        if i < s.len() {
            assert(s[i] == e);
        }
    }
}

} // verus!
