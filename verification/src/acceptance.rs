//! How a snapshot is taken up: looked at, held against the inventory, logged and answered.

use crate::admission::{
    accept_snapshot, accepted_runtime, admission_preflight, decide_admission, decision,
    first_answer, identity_of, observation_step, observe_admission, revalidate_admission,
    revalidation_step, AdmissionDecision, AdmissionDecisionModel, AdmissionStep,
    AdmissionStepModel, PreparedModel, PreparedSnapshot,
    SNAPSHOT_ADMISSION_REVALIDATION_ATTEMPTS,
};
use crate::host::{HostOutcome, OutcomeModel};
use crate::inventory::{LocalInterfaceInventory, LocalInterfaceInventoryModel};
use crate::model::{
    NeutronRuntimeState, NeutronRuntimeStateModel, NeutronSnapshotRequest,
    NeutronSnapshotRequestModel, NeutronSnapshotResponse, NeutronSnapshotResponseModel,
    NeutronWalReplay, NeutronWalReplayModel, PendingNeutronIntent, PendingNeutronIntentModel,
};
use crate::ordered::Value;
use crate::scope::{
    internal_error, refusal, ApplyScope, ReplyStatus, ScopeModel, SnapshotApplyError,
    SnapshotApplyErrorModel,
};
use crate::transaction::unchanged_response;
use vstd::prelude::*;
use vstd::string::*;

verus! {

/// The inventory, and the runtime that was found once it was read.
#[derive(Debug)]
pub struct Discovery {
    pub inventory: LocalInterfaceInventory,
    pub runtime: NeutronRuntimeState,
}

/// The model of [`Discovery`].
pub struct DiscoveryModel {
    pub inventory: LocalInterfaceInventoryModel,
    pub runtime: NeutronRuntimeStateModel,
}

impl DeepView for Discovery {
    type V = DiscoveryModel;

    open spec fn deep_view(&self) -> DiscoveryModel {
        DiscoveryModel {
            inventory: self.inventory.deep_view(),
            runtime: self.runtime.deep_view(),
        }
    }
}

/// A snapshot that is being taken up: what came of the steps so far.
#[derive(Debug)]
pub struct SnapshotAcceptance {
    pub restore_ready: bool,
    /// The runtime when the snapshot came in.
    pub arrival: NeutronRuntimeState,
    /// The number of the current look at the runtime, from one.
    pub attempt: u64,
    /// The runtime under the lock.
    pub observed: Option<NeutronRuntimeState>,
    pub observed_log: Option<NeutronWalReplay>,
    /// The inventory, and the runtime under the lock after that.
    pub discovered: Option<Discovery>,
    pub discovered_log: Option<NeutronWalReplay>,
    pub verified: Option<bool>,
    pub intent: Option<HostOutcome>,
}

/// The model of [`SnapshotAcceptance`].
#[verifier::ext_equal]
pub struct AcceptanceModel {
    pub restore_ready: bool,
    pub arrival: NeutronRuntimeStateModel,
    pub attempt: u64,
    pub observed: Option<NeutronRuntimeStateModel>,
    pub observed_log: Option<NeutronWalReplayModel>,
    pub discovered: Option<DiscoveryModel>,
    pub discovered_log: Option<NeutronWalReplayModel>,
    pub verified: Option<bool>,
    pub intent: Option<OutcomeModel>,
}

impl DeepView for SnapshotAcceptance {
    type V = AcceptanceModel;

    open spec fn deep_view(&self) -> AcceptanceModel {
        AcceptanceModel {
            restore_ready: self.restore_ready,
            arrival: self.arrival.deep_view(),
            attempt: self.attempt,
            observed: self.observed.deep_view(),
            observed_log: self.observed_log.deep_view(),
            discovered: self.discovered.deep_view(),
            discovered_log: self.discovered_log.deep_view(),
            verified: self.verified.deep_view(),
            intent: self.intent.deep_view(),
        }
    }
}

/// What taking up a snapshot has to do next.
#[derive(Debug)]
pub enum AcceptanceStep {
    /// Look at the runtime under the lock.
    Observe,
    /// Read the log under the lock.
    ReadLog,
    /// Read the inventory without the lock, then look at the runtime under the lock.
    Discover,
    /// Look at the runtime again from the start.
    LookAgain,
    /// Compare the datapath of the interfaces with their plans.
    VerifyProjection(Vec<String>),
    /// Log the intent.
    LogIntent(PendingNeutronIntent),
    /// Refuse the snapshot.
    Refuse(SnapshotApplyError),
    /// Answer the snapshot without applying it.
    Answer(NeutronSnapshotResponse),
    /// Publish the runtime, answer the snapshot, and apply it.
    Apply {
        prepared: PreparedSnapshot,
        before: NeutronRuntimeState,
        runtime: NeutronRuntimeState,
        response: NeutronSnapshotResponse,
    },
}

/// The model of [`AcceptanceStep`].
pub enum AcceptanceStepModel {
    Observe,
    ReadLog,
    Discover,
    LookAgain,
    VerifyProjection(Seq<Seq<char>>),
    LogIntent(PendingNeutronIntentModel),
    Refuse(SnapshotApplyErrorModel),
    Answer(NeutronSnapshotResponseModel),
    Apply {
        prepared: PreparedModel,
        before: NeutronRuntimeStateModel,
        runtime: NeutronRuntimeStateModel,
        response: NeutronSnapshotResponseModel,
    },
}

impl DeepView for AcceptanceStep {
    type V = AcceptanceStepModel;

    open spec fn deep_view(&self) -> AcceptanceStepModel {
        match self {
            AcceptanceStep::Observe => AcceptanceStepModel::Observe,
            AcceptanceStep::ReadLog => AcceptanceStepModel::ReadLog,
            AcceptanceStep::Discover => AcceptanceStepModel::Discover,
            AcceptanceStep::LookAgain => AcceptanceStepModel::LookAgain,
            AcceptanceStep::VerifyProjection(targets) => {
                AcceptanceStepModel::VerifyProjection(targets.deep_view())
            },
            AcceptanceStep::LogIntent(intent) => AcceptanceStepModel::LogIntent(intent.deep_view()),
            AcceptanceStep::Refuse(error) => AcceptanceStepModel::Refuse(error.deep_view()),
            AcceptanceStep::Answer(response) => AcceptanceStepModel::Answer(response.deep_view()),
            AcceptanceStep::Apply { prepared, before, runtime, response } => {
                AcceptanceStepModel::Apply {
                    prepared: prepared.deep_view(),
                    before: before.deep_view(),
                    runtime: runtime.deep_view(),
                    response: response.deep_view(),
                }
            },
        }
    }
}

/// What came of a step.
#[derive(Debug)]
pub enum AcceptanceEvent {
    Observed(NeutronRuntimeState),
    LogRead(NeutronWalReplay),
    Discovered(Discovery),
    Verified(bool),
    IntentLogged(HostOutcome),
}

/// The model of [`AcceptanceEvent`].
pub enum AcceptanceEventModel {
    Observed(NeutronRuntimeStateModel),
    LogRead(NeutronWalReplayModel),
    Discovered(DiscoveryModel),
    Verified(bool),
    IntentLogged(OutcomeModel),
}

impl DeepView for AcceptanceEvent {
    type V = AcceptanceEventModel;

    open spec fn deep_view(&self) -> AcceptanceEventModel {
        match self {
            AcceptanceEvent::Observed(runtime) => {
                AcceptanceEventModel::Observed(runtime.deep_view())
            },
            AcceptanceEvent::LogRead(replay) => AcceptanceEventModel::LogRead(replay.deep_view()),
            AcceptanceEvent::Discovered(discovery) => {
                AcceptanceEventModel::Discovered(discovery.deep_view())
            },
            AcceptanceEvent::Verified(agrees) => AcceptanceEventModel::Verified(*agrees),
            AcceptanceEvent::IntentLogged(outcome) => {
                AcceptanceEventModel::IntentLogged(outcome.deep_view())
            },
        }
    }
}

/// A snapshot that just came in.
pub open spec fn arrived(
    restore_ready: bool,
    arrival: NeutronRuntimeStateModel,
    attempt: u64,
) -> AcceptanceModel {
    AcceptanceModel {
        restore_ready,
        arrival,
        attempt,
        observed: None,
        observed_log: None,
        discovered: None,
        discovered_log: None,
        verified: None,
        intent: None,
    }
}

/// A snapshot with one more step done; the log belongs to the latest look at the runtime.
pub open spec fn acceptance_after(
    a: AcceptanceModel,
    event: AcceptanceEventModel,
) -> AcceptanceModel {
    match event {
        AcceptanceEventModel::Observed(runtime) => AcceptanceModel { observed: Some(runtime), ..a },
        AcceptanceEventModel::LogRead(replay) => if a.discovered is None {
            AcceptanceModel { observed_log: Some(replay), ..a }
        } else {
            AcceptanceModel { discovered_log: Some(replay), ..a }
        },
        AcceptanceEventModel::Discovered(discovery) => AcceptanceModel {
            discovered: Some(discovery),
            ..a
        },
        AcceptanceEventModel::Verified(agrees) => AcceptanceModel { verified: Some(agrees), ..a },
        AcceptanceEventModel::IntentLogged(outcome) => AcceptanceModel {
            intent: Some(outcome),
            ..a
        },
    }
}

/// What has to be done with a snapshot that was decided on: it is applied only once its intent is
/// logged.
pub open spec fn decided_step(
    scope: ScopeModel,
    snapshot: NeutronSnapshotRequestModel,
    discovery: DiscoveryModel,
    verified: Option<bool>,
    intent: Option<OutcomeModel>,
) -> AcceptanceStepModel {
    match decision(scope, discovery.runtime, snapshot, discovery.inventory, verified) {
        AdmissionDecisionModel::VerifyProjection(targets) => {
            AcceptanceStepModel::VerifyProjection(targets)
        },
        AdmissionDecisionModel::Refuse(error) => AcceptanceStepModel::Refuse(error),
        AdmissionDecisionModel::Answer(response) => AcceptanceStepModel::Answer(response),
        AdmissionDecisionModel::Prepare(prepared) => match intent {
            None => AcceptanceStepModel::LogIntent(prepared.intent),
            Some(OutcomeModel::Failed(error)) => AcceptanceStepModel::Refuse(
                refusal(ReplyStatus::InternalServerError, "wal_intent_failed"@, error),
            ),
            Some(OutcomeModel::Done) => AcceptanceStepModel::Apply {
                prepared,
                before: discovery.runtime,
                runtime: accepted_runtime(discovery.runtime, snapshot),
                response: unchanged_response(
                    discovery.runtime,
                    snapshot.generation,
                    snapshot.desired_hash,
                    "pending"@,
                    Seq::empty(),
                ),
            },
        },
    }
}

/// What has to be done with a snapshot once the runtime was looked at.
pub open spec fn observed_step(
    scope: ScopeModel,
    snapshot: NeutronSnapshotRequestModel,
    a: AcceptanceModel,
    observed: NeutronRuntimeStateModel,
) -> AcceptanceStepModel {
    match observation_step(observed, snapshot, a.observed_log) {
        AdmissionStepModel::ReadLog => AcceptanceStepModel::ReadLog,
        AdmissionStepModel::Refuse(error) => AcceptanceStepModel::Refuse(error),
        AdmissionStepModel::Answer(response) => AcceptanceStepModel::Answer(response),
        AdmissionStepModel::Retry => AcceptanceStepModel::LookAgain,
        AdmissionStepModel::Proceed => match a.discovered {
            None => AcceptanceStepModel::Discover,
            Some(discovery) => match revalidation_step(
                a.attempt,
                observed,
                discovery.runtime,
                snapshot,
                a.discovered_log,
            ) {
                AdmissionStepModel::ReadLog => AcceptanceStepModel::ReadLog,
                AdmissionStepModel::Refuse(error) => AcceptanceStepModel::Refuse(error),
                AdmissionStepModel::Answer(response) => AcceptanceStepModel::Answer(response),
                AdmissionStepModel::Retry => AcceptanceStepModel::LookAgain,
                AdmissionStepModel::Proceed => decided_step(
                    scope,
                    snapshot,
                    discovery,
                    a.verified,
                    a.intent,
                ),
            },
        },
    }
}

/// What taking up a snapshot has to do next.
pub open spec fn acceptance_step(
    scope: ScopeModel,
    snapshot: NeutronSnapshotRequestModel,
    a: AcceptanceModel,
) -> AcceptanceStepModel {
    match first_answer(a.restore_ready, scope, snapshot, a.arrival) {
        Err(error) => AcceptanceStepModel::Refuse(error),
        Ok(Some(response)) => AcceptanceStepModel::Answer(response),
        Ok(None) => match a.observed {
            None => AcceptanceStepModel::Observe,
            Some(observed) => observed_step(scope, snapshot, a, observed),
        },
    }
}

fn next_decided_step(
    scope: &ApplyScope,
    snapshot: &NeutronSnapshotRequest,
    discovery: &Discovery,
    verified: Option<bool>,
    intent: &Option<HostOutcome>,
) -> (r: AcceptanceStep)
    ensures
        r.deep_view() == decided_step(
            scope.deep_view(),
            snapshot.deep_view(),
            discovery.deep_view(),
            verified,
            intent.deep_view(),
        ),
{
    match decide_admission(scope, &discovery.runtime, snapshot, &discovery.inventory, verified) {
        AdmissionDecision::VerifyProjection(targets) => AcceptanceStep::VerifyProjection(targets),
        AdmissionDecision::Refuse(error) => AcceptanceStep::Refuse(error),
        AdmissionDecision::Answer(response) => AcceptanceStep::Answer(response),
        AdmissionDecision::Prepare(prepared) => match intent {
            None => AcceptanceStep::LogIntent(prepared.intent),
            Some(HostOutcome::Failed(error)) => AcceptanceStep::Refuse(
                internal_error("wal_intent_failed", error.as_str()),
            ),
            Some(HostOutcome::Done) => {
                let mut runtime = discovery.runtime.duplicate();
                let response = accept_snapshot(&mut runtime, snapshot);
                AcceptanceStep::Apply {
                    prepared,
                    before: discovery.runtime.duplicate(),
                    runtime,
                    response,
                }
            },
        },
    }
}

/// Tells what taking up a snapshot has to do next.
pub fn accept_neutron_snapshot_submit(
    scope: &ApplyScope,
    snapshot: &NeutronSnapshotRequest,
    acceptance: &SnapshotAcceptance,
) -> (r: AcceptanceStep)
    ensures
        r.deep_view() == acceptance_step(
            scope.deep_view(),
            snapshot.deep_view(),
            acceptance.deep_view(),
        ),
{
    match admission_preflight(acceptance.restore_ready, scope, snapshot, &acceptance.arrival) {
        Err(error) => {
            return AcceptanceStep::Refuse(error);
        },
        Ok(Some(response)) => {
            return AcceptanceStep::Answer(response);
        },
        Ok(None) => {},
    }
    let observed = match &acceptance.observed {
        None => {
            return AcceptanceStep::Observe;
        },
        Some(observed) => observed,
    };
    match observe_admission(observed, snapshot, &acceptance.observed_log) {
        AdmissionStep::ReadLog => {
            return AcceptanceStep::ReadLog;
        },
        AdmissionStep::Refuse(error) => {
            return AcceptanceStep::Refuse(error);
        },
        AdmissionStep::Answer(response) => {
            return AcceptanceStep::Answer(response);
        },
        AdmissionStep::Retry => {
            return AcceptanceStep::LookAgain;
        },
        AdmissionStep::Proceed => {},
    }
    let discovery = match &acceptance.discovered {
        None => {
            return AcceptanceStep::Discover;
        },
        Some(discovery) => discovery,
    };
    match revalidate_admission(
        acceptance.attempt,
        observed,
        &discovery.runtime,
        snapshot,
        &acceptance.discovered_log,
    ) {
        AdmissionStep::ReadLog => AcceptanceStep::ReadLog,
        AdmissionStep::Refuse(error) => AcceptanceStep::Refuse(error),
        AdmissionStep::Answer(response) => AcceptanceStep::Answer(response),
        AdmissionStep::Retry => AcceptanceStep::LookAgain,
        AdmissionStep::Proceed => next_decided_step(
            scope,
            snapshot,
            discovery,
            acceptance.verified,
            &acceptance.intent,
        ),
    }
}

impl SnapshotAcceptance {
    /// Begins to take up a snapshot.
    pub fn start(restore_ready: bool, arrival: NeutronRuntimeState) -> (r: Self)
        ensures
            r.deep_view() == arrived(restore_ready, arrival.deep_view(), 1),
    {
        SnapshotAcceptance {
            restore_ready,
            arrival,
            attempt: 1,
            observed: None,
            observed_log: None,
            discovered: None,
            discovered_log: None,
            verified: None,
            intent: None,
        }
    }

    /// Takes note of what came of a step.
    pub fn observe(&mut self, event: AcceptanceEvent)
        ensures
            final(self).deep_view() == acceptance_after(old(self).deep_view(), event.deep_view()),
    {
        match event {
            AcceptanceEvent::Observed(runtime) => {
                self.observed = Some(runtime);
            },
            AcceptanceEvent::LogRead(replay) => {
                if self.discovered.is_none() {
                    self.observed_log = Some(replay);
                } else {
                    self.discovered_log = Some(replay);
                }
            },
            AcceptanceEvent::Discovered(discovery) => {
                self.discovered = Some(discovery);
            },
            AcceptanceEvent::Verified(agrees) => {
                self.verified = Some(agrees);
            },
            AcceptanceEvent::IntentLogged(outcome) => {
                self.intent = Some(outcome);
            },
        }
    }

    /// Starts over with the next look at the runtime, where that is the next step.
    pub fn look_again(&mut self, scope: &ApplyScope, snapshot: &NeutronSnapshotRequest) -> (r: bool)
        ensures
            r == (acceptance_step(
                scope.deep_view(),
                snapshot.deep_view(),
                old(self).deep_view(),
            ) is LookAgain),
            final(self).deep_view() == if r {
                arrived(
                    old(self).restore_ready,
                    old(self).arrival.deep_view(),
                    (old(self).attempt + 1) as u64,
                )
            } else {
                old(self).deep_view()
            },
    {
        match accept_neutron_snapshot_submit(scope, snapshot, self) {
            AcceptanceStep::LookAgain => {},
            _ => {
                return false;
            },
        }
        proof {
            looks_are_counted(scope.deep_view(), snapshot.deep_view(), self.deep_view());
        }
        self.attempt += 1;
        self.observed = None;
        self.observed_log = None;
        self.discovered = None;
        self.discovered_log = None;
        self.verified = None;
        self.intent = None;
        true
    }
}

/// The runtime is looked at again only where it changed, and only below the limit of attempts.
pub proof fn looks_are_counted(
    scope: ScopeModel,
    snapshot: NeutronSnapshotRequestModel,
    a: AcceptanceModel,
)
    requires
        acceptance_step(scope, snapshot, a) is LookAgain,
    ensures
        a.attempt < SNAPSHOT_ADMISSION_REVALIDATION_ATTEMPTS,
        a.observed is Some && a.discovered is Some,
        identity_of(a.observed->0) != identity_of(a.discovered->0.runtime),
{
}

/// A snapshot is applied only once its intent is logged, and only on the runtime that it was held
/// against while the inventory was read.
pub proof fn snapshots_are_applied_only_once_logged(
    scope: ScopeModel,
    snapshot: NeutronSnapshotRequestModel,
    a: AcceptanceModel,
)
    requires
        acceptance_step(scope, snapshot, a) is Apply,
    ensures
        a.restore_ready,
        a.intent == Some(OutcomeModel::Done),
        a.observed is Some && a.discovered is Some,
        identity_of(a.observed->0) == identity_of(a.discovered->0.runtime),
        ({
            let step = acceptance_step(scope, snapshot, a);
            &&& step->Apply_before == a.discovered->0.runtime
            &&& acceptance_step(scope, snapshot, AcceptanceModel { intent: None, ..a })
                == AcceptanceStepModel::LogIntent(step->Apply_prepared.intent)
            &&& step->Apply_prepared.intent.generation == snapshot.generation
            &&& step->Apply_runtime.pending_generation == Some(snapshot.generation)
            &&& step->Apply_runtime.applied_generation == step->Apply_before.applied_generation
            &&& step->Apply_runtime.ports == step->Apply_before.ports
            &&& step->Apply_runtime.port_statuses == step->Apply_before.port_statuses
        }),
{
}

/// An intent that cannot be logged is not applied: the snapshot is refused.
pub proof fn unlogged_intents_are_refused(
    scope: ScopeModel,
    snapshot: NeutronSnapshotRequestModel,
    a: AcceptanceModel,
    error: Seq<char>,
)
    requires
        acceptance_step(scope, snapshot, a) is LogIntent,
        a.intent is None,
    ensures
        acceptance_step(
            scope,
            snapshot,
            acceptance_after(a, AcceptanceEventModel::IntentLogged(OutcomeModel::Failed(error))),
        ) == AcceptanceStepModel::Refuse(
            refusal(ReplyStatus::InternalServerError, "wal_intent_failed"@, error),
        ),
{
}

/// True when the inventory was read only once the runtime that was looked at let the snapshot pass.
pub open spec fn orderly(snapshot: NeutronSnapshotRequestModel, a: AcceptanceModel) -> bool {
    a.discovered is Some ==> a.observed is Some && observation_step(
        a.observed->0,
        snapshot,
        a.observed_log,
    ) is Proceed
}

/// True when an event is what comes of a step.
pub open spec fn answers(event: AcceptanceEventModel, step: AcceptanceStepModel) -> bool {
    match step {
        AcceptanceStepModel::Observe => event is Observed,
        AcceptanceStepModel::ReadLog => event is LogRead,
        AcceptanceStepModel::Discover => event is Discovered,
        AcceptanceStepModel::VerifyProjection(_) => event is Verified,
        AcceptanceStepModel::LogIntent(_) => event is IntentLogged,
        _ => false,
    }
}

/// A snapshot that just came in is in order, and stays so as long as the steps are done that are
/// asked for.
pub proof fn acceptance_stays_orderly(
    scope: ScopeModel,
    snapshot: NeutronSnapshotRequestModel,
    a: AcceptanceModel,
    event: AcceptanceEventModel,
)
    ensures
        orderly(snapshot, arrived(a.restore_ready, a.arrival, a.attempt)),
        orderly(snapshot, a) && answers(event, acceptance_step(scope, snapshot, a)) ==> orderly(
            snapshot,
            acceptance_after(a, event),
        ),
{
}

/// No step is asked for a second time within one look at the runtime.
pub proof fn acceptance_steps_are_asked_for_once(
    scope: ScopeModel,
    snapshot: NeutronSnapshotRequestModel,
    a: AcceptanceModel,
)
    requires
        orderly(snapshot, a),
    ensures
        acceptance_step(scope, snapshot, a) is Observe ==> a.observed is None,
        acceptance_step(scope, snapshot, a) is ReadLog ==> if a.discovered is None {
            a.observed_log is None
        } else {
            a.discovered_log is None
        },
        acceptance_step(scope, snapshot, a) is Discover ==> a.discovered is None,
        acceptance_step(scope, snapshot, a) is VerifyProjection ==> a.verified is None,
        acceptance_step(scope, snapshot, a) is LogIntent ==> a.intent is None,
{
}

/// A snapshot is decided on what was found: once the runtime was observed and the switch read, with
/// the runtime unchanged and nothing pending, what becomes of it is the decision on just that.
pub proof fn snapshots_are_decided_on_what_was_found(
    scope: ScopeModel,
    snapshot: NeutronSnapshotRequestModel,
    a: AcceptanceModel,
)
    requires
        first_answer(a.restore_ready, scope, snapshot, a.arrival) == Ok::<
            Option<crate::model::NeutronSnapshotResponseModel>,
            crate::scope::SnapshotApplyErrorModel,
        >(None),
        a.observed is Some,
        a.observed->0.pending_generation is None,
    ensures
        a.discovered is None ==> acceptance_step(scope, snapshot, a) is Discover,
        a.discovered matches Some(found) ==> found.runtime == a.observed->0 ==> {
            let step = acceptance_step(scope, snapshot, a);
            match decision(scope, found.runtime, snapshot, found.inventory, a.verified) {
                AdmissionDecisionModel::VerifyProjection(targets) => step
                    == AcceptanceStepModel::VerifyProjection(targets),
                AdmissionDecisionModel::Refuse(error) => step == AcceptanceStepModel::Refuse(error),
                AdmissionDecisionModel::Answer(response) => step == AcceptanceStepModel::Answer(
                    response,
                ),
                AdmissionDecisionModel::Prepare(prepared) => {
                    &&& a.intent is None ==> step == AcceptanceStepModel::LogIntent(prepared.intent)
                    &&& a.intent == Some(OutcomeModel::Done) ==> step is Apply
                        && step->Apply_prepared == prepared && step->Apply_before == found.runtime
                        && step->Apply_response.status == "pending"@
                        && step->Apply_response.generation == snapshot.generation
                    &&& a.intent is Some && a.intent->0 is Failed ==> step is Refuse
                },
            }
        },
{
}

/// What came of a step is noted in its place, and nothing else changes: a log that was read belongs to
/// the look at the runtime before the switch was read, or to the one after it.
pub proof fn acceptance_events_are_noted_in_their_place(
    a: AcceptanceModel,
    event: AcceptanceEventModel,
)
    ensures
        ({
            let next = acceptance_after(a, event);
            &&& next.restore_ready == a.restore_ready
            &&& next.arrival == a.arrival
            &&& next.attempt == a.attempt
            &&& next.observed == if event is Observed {
                Some(event->Observed_0)
            } else {
                a.observed
            }
            &&& next.observed_log == if event is LogRead && a.discovered is None {
                Some(event->LogRead_0)
            } else {
                a.observed_log
            }
            &&& next.discovered == if event is Discovered {
                Some(event->Discovered_0)
            } else {
                a.discovered
            }
            &&& next.discovered_log == if event is LogRead && a.discovered is Some {
                Some(event->LogRead_0)
            } else {
                a.discovered_log
            }
            &&& next.verified == if event is Verified {
                Some(event->Verified_0)
            } else {
                a.verified
            }
            &&& next.intent == if event is IntentLogged {
                Some(event->IntentLogged_0)
            } else {
                a.intent
            }
        }),
{
}

} // verus!
