//! The course of a simulation: which step follows which, what each step is run
//! with, and what the status of a script means. The steps themselves are carried
//! out by whoever drives the run, and reported back as events.

use vstd::prelude::*;
use crate::config::ConfigKind;
use crate::error::{ConfigError, PatchError, SimulationError};
use crate::patch::{DUMMY_PROPOSAL_ID, MAGIC_FAILED_NEXT_EXECUTION_HASH_CHECK};
use crate::state::{applied, SimulationStateView, WriteSet};

verus! {

/// The gas that a script may use at most.
pub const MAX_GAS_AMOUNT: u64 = 100000;

/// The time to live of a script transaction: without limit.
pub const TRANSACTION_TTL: u64 = 0xFFFF_FFFF_FFFF_FFFF;

/// The balance that the sender of the scripts is funded with: 100 coins of
/// 100,000,000 units.
pub const SENDER_BALANCE: u64 = 10_000_000_000;

/// How the execution of a transaction ended.
#[derive(Clone, Copy, PartialEq, Eq, Structural, Debug)]
pub enum ExecutionStatus {
    Success,
    OutOfGas,
    /// The transaction aborted with the given code.
    MoveAbort { code: u64 },
    ExecutionFailure,
    MiscellaneousError,
}

/// What becomes of a transaction.
#[derive(Clone, Copy, PartialEq, Eq, Structural, Debug)]
pub enum TransactionStatus {
    /// The transaction is discarded.
    Discard,
    /// The transaction is kept, with the given status.
    Keep(ExecutionStatus),
    /// The transaction is to be run again.
    Retry,
}

/// What the status of a script means for the run.
#[derive(Clone, Copy, PartialEq, Eq, Structural, Debug)]
pub enum Outcome {
    /// The script succeeded: its changes are to be absorbed.
    Success,
    /// The resolver found a next execution hash where there must be none.
    NextExecutionHashNotEmpty,
    /// The script failed otherwise.
    Failure,
}

/// What a status means: a script that is kept with success has succeeded; one
/// that aborted with the magic code has broken the rule on the next execution
/// hash; every other status is a failure.
pub open spec fn outcome_of(status: TransactionStatus) -> Outcome {
    match status {
        TransactionStatus::Keep(ExecutionStatus::Success) => Outcome::Success,
        TransactionStatus::Keep(ExecutionStatus::MoveAbort { code }) => if code
            == MAGIC_FAILED_NEXT_EXECUTION_HASH_CHECK {
            Outcome::NextExecutionHashNotEmpty
        } else {
            Outcome::Failure
        },
        _ => Outcome::Failure,
    }
}

/// Tells what the status of a script means for the run.
pub fn interpret_status(status: &TransactionStatus) -> (outcome: Outcome)
    ensures
        outcome == outcome_of(*status),
{
    match status {
        TransactionStatus::Keep(ExecutionStatus::Success) => Outcome::Success,
        TransactionStatus::Keep(ExecutionStatus::MoveAbort { code }) => {
            if *code == MAGIC_FAILED_NEXT_EXECUTION_HASH_CHECK {
                Outcome::NextExecutionHashNotEmpty
            } else {
                Outcome::Failure
            }
        },
        _ => Outcome::Failure,
    }
}

/// Absorbs what the routine that ends the epoch has changed, so that buffered
/// configuration changes take effect. The routine publishes no module: the
/// write set of modules that it hands out beside its changes is empty.
pub fn force_end_epoch(
    state_view: &mut SimulationStateView,
    change_set: WriteSet,
    module_write_set_is_empty: bool,
)
    requires
        old(state_view).well_formed(),
        module_write_set_is_empty,
    ensures
        final(state_view).well_formed(),
        final(state_view)@ == applied(old(state_view)@, change_set@),
{
    state_view.apply_write_set(change_set);
}

/// Where a run stands.
#[derive(Clone, Copy, PartialEq, Eq, Structural, Debug)]
pub enum Stage {
    /// Nothing has been done.
    Init,
    /// The epoch is being forced to end, so that configuration changes that a
    /// script before has buffered take effect.
    EpochForce,
    /// The configurations are being fetched anew.
    ConfigRefresh,
    /// The governance module is being patched.
    Patch,
    /// The hash of the script is being approved.
    HashWhitelist,
    /// The script is being run.
    Execute,
    /// The changes of the script are being absorbed into the overlay.
    Absorb,
    /// Every script has succeeded.
    Done,
    /// A step has failed.
    Failed,
}

/// What a script transaction is built with.
#[derive(Clone, Copy, PartialEq, Eq, Structural, Debug)]
pub struct TransactionParams {
    /// The index of the script among the scripts of the proposal.
    pub script: usize,
    /// The sequence number of the sender.
    pub sequence_number: u64,
    /// The one argument of the script: a proposal id, which the patched
    /// resolver ignores.
    pub proposal_id: u64,
    pub max_gas_amount: u64,
    pub ttl: u64,
}

/// What the driver of a run is to do next.
#[derive(Clone, Debug, PartialEq, Eq)]
pub enum Action {
    /// Run the routine that ends the epoch, and absorb its changes. It must
    /// publish no module.
    ForceEndEpoch,
    /// Fetch the chain id, the gas schedule and the feature flags.
    RefreshConfigs,
    /// Patch the governance module.
    PatchGovernance { forbid_next_execution_hash: bool },
    /// Approve the hash of the script at the given index.
    WhitelistHash { script: usize },
    /// Run the script as a transaction.
    Execute(TransactionParams),
    /// Absorb the changes of the script at the given index.
    Absorb { script: usize },
    /// Report that every script has succeeded.
    Finish,
    /// Report the failure.
    Fail(SimulationError),
    /// Nothing: the run has ended.
    Halt,
}

/// What the driver of a run reports.
#[derive(Clone, Debug, PartialEq, Eq)]
pub enum Event {
    /// The run is to start.
    Started,
    /// The epoch has ended and its changes are absorbed.
    EpochForced,
    /// The epoch could not be forced to end.
    EpochForceFailed,
    /// The configurations are fetched.
    ConfigsRefreshed,
    /// The given configuration could not be fetched.
    ConfigMissing(ConfigKind),
    /// The governance module is patched.
    Patched,
    /// The governance module could not be patched.
    PatchFailed(PatchError),
    /// The hash of the script is approved.
    HashWhitelisted,
    /// The hash of the script could not be approved.
    HashWhitelistFailed(ConfigError),
    /// The script has run, with the given status.
    Executed(TransactionStatus),
    /// The script could not be run, or its output could not be had.
    ExecutionFailed,
    /// The changes of the script are absorbed.
    Absorbed,
}

/// The state of the run of one proposal.
#[derive(Clone, Copy, PartialEq, Eq, Structural, Debug)]
pub struct Workflow {
    pub stage: Stage,
    /// The number of scripts of the proposal.
    pub num_steps: usize,
    /// The number of scripts whose changes have been absorbed, which is the
    /// index of the script in progress.
    pub step: usize,
}

/// The parameters of the transaction that runs the script at `step`: the
/// sequence number is the index of the script.
pub open spec fn transaction_params(step: usize) -> TransactionParams {
    TransactionParams {
        script: step,
        sequence_number: step as u64,
        proposal_id: DUMMY_PROPOSAL_ID,
        max_gas_amount: MAX_GAS_AMOUNT,
        ttl: TRANSACTION_TTL,
    }
}

impl Workflow {
    /// The state is one that a run can be in: a script is in progress only
    /// where there is one left, and the run is done where there is none.
    pub open spec fn well_formed(self) -> bool {
        &&& self.step <= self.num_steps
        &&& self.num_steps <= u64::MAX
        &&& match self.stage {
            Stage::Init => self.step == 0,
            Stage::Done => self.step == self.num_steps,
            Stage::Failed => true,
            _ => self.step < self.num_steps,
        }
    }

    /// The state in which the run has failed.
    pub open spec fn failed(self) -> Workflow {
        Workflow { stage: Stage::Failed, ..self }
    }

    /// The state at the given stage of the script in progress.
    pub open spec fn at(self, stage: Stage) -> Workflow {
        Workflow { stage, ..self }
    }

    /// The state and the action with which the script at `step` begins, or with
    /// which the run ends where there is no such script.
    pub open spec fn begin(self, step: usize) -> (Workflow, Action) {
        if step < self.num_steps {
            (Workflow { stage: Stage::EpochForce, step, ..self }, Action::ForceEndEpoch)
        } else {
            (Workflow { stage: Stage::Done, step, ..self }, Action::Finish)
        }
    }

    /// The state that follows on an event, and what is to be done next. Each
    /// stage waits for the report of its own step: success leads to the next
    /// stage, failure to `Failed`. A script that succeeded is absorbed, and only
    /// then the next script begins. Only the last script is run with the
    /// resolver that forbids a next execution hash. Anything else that is
    /// reported fails the run, and a run that has ended stays as it is.
    pub open spec fn transition(self, event: Event) -> (Workflow, Action) {
        match self.stage {
            Stage::Done | Stage::Failed => (self, Action::Halt),
            Stage::Init => match event {
                Event::Started => self.begin(0),
                _ => (self.failed(), Action::Fail(SimulationError::UnexpectedEvent)),
            },
            Stage::EpochForce => match event {
                Event::EpochForced => (self.at(Stage::ConfigRefresh), Action::RefreshConfigs),
                Event::EpochForceFailed => (
                    self.failed(),
                    Action::Fail(SimulationError::EpochForceFailed),
                ),
                _ => (self.failed(), Action::Fail(SimulationError::UnexpectedEvent)),
            },
            Stage::ConfigRefresh => match event {
                Event::ConfigsRefreshed => (
                    self.at(Stage::Patch),
                    Action::PatchGovernance {
                        forbid_next_execution_hash: self.step == self.num_steps - 1,
                    },
                ),
                Event::ConfigMissing(kind) => (
                    self.failed(),
                    Action::Fail(SimulationError::ConfigNotFound(kind)),
                ),
                _ => (self.failed(), Action::Fail(SimulationError::UnexpectedEvent)),
            },
            Stage::Patch => match event {
                Event::Patched => (
                    self.at(Stage::HashWhitelist),
                    Action::WhitelistHash { script: self.step },
                ),
                Event::PatchFailed(e) => (
                    self.failed(),
                    Action::Fail(SimulationError::PatchFailed(e)),
                ),
                _ => (self.failed(), Action::Fail(SimulationError::UnexpectedEvent)),
            },
            Stage::HashWhitelist => match event {
                Event::HashWhitelisted => (
                    self.at(Stage::Execute),
                    Action::Execute(transaction_params(self.step)),
                ),
                Event::HashWhitelistFailed(e) => (
                    self.failed(),
                    Action::Fail(SimulationError::HashWhitelistFailed(e)),
                ),
                _ => (self.failed(), Action::Fail(SimulationError::UnexpectedEvent)),
            },
            Stage::Execute => match event {
                Event::Executed(status) => match outcome_of(status) {
                    Outcome::Success => (
                        self.at(Stage::Absorb),
                        Action::Absorb { script: self.step },
                    ),
                    Outcome::NextExecutionHashNotEmpty => (
                        self.failed(),
                        Action::Fail(SimulationError::NextExecutionHashNotEmpty),
                    ),
                    Outcome::Failure => (
                        self.failed(),
                        Action::Fail(SimulationError::ScriptFailed(self.step)),
                    ),
                },
                Event::ExecutionFailed => (
                    self.failed(),
                    Action::Fail(SimulationError::ExecutionUnavailable),
                ),
                _ => (self.failed(), Action::Fail(SimulationError::UnexpectedEvent)),
            },
            Stage::Absorb => match event {
                Event::Absorbed => self.begin((self.step + 1) as usize),
                _ => (self.failed(), Action::Fail(SimulationError::UnexpectedEvent)),
            },
        }
    }

    /// The state in which a run of `num_steps` scripts begins.
    pub fn new(num_steps: usize) -> (workflow: Workflow)
        ensures
            workflow == (Workflow { stage: Stage::Init, num_steps, step: 0 }),
            workflow.well_formed(),
    {
        Workflow { stage: Stage::Init, num_steps, step: 0 }
    }

    /// Whether the run has ended, in success or in failure.
    pub fn is_over(&self) -> (r: bool)
        ensures
            r == (self.stage == Stage::Done || self.stage == Stage::Failed),
    {
        match self.stage {
            Stage::Done | Stage::Failed => true,
            _ => false,
        }
    }

    /// Ends the run in failure.
    fn fail(&mut self, error: SimulationError) -> (action: Action)
        ensures
            *final(self) == old(self).failed(),
            action == Action::Fail(error),
    {
        self.stage = Stage::Failed;
        Action::Fail(error)
    }

    /// Begins the script at `step`, or ends the run where there is none.
    fn enter(&mut self, step: usize) -> (action: Action)
        ensures
            (*final(self), action) == old(self).begin(step),
    {
        self.step = step;
        if step < self.num_steps {
            self.stage = Stage::EpochForce;
            Action::ForceEndEpoch
        } else {
            self.stage = Stage::Done;
            Action::Finish
        }
    }

    /// Takes the report of the driver, moves to the state that follows, and
    /// tells what is to be done next.
    pub fn advance(&mut self, event: Event) -> (action: Action)
        requires
            old(self).well_formed(),
        ensures
            final(self).well_formed(),
            (*final(self), action) == old(self).transition(event),
    {
        match self.stage {
            Stage::Done | Stage::Failed => Action::Halt,
            Stage::Init => match event {
                Event::Started => self.enter(0),
                _ => self.fail(SimulationError::UnexpectedEvent),
            },
            Stage::EpochForce => match event {
                Event::EpochForced => {
                    self.stage = Stage::ConfigRefresh;
                    Action::RefreshConfigs
                },
                Event::EpochForceFailed => self.fail(SimulationError::EpochForceFailed),
                _ => self.fail(SimulationError::UnexpectedEvent),
            },
            Stage::ConfigRefresh => match event {
                Event::ConfigsRefreshed => {
                    self.stage = Stage::Patch;
                    Action::PatchGovernance {
                        forbid_next_execution_hash: self.step == self.num_steps - 1,
                    }
                },
                Event::ConfigMissing(kind) => self.fail(SimulationError::ConfigNotFound(kind)),
                _ => self.fail(SimulationError::UnexpectedEvent),
            },
            Stage::Patch => match event {
                Event::Patched => {
                    self.stage = Stage::HashWhitelist;
                    Action::WhitelistHash { script: self.step }
                },
                Event::PatchFailed(e) => self.fail(SimulationError::PatchFailed(e)),
                _ => self.fail(SimulationError::UnexpectedEvent),
            },
            Stage::HashWhitelist => match event {
                Event::HashWhitelisted => {
                    self.stage = Stage::Execute;
                    Action::Execute(
                        TransactionParams {
                            script: self.step,
                            sequence_number: self.step as u64,
                            proposal_id: DUMMY_PROPOSAL_ID,
                            max_gas_amount: MAX_GAS_AMOUNT,
                            ttl: TRANSACTION_TTL,
                        },
                    )
                },
                Event::HashWhitelistFailed(e) => self.fail(
                    SimulationError::HashWhitelistFailed(e),
                ),
                _ => self.fail(SimulationError::UnexpectedEvent),
            },
            Stage::Execute => match event {
                Event::Executed(status) => match interpret_status(&status) {
                    Outcome::Success => {
                        self.stage = Stage::Absorb;
                        Action::Absorb { script: self.step }
                    },
                    Outcome::NextExecutionHashNotEmpty => self.fail(
                        SimulationError::NextExecutionHashNotEmpty,
                    ),
                    Outcome::Failure => {
                        let script: usize = self.step;
                        self.fail(SimulationError::ScriptFailed(script))
                    },
                },
                Event::ExecutionFailed => self.fail(SimulationError::ExecutionUnavailable),
                _ => self.fail(SimulationError::UnexpectedEvent),
            },
            Stage::Absorb => match event {
                Event::Absorbed => {
                    let next: usize = self.step + 1;
                    self.enter(next)
                },
                _ => self.fail(SimulationError::UnexpectedEvent),
            },
        }
    }
}

/// The state that a run reaches on a sequence of events.
pub open spec fn state_after(start: Workflow, events: Seq<Event>) -> Workflow
    decreases events.len(),
{
    if events.len() == 0 {
        start
    } else {
        state_after(start, events.drop_last()).transition(events.last()).0
    }
}

/// The actions that a run asks for on a sequence of events, one for each.
pub open spec fn actions_after(start: Workflow, events: Seq<Event>) -> Seq<Action>
    decreases events.len(),
{
    if events.len() == 0 {
        Seq::empty()
    } else {
        actions_after(start, events.drop_last()).push(
            state_after(start, events.drop_last()).transition(events.last()).1,
        )
    }
}

/// The sequence numbers of the transactions among the actions, in their order.
pub open spec fn sequence_numbers(actions: Seq<Action>) -> Seq<u64>
    decreases actions.len(),
{
    if actions.len() == 0 {
        Seq::empty()
    } else {
        match actions.last() {
            Action::Execute(params) => sequence_numbers(actions.drop_last()).push(
                params.sequence_number,
            ),
            _ => sequence_numbers(actions.drop_last()),
        }
    }
}

/// The number of requests to absorb among the actions.
pub open spec fn absorptions(actions: Seq<Action>) -> nat
    decreases actions.len(),
{
    if actions.len() == 0 {
        0
    } else {
        absorptions(actions.drop_last()) + if actions.last() is Absorb {
            1nat
        } else {
            0nat
        }
    }
}

/// The number of scripts that a run in the given state has run or is running.
pub open spec fn launched(state: Workflow) -> int {
    if state.stage == Stage::Execute || state.stage == Stage::Absorb {
        state.step + 1
    } else {
        state.step as int
    }
}

/// The number of scripts whose absorption has been asked for.
pub open spec fn absorbing(state: Workflow) -> int {
    if state.stage == Stage::Absorb {
        state.step + 1
    } else {
        state.step as int
    }
}

/// A step keeps a state well formed.
pub proof fn lemma_transition_well_formed(state: Workflow, event: Event)
    requires
        state.well_formed(),
    ensures
        state.transition(event).0.well_formed(),
{
}

/// A script is run only once its hash is approved, with its index for its
/// sequence number, and the index of the script in progress moves on by one when
/// its changes are absorbed, and at no other time.
pub proof fn lemma_transition_order(state: Workflow, event: Event)
    requires
        state.well_formed(),
    ensures
        state.transition(event).1 matches Action::Execute(params) ==> {
            &&& state.stage == Stage::HashWhitelist
            &&& params.script == state.step
            &&& params.sequence_number == state.step
        },
        state.transition(event).1 is Absorb ==> state.stage == Stage::Execute,
        state.transition(event).0.step == if state.stage == Stage::Absorb && event is Absorbed {
            state.step + 1
        } else {
            state.step as int
        },
{
}

/// Sequencing: whatever is reported to a run, the transactions it asks for
/// carry the sequence numbers 0, 1, 2 and so on, in this order, and when it asks
/// for the transaction of a script, the absorption of every script before it has
/// been asked for and reported. A run that is done has run every script.
pub proof fn lemma_sequencing(num_steps: usize, events: Seq<Event>)
    ensures
        state_after(Workflow { stage: Stage::Init, num_steps, step: 0 }, events).well_formed(),
        forall|i: int|
            0 <= i < sequence_numbers(
                actions_after(Workflow { stage: Stage::Init, num_steps, step: 0 }, events),
            ).len() ==> sequence_numbers(
                actions_after(Workflow { stage: Stage::Init, num_steps, step: 0 }, events),
            )[i] == i,
        absorptions(actions_after(Workflow { stage: Stage::Init, num_steps, step: 0 }, events))
            <= sequence_numbers(
            actions_after(Workflow { stage: Stage::Init, num_steps, step: 0 }, events),
        ).len() <= absorptions(
            actions_after(Workflow { stage: Stage::Init, num_steps, step: 0 }, events),
        ) + 1,
        state_after(Workflow { stage: Stage::Init, num_steps, step: 0 }, events).stage
            == Stage::Done ==> sequence_numbers(
            actions_after(Workflow { stage: Stage::Init, num_steps, step: 0 }, events),
        ).len() == num_steps,
{
    lemma_run(Workflow { stage: Stage::Init, num_steps, step: 0 }, events);
}

/// What `lemma_sequencing` states, with what carries it from one event to the
/// next: while a run has not failed, it has asked for as many transactions as
/// it has scripts behind it or under way.
proof fn lemma_run(start: Workflow, events: Seq<Event>)
    requires
        start == (Workflow { stage: Stage::Init, num_steps: start.num_steps, step: 0 }),
    ensures
        state_after(start, events).well_formed(),
        state_after(start, events).num_steps == start.num_steps,
        forall|i: int|
            0 <= i < sequence_numbers(actions_after(start, events)).len() ==> sequence_numbers(
                actions_after(start, events),
            )[i] == i,
        absorptions(actions_after(start, events)) <= sequence_numbers(
            actions_after(start, events),
        ).len() <= absorptions(actions_after(start, events)) + 1,
        state_after(start, events).stage != Stage::Failed ==> {
            &&& sequence_numbers(actions_after(start, events)).len() == launched(
                state_after(start, events),
            )
            &&& absorptions(actions_after(start, events)) == absorbing(state_after(start, events))
        },
    decreases events.len(),
{
    if events.len() > 0 {
        let before = events.drop_last();
        lemma_run(start, before);
        let state = state_after(start, before);
        let actions = actions_after(start, before);
        let action = state.transition(events.last()).1;
        assert(actions_after(start, events).drop_last() =~= actions);
        assert(actions_after(start, events).last() == action);
    }
}

/// The run of a batch of proposals, one after another.
#[derive(Clone, Copy, PartialEq, Eq, Structural, Debug)]
pub struct Batch {
    /// The number of proposals.
    pub num_proposals: usize,
    /// The number of proposals that have succeeded.
    pub succeeded: usize,
    /// Whether the batch has stopped on a failure.
    pub stopped: bool,
}

/// What the driver of a batch is to do next.
#[derive(Clone, Debug, PartialEq, Eq)]
pub enum BatchAction {
    /// Simulate the proposal at the given index.
    Simulate(usize),
    /// Report that every proposal has succeeded.
    Finish,
    /// Report the failure.
    Fail(SimulationError),
    /// Nothing: the batch has ended.
    Halt,
}

impl Batch {
    /// What is to be done in the state: the next proposal is simulated, and
    /// when none is left the batch is finished.
    pub open spec fn next_action(self) -> BatchAction {
        if self.succeeded < self.num_proposals {
            BatchAction::Simulate(self.succeeded)
        } else {
            BatchAction::Finish
        }
    }

    /// The state in which a batch begins and what is to be done first. A batch
    /// without proposals fails at once.
    pub open spec fn spec_start(num_proposals: usize) -> (Batch, BatchAction) {
        if num_proposals == 0 {
            (
                Batch { num_proposals, succeeded: 0, stopped: true },
                BatchAction::Fail(SimulationError::NoProposalsFound),
            )
        } else {
            (Batch { num_proposals, succeeded: 0, stopped: false }, BatchAction::Simulate(0))
        }
    }

    /// The state after the simulation of a proposal has ended, and what is to be
    /// done next. The first failure stops the batch: no proposal after it is
    /// simulated.
    pub open spec fn spec_proposal_ended(self, success: bool) -> (Batch, BatchAction) {
        if self.stopped || self.succeeded >= self.num_proposals {
            (self, BatchAction::Halt)
        } else if success {
            let next = Batch { succeeded: (self.succeeded + 1) as usize, ..self };
            (next, next.next_action())
        } else {
            (
                Batch { stopped: true, ..self },
                BatchAction::Fail(SimulationError::ProposalFailed(self.succeeded)),
            )
        }
    }

    /// Begins a batch of `num_proposals` proposals.
    pub fn start(num_proposals: usize) -> (r: (Batch, BatchAction))
        ensures
            r == Batch::spec_start(num_proposals),
    {
        if num_proposals == 0 {
            (
                Batch { num_proposals, succeeded: 0, stopped: true },
                BatchAction::Fail(SimulationError::NoProposalsFound),
            )
        } else {
            (Batch { num_proposals, succeeded: 0, stopped: false }, BatchAction::Simulate(0))
        }
    }

    /// Takes the end of the simulation of a proposal, and tells what is to be
    /// done next.
    pub fn proposal_ended(&mut self, success: bool) -> (action: BatchAction)
        ensures
            (*final(self), action) == old(self).spec_proposal_ended(success),
    {
        if self.stopped || self.succeeded >= self.num_proposals {
            BatchAction::Halt
        } else if success {
            self.succeeded = self.succeeded + 1;
            if self.succeeded < self.num_proposals {
                BatchAction::Simulate(self.succeeded)
            } else {
                BatchAction::Finish
            }
        } else {
            self.stopped = true;
            BatchAction::Fail(SimulationError::ProposalFailed(self.succeeded))
        }
    }
}

} // verus!
