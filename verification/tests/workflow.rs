use govsim::config::{add_script_execution_hash, ConfigKind};
use govsim::error::{ConfigError, PatchError, SimulationError};
use govsim::file_format::{
    AccountAddress, AddressIdentifierIndex, Bytecode, CodeUnit, CompiledModule, FunctionDefinition,
    FunctionHandle, FunctionHandleIndex, Identifier, IdentifierIndex, ModuleHandle,
    ModuleHandleIndex, Signature, SignatureIndex, SignatureToken, Visibility,
};
use govsim::patch::{module_id_aptos_governance, patch_aptos_governance};
use govsim::state::{SimulationStateView, StateKey, StateValue, WriteOp, WriteSet};
use govsim::workflow::{
    force_end_epoch, interpret_status, Action, Batch, BatchAction, Event, ExecutionStatus, Outcome,
    Stage, TransactionParams, TransactionStatus, Workflow, MAX_GAS_AMOUNT, SENDER_BALANCE,
    TRANSACTION_TTL,
};

const SUCCESS: TransactionStatus = TransactionStatus::Keep(ExecutionStatus::Success);

fn params(step: usize) -> TransactionParams {
    TransactionParams {
        script: step,
        sequence_number: step as u64,
        proposal_id: u64::MAX,
        max_gas_amount: 100000,
        ttl: u64::MAX,
    }
}

/// Drives a script through its stages up to the request to run it.
fn up_to_execution(workflow: &mut Workflow, step: usize, last: bool) {
    assert_eq!(workflow.stage, Stage::EpochForce);
    assert_eq!(workflow.step, step);
    assert_eq!(workflow.advance(Event::EpochForced), Action::RefreshConfigs);
    assert_eq!(
        workflow.advance(Event::ConfigsRefreshed),
        Action::PatchGovernance { forbid_next_execution_hash: last }
    );
    assert_eq!(workflow.advance(Event::Patched), Action::WhitelistHash { script: step });
    assert_eq!(workflow.advance(Event::HashWhitelisted), Action::Execute(params(step)));
    assert_eq!(workflow.stage, Stage::Execute);
}

#[test]
fn the_constants_of_a_transaction() {
    assert_eq!(MAX_GAS_AMOUNT, 100000);
    assert_eq!(TRANSACTION_TTL, u64::MAX);
    assert_eq!(SENDER_BALANCE, 100 * 100_000_000);
}

#[test]
fn a_status_is_success_only_when_kept_with_success() {
    assert_eq!(interpret_status(&SUCCESS), Outcome::Success);
    assert_eq!(interpret_status(&TransactionStatus::Discard), Outcome::Failure);
    assert_eq!(interpret_status(&TransactionStatus::Retry), Outcome::Failure);
    assert_eq!(
        interpret_status(&TransactionStatus::Keep(ExecutionStatus::OutOfGas)),
        Outcome::Failure
    );
    assert_eq!(
        interpret_status(&TransactionStatus::Keep(ExecutionStatus::ExecutionFailure)),
        Outcome::Failure
    );
    assert_eq!(
        interpret_status(&TransactionStatus::Keep(ExecutionStatus::MiscellaneousError)),
        Outcome::Failure
    );
}

#[test]
fn an_abort_with_the_magic_code_is_told_apart_from_other_aborts() {
    let magic = TransactionStatus::Keep(ExecutionStatus::MoveAbort { code: 0xDEADBEEF });
    let near = TransactionStatus::Keep(ExecutionStatus::MoveAbort { code: 0xDEADBEEE });
    let zero = TransactionStatus::Keep(ExecutionStatus::MoveAbort { code: 0 });
    assert_eq!(interpret_status(&magic), Outcome::NextExecutionHashNotEmpty);
    assert_eq!(interpret_status(&near), Outcome::Failure);
    assert_eq!(interpret_status(&zero), Outcome::Failure);
}

#[test]
fn three_steps_run_with_the_sequence_numbers_0_1_2() {
    let mut workflow = Workflow::new(3);
    assert_eq!(workflow.stage, Stage::Init);
    let mut actions = vec![workflow.advance(Event::Started)];
    let mut sequence_numbers = vec![];
    let mut absorbed = 0;
    while !workflow.is_over() {
        let event = match actions.last().unwrap() {
            Action::ForceEndEpoch => Event::EpochForced,
            Action::RefreshConfigs => Event::ConfigsRefreshed,
            Action::PatchGovernance { forbid_next_execution_hash } => {
                assert_eq!(*forbid_next_execution_hash, workflow.step == 2);
                Event::Patched
            },
            Action::WhitelistHash { script } => {
                assert_eq!(*script, workflow.step);
                Event::HashWhitelisted
            },
            Action::Execute(params) => {
                // the changes of every script before this one are absorbed
                assert_eq!(absorbed, params.script);
                sequence_numbers.push(params.sequence_number);
                Event::Executed(SUCCESS)
            },
            Action::Absorb { script } => {
                assert_eq!(*script, absorbed);
                absorbed += 1;
                Event::Absorbed
            },
            other => panic!("unexpected action {:?}", other),
        };
        actions.push(workflow.advance(event));
    }
    assert_eq!(sequence_numbers, vec![0, 1, 2]);
    assert_eq!(absorbed, 3);
    assert_eq!(workflow.stage, Stage::Done);
    assert_eq!(actions.last(), Some(&Action::Finish));
    assert_eq!(actions.len(), 3 * 6 + 1);
}

#[test]
fn only_the_last_step_forbids_a_next_execution_hash() {
    let mut workflow = Workflow::new(2);
    assert_eq!(workflow.advance(Event::Started), Action::ForceEndEpoch);
    up_to_execution(&mut workflow, 0, false);
    assert_eq!(workflow.advance(Event::Executed(SUCCESS)), Action::Absorb { script: 0 });
    assert_eq!(workflow.advance(Event::Absorbed), Action::ForceEndEpoch);
    up_to_execution(&mut workflow, 1, true);
    assert_eq!(workflow.advance(Event::Executed(SUCCESS)), Action::Absorb { script: 1 });
    assert_eq!(workflow.advance(Event::Absorbed), Action::Finish);
    assert_eq!(workflow, Workflow { stage: Stage::Done, num_steps: 2, step: 2 });
}

#[test]
fn a_single_step_is_the_last_step() {
    let mut workflow = Workflow::new(1);
    assert_eq!(workflow.advance(Event::Started), Action::ForceEndEpoch);
    up_to_execution(&mut workflow, 0, true);
}

#[test]
fn a_proposal_without_scripts_is_done_at_once() {
    let mut workflow = Workflow::new(0);
    assert_eq!(workflow.advance(Event::Started), Action::Finish);
    assert_eq!(workflow.stage, Stage::Done);
    assert!(workflow.is_over());
}

#[test]
fn the_magic_abort_fails_the_proposal_with_its_own_error() {
    let mut workflow = Workflow::new(1);
    workflow.advance(Event::Started);
    up_to_execution(&mut workflow, 0, true);
    let status = TransactionStatus::Keep(ExecutionStatus::MoveAbort { code: 0xDEADBEEF });
    let action = workflow.advance(Event::Executed(status));
    assert_eq!(action, Action::Fail(SimulationError::NextExecutionHashNotEmpty));
    assert_eq!(workflow.stage, Stage::Failed);
    assert_eq!(
        SimulationError::NextExecutionHashNotEmpty.message("step_2.move"),
        "the last script has a non-zero next execution hash"
    );
}

#[test]
fn any_other_status_fails_the_proposal_as_a_failed_script() {
    let mut workflow = Workflow::new(2);
    workflow.advance(Event::Started);
    up_to_execution(&mut workflow, 0, false);
    let status = TransactionStatus::Keep(ExecutionStatus::MoveAbort { code: 1 });
    let action = workflow.advance(Event::Executed(status));
    assert_eq!(action, Action::Fail(SimulationError::ScriptFailed(0)));
    assert_eq!(workflow.stage, Stage::Failed);
    assert_eq!(
        SimulationError::ScriptFailed(0).message("step_1.move"),
        "failed to execute governance script: step_1.move"
    );
}

#[test]
fn a_failed_run_stays_failed() {
    let mut workflow = Workflow::new(2);
    workflow.advance(Event::Started);
    assert_eq!(
        workflow.advance(Event::EpochForceFailed),
        Action::Fail(SimulationError::EpochForceFailed)
    );
    let failed = workflow;
    assert_eq!(workflow.advance(Event::EpochForced), Action::Halt);
    assert_eq!(workflow.advance(Event::Started), Action::Halt);
    assert_eq!(workflow, failed);
    assert!(workflow.is_over());
}

#[test]
fn a_finished_run_stays_finished() {
    let mut workflow = Workflow::new(0);
    workflow.advance(Event::Started);
    assert_eq!(workflow.advance(Event::Started), Action::Halt);
    assert_eq!(workflow.advance(Event::Executed(SUCCESS)), Action::Halt);
    assert_eq!(workflow.stage, Stage::Done);
}

#[test]
fn each_stage_fails_on_the_failure_of_its_step() {
    let mut workflow = Workflow::new(1);
    workflow.advance(Event::Started);
    workflow.advance(Event::EpochForced);
    assert_eq!(
        workflow.advance(Event::ConfigMissing(ConfigKind::GasSchedule)),
        Action::Fail(SimulationError::ConfigNotFound(ConfigKind::GasSchedule))
    );

    let mut workflow = Workflow::new(1);
    workflow.advance(Event::Started);
    workflow.advance(Event::EpochForced);
    workflow.advance(Event::ConfigsRefreshed);
    assert_eq!(
        workflow.advance(Event::PatchFailed(PatchError::ModuleNotFound)),
        Action::Fail(SimulationError::PatchFailed(PatchError::ModuleNotFound))
    );

    let mut workflow = Workflow::new(1);
    workflow.advance(Event::Started);
    workflow.advance(Event::EpochForced);
    workflow.advance(Event::ConfigsRefreshed);
    workflow.advance(Event::Patched);
    assert_eq!(
        workflow.advance(Event::HashWhitelistFailed(ConfigError::ConfigNotFound)),
        Action::Fail(SimulationError::HashWhitelistFailed(ConfigError::ConfigNotFound))
    );

    let mut workflow = Workflow::new(1);
    workflow.advance(Event::Started);
    up_to_execution(&mut workflow, 0, true);
    assert_eq!(
        workflow.advance(Event::ExecutionFailed),
        Action::Fail(SimulationError::ExecutionUnavailable)
    );
    assert_eq!(workflow.stage, Stage::Failed);
}

#[test]
fn a_report_out_of_order_fails_the_run() {
    let mut workflow = Workflow::new(2);
    assert_eq!(
        workflow.advance(Event::EpochForced),
        Action::Fail(SimulationError::UnexpectedEvent)
    );
    assert_eq!(workflow.stage, Stage::Failed);

    let mut workflow = Workflow::new(2);
    workflow.advance(Event::Started);
    assert_eq!(
        workflow.advance(Event::Executed(SUCCESS)),
        Action::Fail(SimulationError::UnexpectedEvent)
    );

    let mut workflow = Workflow::new(2);
    workflow.advance(Event::Started);
    up_to_execution(&mut workflow, 0, false);
    // a script must be absorbed before the next one begins
    assert_eq!(workflow.advance(Event::Absorbed), Action::Fail(SimulationError::UnexpectedEvent));

    let mut workflow = Workflow::new(2);
    workflow.advance(Event::Started);
    up_to_execution(&mut workflow, 0, false);
    workflow.advance(Event::Executed(SUCCESS));
    assert_eq!(workflow.stage, Stage::Absorb);
    assert_eq!(
        workflow.advance(Event::EpochForced),
        Action::Fail(SimulationError::UnexpectedEvent)
    );
}

#[test]
fn the_messages_of_simulation_errors() {
    let name = "s.move";
    assert_eq!(SimulationError::EpochForceFailed.message(name), "failed to force end epoch");
    assert_eq!(
        SimulationError::ConfigNotFound(ConfigKind::ChainId).message(name),
        "failed to fetch chain id"
    );
    assert_eq!(
        SimulationError::ConfigNotFound(ConfigKind::GasSchedule).message(name),
        "failed to fetch gas schedule v2"
    );
    assert_eq!(
        SimulationError::ConfigNotFound(ConfigKind::Features).message(name),
        "failed to fetch feature flags"
    );
    assert_eq!(
        SimulationError::ConfigNotFound(ConfigKind::ApprovedExecutionHashes).message(name),
        "failed to fetch on-chain config: ApprovedExecutionHashes"
    );
    assert_eq!(
        SimulationError::PatchFailed(PatchError::TableFull).message(name),
        "failed to patch resolve_multistep_proposal"
    );
    assert_eq!(
        SimulationError::HashWhitelistFailed(ConfigError::EncodingFailed).message(name),
        "failed to add script execution hash"
    );
    assert_eq!(
        SimulationError::ExecutionUnavailable.message(name),
        "failed to materialize transaction output"
    );
    assert_eq!(
        SimulationError::UnexpectedEvent.message(name),
        "the simulation was driven out of order"
    );
    assert_eq!(
        SimulationError::NoProposalsFound.message(name),
        "failed to simulate proposals: no proposals found"
    );
    assert_eq!(SimulationError::ProposalFailed(3).message(name), "failed to simulate proposal");
}

#[test]
fn a_batch_without_proposals_fails() {
    let (batch, action) = Batch::start(0);
    assert_eq!(action, BatchAction::Fail(SimulationError::NoProposalsFound));
    assert!(batch.stopped);
    let mut batch = batch;
    assert_eq!(batch.proposal_ended(true), BatchAction::Halt);
}

#[test]
fn a_batch_runs_its_proposals_one_after_another() {
    let (mut batch, action) = Batch::start(3);
    assert_eq!(action, BatchAction::Simulate(0));
    assert_eq!(batch.proposal_ended(true), BatchAction::Simulate(1));
    assert_eq!(batch.proposal_ended(true), BatchAction::Simulate(2));
    assert_eq!(batch.proposal_ended(true), BatchAction::Finish);
    assert_eq!(batch, Batch { num_proposals: 3, succeeded: 3, stopped: false });
    assert_eq!(batch.proposal_ended(true), BatchAction::Halt);
    assert_eq!(batch.proposal_ended(false), BatchAction::Halt);
}

#[test]
fn a_batch_stops_at_the_first_failure() {
    let (mut batch, _) = Batch::start(3);
    assert_eq!(batch.proposal_ended(true), BatchAction::Simulate(1));
    assert_eq!(
        batch.proposal_ended(false),
        BatchAction::Fail(SimulationError::ProposalFailed(1))
    );
    assert_eq!(batch.proposal_ended(true), BatchAction::Halt);
    assert_eq!(batch, Batch { num_proposals: 3, succeeded: 1, stopped: true });
}

#[test]
fn the_changes_of_the_epoch_are_absorbed() {
    let mut view = SimulationStateView::new();
    view.set_state_value(StateKey::raw(vec![1]), StateValue::new_legacy(vec![1]));
    force_end_epoch(
        &mut view,
        WriteSet(vec![
            (StateKey::raw(vec![1]), WriteOp::Value(StateValue::new_legacy(vec![2]))),
            (StateKey::raw(vec![2]), WriteOp::Deletion),
        ]),
        true,
    );
    assert_eq!(
        view.get_local(&StateKey::raw(vec![1])),
        Some(Some(StateValue::new_legacy(vec![2])))
    );
    assert_eq!(view.get_local(&StateKey::raw(vec![2])), Some(None));
}

fn ident(name: &str) -> Identifier {
    Identifier::new(name).unwrap()
}

fn governance() -> CompiledModule {
    CompiledModule {
        self_module_handle_idx: ModuleHandleIndex(0),
        module_handles: vec![ModuleHandle {
            address: AddressIdentifierIndex(0),
            name: IdentifierIndex(0),
        }],
        function_handles: vec![FunctionHandle {
            module: ModuleHandleIndex(0),
            name: IdentifierIndex(1),
            parameters: SignatureIndex(0),
            return_: SignatureIndex(1),
            type_parameters: vec![],
        }],
        signatures: vec![
            Signature(vec![
                SignatureToken::U64,
                SignatureToken::Address,
                SignatureToken::Vector,
                SignatureToken::U8,
            ]),
            Signature(vec![SignatureToken::Signer]),
        ],
        identifiers: vec![ident("aptos_governance"), ident("resolve_multi_step_proposal")],
        address_identifiers: vec![AccountAddress::one()],
        function_defs: vec![FunctionDefinition {
            function: FunctionHandleIndex(0),
            visibility: Visibility::Public,
            is_entry: false,
            acquires_global_resources: vec![],
            code: Some(CodeUnit { locals: SignatureIndex(1), code: vec![Bytecode::Abort] }),
        }],
    }
}

/// A two-step proposal, driven with stand-ins for the chain, the codec of
/// modules and the machine that runs the scripts: both steps succeed, and the
/// overlay ends up with the changes of both.
#[test]
fn a_two_step_proposal_succeeds_and_leaves_the_changes_of_both_steps() {
    let mut view = SimulationStateView::new();
    let hashes_key = ConfigKind::ApprovedExecutionHashes.state_key();
    let module_key = StateKey::module_id(&module_id_aptos_governance());
    let script_hashes = vec![vec![0xa1u8; 32], vec![0xa2u8; 32]];
    let mut workflow = Workflow::new(2);
    let mut action = workflow.advance(Event::Started);
    let mut patches = vec![];
    loop {
        let event = match action {
            Action::ForceEndEpoch => {
                force_end_epoch(&mut view, WriteSet(vec![]), true);
                Event::EpochForced
            },
            Action::RefreshConfigs => Event::ConfigsRefreshed,
            Action::PatchGovernance { forbid_next_execution_hash } => {
                patches.push(forbid_next_execution_hash);
                match patch_aptos_governance(
                    &mut view,
                    forbid_next_execution_hash,
                    || Ok::<_, ()>(Some(StateValue::new_legacy(vec![0]))),
                    |_blob: &Vec<u8>| Ok(governance()),
                    |_m: &CompiledModule| Ok(()),
                    |m: &CompiledModule| {
                        Ok(vec![m.function_defs[0].code.as_ref().unwrap().code.len() as u8])
                    },
                ) {
                    Ok(()) => Event::Patched,
                    Err(e) => Event::PatchFailed(e),
                }
            },
            Action::WhitelistHash { script } => {
                match add_script_execution_hash(&mut view, script_hashes[script].clone(), || {
                    Ok::<_, ()>(Some(StateValue::new_legacy(vec![0])))
                }) {
                    Ok(()) => Event::HashWhitelisted,
                    Err(e) => Event::HashWhitelistFailed(e),
                }
            },
            Action::Execute(params) => {
                assert_eq!(params.sequence_number, params.script as u64);
                Event::Executed(SUCCESS)
            },
            Action::Absorb { script } => {
                view.apply_write_set(WriteSet(vec![(
                    StateKey::raw(vec![script as u8]),
                    WriteOp::Value(StateValue::new_legacy(vec![script as u8 + 100])),
                )]));
                Event::Absorbed
            },
            Action::Finish => break,
            other => panic!("unexpected action {:?}", other),
        };
        action = workflow.advance(event);
    }
    assert_eq!(workflow.stage, Stage::Done);
    assert_eq!(patches, vec![false, true]);
    assert_eq!(
        view.get_local(&StateKey::raw(vec![0])),
        Some(Some(StateValue::new_legacy(vec![100])))
    );
    assert_eq!(
        view.get_local(&StateKey::raw(vec![1])),
        Some(Some(StateValue::new_legacy(vec![101])))
    );
    // the module as the last step patched it: with the check of the hash
    assert_eq!(view.get_local(&module_key), Some(Some(StateValue::new_legacy(vec![10]))));
    // both hashes are approved
    let mut hashes = vec![2u8];
    for hash in &script_hashes {
        hashes.extend_from_slice(&[0xff; 8]);
        hashes.push(32);
        hashes.extend_from_slice(hash);
    }
    assert_eq!(view.get_local(&hashes_key), Some(Some(StateValue::new_legacy(hashes))));
}
