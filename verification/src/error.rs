//! What can go wrong while a proposal is simulated.

use vstd::prelude::*;

verus! {

/// Why a module could not be patched.
#[derive(Clone, Debug, PartialEq, Eq)]
pub enum PatchError {
    /// The state holds no module under the given name.
    ModuleNotFound,
    /// The module's bytes are not a module; the text says why.
    DeserializationError(String),
    /// The module defines no function of the wanted name.
    TargetFunctionNotFound,
    /// The function is native: it has no body to replace.
    NotMoveDefined,
    /// The patched module does not pass bytecode verification; the text says why.
    VerificationFailed(String),
    /// A table of the module is full and cannot take the entry the patch needs.
    TableFull,
    /// The patched module could not be turned into bytes; the text says why.
    SerializationError(String),
    /// The state could not be read.
    StateUnavailable,
}

/// Why an on-chain configuration could not be changed.
#[derive(Clone, Copy, Debug, PartialEq, Eq, Structural)]
pub enum ConfigError {
    /// The configuration does not resolve: the state lacks it, could not be
    /// read, or holds bytes that are not a configuration of its type.
    ConfigNotFound,
    /// The configuration is too long to be encoded.
    EncodingFailed,
}

/// Why the simulation of a proposal failed.
#[derive(Clone, Debug, PartialEq, Eq)]
pub enum SimulationError {
    /// The epoch could not be forced to end.
    EpochForceFailed,
    /// A configuration that the step needs could not be fetched.
    ConfigNotFound(crate::config::ConfigKind),
    /// The governance module could not be patched.
    PatchFailed(PatchError),
    /// The hash of the script could not be added to the approved hashes.
    HashWhitelistFailed(ConfigError),
    /// The script could not be run, or its output could not be had.
    ExecutionUnavailable,
    /// The last script names a next execution hash, or a script before the last
    /// names none.
    NextExecutionHashNotEmpty,
    /// The script at the given index did not succeed.
    ScriptFailed(usize),
    /// The run was told of something that its stage does not wait for.
    UnexpectedEvent,
    /// There is no proposal to simulate.
    NoProposalsFound,
    /// The proposal at the given index failed.
    ProposalFailed(usize),
}

impl PatchError {
    /// What went wrong, in words.
    pub fn message(&self) -> (text: String)
        ensures
            text@ == match *self {
                PatchError::ModuleNotFound => "module 0x1::aptos_governance does not exist"@,
                PatchError::DeserializationError(reason) => "failed to deserialize module: "@
                    + reason@,
                PatchError::TargetFunctionNotFound => "failed to locate `fun resolve_multi_step_proposal`"@,
                PatchError::NotMoveDefined => "`fun resolve_multi_step_proposal` must have a Move-defined body"@,
                PatchError::VerificationFailed(reason) => "patched module failed to verify -- check if the patch is correct: "@
                    + reason@,
                PatchError::TableFull => "a table of the module is full"@,
                PatchError::SerializationError(reason) => "failed to serialize module: "@ + reason@,
                PatchError::StateUnavailable => "failed to read the state"@,
            },
    {
        match self {
            PatchError::ModuleNotFound => "module 0x1::aptos_governance does not exist".to_owned(),
            PatchError::DeserializationError(reason) => "failed to deserialize module: ".to_owned().concat(
                reason.as_str(),
            ),
            PatchError::TargetFunctionNotFound => "failed to locate `fun resolve_multi_step_proposal`".to_owned(),
            PatchError::NotMoveDefined => "`fun resolve_multi_step_proposal` must have a Move-defined body".to_owned(),
            PatchError::VerificationFailed(reason) => "patched module failed to verify -- check if the patch is correct: ".to_owned().concat(
                reason.as_str(),
            ),
            PatchError::TableFull => "a table of the module is full".to_owned(),
            PatchError::SerializationError(reason) => "failed to serialize module: ".to_owned().concat(
                reason.as_str(),
            ),
            PatchError::StateUnavailable => "failed to read the state".to_owned(),
        }
    }
}

impl SimulationError {
    /// What went wrong, in words. `script_name` is the name of the script that
    /// was in progress.
    pub fn message(&self, script_name: &str) -> (text: String)
        ensures
            text@ == match *self {
                SimulationError::EpochForceFailed => "failed to force end epoch"@,
                SimulationError::ConfigNotFound(kind) => match kind {
                    crate::config::ConfigKind::ChainId => "failed to fetch chain id"@,
                    crate::config::ConfigKind::GasSchedule => "failed to fetch gas schedule v2"@,
                    crate::config::ConfigKind::Features => "failed to fetch feature flags"@,
                    crate::config::ConfigKind::ApprovedExecutionHashes => "failed to fetch on-chain config: ApprovedExecutionHashes"@,
                },
                SimulationError::PatchFailed(_) => "failed to patch resolve_multistep_proposal"@,
                SimulationError::HashWhitelistFailed(_) => "failed to add script execution hash"@,
                SimulationError::ExecutionUnavailable => "failed to materialize transaction output"@,
                SimulationError::NextExecutionHashNotEmpty => "the last script has a non-zero next execution hash"@,
                SimulationError::ScriptFailed(_) => "failed to execute governance script: "@
                    + script_name@,
                SimulationError::UnexpectedEvent => "the simulation was driven out of order"@,
                SimulationError::NoProposalsFound => "failed to simulate proposals: no proposals found"@,
                SimulationError::ProposalFailed(_) => "failed to simulate proposal"@,
            },
    {
        match self {
            SimulationError::EpochForceFailed => "failed to force end epoch".to_owned(),
            SimulationError::ConfigNotFound(kind) => match kind {
                crate::config::ConfigKind::ChainId => "failed to fetch chain id".to_owned(),
                crate::config::ConfigKind::GasSchedule => "failed to fetch gas schedule v2".to_owned(),
                crate::config::ConfigKind::Features => "failed to fetch feature flags".to_owned(),
                crate::config::ConfigKind::ApprovedExecutionHashes => "failed to fetch on-chain config: ApprovedExecutionHashes".to_owned(),
            },
            SimulationError::PatchFailed(_) => "failed to patch resolve_multistep_proposal".to_owned(),
            SimulationError::HashWhitelistFailed(_) => "failed to add script execution hash".to_owned(),
            SimulationError::ExecutionUnavailable => "failed to materialize transaction output".to_owned(),
            SimulationError::NextExecutionHashNotEmpty => "the last script has a non-zero next execution hash".to_owned(),
            SimulationError::ScriptFailed(_) => "failed to execute governance script: ".to_owned().concat(
                script_name,
            ),
            SimulationError::UnexpectedEvent => "the simulation was driven out of order".to_owned(),
            SimulationError::NoProposalsFound => "failed to simulate proposals: no proposals found".to_owned(),
            SimulationError::ProposalFailed(_) => "failed to simulate proposal".to_owned(),
        }
    }
}

} // verus!
