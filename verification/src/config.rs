//! The on-chain configurations that a simulation reads or changes, each under a
//! fixed key, and the list of approved execution hashes among them.

use vstd::prelude::*;
use crate::error::ConfigError;
use crate::file_format::{address_one, AccountAddress, Identifier};
use crate::patch::DUMMY_PROPOSAL_ID;
use crate::state::{
    is_read, legacy_value, Overlay, SimulationStateView, StateKey, StateKeyView, StateValue,
    StructTag,
};

verus! {

/// The configurations that a simulation touches.
#[derive(Clone, Copy, PartialEq, Eq, Structural, Debug)]
pub enum ConfigKind {
    /// The id of the chain.
    ChainId,
    /// The gas schedule.
    GasSchedule,
    /// The feature flags.
    Features,
    /// The hashes of the scripts that may run with the higher limits.
    ApprovedExecutionHashes,
}

impl ConfigKind {
    /// The name of the module that declares the configuration.
    pub open spec fn spec_module_identifier(self) -> Seq<char> {
        match self {
            ConfigKind::ChainId => "chain_id"@,
            ConfigKind::GasSchedule => "gas_schedule"@,
            ConfigKind::Features => "features"@,
            ConfigKind::ApprovedExecutionHashes => "aptos_governance"@,
        }
    }

    /// The name of the type of the configuration.
    pub open spec fn spec_type_identifier(self) -> Seq<char> {
        match self {
            ConfigKind::ChainId => "ChainId"@,
            ConfigKind::GasSchedule => "GasScheduleV2"@,
            ConfigKind::Features => "Features"@,
            ConfigKind::ApprovedExecutionHashes => "ApprovedExecutionHashes"@,
        }
    }

    /// The key under which the configuration is stored: the resource of its
    /// type under the address `0x1`, which also publishes the type.
    pub open spec fn spec_state_key(self) -> StateKeyView {
        StateKeyView::Resource {
            address: address_one(),
            tag_address: address_one(),
            module: self.spec_module_identifier(),
            name: self.spec_type_identifier(),
        }
    }

    /// The name of the module that declares the configuration.
    pub fn module_identifier(self) -> (name: &'static str)
        ensures
            name@ == self.spec_module_identifier(),
    {
        match self {
            ConfigKind::ChainId => "chain_id",
            ConfigKind::GasSchedule => "gas_schedule",
            ConfigKind::Features => "features",
            ConfigKind::ApprovedExecutionHashes => "aptos_governance",
        }
    }

    /// The name of the type of the configuration.
    pub fn type_identifier(self) -> (name: &'static str)
        ensures
            name@ == self.spec_type_identifier(),
    {
        match self {
            ConfigKind::ChainId => "ChainId",
            ConfigKind::GasSchedule => "GasScheduleV2",
            ConfigKind::Features => "Features",
            ConfigKind::ApprovedExecutionHashes => "ApprovedExecutionHashes",
        }
    }

    /// The key under which the configuration is stored.
    pub fn state_key(self) -> (key: StateKey)
        ensures
            key@ == self.spec_state_key(),
    {
        proof {
            reveal_strlit("chain_id");
            reveal_strlit("gas_schedule");
            reveal_strlit("features");
            reveal_strlit("aptos_governance");
            reveal_strlit("ChainId");
            reveal_strlit("GasScheduleV2");
            reveal_strlit("Features");
            reveal_strlit("ApprovedExecutionHashes");
        }
        let module = match Identifier::new(self.module_identifier()) {
            Some(module) => module,
            None => unreached(),
        };
        let name = match Identifier::new(self.type_identifier()) {
            Some(name) => name,
            None => unreached(),
        };
        let address = AccountAddress::one();
        StateKey::resource(&address, &StructTag { address, module, name })
    }
}

/// The approved execution hashes: pairs of a proposal id and the hash of a
/// script.
#[derive(Clone, Debug, PartialEq, Eq)]
pub struct ApprovedExecutionHashes {
    pub entries: Vec<(u64, Vec<u8>)>,
}

/// The entries as mathematical values.
pub open spec fn entries_view(entries: Seq<(u64, Vec<u8>)>) -> Seq<(u64, Seq<u8>)> {
    entries.map_values(|e: (u64, Vec<u8>)| (e.0, e.1@))
}

impl View for ApprovedExecutionHashes {
    type V = Seq<(u64, Seq<u8>)>;

    open spec fn view(&self) -> Seq<(u64, Seq<u8>)> {
        entries_view(self.entries@)
    }
}

/// The entries once `entry` has been approved: unchanged where they hold it,
/// else with the entry at their end.
pub open spec fn with_approval(entries: Seq<(u64, Seq<u8>)>, entry: (u64, Seq<u8>)) -> Seq<
    (u64, Seq<u8>),
> {
    if entries.contains(entry) {
        entries
    } else {
        entries.push(entry)
    }
}

/// Approving an entry twice is approving it once.
pub proof fn lemma_approval_idempotent(entries: Seq<(u64, Seq<u8>)>, entry: (u64, Seq<u8>))
    ensures
        with_approval(entries, entry).contains(entry),
        with_approval(with_approval(entries, entry), entry) == with_approval(entries, entry),
{
    if !entries.contains(entry) {
        assert(entries.push(entry)[entries.len() as int] == entry);
    }
}

impl ApprovedExecutionHashes {
    /// Whether the entries hold the hash under the proposal id.
    pub fn contains(&self, proposal_id: u64, hash: &Vec<u8>) -> (r: bool)
        ensures
            r == self@.contains((proposal_id, hash@)),
    {
        let mut i: usize = 0;
        while i < self.entries.len()
            invariant
                i <= self.entries.len(),
                forall|j: int| 0 <= j < i ==> self@[j] != (proposal_id, hash@),
            decreases self.entries.len() - i,
        {
            let same_hash = self.entries[i].1 == *hash;
            proof {
                assert(same_hash ==> self.entries[i as int].1@ =~= hash@);
                assert(self@[i as int] == (self.entries[i as int].0, self.entries[i as int].1@));
            }
            if self.entries[i].0 == proposal_id && same_hash {
                return true;
            }
            i += 1;
        }
        false
    }

    /// Approves the hash under the proposal id, unless it is approved already.
    pub fn approve(&mut self, proposal_id: u64, hash: Vec<u8>)
        ensures
            final(self)@ == with_approval(old(self)@, (proposal_id, hash@)),
    {
        if !self.contains(proposal_id, &hash) {
            self.entries.push((proposal_id, hash));
            assert(self@ =~= old(self)@.push((proposal_id, hash@)));
        }
    }
}

/// What `bcs::to_bytes` returns for a list of pairs of a number and a byte
/// string: their canonical serialization, or `None` where it gives an error.
pub uninterp spec fn bcs_encoding(entries: Seq<(u64, Seq<u8>)>) -> Option<Seq<u8>>;

/// What `bcs::from_bytes` returns for bytes read as a list of pairs of a number
/// and a byte string, or `None` where it gives an error.
pub uninterp spec fn bcs_decoding(bytes: Seq<u8>) -> Option<Seq<(u64, Seq<u8>)>>;

/// The error of `bcs::to_bytes` and `bcs::from_bytes`. Nothing is claimed of
/// what it holds.
#[verifier::external_type_specification]
#[verifier::external_body]
pub struct ExBcsError(bcs::Error);

/// Calls `bcs::to_bytes`, which serializes a value canonically and returns an
/// error for a sequence that is too long. Its result depends on the value
/// alone; the contract names it.
#[verifier::external_body]
fn bcs_to_bytes(entries: &Vec<(u64, Vec<u8>)>) -> (r: Result<Vec<u8>, bcs::Error>)
    ensures
        match r {
            Ok(bytes) => bcs_encoding(entries_view(entries@)) == Some(bytes@),
            Err(_) => bcs_encoding(entries_view(entries@)) is None,
        },
{
    bcs::to_bytes(entries)
}

/// Calls `bcs::from_bytes`, which reads a value from its canonical
/// serialization and returns an error for bytes that are none. Its result
/// depends on the bytes alone; the contract names it.
#[verifier::external_body]
fn bcs_from_bytes(bytes: &Vec<u8>) -> (r: Result<Vec<(u64, Vec<u8>)>, bcs::Error>)
    ensures
        match r {
            Ok(entries) => bcs_decoding(bytes@) == Some(entries_view(entries@)),
            Err(_) => bcs_decoding(bytes@) is None,
        },
{
    bcs::from_bytes(bytes)
}

/// The configuration that a read gave: the decoded bytes of the value, or
/// `None` where the read failed, found nothing, or found bytes that do not
/// decode.
pub open spec fn fetched<E>(read: Result<Option<StateValue>, E>) -> Option<Seq<(u64, Seq<u8>)>> {
    match read {
        Ok(Some(value)) => bcs_decoding(value@.data),
        _ => None,
    }
}

/// The overlay once the configuration that a read gave has had `entry`
/// approved and has been written back, and what the change returns. A
/// configuration that does not resolve, or that cannot be encoded, leaves the
/// overlay as it is.
pub open spec fn approved(
    overlay: Overlay,
    current: Option<Seq<(u64, Seq<u8>)>>,
    entry: (u64, Seq<u8>),
) -> (Overlay, Result<(), ConfigError>) {
    match current {
        None => (overlay, Err(ConfigError::ConfigNotFound)),
        Some(entries) => match bcs_encoding(with_approval(entries, entry)) {
            None => (overlay, Err(ConfigError::EncodingFailed)),
            Some(bytes) => (
                overlay.insert(
                    ConfigKind::ApprovedExecutionHashes.spec_state_key(),
                    Some(legacy_value(bytes)),
                ),
                Ok(()),
            ),
        },
    }
}

/// Decodes the approved execution hashes that a read of their key gave.
pub fn decode_config<E>(read: Result<Option<StateValue>, E>) -> (r: Option<ApprovedExecutionHashes>)
    ensures
        match r {
            Some(config) => fetched(read) == Some(config@),
            None => fetched(read) is None,
        },
{
    match read {
        Ok(Some(value)) => match bcs_from_bytes(&value.data) {
            Ok(entries) => Some(ApprovedExecutionHashes { entries }),
            Err(_) => None,
        },
        _ => None,
    }
}

impl SimulationStateView {
    /// Writes the approved execution hashes under their key, encoded.
    pub fn set_on_chain_config(&mut self, config: &ApprovedExecutionHashes) -> (r: Result<
        (),
        ConfigError,
    >)
        requires
            old(self).well_formed(),
        ensures
            final(self).well_formed(),
            match bcs_encoding(config@) {
                Some(bytes) => r == Ok::<(), ConfigError>(()) && final(self)@ == old(self)@.insert(
                    ConfigKind::ApprovedExecutionHashes.spec_state_key(),
                    Some(legacy_value(bytes)),
                ),
                None => r == Err::<(), ConfigError>(ConfigError::EncodingFailed) && final(self)@
                    == old(self)@,
            },
    {
        match bcs_to_bytes(&config.entries) {
            Ok(bytes) => {
                self.set_state_value(
                    ConfigKind::ApprovedExecutionHashes.state_key(),
                    StateValue::new_legacy(bytes),
                );
                Ok(())
            },
            Err(_) => Err(ConfigError::EncodingFailed),
        }
    }

    /// Reads the approved execution hashes. The chain is read, by `remote`, only
    /// where the overlay does not hold the configuration. `None` where the
    /// configuration does not resolve.
    pub fn fetch_on_chain_config<E, F: FnOnce() -> Result<Option<StateValue>, E>>(
        &self,
        remote: F,
    ) -> (r: Option<ApprovedExecutionHashes>)
        requires
            self.well_formed(),
            !self@.contains_key(ConfigKind::ApprovedExecutionHashes.spec_state_key())
                ==> call_requires(remote, ()),
        ensures
            exists|current: Result<Option<StateValue>, E>|
                {
                    &&& #[trigger] is_read(
                        self@,
                        ConfigKind::ApprovedExecutionHashes.spec_state_key(),
                        remote,
                        current,
                    )
                    &&& match r {
                        Some(config) => fetched(current) == Some(config@),
                        None => fetched(current) is None,
                    }
                },
    {
        let key = ConfigKind::ApprovedExecutionHashes.state_key();
        let current = self.get_state_value(&key, remote);
        let ghost read = current;
        let r = decode_config(current);
        assert(is_read(
            self@,
            ConfigKind::ApprovedExecutionHashes.spec_state_key(),
            remote,
            read,
        ));
        r
    }

    /// Approves a hash in the configuration that a read of its key gave, and
    /// writes the configuration back.
    pub fn approve_in_config<E>(
        &mut self,
        current: Result<Option<StateValue>, E>,
        proposal_id: u64,
        hash: Vec<u8>,
    ) -> (r: Result<(), ConfigError>)
        requires
            old(self).well_formed(),
        ensures
            final(self).well_formed(),
            (final(self)@, r) == approved(old(self)@, fetched(current), (proposal_id, hash@)),
    {
        let mut config = match decode_config(current) {
            Some(config) => config,
            None => {
                return Err(ConfigError::ConfigNotFound);
            },
        };
        config.approve(proposal_id, hash);
        self.set_on_chain_config(&config)
    }

    /// Reads the approved execution hashes, approves a hash in them, and writes
    /// them back. The chain is read, by `remote`, only where the overlay does
    /// not hold the configuration.
    pub fn modify_on_chain_config<E, F: FnOnce() -> Result<Option<StateValue>, E>>(
        &mut self,
        remote: F,
        proposal_id: u64,
        hash: Vec<u8>,
    ) -> (r: Result<(), ConfigError>)
        requires
            old(self).well_formed(),
            !old(self)@.contains_key(ConfigKind::ApprovedExecutionHashes.spec_state_key())
                ==> call_requires(remote, ()),
        ensures
            final(self).well_formed(),
            exists|current: Result<Option<StateValue>, E>|
                {
                    &&& #[trigger] is_read(
                        old(self)@,
                        ConfigKind::ApprovedExecutionHashes.spec_state_key(),
                        remote,
                        current,
                    )
                    &&& (final(self)@, r) == approved(
                        old(self)@,
                        fetched(current),
                        (proposal_id, hash@),
                    )
                },
    {
        let key = ConfigKind::ApprovedExecutionHashes.state_key();
        let current = self.get_state_value(&key, remote);
        let ghost read = current;
        let r = self.approve_in_config(current, proposal_id, hash);
        assert(is_read(
            old(self)@,
            ConfigKind::ApprovedExecutionHashes.spec_state_key(),
            remote,
            read,
        ));
        r
    }
}

/// Adds the hash of a script to the approved execution hashes, under the
/// proposal id that the simulation uses, so that the script runs with the higher
/// limits.
pub fn add_script_execution_hash<E, F: FnOnce() -> Result<Option<StateValue>, E>>(
    state_view: &mut SimulationStateView,
    hash: Vec<u8>,
    remote: F,
) -> (r: Result<(), ConfigError>)
    requires
        old(state_view).well_formed(),
        !old(state_view)@.contains_key(ConfigKind::ApprovedExecutionHashes.spec_state_key())
            ==> call_requires(remote, ()),
    ensures
        final(state_view).well_formed(),
        exists|current: Result<Option<StateValue>, E>|
            {
                &&& #[trigger] is_read(
                    old(state_view)@,
                    ConfigKind::ApprovedExecutionHashes.spec_state_key(),
                    remote,
                    current,
                )
                &&& (final(state_view)@, r) == approved(
                    old(state_view)@,
                    fetched(current),
                    (DUMMY_PROPOSAL_ID, hash@),
                )
            },
{
    state_view.modify_on_chain_config(remote, DUMMY_PROPOSAL_ID, hash)
}

} // verus!
