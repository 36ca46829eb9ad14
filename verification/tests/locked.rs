use govsim::config::add_script_execution_hash;
use govsim::error::PatchError;
use govsim::file_format::CompiledModule;
use govsim::patch::patch_aptos_governance;
use govsim::state::{SimulationStateView, StateKey, StateStorageUsage, StateValue, WriteOp, WriteSet};
use govsim::workflow::force_end_epoch;
use parking_lot::Mutex;
use std::cell::RefCell;

/// The overlay behind a lock, over a chain that holds one value under every key.
struct Locked {
    states: Mutex<SimulationStateView>,
    remote_reads: RefCell<usize>,
}

impl Locked {
    fn new() -> Locked {
        Locked { states: Mutex::new(SimulationStateView::new()), remote_reads: RefCell::new(0) }
    }

    fn read_remote(&self) -> Result<Option<StateValue>, String> {
        *self.remote_reads.borrow_mut() += 1;
        Ok(Some(StateValue::new_legacy(vec![0])))
    }

    fn get(&self, key: &StateKey) -> Result<Option<StateValue>, String> {
        self.states.lock().get_state_value(key, || self.read_remote())
    }
}

#[test]
fn reads_and_writes_go_through_the_lock() {
    let view = Locked::new();
    let key = StateKey::raw(vec![1]);
    assert_eq!(view.get(&key), Ok(Some(StateValue::new_legacy(vec![0]))));
    assert_eq!(*view.remote_reads.borrow(), 1);
    view.states.lock().set_state_value(StateKey::raw(vec![1]), StateValue::new_legacy(vec![5]));
    assert_eq!(view.get(&key), Ok(Some(StateValue::new_legacy(vec![5]))));
    assert_eq!(*view.remote_reads.borrow(), 1);
    view.states
        .lock()
        .apply_write_set(WriteSet(vec![(StateKey::raw(vec![1]), WriteOp::Deletion)]));
    assert_eq!(view.get(&key), Ok(None));
    assert_eq!(*view.remote_reads.borrow(), 1);
    assert_eq!(view.states.lock().get_usage(), StateStorageUsage::Untracked);
}

#[test]
fn a_change_of_a_configuration_holds_the_lock_from_read_to_write() {
    let view = Locked::new();
    let added = {
        let mut states = view.states.lock();
        add_script_execution_hash(&mut states, vec![9], || view.read_remote())
    };
    assert_eq!(added, Ok(()));
    assert_eq!(*view.remote_reads.borrow(), 1);
    let mut states = view.states.lock();
    let again = add_script_execution_hash(&mut states, vec![9], || view.read_remote());
    assert_eq!(again, Ok(()));
    assert_eq!(*view.remote_reads.borrow(), 1);
}

#[test]
fn the_steps_of_a_patch_can_share_what_the_decoder_kept() {
    let view = Locked::new();
    let kept: RefCell<Option<Vec<u8>>> = RefCell::new(None);
    let mut states = view.states.lock();
    let result: Result<(), PatchError> = patch_aptos_governance(
        &mut states,
        true,
        || view.read_remote(),
        |blob: &Vec<u8>| -> Result<CompiledModule, String> {
            *kept.borrow_mut() = Some(blob.clone());
            Err("not a module".to_string())
        },
        |_m: &CompiledModule| Ok(()),
        |_m: &CompiledModule| Ok(kept.borrow().clone().unwrap_or_default()),
    );
    assert_eq!(result, Err(PatchError::DeserializationError("not a module".to_string())));
    assert_eq!(*kept.borrow(), Some(vec![0]));
}

#[test]
fn the_changes_of_an_epoch_are_absorbed_under_the_lock() {
    let view = Locked::new();
    force_end_epoch(
        &mut view.states.lock(),
        WriteSet(vec![(StateKey::raw(vec![3]), WriteOp::Value(StateValue::new_legacy(vec![4])))]),
        true,
    );
    assert_eq!(view.get(&StateKey::raw(vec![3])), Ok(Some(StateValue::new_legacy(vec![4]))));
}
