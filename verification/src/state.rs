//! The state that a simulation runs on: writes made locally, kept in an overlay,
//! on top of the state of the chain, which is only read.

use vstd::prelude::*;
use vstd::std_specs::cmp::PartialEqSpecImpl;
use crate::file_format::{AccountAddress, Identifier};

verus! {

/// The name of a struct type without type arguments: the address and the name
/// of the module that declares it, and its own name.
#[derive(Clone, Debug, PartialEq, Eq)]
pub struct StructTag {
    pub address: AccountAddress,
    pub module: Identifier,
    pub name: Identifier,
}

/// The name of a module: the address it is published under and its name.
#[derive(Clone, Debug, PartialEq, Eq)]
pub struct ModuleId {
    pub address: AccountAddress,
    pub name: Identifier,
}

/// The key under which the code of a module is stored.
pub open spec fn module_key(module_id: ModuleId) -> StateKeyView {
    StateKeyView::Module { address: module_id.address@, name: module_id.name@ }
}

/// The key of one slot of the state.
#[derive(Debug)]
pub enum StateKey {
    /// The resource of the given type under an account.
    Resource { address: AccountAddress, struct_tag: StructTag },
    /// The code of the module of the given name under an account.
    Module { address: AccountAddress, name: Identifier },
    /// Any other slot, by the bytes that encode its key.
    Raw(Vec<u8>),
}

/// A state key as a mathematical value.
pub enum StateKeyView {
    Resource { address: Seq<u8>, tag_address: Seq<u8>, module: Seq<char>, name: Seq<char> },
    Module { address: Seq<u8>, name: Seq<char> },
    Raw(Seq<u8>),
}

impl View for StateKey {
    type V = StateKeyView;

    open spec fn view(&self) -> StateKeyView {
        match self {
            StateKey::Resource { address, struct_tag } => StateKeyView::Resource {
                address: address@,
                tag_address: struct_tag.address@,
                module: struct_tag.module@,
                name: struct_tag.name@,
            },
            StateKey::Module { address, name } => StateKeyView::Module {
                address: address@,
                name: name@,
            },
            StateKey::Raw(bytes) => StateKeyView::Raw(bytes@),
        }
    }
}

impl StateKey {
    /// The key of the resource of type `struct_tag` under `address`.
    pub fn resource(address: &AccountAddress, struct_tag: &StructTag) -> (key: StateKey)
        ensures
            key@ == (StateKeyView::Resource {
                address: address@,
                tag_address: struct_tag.address@,
                module: struct_tag.module@,
                name: struct_tag.name@,
            }),
    {
        StateKey::Resource {
            address: *address,
            struct_tag: StructTag {
                address: struct_tag.address,
                module: struct_tag.module.clone(),
                name: struct_tag.name.clone(),
            },
        }
    }

    /// The key of the code of the module `name` under `address`.
    pub fn module(address: &AccountAddress, name: &Identifier) -> (key: StateKey)
        ensures
            key@ == (StateKeyView::Module { address: address@, name: name@ }),
    {
        StateKey::Module { address: *address, name: name.clone() }
    }

    /// The key of the code of the module `module_id`.
    pub fn module_id(module_id: &ModuleId) -> (key: StateKey)
        ensures
            key@ == module_key(*module_id),
    {
        StateKey::module(&module_id.address, &module_id.name)
    }

    /// The key that the given bytes encode.
    pub fn raw(bytes: Vec<u8>) -> (key: StateKey)
        ensures
            key@ == StateKeyView::Raw(bytes@),
    {
        StateKey::Raw(bytes)
    }
}

impl Clone for StateKey {
    fn clone(&self) -> (r: StateKey)
        ensures
            r@ == self@,
    {
        match self {
            StateKey::Resource { address, struct_tag } => StateKey::resource(address, struct_tag),
            StateKey::Module { address, name } => StateKey::module(address, name),
            StateKey::Raw(bytes) => StateKey::Raw(bytes.clone()),
        }
    }
}

impl PartialEq for StateKey {
    fn eq(&self, other: &StateKey) -> (r: bool) {
        match (self, other) {
            (
                StateKey::Resource { address: a1, struct_tag: t1 },
                StateKey::Resource { address: a2, struct_tag: t2 },
            ) => *a1 == *a2 && t1.address == t2.address && t1.module == t2.module && t1.name
                == t2.name,
            (StateKey::Module { address: a1, name: n1 }, StateKey::Module { address: a2, name: n2 }) => {
                *a1 == *a2 && *n1 == *n2
            },
            (StateKey::Raw(b1), StateKey::Raw(b2)) => {
                let same = *b1 == *b2;
                assert(same ==> b1@ =~= b2@);
                same
            },
            _ => false,
        }
    }
}

impl Eq for StateKey {

}

impl PartialEqSpecImpl for StateKey {
    open spec fn obeys_eq_spec() -> bool {
        true
    }

    open spec fn eq_spec(&self, other: &StateKey) -> bool {
        self@ == other@
    }
}

/// What the chain keeps beside the bytes of a slot: the deposits paid for it and
/// the time it was made.
#[derive(Clone, Copy, PartialEq, Eq, Structural, Debug)]
pub struct StateValueMetadata {
    pub slot_deposit: u64,
    pub bytes_deposit: u64,
    pub creation_time_usecs: u64,
}

/// The value of one slot of the state: its bytes, and its metadata where it has
/// any.
#[derive(Debug, PartialEq, Eq)]
pub struct StateValue {
    pub data: Vec<u8>,
    pub metadata: Option<StateValueMetadata>,
}

/// A state value as a mathematical value.
pub struct StateValueView {
    pub data: Seq<u8>,
    pub metadata: Option<StateValueMetadata>,
}

impl View for StateValue {
    type V = StateValueView;

    open spec fn view(&self) -> StateValueView {
        StateValueView { data: self.data@, metadata: self.metadata }
    }
}

/// The value with the given bytes and no metadata.
pub open spec fn legacy_value(data: Seq<u8>) -> StateValueView {
    StateValueView { data, metadata: None }
}

impl StateValue {
    /// The value with the given bytes and no metadata.
    pub fn new_legacy(data: Vec<u8>) -> (value: StateValue)
        ensures
            value@ == legacy_value(data@),
    {
        StateValue { data, metadata: None }
    }

    /// The bytes of the value.
    pub fn bytes(&self) -> (data: &Vec<u8>)
        ensures
            data@ == self@.data,
    {
        &self.data
    }
}

impl Clone for StateValue {
    fn clone(&self) -> (r: StateValue)
        ensures
            r@ == self@,
    {
        StateValue { data: self.data.clone(), metadata: self.metadata }
    }
}

/// What a slot holds: a value, or nothing.
pub open spec fn slot_view(value: Option<StateValue>) -> Option<StateValueView> {
    match value {
        Some(v) => Some(v@),
        None => None,
    }
}

/// A copy of what a slot holds.
fn clone_slot(value: &Option<StateValue>) -> (r: Option<StateValue>)
    ensures
        slot_view(r) == slot_view(*value),
{
    match value {
        Some(v) => Some(v.clone()),
        None => None,
    }
}

/// One change of a transaction to one slot.
#[derive(Debug, PartialEq, Eq)]
pub enum WriteOp {
    /// The slot gets the value.
    Value(StateValue),
    /// The slot is deleted.
    Deletion,
}

impl WriteOp {
    /// What the slot holds after the change.
    pub open spec fn spec_as_state_value(&self) -> Option<StateValueView> {
        match self {
            WriteOp::Value(v) => Some(v@),
            WriteOp::Deletion => None,
        }
    }

    /// What the slot holds after the change: `None` for a deletion.
    pub fn as_state_value(&self) -> (r: Option<StateValue>)
        ensures
            slot_view(r) == self.spec_as_state_value(),
    {
        match self {
            WriteOp::Value(v) => Some(v.clone()),
            WriteOp::Deletion => None,
        }
    }
}

/// The changes of one transaction, in the order in which they apply.
#[derive(Debug, PartialEq, Eq)]
pub struct WriteSet(pub Vec<(StateKey, WriteOp)>);

impl View for WriteSet {
    type V = Seq<(StateKeyView, Option<StateValueView>)>;

    open spec fn view(&self) -> Seq<(StateKeyView, Option<StateValueView>)> {
        self.0@.map_values(|e: (StateKey, WriteOp)| (e.0@, e.1.spec_as_state_value()))
    }
}

/// The overlay as a map: a key of the overlay is mapped to the value written
/// for it, or to `None` where it was deleted. A key outside the overlay was not
/// written: what it holds is what the chain holds.
pub type Overlay = Map<StateKeyView, Option<StateValueView>>;

/// The overlay once the changes of a write set have been applied, first to
/// last: a value is written, a deletion is recorded.
pub open spec fn applied(overlay: Overlay, write_set: Seq<(StateKeyView, Option<StateValueView>)>) -> Overlay
    decreases write_set.len(),
{
    if write_set.len() == 0 {
        overlay
    } else {
        applied(overlay, write_set.drop_last()).insert(write_set.last().0, write_set.last().1)
    }
}

/// Whether `r` can be what a read of `key` gives: what the overlay holds for the
/// key, or, for a key that the overlay lacks, something that `remote` returns.
pub open spec fn is_read<E, F: FnOnce() -> Result<Option<StateValue>, E>>(
    overlay: Overlay,
    key: StateKeyView,
    remote: F,
    r: Result<Option<StateValue>, E>,
) -> bool {
    if overlay.contains_key(key) {
        r matches Ok(value) && slot_view(value) == overlay[key]
    } else {
        call_ensures(remote, (), r)
    }
}

/// How much state is stored.
#[derive(Clone, Copy, PartialEq, Eq, Structural, Debug)]
pub enum StateStorageUsage {
    /// So many items of so many bytes.
    Usage { items: usize, bytes: usize },
    /// The store does not keep count.
    Untracked,
}

/// No key occurs twice among the entries.
spec fn distinct(entries: Seq<(StateKey, Option<StateValue>)>) -> bool {
    forall|i: int, j: int|
        0 <= i < j < entries.len() ==> (#[trigger] entries[i]).0@ != (#[trigger] entries[j]).0@
}

/// Whether the entry at `i` is the one of `key`.
spec fn holds(entries: Seq<(StateKey, Option<StateValue>)>, key: StateKeyView, i: int) -> bool {
    0 <= i < entries.len() && entries[i].0@ == key
}

/// The map that the entries stand for.
spec fn map_of(entries: Seq<(StateKey, Option<StateValue>)>) -> Overlay {
    Map::new(
        |key: StateKeyView| exists|i: int| holds(entries, key, i),
        |key: StateKeyView| slot_view(entries[choose|i: int| holds(entries, key, i)].1),
    )
}

/// Among distinct entries, the entry of a key is the only one of it, and the
/// map has its value.
proof fn lemma_map_of_entry(entries: Seq<(StateKey, Option<StateValue>)>, i: int)
    requires
        distinct(entries),
        0 <= i < entries.len(),
    ensures
        map_of(entries).contains_key(entries[i].0@),
        map_of(entries)[entries[i].0@] == slot_view(entries[i].1),
{
    let key = entries[i].0@;
    assert(holds(entries, key, i));
    let c = choose|c: int| holds(entries, key, c);
    assert(holds(entries, key, c));
    if c < i {
        assert(entries[c].0@ != entries[i].0@);
    } else if i < c {
        assert(entries[i].0@ != entries[c].0@);
    }
}

/// Appending an entry of a key that the entries lack inserts it in the map.
proof fn lemma_map_of_push(
    entries: Seq<(StateKey, Option<StateValue>)>,
    entry: (StateKey, Option<StateValue>),
)
    requires
        distinct(entries),
        forall|i: int| 0 <= i < entries.len() ==> (#[trigger] entries[i]).0@ != entry.0@,
    ensures
        distinct(entries.push(entry)),
        map_of(entries.push(entry)) == map_of(entries).insert(entry.0@, slot_view(entry.1)),
{
    let after = entries.push(entry);
    assert(distinct(after)) by {
        assert forall|i: int, j: int| 0 <= i < j < after.len() implies (#[trigger] after[i]).0@ != (
        #[trigger] after[j]).0@ by {
            if j < entries.len() {
                assert(entries[i].0@ != entries[j].0@);
            } else {
                assert(entries[i].0@ != entry.0@);
            }
        }
    }
    let expected = map_of(entries).insert(entry.0@, slot_view(entry.1));
    assert forall|key: StateKeyView| #[trigger]
        map_of(after).contains_key(key) == expected.contains_key(key) by {
        if map_of(after).contains_key(key) {
            let i = choose|i: int| holds(after, key, i);
            if i < entries.len() {
                assert(holds(entries, key, i));
            }
        }
        if expected.contains_key(key) {
            if key == entry.0@ {
                assert(holds(after, key, entries.len() as int));
            } else {
                let i = choose|i: int| holds(entries, key, i);
                assert(holds(after, key, i));
            }
        }
    }
    assert forall|key: StateKeyView| map_of(after).contains_key(key) implies #[trigger]
        map_of(after)[key] == expected[key] by {
        let i = choose|i: int| holds(after, key, i);
        lemma_map_of_entry(after, i);
        if i < entries.len() {
            lemma_map_of_entry(entries, i);
        }
    }
    assert(map_of(after) =~= expected);
}

/// Replacing the value of an entry inserts the new value in the map.
proof fn lemma_map_of_update(
    entries: Seq<(StateKey, Option<StateValue>)>,
    at: int,
    entry: (StateKey, Option<StateValue>),
)
    requires
        distinct(entries),
        0 <= at < entries.len(),
        entries[at].0@ == entry.0@,
    ensures
        distinct(entries.update(at, entry)),
        map_of(entries.update(at, entry)) == map_of(entries).insert(entry.0@, slot_view(entry.1)),
{
    let after = entries.update(at, entry);
    assert(distinct(after)) by {
        assert forall|i: int, j: int| 0 <= i < j < after.len() implies (#[trigger] after[i]).0@ != (
        #[trigger] after[j]).0@ by {
            assert(entries[i].0@ != entries[j].0@);
        }
    }
    let expected = map_of(entries).insert(entry.0@, slot_view(entry.1));
    assert forall|key: StateKeyView| #[trigger]
        map_of(after).contains_key(key) == expected.contains_key(key) by {
        if map_of(after).contains_key(key) {
            let i = choose|i: int| holds(after, key, i);
            assert(holds(entries, key, i));
        }
        if expected.contains_key(key) {
            if key == entry.0@ {
                assert(holds(after, key, at));
            } else {
                let i = choose|i: int| holds(entries, key, i);
                assert(holds(after, key, i));
            }
        }
    }
    assert forall|key: StateKeyView| map_of(after).contains_key(key) implies #[trigger]
        map_of(after)[key] == expected[key] by {
        let i = choose|i: int| holds(after, key, i);
        lemma_map_of_entry(after, i);
        lemma_map_of_entry(entries, i);
    }
    assert(map_of(after) =~= expected);
}

/// Taking an entry out removes its key from the map.
proof fn lemma_map_of_remove(entries: Seq<(StateKey, Option<StateValue>)>, at: int)
    requires
        distinct(entries),
        0 <= at < entries.len(),
    ensures
        distinct(entries.remove(at)),
        map_of(entries.remove(at)) == map_of(entries).remove(entries[at].0@),
{
    let after = entries.remove(at);
    let gone = entries[at].0@;
    assert forall|i: int| 0 <= i < after.len() implies #[trigger] after[i] == entries[if i < at {
        i
    } else {
        i + 1
    }] by {}
    assert(distinct(after)) by {
        assert forall|i: int, j: int| 0 <= i < j < after.len() implies (#[trigger] after[i]).0@ != (
        #[trigger] after[j]).0@ by {
            let a = if i < at {
                i
            } else {
                i + 1
            };
            let b = if j < at {
                j
            } else {
                j + 1
            };
            assert(entries[a].0@ != entries[b].0@);
        }
    }
    let expected = map_of(entries).remove(gone);
    assert forall|key: StateKeyView| #[trigger]
        map_of(after).contains_key(key) == expected.contains_key(key) by {
        if map_of(after).contains_key(key) {
            let i = choose|i: int| holds(after, key, i);
            let a = if i < at {
                i
            } else {
                i + 1
            };
            assert(holds(entries, key, a));
            if a < at {
                assert(entries[a].0@ != entries[at].0@);
            } else {
                assert(entries[at].0@ != entries[a].0@);
            }
        }
        if expected.contains_key(key) {
            let a = choose|a: int| holds(entries, key, a);
            let i = if a < at {
                a
            } else {
                a - 1
            };
            assert(holds(after, key, i));
        }
    }
    assert forall|key: StateKeyView| map_of(after).contains_key(key) implies #[trigger]
        map_of(after)[key] == expected[key] by {
        let i = choose|i: int| holds(after, key, i);
        let a = if i < at {
            i
        } else {
            i + 1
        };
        lemma_map_of_entry(after, i);
        lemma_map_of_entry(entries, a);
    }
    assert(map_of(after) =~= expected);
}

/// A map with nothing to remove is left as it is.
proof fn lemma_map_of_absent(entries: Seq<(StateKey, Option<StateValue>)>, key: StateKeyView)
    requires
        forall|i: int| 0 <= i < entries.len() ==> (#[trigger] entries[i]).0@ != key,
    ensures
        !map_of(entries).contains_key(key),
        map_of(entries).remove(key) == map_of(entries),
{
    if map_of(entries).contains_key(key) {
        let i = choose|i: int| holds(entries, key, i);
        assert(entries[i].0@ != key);
    }
    assert(map_of(entries).remove(key) =~= map_of(entries));
}

/// A state view for the side effects of governance scripts: the changes made
/// during a simulation, stacked on the state of the chain. The view holds the
/// changes; what it lacks is read from the chain by whoever reads.
#[derive(Debug)]
pub struct SimulationStateView {
    states: Vec<(StateKey, Option<StateValue>)>,
}

impl View for SimulationStateView {
    type V = Overlay;

    closed spec fn view(&self) -> Overlay {
        map_of(self.states@)
    }
}

impl SimulationStateView {
    /// No key has two entries. Every view that this module hands out is well
    /// formed, and its methods keep it so.
    pub closed spec fn well_formed(&self) -> bool {
        distinct(self.states@)
    }

    /// A view without local changes.
    pub fn new() -> (view: SimulationStateView)
        ensures
            view.well_formed(),
            view@ == Overlay::empty(),
    {
        let view = SimulationStateView { states: Vec::new() };
        assert(view@ =~= Overlay::empty());
        view
    }

    /// The index of the entry of `state_key`, or the number of entries where
    /// there is none.
    fn position(&self, state_key: &StateKey) -> (i: usize)
        ensures
            i <= self.states.len(),
            i < self.states.len() ==> self.states[i as int].0@ == state_key@,
            i == self.states.len() ==> forall|j: int|
                0 <= j < self.states.len() ==> (#[trigger] self.states[j]).0@ != state_key@,
    {
        let mut i: usize = 0;
        while i < self.states.len()
            invariant
                i <= self.states.len(),
                forall|j: int| 0 <= j < i ==> (#[trigger] self.states[j]).0@ != state_key@,
            decreases self.states.len() - i,
        {
            if self.states[i].0 == *state_key {
                return i;
            }
            i += 1;
        }
        i
    }

    /// Records what `state_key` holds from now on: a value, or nothing.
    fn put(&mut self, state_key: StateKey, state_val: Option<StateValue>)
        requires
            old(self).well_formed(),
        ensures
            final(self).well_formed(),
            final(self)@ == old(self)@.insert(state_key@, slot_view(state_val)),
    {
        let i = self.position(&state_key);
        let ghost entry = (state_key, state_val);
        if i < self.states.len() {
            proof {
                lemma_map_of_update(self.states@, i as int, entry);
            }
            self.states.set(i, (state_key, state_val));
        } else {
            proof {
                lemma_map_of_push(self.states@, entry);
            }
            self.states.push((state_key, state_val));
        }
    }

    /// Writes a value: from now on a read of `state_key` gives `state_val`.
    pub fn set_state_value(&mut self, state_key: StateKey, state_val: StateValue)
        requires
            old(self).well_formed(),
        ensures
            final(self).well_formed(),
            final(self)@ == old(self)@.insert(state_key@, Some(state_val@)),
    {
        self.put(state_key, Some(state_val));
    }

    /// Records a deletion: from now on a read of `state_key` gives nothing,
    /// whatever the chain holds.
    pub fn delete_state_value(&mut self, state_key: StateKey)
        requires
            old(self).well_formed(),
        ensures
            final(self).well_formed(),
            final(self)@ == old(self)@.insert(state_key@, None),
    {
        self.put(state_key, None);
    }

    /// Forgets what was written for `state_key`: from now on a read of it gives
    /// what the chain holds.
    pub fn remove_state_value(&mut self, state_key: &StateKey)
        requires
            old(self).well_formed(),
        ensures
            final(self).well_formed(),
            final(self)@ == old(self)@.remove(state_key@),
    {
        let i = self.position(state_key);
        if i < self.states.len() {
            proof {
                lemma_map_of_remove(self.states@, i as int);
            }
            let _ = self.states.remove(i);
        } else {
            proof {
                lemma_map_of_absent(self.states@, state_key@);
            }
        }
    }

    /// Applies the changes of a transaction, first to last: a value is written,
    /// a deletion is recorded.
    pub fn apply_write_set(&mut self, write_set: WriteSet)
        requires
            old(self).well_formed(),
        ensures
            final(self).well_formed(),
            final(self)@ == applied(old(self)@, write_set@),
    {
        let mut i: usize = 0;
        while i < write_set.0.len()
            invariant
                i <= write_set.0.len(),
                self.well_formed(),
                self@ == applied(old(self)@, write_set@.take(i as int)),
            decreases write_set.0.len() - i,
        {
            let state_key = write_set.0[i].0.clone();
            let state_val = write_set.0[i].1.as_state_value();
            self.put(state_key, state_val);
            proof {
                let done = write_set@.take(i as int + 1);
                assert(done.drop_last() =~= write_set@.take(i as int));
                assert(done.last() == write_set@[i as int]);
            }
            i += 1;
        }
        assert(write_set@.take(i as int) =~= write_set@);
    }

    /// What the overlay holds for `state_key`: `None` where it holds nothing for
    /// it, `Some(None)` where it holds a deletion.
    pub fn get_local(&self, state_key: &StateKey) -> (r: Option<Option<StateValue>>)
        requires
            self.well_formed(),
        ensures
            r is Some == self@.contains_key(state_key@),
            r matches Some(value) ==> slot_view(value) == self@[state_key@],
    {
        let i = self.position(state_key);
        if i < self.states.len() {
            proof {
                lemma_map_of_entry(self.states@, i as int);
            }
            Some(clone_slot(&self.states[i].1))
        } else {
            proof {
                lemma_map_of_absent(self.states@, state_key@);
            }
            None
        }
    }

    /// Reads `state_key`: what the overlay holds for it, a deletion too. Only
    /// where the overlay holds nothing for it the chain is read, by `remote`.
    pub fn get_state_value<E, F: FnOnce() -> Result<Option<StateValue>, E>>(
        &self,
        state_key: &StateKey,
        remote: F,
    ) -> (r: Result<Option<StateValue>, E>)
        requires
            self.well_formed(),
            !self@.contains_key(state_key@) ==> call_requires(remote, ()),
        ensures
            is_read(self@, state_key@, remote, r),
    {
        match self.get_local(state_key) {
            Some(value) => Ok(value),
            None => remote(),
        }
    }

    /// The usage of the store, which is not tracked.
    pub fn get_usage(&self) -> (usage: StateStorageUsage)
        ensures
            usage == StateStorageUsage::Untracked,
    {
        StateStorageUsage::Untracked
    }
}

/// Overlay precedence: after a write, a read gives what was written, and after
/// a deletion, nothing, whatever the chain holds and whatever reading it gives.
pub proof fn lemma_overlay_precedence<E, F: FnOnce() -> Result<Option<StateValue>, E>>(
    overlay: Overlay,
    key: StateKeyView,
    value: StateValueView,
    remote: F,
    r: Result<Option<StateValue>, E>,
)
    ensures
        is_read(overlay.insert(key, Some(value)), key, remote, r) <==> (r matches Ok(Some(v))
            && v@ == value),
        is_read(overlay.insert(key, None), key, remote, r) <==> r matches Ok(None),
{
}

/// The last change that a write set makes to a key decides what the key holds.
pub proof fn lemma_last_write_wins(
    overlay: Overlay,
    write_set: Seq<(StateKeyView, Option<StateValueView>)>,
    i: int,
)
    requires
        0 <= i < write_set.len(),
        forall|j: int| i < j < write_set.len() ==> (#[trigger] write_set[j]).0 != write_set[i].0,
    ensures
        applied(overlay, write_set).contains_key(write_set[i].0),
        applied(overlay, write_set)[write_set[i].0] == write_set[i].1,
    decreases write_set.len(),
{
    if i < write_set.len() - 1 {
        assert(write_set.last().0 != write_set[i].0);
        lemma_last_write_wins(overlay, write_set.drop_last(), i);
    }
}

/// A write set leaves alone what it does not change.
pub proof fn lemma_untouched_key(
    overlay: Overlay,
    write_set: Seq<(StateKeyView, Option<StateValueView>)>,
    key: StateKeyView,
)
    requires
        forall|j: int| 0 <= j < write_set.len() ==> (#[trigger] write_set[j]).0 != key,
    ensures
        applied(overlay, write_set).contains_key(key) == overlay.contains_key(key),
        overlay.contains_key(key) ==> applied(overlay, write_set)[key] == overlay[key],
    decreases write_set.len(),
{
    if write_set.len() > 0 {
        assert(write_set.last().0 != key);
        lemma_untouched_key(overlay, write_set.drop_last(), key);
    }
}

/// Write-set absorption: where a write set that deletes a key is applied, and
/// then one whose last change to the key writes a value, a read of the key
/// gives that value, whatever the chain holds.
pub proof fn lemma_write_set_absorption<E, F: FnOnce() -> Result<Option<StateValue>, E>>(
    overlay: Overlay,
    first: Seq<(StateKeyView, Option<StateValueView>)>,
    second: Seq<(StateKeyView, Option<StateValueView>)>,
    key: StateKeyView,
    value: StateValueView,
    i: int,
    remote: F,
    r: Result<Option<StateValue>, E>,
)
    requires
        exists|d: int| 0 <= d < first.len() && first[d] == (key, None::<StateValueView>),
        0 <= i < second.len(),
        second[i] == (key, Some(value)),
        forall|j: int| i < j < second.len() ==> (#[trigger] second[j]).0 != key,
    ensures
        is_read(applied(applied(overlay, first), second), key, remote, r) <==> (r matches Ok(
            Some(v),
        ) && v@ == value),
{
    lemma_last_write_wins(applied(overlay, first), second, i);
}

} // verus!
