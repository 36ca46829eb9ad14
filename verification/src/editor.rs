//! Edits of a compiled module's tables. Each looks an entry up before it adds
//! one, so that an edit made twice leaves the tables as the first one did.

use vstd::prelude::*;
use vstd::std_specs::cmp::PartialEqSpec;
use crate::error::PatchError;
use crate::file_format::{
    AccountAddress, AddressIdentifierIndex, CompiledModule, FunctionDefinition,
    FunctionDefinitionView, FunctionHandle, FunctionHandleIndex, FunctionHandleView, Identifier,
    IdentifierIndex, ModuleHandle, ModuleHandleIndex, ModuleView, Signature, SignatureIndex,
    SignatureToken, Visibility, TABLE_CAPACITY,
};
use crate::pool::{
    first_where, get_or_add, index_of, is_first, lemma_first_where, lemma_position_by_key,
    position_of,
};

verus! {

/// Whether the definition at an index defines a function of the given name.
pub open spec fn definition_is_named(m: ModuleView, name: Seq<char>) -> spec_fn(int) -> bool {
    |i: int| m.definition_name(i) == name
}

/// The index of the first definition of a function named `name`, or the number
/// of definitions when there is none.
pub open spec fn function_definition_index(m: ModuleView, name: Seq<char>) -> int {
    first_where(m.function_defs.len(), definition_is_named(m, name))
}

/// Whether the handle at an index stands for the function of the given name in
/// the module of the given address and name.
pub open spec fn handle_is_named(
    m: ModuleView,
    address: Seq<u8>,
    module_name: Seq<char>,
    function_name: Seq<char>,
) -> spec_fn(int) -> bool {
    |i: int|
        m.function_module_address(i) == address && m.function_module_name(i) == module_name
            && m.function_name(i) == function_name
}

/// The index of the first handle of the named function, or the number of
/// handles when there is none.
pub open spec fn function_handle_index(
    m: ModuleView,
    address: Seq<u8>,
    module_name: Seq<char>,
    function_name: Seq<char>,
) -> int {
    first_where(m.function_handles.len(), handle_is_named(m, address, module_name, function_name))
}

/// Where `v` stands in the pool once it has been interned: where it is found,
/// or at the end. `None` when it is absent and the pool is full.
pub open spec fn slot<V>(pool: Seq<V>, v: V) -> Option<u16> {
    if index_of(pool, v) < pool.len() || pool.len() < TABLE_CAPACITY {
        Some(index_of(pool, v) as u16)
    } else {
        None
    }
}

/// The pool once `v` has been interned: with `v` appended when it is absent and
/// the pool has room, else unchanged.
pub open spec fn with_entry<V>(pool: Seq<V>, v: V) -> Seq<V> {
    if index_of(pool, v) < pool.len() || pool.len() >= TABLE_CAPACITY {
        pool
    } else {
        pool.push(v)
    }
}

/// The module with `address` interned in its address pool.
pub open spec fn with_address(m: ModuleView, address: Seq<u8>) -> ModuleView {
    ModuleView { address_identifiers: with_entry(m.address_identifiers, address), ..m }
}

/// The module with `name` interned in its identifier pool.
pub open spec fn with_identifier(m: ModuleView, name: Seq<char>) -> ModuleView {
    ModuleView { identifiers: with_entry(m.identifiers, name), ..m }
}

/// The module with `signature` interned in its signature pool.
pub open spec fn with_signature(m: ModuleView, signature: Seq<SignatureToken>) -> ModuleView {
    ModuleView { signatures: with_entry(m.signatures, signature), ..m }
}

/// The index of the first definition of a function named `name`.
pub fn find_function_def_by_name(m: &CompiledModule, name: &Identifier) -> (r: Option<usize>)
    requires
        m@.well_formed(),
    ensures
        match r {
            Some(i) => i < m.function_defs.len() && i == function_definition_index(m@, name@),
            None => function_definition_index(m@, name@) == m.function_defs.len(),
        },
{
    let ghost named = definition_is_named(m@, name@);
    let mut idx: usize = 0;
    while idx < m.function_defs.len()
        invariant
            idx <= m.function_defs.len(),
            m@.well_formed(),
            named == definition_is_named(m@, name@),
            forall|j: int| 0 <= j < idx ==> !#[trigger] named(j),
        decreases m.function_defs.len() - idx,
    {
        let func_def = &m.function_defs[idx];
        assert(m@.function_defs[idx as int] == func_def@);
        let handle_idx: usize = func_def.function.0 as usize;
        assert(m@.function_handle_in_bounds(handle_idx as int));
        let func_handle = &m.function_handles[handle_idx];
        assert(m@.function_handles[handle_idx as int] == func_handle@);
        let name_idx: usize = func_handle.name.0 as usize;
        let func_name = &m.identifiers[name_idx];
        assert(m@.definition_name(idx as int) == func_name@);
        if *name == *func_name {
            proof {
                assert(named(idx as int));
                lemma_first_where(m@.function_defs.len(), named);
                assert(is_first(m@.function_defs.len(), named, idx as int));
            }
            return Some(idx);
        }
        assert(!named(idx as int));
        idx += 1;
    }
    proof {
        lemma_first_where(m@.function_defs.len(), named);
        assert(is_first(m@.function_defs.len(), named, idx as int));
    }
    None
}

/// The index of the first handle of the function named `func_name` in the
/// module named `module_name` at `addr`.
pub fn find_function_handle_by_name(
    m: &CompiledModule,
    addr: &AccountAddress,
    module_name: &Identifier,
    func_name: &Identifier,
) -> (r: Option<FunctionHandleIndex>)
    requires
        m@.well_formed(),
    ensures
        match r {
            Some(handle) => handle.0 < m.function_handles.len() && handle.0
                == function_handle_index(m@, addr@, module_name@, func_name@),
            None => function_handle_index(m@, addr@, module_name@, func_name@)
                == m.function_handles.len(),
        },
{
    let ghost named = handle_is_named(m@, addr@, module_name@, func_name@);
    let mut idx: usize = 0;
    while idx < m.function_handles.len()
        invariant
            idx <= m.function_handles.len(),
            m@.well_formed(),
            named == handle_is_named(m@, addr@, module_name@, func_name@),
            forall|j: int| 0 <= j < idx ==> !#[trigger] named(j),
        decreases m.function_handles.len() - idx,
    {
        let func_handle = &m.function_handles[idx];
        assert(m@.function_handles[idx as int] == func_handle@);
        assert(m@.function_handle_in_bounds(idx as int));
        let module_idx: usize = func_handle.module.0 as usize;
        assert(m@.module_handle_in_bounds(module_idx as int));
        let module_handle = &m.module_handles[module_idx];
        let address_idx: usize = module_handle.address.0 as usize;
        let module_name_idx: usize = module_handle.name.0 as usize;
        let name_idx: usize = func_handle.name.0 as usize;
        assert(m@.function_module_address(idx as int) == m.address_identifiers[address_idx as int]@);
        assert(m@.function_module_name(idx as int) == m.identifiers[module_name_idx as int]@);
        assert(m@.function_name(idx as int) == m.identifiers[name_idx as int]@);
        if m.address_identifiers[address_idx] == *addr && m.identifiers[module_name_idx]
            == *module_name && m.identifiers[name_idx] == *func_name {
            proof {
                assert(named(idx as int));
                lemma_first_where(m@.function_handles.len(), named);
                assert(is_first(m@.function_handles.len(), named, idx as int));
            }
            let index: u16 = idx as u16;
            return Some(FunctionHandleIndex(index));
        }
        assert(!named(idx as int));
        idx += 1;
    }
    proof {
        lemma_first_where(m@.function_handles.len(), named);
        assert(is_first(m@.function_handles.len(), named, idx as int));
    }
    None
}

/// The index of the first element of `pool` equal to `val`, or the length of the
/// pool when there is none.
fn find<T: PartialEq>(pool: &Vec<T>, val: &T) -> (idx: usize)
    requires
        T::obeys_eq_spec(),
    ensures
        idx == position_of(pool@, *val),
{
    let ghost found = |i: int| pool@[i].eq_spec(val);
    let mut i: usize = 0;
    while i < pool.len()
        invariant
            i <= pool.len(),
            T::obeys_eq_spec(),
            found == (|i: int| pool@[i].eq_spec(val)),
            forall|j: int| 0 <= j < i ==> !#[trigger] found(j),
        decreases pool.len() - i,
    {
        if pool[i] == *val {
            proof {
                assert(found(i as int));
                lemma_first_where(pool@.len(), found);
                assert(is_first(pool@.len(), found, i as int));
            }
            return i;
        }
        assert(!found(i as int));
        i += 1;
    }
    proof {
        lemma_first_where(pool@.len(), found);
        assert(is_first(pool@.len(), found, i as int));
    }
    i
}

/// Interns `val` in a pool of at most `TABLE_CAPACITY` entries. A pool that is
/// full takes no new entry.
fn intern<T: PartialEq>(pool: &mut Vec<T>, val: T) -> (r: Option<u16>)
    requires
        T::obeys_eq_spec(),
        old(pool).len() <= TABLE_CAPACITY,
    ensures
        final(pool).len() <= TABLE_CAPACITY,
        0 <= position_of(old(pool)@, val) <= old(pool).len(),
        position_of(old(pool)@, val) < old(pool).len() ==> r == Some(
            position_of(old(pool)@, val) as u16,
        ) && final(pool)@ == old(pool)@,
        position_of(old(pool)@, val) == old(pool).len() && old(pool).len() < TABLE_CAPACITY ==> r
            == Some(old(pool).len() as u16) && final(pool)@ == old(pool)@.push(val),
        position_of(old(pool)@, val) == old(pool).len() && old(pool).len() == TABLE_CAPACITY ==> r
            is None && final(pool)@ == old(pool)@,
{
    proof {
        lemma_first_where(pool@.len(), |i: int| pool@[i].eq_spec(&val));
    }
    if pool.len() < TABLE_CAPACITY {
        let idx: usize = get_or_add(pool, val);
        let slot: u16 = idx as u16;
        Some(slot)
    } else {
        let idx: usize = find(pool, &val);
        if idx < pool.len() {
            let slot: u16 = idx as u16;
            Some(slot)
        } else {
            None
        }
    }
}

/// Interns an address in the module's address pool, and returns where it
/// stands. `None` when the pool is full and does not hold it.
pub fn get_or_add_addr(m: &mut CompiledModule, addr: AccountAddress) -> (r: Option<
    AddressIdentifierIndex,
>)
    requires
        old(m)@.well_formed(),
    ensures
        final(m)@.well_formed(),
        final(m)@ == with_address(old(m)@, addr@),
        r == match slot(old(m)@.address_identifiers, addr@) {
            Some(i) => Some(AddressIdentifierIndex(i)),
            None => None,
        },
{
    proof {
        lemma_position_by_key(m.address_identifiers@, addr, |a: AccountAddress| a@);
    }
    let ghost before = m.address_identifiers@;
    let r = intern(&mut m.address_identifiers, addr);
    proof {
        let key = |a: AccountAddress| a@;
        assert(before.map_values(key) =~= old(m)@.address_identifiers);
        assert(before.push(addr).map_values(key) =~= before.map_values(key).push(addr@));
        assert(m@.address_identifiers =~= with_entry(old(m)@.address_identifiers, addr@));
        assert(m@ =~= with_address(old(m)@, addr@));
        lemma_well_formed_grows(old(m)@, m@);
    }
    match r {
        Some(i) => Some(AddressIdentifierIndex(i)),
        None => None,
    }
}

/// Interns a name in the module's identifier pool, and returns where it stands.
/// `None` when the pool is full and does not hold it.
pub fn get_or_add_ident(m: &mut CompiledModule, ident: Identifier) -> (r: Option<IdentifierIndex>)
    requires
        old(m)@.well_formed(),
    ensures
        final(m)@.well_formed(),
        final(m)@ == with_identifier(old(m)@, ident@),
        r == match slot(old(m)@.identifiers, ident@) {
            Some(i) => Some(IdentifierIndex(i)),
            None => None,
        },
{
    proof {
        lemma_position_by_key(m.identifiers@, ident, |i: Identifier| i@);
    }
    let ghost before = m.identifiers@;
    let r = intern(&mut m.identifiers, ident);
    proof {
        let key = |i: Identifier| i@;
        assert(before.map_values(key) =~= old(m)@.identifiers);
        assert(before.push(ident).map_values(key) =~= before.map_values(key).push(ident@));
        assert(m@.identifiers =~= with_entry(old(m)@.identifiers, ident@));
        assert(m@ =~= with_identifier(old(m)@, ident@));
        lemma_well_formed_grows(old(m)@, m@);
    }
    match r {
        Some(i) => Some(IdentifierIndex(i)),
        None => None,
    }
}

/// Interns a signature in the module's signature pool, and returns where it
/// stands. `None` when the pool is full and does not hold it.
pub fn get_or_add_signature(m: &mut CompiledModule, sig: Vec<SignatureToken>) -> (r: Option<
    SignatureIndex,
>)
    requires
        old(m)@.well_formed(),
    ensures
        final(m)@.well_formed(),
        final(m)@ == with_signature(old(m)@, sig@),
        r == match slot(old(m)@.signatures, sig@) {
            Some(i) => Some(SignatureIndex(i)),
            None => None,
        },
{
    let signature = Signature(sig);
    proof {
        lemma_position_by_key(m.signatures@, signature, |s: Signature| s@);
    }
    let ghost before = m.signatures@;
    let r = intern(&mut m.signatures, signature);
    proof {
        let key = |s: Signature| s@;
        assert(before.map_values(key) =~= old(m)@.signatures);
        assert(before.push(signature).map_values(key) =~= before.map_values(key).push(sig@));
        assert(m@.signatures =~= with_entry(old(m)@.signatures, sig@));
        assert(m@ =~= with_signature(old(m)@, sig@));
        lemma_well_formed_grows(old(m)@, m@);
    }
    match r {
        Some(i) => Some(SignatureIndex(i)),
        None => None,
    }
}

/// The pool `after` holds what `before` holds, at the same places.
pub open spec fn extends<V>(before: Seq<V>, after: Seq<V>) -> bool {
    &&& before.len() <= after.len()
    &&& forall|i: int| 0 <= i < before.len() ==> #[trigger] after[i] == before[i]
}

/// The tables of `after` hold what those of `before` hold, within their
/// capacity: every entry of `before` stands where it stood, a definition with the
/// handle it had, and every entry that `after` gains refers into the tables.
pub open spec fn grows(before: ModuleView, after: ModuleView) -> bool {
    &&& extends(before.address_identifiers, after.address_identifiers)
    &&& extends(before.identifiers, after.identifiers)
    &&& extends(before.signatures, after.signatures)
    &&& extends(before.module_handles, after.module_handles)
    &&& extends(before.function_handles, after.function_handles)
    &&& before.function_defs.len() <= after.function_defs.len()
    &&& forall|i: int|
        0 <= i < before.function_defs.len() ==> (#[trigger] after.function_defs[i]).function
            == before.function_defs[i].function
    &&& after.address_identifiers.len() <= TABLE_CAPACITY
    &&& after.identifiers.len() <= TABLE_CAPACITY
    &&& after.signatures.len() <= TABLE_CAPACITY
    &&& after.module_handles.len() <= TABLE_CAPACITY
    &&& after.function_handles.len() <= TABLE_CAPACITY
    &&& after.function_defs.len() <= TABLE_CAPACITY
    &&& after.self_module_handle_idx == before.self_module_handle_idx
    &&& forall|i: int|
        before.module_handles.len() <= i < after.module_handles.len()
            ==> #[trigger] after.module_handle_in_bounds(i)
    &&& forall|i: int|
        before.function_handles.len() <= i < after.function_handles.len()
            ==> #[trigger] after.function_handle_in_bounds(i)
    &&& forall|i: int|
        before.function_defs.len() <= i < after.function_defs.len() ==> (
        #[trigger] after.function_defs[i]).function.0 < after.function_handles.len()
}

/// A well-formed module that grows stays well formed, and the functions it had
/// keep their names.
pub proof fn lemma_well_formed_grows(before: ModuleView, after: ModuleView)
    requires
        before.well_formed(),
        grows(before, after),
    ensures
        after.well_formed(),
        forall|i: int|
            0 <= i < before.function_handles.len() ==> {
                &&& after.function_name(i) == before.function_name(i)
                &&& after.function_module_name(i) == before.function_module_name(i)
                &&& after.function_module_address(i) == before.function_module_address(i)
            },
        forall|i: int|
            0 <= i < before.function_defs.len() ==> after.definition_name(i)
                == before.definition_name(i),
        after.own_name() == before.own_name(),
        after.own_address() == before.own_address(),
{
    assert forall|i: int| 0 <= i < after.module_handles.len() implies #[trigger]
        after.module_handle_in_bounds(i) by {
        if i < before.module_handles.len() {
            assert(before.module_handle_in_bounds(i));
            assert(after.module_handles[i] == before.module_handles[i]);
        }
    }
    assert forall|i: int| 0 <= i < after.function_handles.len() implies #[trigger]
        after.function_handle_in_bounds(i) by {
        if i < before.function_handles.len() {
            assert(before.function_handle_in_bounds(i));
            assert(after.function_handles[i] == before.function_handles[i]);
        }
    }
    assert forall|i: int| 0 <= i < after.function_defs.len() implies (
    #[trigger] after.function_defs[i]).function.0 < after.function_handles.len() by {
        if i < before.function_defs.len() {
            assert(before.function_defs[i].function.0 < before.function_handles.len());
        }
    }
    assert forall|i: int| 0 <= i < before.function_handles.len() implies {
        &&& after.function_name(i) == before.function_name(i)
        &&& after.function_module_name(i) == before.function_module_name(i)
        &&& after.function_module_address(i) == before.function_module_address(i)
    } by {
        assert(before.function_handle_in_bounds(i));
        assert(after.function_handles[i] == before.function_handles[i]);
        let module = before.function_handles[i].module.0 as int;
        assert(before.module_handle_in_bounds(module));
        assert(after.module_handles[module] == before.module_handles[module]);
    }
    assert forall|i: int| 0 <= i < before.function_defs.len() implies after.definition_name(i)
        == before.definition_name(i) by {
        let handle = before.function_defs[i].function.0 as int;
        assert(after.function_defs[i].function == before.function_defs[i].function);
        assert(before.function_handle_in_bounds(handle));
        assert(after.function_handles[handle] == before.function_handles[handle]);
    }
    let own = before.self_module_handle_idx.0 as int;
    assert(before.module_handle_in_bounds(own));
    assert(after.module_handles[own] == before.module_handles[own]);
}

/// The module with the handle of the module named `name` at `address` interned,
/// after its address and its name. A pool that is full and lacks its entry ends
/// the edit.
pub open spec fn with_module_handle(m: ModuleView, address: Seq<u8>, name: Seq<char>) -> (
    ModuleView,
    Option<ModuleHandleIndex>,
) {
    let m1 = with_address(m, address);
    match slot(m.address_identifiers, address) {
        None => (m1, None),
        Some(a) => {
            let m2 = with_identifier(m1, name);
            match slot(m1.identifiers, name) {
                None => (m2, None),
                Some(n) => {
                    let handle = ModuleHandle {
                        address: AddressIdentifierIndex(a),
                        name: IdentifierIndex(n),
                    };
                    (
                        ModuleView { module_handles: with_entry(m2.module_handles, handle), ..m2 },
                        match slot(m2.module_handles, handle) {
                            Some(i) => Some(ModuleHandleIndex(i)),
                            None => None,
                        },
                    )
                },
            }
        },
    }
}

/// Interns the handle of the module named `name` at `addr`, and returns where it
/// stands. `None` when a pool is full and does not hold what the handle needs.
pub fn get_or_add_module_handle(m: &mut CompiledModule, addr: AccountAddress, name: Identifier) -> (r:
    Option<ModuleHandleIndex>)
    requires
        old(m)@.well_formed(),
    ensures
        final(m)@.well_formed(),
        final(m)@ == with_module_handle(old(m)@, addr@, name@).0,
        r == with_module_handle(old(m)@, addr@, name@).1,
{
    let address = match get_or_add_addr(m, addr) {
        Some(address) => address,
        None => {
            return None;
        },
    };
    let ghost m1 = m@;
    let name_idx = match get_or_add_ident(m, name) {
        Some(name_idx) => name_idx,
        None => {
            return None;
        },
    };
    let ghost m2 = m@;
    let module_handle = ModuleHandle { address, name: name_idx };
    proof {
        lemma_position_by_key(m.module_handles@, module_handle, |h: ModuleHandle| h);
        assert(m.module_handles@.map_values(|h: ModuleHandle| h) =~= m.module_handles@);
        lemma_first_where(m1.address_identifiers.len(), |i: int| m1.address_identifiers[i] == addr@);
        lemma_first_where(
            old(m)@.address_identifiers.len(),
            |i: int| old(m)@.address_identifiers[i] == addr@,
        );
        lemma_first_where(m2.identifiers.len(), |i: int| m2.identifiers[i] == name@);
        lemma_first_where(m1.identifiers.len(), |i: int| m1.identifiers[i] == name@);
    }
    let r = intern(&mut m.module_handles, module_handle);
    proof {
        assert(m@ =~= with_module_handle(old(m)@, addr@, name@).0);
        lemma_well_formed_grows(m2, m@);
    }
    match r {
        Some(i) => Some(ModuleHandleIndex(i)),
        None => None,
    }
}

/// The handle of a native function of the module itself, without type
/// parameters.
pub open spec fn native_handle(
    m: ModuleView,
    name: u16,
    parameters: u16,
    return_: u16,
) -> FunctionHandleView {
    FunctionHandleView {
        module: m.self_module_handle_idx,
        name: IdentifierIndex(name),
        parameters: SignatureIndex(parameters),
        return_: SignatureIndex(return_),
        type_parameters: Seq::empty(),
    }
}

/// The definition of a private native function: no body, not an entry point,
/// no resources acquired.
pub open spec fn native_definition(function: u16) -> FunctionDefinitionView {
    FunctionDefinitionView {
        function: FunctionHandleIndex(function),
        visibility: Visibility::Private,
        is_entry: false,
        acquires_global_resources: Seq::empty(),
        code: None,
    }
}

/// The module once a native function of its own, `name`, has been declared, and
/// the handle of that function. A module that has a handle of that name is left
/// as it is. Otherwise the name and the two signatures are interned, in this
/// order, and a handle and a definition are appended. A table that is full and
/// lacks its entry ends the edit without a handle.
pub open spec fn declare_native(
    m: ModuleView,
    name: Seq<char>,
    params: Seq<SignatureToken>,
    results: Seq<SignatureToken>,
) -> (ModuleView, Option<FunctionHandleIndex>) {
    let found = function_handle_index(m, m.own_address(), m.own_name(), name);
    if found < m.function_handles.len() {
        (m, Some(FunctionHandleIndex(found as u16)))
    } else {
        let m1 = with_identifier(m, name);
        match slot(m.identifiers, name) {
            None => (m1, None),
            Some(n) => {
                let m2 = with_signature(m1, params);
                match slot(m1.signatures, params) {
                    None => (m2, None),
                    Some(p) => {
                        let m3 = with_signature(m2, results);
                        match slot(m2.signatures, results) {
                            None => (m3, None),
                            Some(r) => {
                                if m3.function_handles.len() >= TABLE_CAPACITY
                                    || m3.function_defs.len() >= TABLE_CAPACITY {
                                    (m3, None)
                                } else {
                                    let h = m3.function_handles.len() as u16;
                                    (
                                        ModuleView {
                                            function_handles: m3.function_handles.push(
                                                native_handle(m3, n, p, r),
                                            ),
                                            function_defs: m3.function_defs.push(
                                                native_definition(h),
                                            ),
                                            ..m3
                                        },
                                        Some(FunctionHandleIndex(h)),
                                    )
                                }
                            },
                        }
                    },
                }
            },
        }
    }
}

/// Declares a native function of the module itself: one whose code is provided
/// from outside. Returns the handle that the module has for a function of that
/// name, or else the handle of the function it declares: private, not an entry
/// point, with the given parameter and return types.
pub fn add_simple_native_function(
    m: &mut CompiledModule,
    func_name: Identifier,
    params: Vec<SignatureToken>,
    results: Vec<SignatureToken>,
) -> (r: Result<FunctionHandleIndex, PatchError>)
    requires
        old(m)@.well_formed(),
    ensures
        final(m)@.well_formed(),
        final(m)@ == declare_native(old(m)@, func_name@, params@, results@).0,
        r == match declare_native(old(m)@, func_name@, params@, results@).1 {
            Some(handle) => Ok::<FunctionHandleIndex, PatchError>(handle),
            None => Err(PatchError::TableFull),
        },
{
    let self_idx: usize = m.self_module_handle_idx.0 as usize;
    assert(m@.module_handle_in_bounds(self_idx as int));
    let self_handle = m.module_handles[self_idx];
    let self_addr = m.address_identifiers[self_handle.address.0 as usize];
    let self_name = m.identifiers[self_handle.name.0 as usize].clone();
    assert(self_addr@ == m@.own_address());
    assert(self_name@ == m@.own_name());
    if let Some(func_handle_idx) = find_function_handle_by_name(
        m,
        &self_addr,
        &self_name,
        &func_name,
    ) {
        return Ok(func_handle_idx);
    }
    let name = match get_or_add_ident(m, func_name) {
        Some(name) => name,
        None => {
            return Err(PatchError::TableFull);
        },
    };
    let ghost m1 = m@;
    let parameters = match get_or_add_signature(m, params) {
        Some(parameters) => parameters,
        None => {
            return Err(PatchError::TableFull);
        },
    };
    let ghost m2 = m@;
    let return_ = match get_or_add_signature(m, results) {
        Some(return_) => return_,
        None => {
            return Err(PatchError::TableFull);
        },
    };
    let ghost m3 = m@;
    if m.function_handles.len() >= TABLE_CAPACITY || m.function_defs.len() >= TABLE_CAPACITY {
        return Err(PatchError::TableFull);
    }
    proof {
        lemma_first_where(old(m)@.identifiers.len(), |i: int| old(m)@.identifiers[i] == func_name@);
        lemma_first_where(m1.signatures.len(), |i: int| m1.signatures[i] == params@);
        lemma_first_where(m2.signatures.len(), |i: int| m2.signatures[i] == results@);
    }
    let func_handle = FunctionHandle {
        module: m.self_module_handle_idx,
        name,
        parameters,
        return_,
        type_parameters: Vec::new(),
    };
    let handle_idx: u16 = m.function_handles.len() as u16;
    let func_handle_idx = FunctionHandleIndex(handle_idx);
    let ghost handles = m.function_handles@;
    let ghost defs = m.function_defs@;
    m.function_handles.push(func_handle);
    let func_def = FunctionDefinition {
        function: func_handle_idx,
        visibility: Visibility::Private,
        is_entry: false,
        acquires_global_resources: Vec::new(),
        code: None,
    };
    m.function_defs.push(func_def);
    proof {
        let handle_key = |h: FunctionHandle| h@;
        let def_key = |d: FunctionDefinition| d@;
        assert(func_handle@ =~= native_handle(m3, name.0, parameters.0, return_.0));
        assert(func_def@ =~= native_definition(handle_idx));
        assert(handles.push(func_handle).map_values(handle_key) =~= handles.map_values(
            handle_key,
        ).push(func_handle@));
        assert(defs.push(func_def).map_values(def_key) =~= defs.map_values(def_key).push(
            func_def@,
        ));
        assert(handles.map_values(handle_key) =~= m3.function_handles);
        assert(defs.map_values(def_key) =~= m3.function_defs);
        assert(m@ =~= declare_native(old(m)@, func_name@, params@, results@).0);
        assert(m@.function_handle_in_bounds(handle_idx as int));
        lemma_well_formed_grows(m3, m@);
    }
    Ok(func_handle_idx)
}

/// An entry that has been interned is found where it was put, and interning it
/// again changes nothing.
pub proof fn lemma_with_entry_found<V>(pool: Seq<V>, v: V)
    requires
        pool.len() <= TABLE_CAPACITY,
        slot(pool, v) is Some,
    ensures
        extends(pool, with_entry(pool, v)),
        with_entry(pool, v).len() <= TABLE_CAPACITY,
        0 <= index_of(pool, v) < with_entry(pool, v).len(),
        with_entry(pool, v)[index_of(pool, v)] == v,
        index_of(with_entry(pool, v), v) == index_of(pool, v),
        slot(with_entry(pool, v), v) == slot(pool, v),
        slot(pool, v)->0 == index_of(pool, v),
        with_entry(with_entry(pool, v), v) == with_entry(pool, v),
{
    let after = with_entry(pool, v);
    let found = |i: int| pool[i] == v;
    let found_after = |i: int| after[i] == v;
    lemma_first_where(pool.len(), found);
    lemma_first_where(after.len(), found_after);
    let p = index_of(pool, v);
    assert(is_first(after.len(), found_after, p)) by {
        assert forall|j: int| 0 <= j < p implies !#[trigger] found_after(j) by {
            assert(!found(j));
        }
        if p < pool.len() {
            assert(found(p));
        }
        assert(found_after(p));
    }
}

/// In a module that has grown, a function handle that was found is found where
/// it was.
pub proof fn lemma_grows_keeps_handle(
    before: ModuleView,
    after: ModuleView,
    address: Seq<u8>,
    module_name: Seq<char>,
    function_name: Seq<char>,
)
    requires
        before.well_formed(),
        grows(before, after),
        function_handle_index(before, address, module_name, function_name)
            < before.function_handles.len(),
    ensures
        function_handle_index(after, address, module_name, function_name) == function_handle_index(
            before,
            address,
            module_name,
            function_name,
        ),
{
    lemma_well_formed_grows(before, after);
    let n = before.function_handles.len();
    let p = handle_is_named(before, address, module_name, function_name);
    let q = handle_is_named(after, address, module_name, function_name);
    lemma_first_where(n, p);
    assert forall|i: int| 0 <= i < n implies #[trigger] p(i) == q(i) by {
        assert(after.function_name(i) == before.function_name(i));
    }
    crate::pool::lemma_first_where_agrees(n, p, q);
    crate::pool::lemma_first_where_extends(n, after.function_handles.len(), q);
}

/// In a module that has grown, a function definition that was found is found
/// where it was.
pub proof fn lemma_grows_keeps_definition(before: ModuleView, after: ModuleView, name: Seq<char>)
    requires
        before.well_formed(),
        grows(before, after),
        function_definition_index(before, name) < before.function_defs.len(),
    ensures
        function_definition_index(after, name) == function_definition_index(before, name),
{
    lemma_well_formed_grows(before, after);
    let n = before.function_defs.len();
    let p = definition_is_named(before, name);
    let q = definition_is_named(after, name);
    lemma_first_where(n, p);
    assert forall|i: int| 0 <= i < n implies #[trigger] p(i) == q(i) by {
        assert(after.definition_name(i) == before.definition_name(i));
    }
    crate::pool::lemma_first_where_agrees(n, p, q);
    crate::pool::lemma_first_where_extends(n, after.function_defs.len(), q);
}

/// A module grows when an entry is interned in its identifier pool.
pub proof fn lemma_with_identifier_grows(m: ModuleView, name: Seq<char>)
    requires
        m.well_formed(),
    ensures
        grows(m, with_identifier(m, name)),
        with_identifier(m, name).well_formed(),
{
    lemma_well_formed_grows(m, with_identifier(m, name));
}

/// A module grows when an entry is interned in its signature pool.
pub proof fn lemma_with_signature_grows(m: ModuleView, signature: Seq<SignatureToken>)
    requires
        m.well_formed(),
    ensures
        grows(m, with_signature(m, signature)),
        with_signature(m, signature).well_formed(),
{
    lemma_well_formed_grows(m, with_signature(m, signature));
}

/// Growth carries over: what has grown from a module that has grown from a
/// third has grown from the third.
pub proof fn lemma_grows_transitive(a: ModuleView, b: ModuleView, c: ModuleView)
    requires
        grows(a, b),
        grows(b, c),
    ensures
        grows(a, c),
{
    assert forall|i: int| 0 <= i < a.function_defs.len() implies (
    #[trigger] c.function_defs[i]).function == a.function_defs[i].function by {
        assert(b.function_defs[i].function == a.function_defs[i].function);
    }
    assert forall|i: int| a.module_handles.len() <= i < c.module_handles.len() implies #[trigger]
        c.module_handle_in_bounds(i) by {
        if i < b.module_handles.len() {
            assert(b.module_handle_in_bounds(i));
            assert(c.module_handles[i] == b.module_handles[i]);
        }
    }
    assert forall|i: int|
        a.function_handles.len() <= i < c.function_handles.len() implies #[trigger]
        c.function_handle_in_bounds(i) by {
        if i < b.function_handles.len() {
            assert(b.function_handle_in_bounds(i));
            assert(c.function_handles[i] == b.function_handles[i]);
        }
    }
    assert forall|i: int| a.function_defs.len() <= i < c.function_defs.len() implies (
    #[trigger] c.function_defs[i]).function.0 < c.function_handles.len() by {
        if i < b.function_defs.len() {
            assert(b.function_defs[i].function.0 < b.function_handles.len());
        }
    }
}

/// Declaring a native function leaves a well-formed module that has grown, and
/// where it gave a handle, declaring the function again gives that handle and
/// changes nothing.
pub proof fn lemma_declare_native_again(
    m: ModuleView,
    name: Seq<char>,
    params: Seq<SignatureToken>,
    results: Seq<SignatureToken>,
)
    requires
        m.well_formed(),
    ensures
        declare_native(m, name, params, results).0.well_formed(),
        grows(m, declare_native(m, name, params, results).0),
        declare_native(m, name, params, results).1 matches Some(handle) ==> {
            &&& handle.0 < declare_native(m, name, params, results).0.function_handles.len()
            &&& function_handle_index(
                declare_native(m, name, params, results).0,
                m.own_address(),
                m.own_name(),
                name,
            ) == handle.0
            &&& declare_native(declare_native(m, name, params, results).0, name, params, results)
                == declare_native(m, name, params, results)
        },
{
    let found = function_handle_index(m, m.own_address(), m.own_name(), name);
    let named = handle_is_named(m, m.own_address(), m.own_name(), name);
    lemma_first_where(m.function_handles.len(), named);
    if found < m.function_handles.len() {
    } else {
        let m1 = with_identifier(m, name);
        lemma_with_identifier_grows(m, name);
        let m2 = with_signature(m1, params);
        lemma_with_signature_grows(m1, params);
        let m3 = with_signature(m2, results);
        lemma_with_signature_grows(m2, results);
        lemma_grows_transitive(m, m1, m2);
        lemma_grows_transitive(m, m2, m3);
        let out = declare_native(m, name, params, results);
        if out.1 is Some {
            let n = slot(m.identifiers, name)->0;
            let p = slot(m1.signatures, params)->0;
            let r = slot(m2.signatures, results)->0;
            lemma_with_entry_found(m.identifiers, name);
            lemma_with_entry_found(m1.signatures, params);
            lemma_with_entry_found(m2.signatures, results);
            let m4 = out.0;
            let h = m3.function_handles.len() as int;
            assert(m4.function_handles[h] == native_handle(m3, n, p, r));
            assert(m4.function_handle_in_bounds(h));
            assert(grows(m3, m4));
            lemma_grows_transitive(m, m3, m4);
            lemma_well_formed_grows(m, m4);
            let named4 = handle_is_named(m4, m4.own_address(), m4.own_name(), name);
            assert(m4.identifiers[n as int] == name);
            assert(named4(h));
            assert forall|j: int| 0 <= j < h implies !#[trigger] named4(j) by {
                assert(!named(j));
                assert(m4.function_name(j) == m.function_name(j));
            }
            lemma_first_where(m4.function_handles.len(), named4);
            assert(is_first(m4.function_handles.len(), named4, h));
        } else {
            lemma_well_formed_grows(m, out.0);
        }
    }
}

} // verus!
