//! The governance patch: the function of the governance module that resolves an
//! approved proposal to a signer gets a body that hands out the signer at once.

use vstd::prelude::*;
use crate::editor::{
    add_simple_native_function, declare_native, find_function_def_by_name,
    function_definition_index, get_or_add_signature, slot, with_signature,
};
use crate::error::PatchError;
use crate::file_format::{
    address_one, is_valid_identifier, AccountAddress, Bytecode, CodeUnit, CodeUnitView,
    CompiledModule, FunctionDefinition, FunctionDefinitionView, FunctionHandleIndex, Identifier,
    ModuleView, SignatureIndex, SignatureToken,
};
use crate::state::{
    is_read, legacy_value, module_key, ModuleId, Overlay, SimulationStateView, StateKey, StateKeyView,
    StateValue,
};

verus! {

/// The proposal id that the scripts are run with. The patched resolver ignores
/// it.
pub const DUMMY_PROPOSAL_ID: u64 = 0xFFFF_FFFF_FFFF_FFFF;

/// The code with which the patched resolver aborts where a step that must be
/// the last one names a next step.
pub const MAGIC_FAILED_NEXT_EXECUTION_HASH_CHECK: u64 = 0xDEAD_BEEF;

/// The name of the governance module.
pub open spec fn governance_module_name() -> Seq<char> {
    "aptos_governance"@
}

/// The name of the native function that makes a signer of an address.
pub open spec fn create_signer_name() -> Seq<char> {
    "create_signer"@
}

/// The name of the function that resolves a proposal to a signer.
pub open spec fn resolver_name() -> Seq<char> {
    "resolve_multi_step_proposal"@
}

/// The key under which the code of the governance module is stored.
pub open spec fn governance_module_key() -> StateKeyView {
    StateKeyView::Module { address: address_one(), name: governance_module_name() }
}

/// The identifier that a valid literal spells.
fn identifier(name: &'static str) -> (r: Identifier)
    requires
        is_valid_identifier(name@),
    ensures
        r@ == name@,
{
    match Identifier::new(name) {
        Some(ident) => ident,
        None => unreached(),
    }
}

/// The name of the governance module.
pub fn module_name_aptos_governance() -> (r: Identifier)
    ensures
        r@ == governance_module_name(),
{
    proof {
        reveal_strlit("aptos_governance");
    }
    identifier("aptos_governance")
}

/// The name of the native function that makes a signer of an address.
pub fn func_name_create_signer() -> (r: Identifier)
    ensures
        r@ == create_signer_name(),
{
    proof {
        reveal_strlit("create_signer");
    }
    identifier("create_signer")
}

/// The name of the function that resolves a proposal to a signer.
pub fn func_name_resolve_multi_step_proposal() -> (r: Identifier)
    ensures
        r@ == resolver_name(),
{
    proof {
        reveal_strlit("resolve_multi_step_proposal");
    }
    identifier("resolve_multi_step_proposal")
}

/// The instructions that hand out the signer: load the address, which is the
/// second parameter, make a signer of it, return.
pub open spec fn signer_instructions(create_signer: FunctionHandleIndex) -> Seq<Bytecode> {
    seq![Bytecode::MoveLoc(1), Bytecode::Call(create_signer), Bytecode::Ret]
}

/// The instructions that abort with the magic code unless the next execution
/// hash, which is the third parameter, is empty.
pub open spec fn hash_check_instructions(sig_u8: SignatureIndex) -> Seq<Bytecode> {
    seq![
        Bytecode::ImmBorrowLoc(2),
        Bytecode::VecLen(sig_u8),
        Bytecode::LdU64(0),
        Bytecode::Eq,
        Bytecode::BrTrue(7),
        Bytecode::LdU64(MAGIC_FAILED_NEXT_EXECUTION_HASH_CHECK),
        Bytecode::Abort,
    ]
}

/// The body that the patch gives the resolver.
pub open spec fn resolver_body(
    forbid_next_execution_hash: bool,
    sig_u8: SignatureIndex,
    create_signer: FunctionHandleIndex,
) -> Seq<Bytecode> {
    if forbid_next_execution_hash {
        hash_check_instructions(sig_u8) + signer_instructions(create_signer)
    } else {
        signer_instructions(create_signer)
    }
}

/// The definition with no resources acquired and, where it has a body, with
/// `code` for its instructions.
pub open spec fn with_body(def: FunctionDefinitionView, code: Seq<Bytecode>) -> FunctionDefinitionView {
    FunctionDefinitionView {
        acquires_global_resources: Seq::empty(),
        code: match def.code {
            Some(unit) => Some(CodeUnitView { locals: unit.locals, code }),
            None => None,
        },
        ..def
    }
}

/// The module once the patch has been applied, and whether it succeeded. The
/// native function is declared, then the signature of a byte is interned, then
/// the resolver is looked up and rewritten; the first step that fails ends the
/// patch and leaves what the steps before it did.
pub open spec fn patched(m: ModuleView, forbid_next_execution_hash: bool) -> (
    ModuleView,
    Result<(), PatchError>,
) {
    let (m1, handle) = declare_native(
        m,
        create_signer_name(),
        seq![SignatureToken::Address],
        seq![SignatureToken::Signer],
    );
    match handle {
        None => (m1, Err(PatchError::TableFull)),
        Some(create_signer) => {
            let m2 = with_signature(m1, seq![SignatureToken::U8]);
            match slot(m1.signatures, seq![SignatureToken::U8]) {
                None => (m2, Err(PatchError::TableFull)),
                Some(sig_u8) => {
                    let d = function_definition_index(m2, resolver_name());
                    if d >= m2.function_defs.len() {
                        (m2, Err(PatchError::TargetFunctionNotFound))
                    } else {
                        let def = with_body(
                            m2.function_defs[d],
                            resolver_body(
                                forbid_next_execution_hash,
                                SignatureIndex(sig_u8),
                                create_signer,
                            ),
                        );
                        (
                            ModuleView { function_defs: m2.function_defs.update(d, def), ..m2 },
                            if def.code is Some {
                                Ok(())
                            } else {
                                Err(PatchError::NotMoveDefined)
                            },
                        )
                    }
                },
            }
        },
    }
}

/// The instructions of the patched resolver.
fn build_resolver_body(
    forbid_next_execution_hash: bool,
    sig_u8: SignatureIndex,
    create_signer: FunctionHandleIndex,
) -> (code: Vec<Bytecode>)
    ensures
        code@ == resolver_body(forbid_next_execution_hash, sig_u8, create_signer),
{
    let mut code: Vec<Bytecode> = Vec::new();
    if forbid_next_execution_hash {
        code.push(Bytecode::ImmBorrowLoc(2));
        code.push(Bytecode::VecLen(sig_u8));
        code.push(Bytecode::LdU64(0));
        code.push(Bytecode::Eq);
        code.push(Bytecode::BrTrue(7));
        code.push(Bytecode::LdU64(MAGIC_FAILED_NEXT_EXECUTION_HASH_CHECK));
        code.push(Bytecode::Abort);
    }
    code.push(Bytecode::MoveLoc(1));
    code.push(Bytecode::Call(create_signer));
    code.push(Bytecode::Ret);
    assert(code@ =~= resolver_body(forbid_next_execution_hash, sig_u8, create_signer));
    code
}

/// Edits the governance module so that its resolver returns the requested
/// signer directly. With `forbid_next_execution_hash` the resolver first aborts
/// with `MAGIC_FAILED_NEXT_EXECUTION_HASH_CHECK` where the next execution hash
/// is not empty.
pub fn patch_resolver(m: &mut CompiledModule, forbid_next_execution_hash: bool) -> (r: Result<
    (),
    PatchError,
>)
    requires
        old(m)@.well_formed(),
    ensures
        final(m)@.well_formed(),
        final(m)@ == patched(old(m)@, forbid_next_execution_hash).0,
        r == patched(old(m)@, forbid_next_execution_hash).1,
{
    let mut params: Vec<SignatureToken> = Vec::new();
    params.push(SignatureToken::Address);
    let mut results: Vec<SignatureToken> = Vec::new();
    results.push(SignatureToken::Signer);
    assert(params@ =~= seq![SignatureToken::Address]);
    assert(results@ =~= seq![SignatureToken::Signer]);
    let create_signer = match add_simple_native_function(
        m,
        func_name_create_signer(),
        params,
        results,
    ) {
        Ok(handle) => handle,
        Err(_) => {
            return Err(PatchError::TableFull);
        },
    };
    let mut byte: Vec<SignatureToken> = Vec::new();
    byte.push(SignatureToken::U8);
    assert(byte@ =~= seq![SignatureToken::U8]);
    let sig_u8 = match get_or_add_signature(m, byte) {
        Some(index) => index,
        None => {
            return Err(PatchError::TableFull);
        },
    };
    let ghost m2 = m@;
    let target = func_name_resolve_multi_step_proposal();
    let d = match find_function_def_by_name(m, &target) {
        Some(d) => d,
        None => {
            return Err(PatchError::TargetFunctionNotFound);
        },
    };
    let code = build_resolver_body(forbid_next_execution_hash, sig_u8, create_signer);
    let ghost defs = m.function_defs@;
    let def = &m.function_defs[d];
    let has_body = def.code.is_some();
    let patched_def = FunctionDefinition {
        function: def.function,
        visibility: def.visibility,
        is_entry: def.is_entry,
        acquires_global_resources: Vec::new(),
        code: match &def.code {
            Some(unit) => Some(CodeUnit { locals: unit.locals, code }),
            None => None,
        },
    };
    proof {
        assert(m2.function_defs[d as int] == def@);
        assert(patched_def@ =~= with_body(
            def@,
            resolver_body(forbid_next_execution_hash, sig_u8, create_signer),
        ));
    }
    m.function_defs.set(d, patched_def);
    proof {
        let key = |x: FunctionDefinition| x@;
        assert(defs.update(d as int, patched_def).map_values(key) =~= defs.map_values(key).update(
            d as int,
            patched_def@,
        ));
        assert(defs.map_values(key) =~= m2.function_defs);
        assert(m@ =~= patched(old(m)@, forbid_next_execution_hash).0);
        crate::editor::lemma_well_formed_grows(m2, m@);
    }
    if has_body {
        Ok(())
    } else {
        Err(PatchError::NotMoveDefined)
    }
}

/// Replacing a body twice is replacing it with the second one.
proof fn lemma_with_body_twice(def: FunctionDefinitionView, first: Seq<Bytecode>, second: Seq<Bytecode>)
    ensures
        with_body(with_body(def, first), second) == with_body(def, second),
{
    assert(with_body(with_body(def, first), second) =~= with_body(def, second));
}

/// Patch idempotence: a module that has been patched can be patched again. The
/// second patch succeeds, adds no handle, signature or name, and the module it
/// leaves is the one that the second patch alone would have left. So applying
/// the same patch twice leaves what applying it once leaves.
pub proof fn lemma_patch_idempotent(m: ModuleView, first: bool, second: bool)
    requires
        m.well_formed(),
        patched(m, first).1 is Ok,
    ensures
        patched(m, first).0.well_formed(),
        patched(patched(m, first).0, second).1 is Ok,
        patched(patched(m, first).0, second).0 == patched(m, second).0,
        patched(patched(m, first).0, first) == patched(m, first),
{
    lemma_patch_again(m, first, second);
    lemma_patch_again(m, first, first);
}

/// What `lemma_patch_idempotent` states, for one pair of flags.
proof fn lemma_patch_again(m: ModuleView, first: bool, second: bool)
    requires
        m.well_formed(),
        patched(m, first).1 is Ok,
    ensures
        patched(m, first).0.well_formed(),
        patched(patched(m, first).0, second).1 is Ok,
        patched(patched(m, first).0, second).0 == patched(m, second).0,
{
    let address = seq![SignatureToken::Address];
    let signer = seq![SignatureToken::Signer];
    let byte = seq![SignatureToken::U8];
    let (m1, handle) = declare_native(m, create_signer_name(), address, signer);
    crate::editor::lemma_declare_native_again(m, create_signer_name(), address, signer);
    let create_signer = handle->0;
    let m2 = with_signature(m1, byte);
    let sig_u8 = slot(m1.signatures, byte)->0;
    crate::editor::lemma_with_entry_found(m1.signatures, byte);
    crate::editor::lemma_with_signature_grows(m1, byte);
    let d = function_definition_index(m2, resolver_name());
    crate::pool::lemma_first_where(
        m2.function_defs.len(),
        crate::editor::definition_is_named(m2, resolver_name()),
    );
    let once = patched(m, first).0;
    assert(once.function_defs == m2.function_defs.update(
        d,
        with_body(m2.function_defs[d], resolver_body(first, SignatureIndex(sig_u8), create_signer)),
    ));
    assert(crate::editor::grows(m2, once));
    crate::editor::lemma_well_formed_grows(m2, once);
    crate::editor::lemma_grows_transitive(m1, m2, once);
    crate::editor::lemma_well_formed_grows(m1, once);
    crate::editor::lemma_well_formed_grows(m, m1);
    crate::editor::lemma_grows_keeps_handle(
        m1,
        once,
        m.own_address(),
        m.own_name(),
        create_signer_name(),
    );
    assert(declare_native(once, create_signer_name(), address, signer) == (once, handle));
    assert(with_signature(once, byte) =~= once);
    crate::editor::lemma_grows_keeps_definition(m2, once, resolver_name());
    lemma_with_body_twice(
        m2.function_defs[d],
        resolver_body(first, SignatureIndex(sig_u8), create_signer),
        resolver_body(second, SignatureIndex(sig_u8), create_signer),
    );
    assert(patched(once, second).0 =~= patched(m, second).0);
}

/// The governance module: `aptos_governance` under the address `0x1`.
pub fn module_id_aptos_governance() -> (id: ModuleId)
    ensures
        id.address@ == address_one(),
        id.name@ == governance_module_name(),
{
    ModuleId { address: AccountAddress::one(), name: module_name_aptos_governance() }
}

/// Whether a patch can have run so. The read of the module's key gave `read`.
/// Where it gave a value, the decoder made `decoded` of its bytes. Where that is
/// a well-formed module, the edit made `edited` of it. Where the edit succeeded,
/// the verifier gave `verdict`, and where it accepted, the encoder gave
/// `encoded`. The patch returns `r` and leaves the overlay `after`: the first
/// step that failed decides the error and the overlay stays as it was, and where
/// no step failed the encoded module is written under the key.
pub open spec fn is_patch_run<E, R, D, V, S>(
    before: Overlay,
    key: StateKeyView,
    forbid_next_execution_hash: bool,
    remote: R,
    deserialize: D,
    verify: V,
    serialize: S,
    read: Result<Option<StateValue>, E>,
    decoded: Result<CompiledModule, String>,
    edited: CompiledModule,
    verdict: Result<(), String>,
    encoded: Result<Vec<u8>, String>,
    r: Result<(), PatchError>,
    after: Overlay,
) -> bool where
    R: FnOnce() -> Result<Option<StateValue>, E>,
    D: FnOnce(&Vec<u8>) -> Result<CompiledModule, String>,
    V: FnOnce(&CompiledModule) -> Result<(), String>,
    S: FnOnce(&CompiledModule) -> Result<Vec<u8>, String>,
 {
    &&& is_read(before, key, remote, read)
    &&& match read {
        Err(_) => r == Err::<(), PatchError>(PatchError::StateUnavailable) && after == before,
        Ok(None) => r == Err::<(), PatchError>(PatchError::ModuleNotFound) && after == before,
        Ok(Some(value)) => {
            &&& call_ensures(deserialize, (&value.data,), decoded)
            &&& match decoded {
                Err(reason) => r == Err::<(), PatchError>(
                    PatchError::DeserializationError(reason),
                ) && after == before,
                Ok(loaded) => if !loaded@.well_formed() {
                    r matches Err(PatchError::DeserializationError(_)) && after == before
                } else {
                    &&& edited@ == patched(loaded@, forbid_next_execution_hash).0
                    &&& match patched(loaded@, forbid_next_execution_hash).1 {
                        Err(e) => r == Err::<(), PatchError>(e) && after == before,
                        Ok(_) => {
                            &&& call_ensures(verify, (&edited,), verdict)
                            &&& match verdict {
                                Err(reason) => r == Err::<(), PatchError>(
                                    PatchError::VerificationFailed(reason),
                                ) && after == before,
                                Ok(_) => {
                                    &&& call_ensures(serialize, (&edited,), encoded)
                                    &&& match encoded {
                                        Err(reason) => r == Err::<(), PatchError>(
                                            PatchError::SerializationError(reason),
                                        ) && after == before,
                                        Ok(out) => r is Ok && after == before.insert(
                                            key,
                                            Some(legacy_value(out@)),
                                        ),
                                    }
                                },
                            }
                        },
                    }
                },
            }
        },
    }
}

/// Loads a module from the state view, decodes it, patches its resolver,
/// verifies and encodes it, and writes it back. The chain is read by `remote`,
/// where the overlay lacks the module; `deserialize`, `verify` and `serialize`
/// are the decoder, the bytecode verifier and the encoder of modules. A decoded
/// module whose tables do not fit together is refused like bytes that do not
/// decode. The first step that fails ends the patch, and the state view is left
/// as it was.
pub fn patch_module<E, R, D, V, S>(
    state_view: &mut SimulationStateView,
    module_id: &ModuleId,
    forbid_next_execution_hash: bool,
    remote: R,
    deserialize: D,
    verify: V,
    serialize: S,
) -> (r: Result<(), PatchError>) where
    R: FnOnce() -> Result<Option<StateValue>, E>,
    D: FnOnce(&Vec<u8>) -> Result<CompiledModule, String>,
    V: FnOnce(&CompiledModule) -> Result<(), String>,
    S: FnOnce(&CompiledModule) -> Result<Vec<u8>, String>,

    requires
        old(state_view).well_formed(),
        !old(state_view)@.contains_key(module_key(*module_id)) ==> call_requires(remote, ()),
        forall|blob: &Vec<u8>| call_requires(deserialize, (blob,)),
        forall|m: &CompiledModule| call_requires(verify, (m,)),
        forall|m: &CompiledModule| call_requires(serialize, (m,)),
    ensures
        final(state_view).well_formed(),
        exists|
            read: Result<Option<StateValue>, E>,
            decoded: Result<CompiledModule, String>,
            edited: CompiledModule,
            verdict: Result<(), String>,
            encoded: Result<Vec<u8>, String>,
        |
            is_patch_run(
                old(state_view)@,
                module_key(*module_id),
                forbid_next_execution_hash,
                remote,
                deserialize,
                verify,
                serialize,
                read,
                decoded,
                edited,
                verdict,
                encoded,
                r,
                final(state_view)@,
            ),
{
    let key = StateKey::module_id(module_id);
    let read = state_view.get_state_value(&key, remote);
    let ghost seen = read;
    let ghost no_decoding = arbitrary::<Result<CompiledModule, String>>();
    let ghost no_module = arbitrary::<CompiledModule>();
    let ghost no_verdict = arbitrary::<Result<(), String>>();
    let ghost no_bytes = arbitrary::<Result<Vec<u8>, String>>();
    let blob = match read {
        Ok(Some(value)) => value.data,
        Ok(None) => {
            let r = Err(PatchError::ModuleNotFound);
            assert(is_patch_run(
                old(state_view)@,
                key@,
                forbid_next_execution_hash,
                remote,
                deserialize,
                verify,
                serialize,
                seen,
                no_decoding,
                no_module,
                no_verdict,
                no_bytes,
                r,
                state_view@,
            ));
            return r;
        },
        Err(_) => {
            let r = Err(PatchError::StateUnavailable);
            assert(is_patch_run(
                old(state_view)@,
                key@,
                forbid_next_execution_hash,
                remote,
                deserialize,
                verify,
                serialize,
                seen,
                no_decoding,
                no_module,
                no_verdict,
                no_bytes,
                r,
                state_view@,
            ));
            return r;
        },
    };
    let decoded = deserialize(&blob);
    let ghost decoded_as = decoded;
    let mut m = match decoded {
        Ok(m) => m,
        Err(reason) => {
            let r = Err(PatchError::DeserializationError(reason));
            assert(is_patch_run(
                old(state_view)@,
                key@,
                forbid_next_execution_hash,
                remote,
                deserialize,
                verify,
                serialize,
                seen,
                decoded_as,
                no_module,
                no_verdict,
                no_bytes,
                r,
                state_view@,
            ));
            return r;
        },
    };
    if !m.is_well_formed() {
        let r = Err(PatchError::DeserializationError("index out of bounds".to_owned()));
        assert(is_patch_run(
            old(state_view)@,
            key@,
            forbid_next_execution_hash,
            remote,
            deserialize,
            verify,
            serialize,
            seen,
            decoded_as,
            no_module,
            no_verdict,
            no_bytes,
            r,
            state_view@,
        ));
        return r;
    }
    match patch_resolver(&mut m, forbid_next_execution_hash) {
        Ok(_) => {},
        Err(e) => {
            let r = Err(e);
            assert(is_patch_run(
                old(state_view)@,
                key@,
                forbid_next_execution_hash,
                remote,
                deserialize,
                verify,
                serialize,
                seen,
                decoded_as,
                m,
                no_verdict,
                no_bytes,
                r,
                state_view@,
            ));
            return r;
        },
    }
    let verdict = verify(&m);
    let ghost verdict_was = verdict;
    match verdict {
        Ok(_) => {},
        Err(reason) => {
            let r = Err(PatchError::VerificationFailed(reason));
            assert(is_patch_run(
                old(state_view)@,
                key@,
                forbid_next_execution_hash,
                remote,
                deserialize,
                verify,
                serialize,
                seen,
                decoded_as,
                m,
                verdict_was,
                no_bytes,
                r,
                state_view@,
            ));
            return r;
        },
    }
    let encoded = serialize(&m);
    let ghost encoded_as = encoded;
    let out = match encoded {
        Ok(out) => out,
        Err(reason) => {
            let r = Err(PatchError::SerializationError(reason));
            assert(is_patch_run(
                old(state_view)@,
                key@,
                forbid_next_execution_hash,
                remote,
                deserialize,
                verify,
                serialize,
                seen,
                decoded_as,
                m,
                verdict_was,
                encoded_as,
                r,
                state_view@,
            ));
            return r;
        },
    };
    state_view.set_state_value(key, StateValue::new_legacy(out));
    let r = Ok(());
    assert(is_patch_run(
        old(state_view)@,
        key@,
        forbid_next_execution_hash,
        remote,
        deserialize,
        verify,
        serialize,
        seen,
        decoded_as,
        m,
        verdict_was,
        encoded_as,
        r,
        state_view@,
    ));
    r
}

/// Patches the governance module in the state view so that its resolver
/// returns the requested signer directly, skipping the governance process.
pub fn patch_aptos_governance<E, R, D, V, S>(
    state_view: &mut SimulationStateView,
    forbid_next_execution_hash: bool,
    remote: R,
    deserialize: D,
    verify: V,
    serialize: S,
) -> (r: Result<(), PatchError>) where
    R: FnOnce() -> Result<Option<StateValue>, E>,
    D: FnOnce(&Vec<u8>) -> Result<CompiledModule, String>,
    V: FnOnce(&CompiledModule) -> Result<(), String>,
    S: FnOnce(&CompiledModule) -> Result<Vec<u8>, String>,

    requires
        old(state_view).well_formed(),
        !old(state_view)@.contains_key(governance_module_key()) ==> call_requires(remote, ()),
        forall|blob: &Vec<u8>| call_requires(deserialize, (blob,)),
        forall|m: &CompiledModule| call_requires(verify, (m,)),
        forall|m: &CompiledModule| call_requires(serialize, (m,)),
    ensures
        final(state_view).well_formed(),
        exists|
            read: Result<Option<StateValue>, E>,
            decoded: Result<CompiledModule, String>,
            edited: CompiledModule,
            verdict: Result<(), String>,
            encoded: Result<Vec<u8>, String>,
        |
            is_patch_run(
                old(state_view)@,
                governance_module_key(),
                forbid_next_execution_hash,
                remote,
                deserialize,
                verify,
                serialize,
                read,
                decoded,
                edited,
                verdict,
                encoded,
                r,
                final(state_view)@,
            ),
{
    let module_id = module_id_aptos_governance();
    patch_module(
        state_view,
        &module_id,
        forbid_next_execution_hash,
        remote,
        deserialize,
        verify,
        serialize,
    )
}

} // verus!
