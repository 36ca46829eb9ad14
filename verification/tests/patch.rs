use govsim::error::PatchError;
use govsim::file_format::{
    AccountAddress, AddressIdentifierIndex, Bytecode, CodeUnit, CompiledModule, FunctionDefinition,
    FunctionHandle, FunctionHandleIndex, Identifier, IdentifierIndex, ModuleHandle,
    ModuleHandleIndex, Signature, SignatureIndex, SignatureToken, StructDefinitionIndex,
    Visibility,
};
use govsim::patch::{
    func_name_create_signer, func_name_resolve_multi_step_proposal, module_id_aptos_governance,
    module_name_aptos_governance, patch_aptos_governance, patch_module, patch_resolver,
    DUMMY_PROPOSAL_ID, MAGIC_FAILED_NEXT_EXECUTION_HASH_CHECK,
};
use govsim::state::{ModuleId, SimulationStateView, StateKey, StateValue};

fn ident(name: &str) -> Identifier {
    Identifier::new(name).unwrap()
}

/// The governance module as far as the patch is concerned: the resolver takes a
/// proposal id, the address of the signer and the next execution hash.
fn governance() -> CompiledModule {
    CompiledModule {
        self_module_handle_idx: ModuleHandleIndex(0),
        module_handles: vec![ModuleHandle {
            address: AddressIdentifierIndex(0),
            name: IdentifierIndex(0),
        }],
        function_handles: vec![FunctionHandle {
            module: ModuleHandleIndex(0),
            name: IdentifierIndex(1),
            parameters: SignatureIndex(0),
            return_: SignatureIndex(1),
            type_parameters: vec![],
        }],
        signatures: vec![
            Signature(vec![
                SignatureToken::U64,
                SignatureToken::Address,
                SignatureToken::Vector,
                SignatureToken::U8,
            ]),
            Signature(vec![SignatureToken::Signer]),
            Signature(vec![]),
        ],
        identifiers: vec![ident("aptos_governance"), ident("resolve_multi_step_proposal")],
        address_identifiers: vec![AccountAddress::one()],
        function_defs: vec![FunctionDefinition {
            function: FunctionHandleIndex(0),
            visibility: Visibility::Public,
            is_entry: false,
            acquires_global_resources: vec![StructDefinitionIndex(0), StructDefinitionIndex(1)],
            code: Some(CodeUnit {
                locals: SignatureIndex(2),
                code: vec![Bytecode::LdU64(7), Bytecode::Pop, Bytecode::LdTrue, Bytecode::Abort],
            }),
        }],
    }
}

fn signer_body(create_signer: u16) -> Vec<Bytecode> {
    vec![Bytecode::MoveLoc(1), Bytecode::Call(FunctionHandleIndex(create_signer)), Bytecode::Ret]
}

fn checked_body(sig_u8: u16, create_signer: u16) -> Vec<Bytecode> {
    vec![
        Bytecode::ImmBorrowLoc(2),
        Bytecode::VecLen(SignatureIndex(sig_u8)),
        Bytecode::LdU64(0),
        Bytecode::Eq,
        Bytecode::BrTrue(7),
        Bytecode::LdU64(0xDEADBEEF),
        Bytecode::Abort,
        Bytecode::MoveLoc(1),
        Bytecode::Call(FunctionHandleIndex(create_signer)),
        Bytecode::Ret,
    ]
}

#[test]
fn the_constants_have_their_values() {
    assert_eq!(DUMMY_PROPOSAL_ID, u64::MAX);
    assert_eq!(MAGIC_FAILED_NEXT_EXECUTION_HASH_CHECK, 0xDEADBEEF);
    assert_eq!(MAGIC_FAILED_NEXT_EXECUTION_HASH_CHECK, 3735928559);
    assert_eq!(func_name_create_signer().as_str(), "create_signer");
    assert_eq!(func_name_resolve_multi_step_proposal().as_str(), "resolve_multi_step_proposal");
    assert_eq!(module_name_aptos_governance().as_str(), "aptos_governance");
    let id = module_id_aptos_governance();
    assert_eq!(id.address, AccountAddress::one());
    assert_eq!(id.name, ident("aptos_governance"));
}

#[test]
fn the_patch_makes_the_resolver_return_the_signer() {
    let mut m = governance();
    assert_eq!(patch_resolver(&mut m, false), Ok(()));
    // the native function is declared
    assert_eq!(m.identifiers.len(), 3);
    assert_eq!(m.identifiers[2], ident("create_signer"));
    assert_eq!(
        m.function_handles[1],
        FunctionHandle {
            module: ModuleHandleIndex(0),
            name: IdentifierIndex(2),
            parameters: SignatureIndex(3),
            return_: SignatureIndex(1),
            type_parameters: vec![],
        }
    );
    assert_eq!(
        m.function_defs[1],
        FunctionDefinition {
            function: FunctionHandleIndex(1),
            visibility: Visibility::Private,
            is_entry: false,
            acquires_global_resources: vec![],
            code: None,
        }
    );
    // the signatures of an address and of a byte are interned, that of a signer is found
    assert_eq!(m.signatures.len(), 5);
    assert_eq!(m.signatures[3], Signature(vec![SignatureToken::Address]));
    assert_eq!(m.signatures[4], Signature(vec![SignatureToken::U8]));
    // the resolver is rewritten
    assert_eq!(
        m.function_defs[0],
        FunctionDefinition {
            function: FunctionHandleIndex(0),
            visibility: Visibility::Public,
            is_entry: false,
            acquires_global_resources: vec![],
            code: Some(CodeUnit { locals: SignatureIndex(2), code: signer_body(1) }),
        }
    );
    assert!(m.is_well_formed());
}

#[test]
fn the_patch_of_a_last_step_checks_the_next_execution_hash_first() {
    let mut m = governance();
    assert_eq!(patch_resolver(&mut m, true), Ok(()));
    assert_eq!(
        m.function_defs[0].code,
        Some(CodeUnit { locals: SignatureIndex(2), code: checked_body(4, 1) })
    );
    assert_eq!(m.function_defs[0].acquires_global_resources, vec![]);
}

#[test]
fn patching_twice_leaves_what_patching_once_leaves() {
    let mut once = governance();
    assert_eq!(patch_resolver(&mut once, true), Ok(()));
    let mut twice = once.clone();
    assert_eq!(patch_resolver(&mut twice, true), Ok(()));
    assert_eq!(twice, once);
    assert_eq!(twice.function_handles.len(), 2);
    assert_eq!(twice.signatures.len(), 5);
    assert_eq!(twice.identifiers.len(), 3);
    assert_eq!(twice.function_defs.len(), 2);
}

#[test]
fn a_second_patch_with_the_other_flag_only_replaces_the_body() {
    let mut m = governance();
    assert_eq!(patch_resolver(&mut m, false), Ok(()));
    assert_eq!(patch_resolver(&mut m, true), Ok(()));
    let mut direct = governance();
    assert_eq!(patch_resolver(&mut direct, true), Ok(()));
    assert_eq!(m, direct);
    assert_eq!(patch_resolver(&mut m, false), Ok(()));
    assert_eq!(m.function_defs[0].code.as_ref().unwrap().code, signer_body(1));
}

#[test]
fn the_patch_fails_where_the_resolver_is_missing() {
    let mut m = governance();
    m.identifiers[1] = ident("resolve");
    assert_eq!(patch_resolver(&mut m, false), Err(PatchError::TargetFunctionNotFound));
}

#[test]
fn the_patch_fails_where_the_resolver_is_native() {
    let mut m = governance();
    m.function_defs[0].code = None;
    assert_eq!(patch_resolver(&mut m, false), Err(PatchError::NotMoveDefined));
}

#[test]
fn the_patch_fails_where_a_table_is_full() {
    let mut m = governance();
    while m.identifiers.len() < 65536 {
        m.identifiers.push(ident("filler"));
    }
    assert_eq!(patch_resolver(&mut m, false), Err(PatchError::TableFull));
}

fn encode(m: &CompiledModule) -> Vec<u8> {
    // a stand-in for the encoder of modules: enough to tell modules apart
    let mut out = vec![m.identifiers.len() as u8, m.signatures.len() as u8];
    match &m.function_defs[0].code {
        Some(unit) => out.push(unit.code.len() as u8),
        None => out.push(0xff),
    }
    out
}

fn governance_key() -> StateKey {
    StateKey::module_id(&module_id_aptos_governance())
}

#[test]
fn the_module_is_loaded_patched_and_written_back() {
    let mut view = SimulationStateView::new();
    let result = patch_aptos_governance(
        &mut view,
        true,
        || Ok::<_, ()>(Some(StateValue::new_legacy(vec![1, 2, 3]))),
        |blob: &Vec<u8>| {
            assert_eq!(blob, &vec![1, 2, 3]);
            Ok(governance())
        },
        |m: &CompiledModule| {
            assert_eq!(m.function_defs[0].code.as_ref().unwrap().code, checked_body(4, 1));
            Ok(())
        },
        |m: &CompiledModule| Ok(encode(m)),
    );
    assert_eq!(result, Ok(()));
    assert_eq!(
        view.get_local(&governance_key()),
        Some(Some(StateValue::new_legacy(vec![3, 5, 10])))
    );
}

#[test]
fn the_module_is_taken_from_the_overlay_where_it_is_there() {
    let mut view = SimulationStateView::new();
    view.set_state_value(governance_key(), StateValue::new_legacy(vec![9]));
    let result = patch_aptos_governance(
        &mut view,
        false,
        || -> Result<Option<StateValue>, ()> { panic!("the chain must not be read") },
        |blob: &Vec<u8>| {
            assert_eq!(blob, &vec![9]);
            Ok(governance())
        },
        |_m: &CompiledModule| Ok(()),
        |m: &CompiledModule| Ok(encode(m)),
    );
    assert_eq!(result, Ok(()));
    assert_eq!(
        view.get_local(&governance_key()),
        Some(Some(StateValue::new_legacy(vec![3, 5, 3])))
    );
}

#[test]
fn a_module_that_does_not_exist_cannot_be_patched() {
    let mut view = SimulationStateView::new();
    let result = patch_aptos_governance(
        &mut view,
        false,
        || Ok::<_, ()>(None),
        |_blob: &Vec<u8>| Ok(governance()),
        |_m: &CompiledModule| Ok(()),
        |m: &CompiledModule| Ok(encode(m)),
    );
    assert_eq!(result, Err(PatchError::ModuleNotFound));
    assert_eq!(view.get_local(&governance_key()), None);
}

#[test]
fn a_module_that_was_deleted_does_not_exist() {
    let mut view = SimulationStateView::new();
    view.delete_state_value(governance_key());
    let result = patch_aptos_governance(
        &mut view,
        false,
        || Ok::<_, ()>(Some(StateValue::new_legacy(vec![1]))),
        |_blob: &Vec<u8>| Ok(governance()),
        |_m: &CompiledModule| Ok(()),
        |m: &CompiledModule| Ok(encode(m)),
    );
    assert_eq!(result, Err(PatchError::ModuleNotFound));
    assert_eq!(view.get_local(&governance_key()), Some(None));
}

#[test]
fn a_state_that_cannot_be_read_fails_the_patch() {
    let mut view = SimulationStateView::new();
    let result = patch_aptos_governance(
        &mut view,
        false,
        || Err::<Option<StateValue>, _>("offline"),
        |_blob: &Vec<u8>| Ok(governance()),
        |_m: &CompiledModule| Ok(()),
        |m: &CompiledModule| Ok(encode(m)),
    );
    assert_eq!(result, Err(PatchError::StateUnavailable));
}

#[test]
fn bytes_that_do_not_decode_fail_the_patch() {
    let mut view = SimulationStateView::new();
    let result = patch_aptos_governance(
        &mut view,
        false,
        || Ok::<_, ()>(Some(StateValue::new_legacy(vec![0]))),
        |_blob: &Vec<u8>| Err("bad magic".to_string()),
        |_m: &CompiledModule| Ok(()),
        |m: &CompiledModule| Ok(encode(m)),
    );
    assert_eq!(result, Err(PatchError::DeserializationError("bad magic".to_string())));
    assert_eq!(view.get_local(&governance_key()), None);
}

#[test]
fn a_decoded_module_with_dangling_indices_is_refused() {
    let mut view = SimulationStateView::new();
    let result = patch_aptos_governance(
        &mut view,
        false,
        || Ok::<_, ()>(Some(StateValue::new_legacy(vec![0]))),
        |_blob: &Vec<u8>| {
            let mut m = governance();
            m.function_defs[0].function = FunctionHandleIndex(5);
            Ok(m)
        },
        |_m: &CompiledModule| Ok(()),
        |m: &CompiledModule| Ok(encode(m)),
    );
    assert!(matches!(result, Err(PatchError::DeserializationError(_))));
    assert_eq!(view.get_local(&governance_key()), None);
}

#[test]
fn a_patched_module_that_does_not_verify_is_not_written() {
    let mut view = SimulationStateView::new();
    let result = patch_aptos_governance(
        &mut view,
        false,
        || Ok::<_, ()>(Some(StateValue::new_legacy(vec![0]))),
        |_blob: &Vec<u8>| Ok(governance()),
        |_m: &CompiledModule| Err("stack underflow".to_string()),
        |m: &CompiledModule| Ok(encode(m)),
    );
    assert_eq!(result, Err(PatchError::VerificationFailed("stack underflow".to_string())));
    assert_eq!(view.get_local(&governance_key()), None);
}

#[test]
fn a_patched_module_that_does_not_encode_is_not_written() {
    let mut view = SimulationStateView::new();
    let result = patch_aptos_governance(
        &mut view,
        false,
        || Ok::<_, ()>(Some(StateValue::new_legacy(vec![0]))),
        |_blob: &Vec<u8>| Ok(governance()),
        |_m: &CompiledModule| Ok(()),
        |_m: &CompiledModule| Err("too large".to_string()),
    );
    assert_eq!(result, Err(PatchError::SerializationError("too large".to_string())));
    assert_eq!(view.get_local(&governance_key()), None);
}

#[test]
fn a_failed_edit_fails_the_patch() {
    let mut view = SimulationStateView::new();
    let result = patch_aptos_governance(
        &mut view,
        false,
        || Ok::<_, ()>(Some(StateValue::new_legacy(vec![0]))),
        |_blob: &Vec<u8>| {
            let mut m = governance();
            m.function_defs[0].code = None;
            Ok(m)
        },
        |_m: &CompiledModule| Ok(()),
        |m: &CompiledModule| Ok(encode(m)),
    );
    assert_eq!(result, Err(PatchError::NotMoveDefined));
}

#[test]
fn any_module_can_be_patched_under_its_own_key() {
    let mut view = SimulationStateView::new();
    let id = ModuleId { address: AccountAddress::new([7u8; 32]), name: ident("fork") };
    let result = patch_module(
        &mut view,
        &id,
        false,
        || Ok::<_, ()>(Some(StateValue::new_legacy(vec![0]))),
        |_blob: &Vec<u8>| Ok(governance()),
        |_m: &CompiledModule| Ok(()),
        |m: &CompiledModule| Ok(encode(m)),
    );
    assert_eq!(result, Ok(()));
    assert_eq!(
        view.get_local(&StateKey::module_id(&id)),
        Some(Some(StateValue::new_legacy(vec![3, 5, 3])))
    );
    assert_eq!(view.get_local(&governance_key()), None);
}

#[test]
fn the_messages_of_patch_errors() {
    assert_eq!(
        PatchError::ModuleNotFound.message(),
        "module 0x1::aptos_governance does not exist"
    );
    assert_eq!(
        PatchError::TargetFunctionNotFound.message(),
        "failed to locate `fun resolve_multi_step_proposal`"
    );
    assert_eq!(
        PatchError::NotMoveDefined.message(),
        "`fun resolve_multi_step_proposal` must have a Move-defined body"
    );
    assert_eq!(
        PatchError::VerificationFailed("oops".to_string()).message(),
        "patched module failed to verify -- check if the patch is correct: oops"
    );
    assert_eq!(
        PatchError::DeserializationError("oops".to_string()).message(),
        "failed to deserialize module: oops"
    );
    assert_eq!(
        PatchError::SerializationError("oops".to_string()).message(),
        "failed to serialize module: oops"
    );
    assert_eq!(PatchError::TableFull.message(), "a table of the module is full");
    assert_eq!(PatchError::StateUnavailable.message(), "failed to read the state");
}
