use govsim::editor::{
    add_simple_native_function, find_function_def_by_name, find_function_handle_by_name,
    get_or_add_addr, get_or_add_ident, get_or_add_module_handle, get_or_add_signature,
};
use govsim::error::PatchError;
use govsim::file_format::{
    AccountAddress, AddressIdentifierIndex, Bytecode, CodeUnit, CompiledModule, FunctionDefinition,
    FunctionHandle, FunctionHandleIndex, Identifier, IdentifierIndex, ModuleHandle,
    ModuleHandleIndex, Signature, SignatureIndex, SignatureToken, Visibility,
};

fn ident(name: &str) -> Identifier {
    Identifier::new(name).unwrap()
}

fn address(last: u8) -> AccountAddress {
    let mut bytes = [0u8; 32];
    bytes[31] = last;
    AccountAddress::new(bytes)
}

/// A module `0x1::gov` with the functions `first` and `second`, and a handle of
/// `0x2::other::first`.
fn module() -> CompiledModule {
    CompiledModule {
        self_module_handle_idx: ModuleHandleIndex(0),
        module_handles: vec![
            ModuleHandle { address: AddressIdentifierIndex(0), name: IdentifierIndex(0) },
            ModuleHandle { address: AddressIdentifierIndex(1), name: IdentifierIndex(3) },
        ],
        function_handles: vec![
            FunctionHandle {
                module: ModuleHandleIndex(1),
                name: IdentifierIndex(1),
                parameters: SignatureIndex(0),
                return_: SignatureIndex(0),
                type_parameters: vec![],
            },
            FunctionHandle {
                module: ModuleHandleIndex(0),
                name: IdentifierIndex(1),
                parameters: SignatureIndex(0),
                return_: SignatureIndex(0),
                type_parameters: vec![],
            },
            FunctionHandle {
                module: ModuleHandleIndex(0),
                name: IdentifierIndex(2),
                parameters: SignatureIndex(1),
                return_: SignatureIndex(0),
                type_parameters: vec![],
            },
        ],
        signatures: vec![Signature(vec![]), Signature(vec![SignatureToken::U64])],
        identifiers: vec![ident("gov"), ident("first"), ident("second"), ident("other")],
        address_identifiers: vec![address(1), address(2)],
        function_defs: vec![
            FunctionDefinition {
                function: FunctionHandleIndex(1),
                visibility: Visibility::Public,
                is_entry: false,
                acquires_global_resources: vec![],
                code: Some(CodeUnit { locals: SignatureIndex(0), code: vec![Bytecode::Ret] }),
            },
            FunctionDefinition {
                function: FunctionHandleIndex(2),
                visibility: Visibility::Private,
                is_entry: true,
                acquires_global_resources: vec![],
                code: None,
            },
        ],
    }
}

#[test]
fn a_definition_is_found_by_the_name_of_its_function() {
    let m = module();
    assert_eq!(find_function_def_by_name(&m, &ident("first")), Some(0));
    assert_eq!(find_function_def_by_name(&m, &ident("second")), Some(1));
}

#[test]
fn a_definition_that_is_not_there_is_not_found() {
    let m = module();
    assert_eq!(find_function_def_by_name(&m, &ident("third")), None);
    assert_eq!(find_function_def_by_name(&m, &ident("gov")), None);
}

#[test]
fn a_handle_is_found_by_address_module_and_function() {
    let m = module();
    assert_eq!(
        find_function_handle_by_name(&m, &address(1), &ident("gov"), &ident("first")),
        Some(FunctionHandleIndex(1))
    );
    assert_eq!(
        find_function_handle_by_name(&m, &address(2), &ident("other"), &ident("first")),
        Some(FunctionHandleIndex(0))
    );
    assert_eq!(
        find_function_handle_by_name(&m, &address(1), &ident("gov"), &ident("second")),
        Some(FunctionHandleIndex(2))
    );
}

#[test]
fn a_handle_is_not_found_under_another_address_or_module() {
    let m = module();
    assert_eq!(find_function_handle_by_name(&m, &address(2), &ident("gov"), &ident("first")), None);
    assert_eq!(find_function_handle_by_name(&m, &address(1), &ident("other"), &ident("first")), None);
    assert_eq!(find_function_handle_by_name(&m, &address(1), &ident("gov"), &ident("third")), None);
}

#[test]
fn an_identifier_is_interned_once() {
    let mut m = module();
    assert_eq!(get_or_add_ident(&mut m, ident("second")), Some(IdentifierIndex(2)));
    assert_eq!(m, module());
    assert_eq!(get_or_add_ident(&mut m, ident("fresh")), Some(IdentifierIndex(4)));
    assert_eq!(m.identifiers.len(), 5);
    assert_eq!(get_or_add_ident(&mut m, ident("fresh")), Some(IdentifierIndex(4)));
    assert_eq!(m.identifiers.len(), 5);
    assert_eq!(m.identifiers[4], ident("fresh"));
}

#[test]
fn an_address_is_interned_once() {
    let mut m = module();
    assert_eq!(get_or_add_addr(&mut m, address(2)), Some(AddressIdentifierIndex(1)));
    assert_eq!(get_or_add_addr(&mut m, address(9)), Some(AddressIdentifierIndex(2)));
    assert_eq!(get_or_add_addr(&mut m, address(9)), Some(AddressIdentifierIndex(2)));
    assert_eq!(m.address_identifiers, vec![address(1), address(2), address(9)]);
}

#[test]
fn a_signature_is_interned_once() {
    let mut m = module();
    assert_eq!(get_or_add_signature(&mut m, vec![SignatureToken::U64]), Some(SignatureIndex(1)));
    assert_eq!(get_or_add_signature(&mut m, vec![SignatureToken::U8]), Some(SignatureIndex(2)));
    assert_eq!(get_or_add_signature(&mut m, vec![SignatureToken::U8]), Some(SignatureIndex(2)));
    assert_eq!(m.signatures.len(), 3);
    assert_eq!(m.signatures[2], Signature(vec![SignatureToken::U8]));
}

#[test]
fn a_module_handle_is_interned_with_its_address_and_name() {
    let mut m = module();
    assert_eq!(
        get_or_add_module_handle(&mut m, address(2), ident("other")),
        Some(ModuleHandleIndex(1))
    );
    assert_eq!(m, module());
    assert_eq!(
        get_or_add_module_handle(&mut m, address(3), ident("coin")),
        Some(ModuleHandleIndex(2))
    );
    assert_eq!(m.address_identifiers.len(), 3);
    assert_eq!(m.identifiers.len(), 5);
    assert_eq!(
        m.module_handles[2],
        ModuleHandle { address: AddressIdentifierIndex(2), name: IdentifierIndex(4) }
    );
    assert_eq!(
        get_or_add_module_handle(&mut m, address(3), ident("coin")),
        Some(ModuleHandleIndex(2))
    );
    assert_eq!(m.module_handles.len(), 3);
}

#[test]
fn a_full_pool_takes_no_new_entry_but_finds_what_it_holds() {
    let mut m = module();
    while m.signatures.len() < 65536 {
        m.signatures.push(Signature(vec![SignatureToken::TypeParameter(m.signatures.len() as u16)]));
    }
    assert_eq!(get_or_add_signature(&mut m, vec![SignatureToken::Bool]), None);
    assert_eq!(m.signatures.len(), 65536);
    assert_eq!(get_or_add_signature(&mut m, vec![SignatureToken::U64]), Some(SignatureIndex(1)));
    assert_eq!(
        get_or_add_signature(&mut m, vec![SignatureToken::TypeParameter(65535)]),
        Some(SignatureIndex(65535))
    );
}

#[test]
fn a_native_function_is_declared_with_a_handle_and_a_definition() {
    let mut m = module();
    let handle = add_simple_native_function(
        &mut m,
        ident("create_signer"),
        vec![SignatureToken::Address],
        vec![SignatureToken::Signer],
    );
    assert_eq!(handle, Ok(FunctionHandleIndex(3)));
    assert_eq!(m.identifiers.len(), 5);
    assert_eq!(m.identifiers[4], ident("create_signer"));
    assert_eq!(m.signatures.len(), 4);
    assert_eq!(m.signatures[2], Signature(vec![SignatureToken::Address]));
    assert_eq!(m.signatures[3], Signature(vec![SignatureToken::Signer]));
    assert_eq!(
        m.function_handles[3],
        FunctionHandle {
            module: ModuleHandleIndex(0),
            name: IdentifierIndex(4),
            parameters: SignatureIndex(2),
            return_: SignatureIndex(3),
            type_parameters: vec![],
        }
    );
    assert_eq!(
        m.function_defs[2],
        FunctionDefinition {
            function: FunctionHandleIndex(3),
            visibility: Visibility::Private,
            is_entry: false,
            acquires_global_resources: vec![],
            code: None,
        }
    );
    assert!(m.is_well_formed());
}

#[test]
fn declaring_a_native_function_twice_changes_nothing_the_second_time() {
    let mut m = module();
    let first = add_simple_native_function(
        &mut m,
        ident("create_signer"),
        vec![SignatureToken::Address],
        vec![SignatureToken::Signer],
    );
    let once = m.clone();
    let second = add_simple_native_function(
        &mut m,
        ident("create_signer"),
        vec![SignatureToken::Address],
        vec![SignatureToken::Signer],
    );
    assert_eq!(first, second);
    assert_eq!(m, once);
}

#[test]
fn a_function_of_the_module_that_has_the_name_is_returned_as_it_is() {
    let mut m = module();
    let handle = add_simple_native_function(&mut m, ident("second"), vec![], vec![]);
    assert_eq!(handle, Ok(FunctionHandleIndex(2)));
    assert_eq!(m, module());
}

#[test]
fn a_function_of_that_name_in_another_module_does_not_count() {
    let mut m = module();
    m.function_handles.remove(1);
    m.function_defs[0].function = FunctionHandleIndex(1);
    m.function_defs.remove(1);
    // now `first` is known only as `0x2::other::first`
    let handle = add_simple_native_function(&mut m, ident("first"), vec![], vec![]);
    assert_eq!(handle, Ok(FunctionHandleIndex(2)));
    assert_eq!(m.function_handles[2].module, ModuleHandleIndex(0));
    assert_eq!(m.function_handles[2].name, IdentifierIndex(1));
    assert_eq!(m.identifiers.len(), 4);
}

#[test]
fn a_native_function_is_not_declared_where_the_handles_are_full() {
    let mut m = module();
    while m.function_handles.len() < 65536 {
        m.function_handles.push(FunctionHandle {
            module: ModuleHandleIndex(1),
            name: IdentifierIndex(2),
            parameters: SignatureIndex(0),
            return_: SignatureIndex(0),
            type_parameters: vec![],
        });
    }
    let handle = add_simple_native_function(&mut m, ident("create_signer"), vec![], vec![]);
    assert_eq!(handle, Err(PatchError::TableFull));
    assert_eq!(m.function_handles.len(), 65536);
    assert_eq!(m.function_defs.len(), 2);
}
