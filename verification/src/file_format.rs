//! The tables of a compiled module: pools of addresses, identifiers and
//! signatures, handle tables, and function definitions with their bodies.
//! Every cross-reference is an index into one of the tables.

use vstd::prelude::*;
use vstd::std_specs::cmp::PartialEqSpecImpl;

verus! {

/// Number of entries a table can hold: an index is sixteen bits wide.
pub const TABLE_CAPACITY: usize = 65536;

/// Index into the address pool.
#[derive(Clone, Copy, PartialEq, Eq, Structural, Debug)]
pub struct AddressIdentifierIndex(pub u16);

/// Index into the identifier pool.
#[derive(Clone, Copy, PartialEq, Eq, Structural, Debug)]
pub struct IdentifierIndex(pub u16);

/// Index into the module handle table.
#[derive(Clone, Copy, PartialEq, Eq, Structural, Debug)]
pub struct ModuleHandleIndex(pub u16);

/// Index into the signature pool.
#[derive(Clone, Copy, PartialEq, Eq, Structural, Debug)]
pub struct SignatureIndex(pub u16);

/// Index into the function handle table.
#[derive(Clone, Copy, PartialEq, Eq, Structural, Debug)]
pub struct FunctionHandleIndex(pub u16);

/// Index into the struct handle table.
#[derive(Clone, Copy, PartialEq, Eq, Structural, Debug)]
pub struct StructHandleIndex(pub u16);

/// Index into the struct definition table.
#[derive(Clone, Copy, PartialEq, Eq, Structural, Debug)]
pub struct StructDefinitionIndex(pub u16);

/// The address of an account: thirty-two bytes, most significant first.
#[derive(Clone, Copy, Debug)]
pub struct AccountAddress {
    bytes: [u8; 32],
}

impl View for AccountAddress {
    type V = Seq<u8>;

    closed spec fn view(&self) -> Seq<u8> {
        self.bytes@
    }
}

/// The bytes of the address whose value is one.
pub open spec fn address_one() -> Seq<u8> {
    Seq::new(32, |i: int| if i == 31 { 1u8 } else { 0u8 })
}

impl AccountAddress {
    /// The address with the given bytes.
    pub fn new(bytes: [u8; 32]) -> (a: AccountAddress)
        ensures
            a@ == bytes@,
    {
        AccountAddress { bytes }
    }

    /// The address `0x1`, under which the framework is published.
    pub fn one() -> (a: AccountAddress)
        ensures
            a@ == address_one(),
    {
        let mut bytes: [u8; 32] = [0u8; 32];
        bytes[31] = 1;
        let a = AccountAddress { bytes };
        assert(a@ =~= address_one());
        a
    }

    /// The bytes of the address.
    pub fn into_bytes(self) -> (bytes: [u8; 32])
        ensures
            bytes@ == self@,
    {
        self.bytes
    }
}

impl PartialEq for AccountAddress {
    fn eq(&self, other: &AccountAddress) -> (r: bool) {
        let mut i: usize = 0;
        while i < 32
            invariant
                i <= 32,
                forall|j: int| 0 <= j < i ==> self.bytes@[j] == other.bytes@[j],
            decreases 32 - i,
        {
            if self.bytes[i] != other.bytes[i] {
                return false;
            }
            i += 1;
        }
        assert(self.bytes@ =~= other.bytes@);
        true
    }
}

impl Eq for AccountAddress {

}

impl PartialEqSpecImpl for AccountAddress {
    open spec fn obeys_eq_spec() -> bool {
        true
    }

    open spec fn eq_spec(&self, other: &AccountAddress) -> bool {
        self@ == other@
    }
}

/// A letter of the ASCII alphabet.
pub open spec fn is_ascii_letter(c: char) -> bool {
    ('a' <= c && c <= 'z') || ('A' <= c && c <= 'Z')
}

/// A character that may stand in an identifier after its first one.
pub open spec fn is_identifier_char(c: char) -> bool {
    c == '_' || is_ascii_letter(c) || ('0' <= c && c <= '9')
}

/// The name that stands for the module itself.
pub open spec fn self_name() -> Seq<char> {
    seq!['<', 'S', 'E', 'L', 'F', '>']
}

/// What names are identifiers: a letter followed by letters, digits and
/// underscores; or an underscore followed by at least one of these; or the one
/// name `<SELF>`.
pub open spec fn is_valid_identifier(s: Seq<char>) -> bool {
    ||| s == self_name()
    ||| {
        &&& s.len() >= 1
        &&& is_ascii_letter(s[0]) || (s[0] == '_' && s.len() > 1)
        &&& forall|i: int| 1 <= i < s.len() ==> is_identifier_char(#[trigger] s[i])
    }
}

/// `move_core_types::identifier::is_valid` decides whether a string is an
/// identifier. By its source it accepts exactly `<SELF>`, an ASCII letter followed
/// by ASCII letters, digits and underscores, and an underscore followed by at
/// least one of these.
pub assume_specification[ move_core_types::identifier::is_valid ](s: &str) -> (b: bool)
    ensures
        b == is_valid_identifier(s@),
;

/// The name of a module or a function.
#[derive(Debug)]
pub struct Identifier {
    name: String,
}

impl View for Identifier {
    type V = Seq<char>;

    closed spec fn view(&self) -> Seq<char> {
        self.name@
    }
}

impl Identifier {
    /// The name is one that `is_valid_identifier` admits.
    #[verifier::type_invariant]
    spec fn valid(self) -> bool {
        is_valid_identifier(self.name@)
    }

    /// The identifier with the given name, where the name is one.
    pub fn new(name: &str) -> (r: Option<Identifier>)
        ensures
            r is Some <==> is_valid_identifier(name@),
            r matches Some(ident) ==> ident@ == name@,
    {
        if move_core_types::identifier::is_valid(name) {
            Some(Identifier { name: name.to_owned() })
        } else {
            None
        }
    }

    /// The name as a string slice.
    pub fn as_str(&self) -> (s: &str)
        ensures
            s@ == self@,
            is_valid_identifier(s@),
    {
        proof {
            use_type_invariant(self);
        }
        self.name.as_str()
    }

}

impl Clone for Identifier {
    fn clone(&self) -> (r: Identifier)
        ensures
            r@ == self@,
    {
        proof {
            use_type_invariant(self);
        }
        Identifier { name: self.name.clone() }
    }
}

impl PartialEq for Identifier {
    fn eq(&self, other: &Identifier) -> (r: bool) {
        self.name == other.name
    }
}

impl Eq for Identifier {

}

impl PartialEqSpecImpl for Identifier {
    open spec fn obeys_eq_spec() -> bool {
        true
    }

    open spec fn eq_spec(&self, other: &Identifier) -> bool {
        self@ == other@
    }
}

/// A module, named by the address it is published under and its name.
#[derive(Clone, Copy, Debug)]
pub struct ModuleHandle {
    pub address: AddressIdentifierIndex,
    pub name: IdentifierIndex,
}

impl PartialEq for ModuleHandle {
    fn eq(&self, other: &ModuleHandle) -> (r: bool) {
        self.address.0 == other.address.0 && self.name.0 == other.name.0
    }
}

impl Eq for ModuleHandle {

}

impl PartialEqSpecImpl for ModuleHandle {
    open spec fn obeys_eq_spec() -> bool {
        true
    }

    open spec fn eq_spec(&self, other: &ModuleHandle) -> bool {
        *self == *other
    }
}

/// The abilities of a type parameter, one bit each.
#[derive(Clone, Copy, PartialEq, Eq, Structural, Debug)]
pub struct AbilitySet(pub u8);

/// One symbol of a type. A type is written in prefix form: a constructor is
/// followed by its arguments, so `vector<u8>` is `Vector, U8`.
#[derive(Clone, Copy, PartialEq, Eq, Structural, Debug)]
pub enum SignatureToken {
    Bool,
    U8,
    U16,
    U32,
    U64,
    U128,
    U256,
    Address,
    Signer,
    /// A vector; its element type follows.
    Vector,
    /// A struct without type arguments.
    Struct(StructHandleIndex),
    /// A struct with the given number of type arguments, which follow.
    StructInstantiation(StructHandleIndex, u8),
    /// An immutable reference; the referenced type follows.
    Reference,
    /// A mutable reference; the referenced type follows.
    MutableReference,
    TypeParameter(u16),
}

/// A list of types, as the parameters, the results or the locals of a function
/// have it, or the one element type of a vector instruction.
#[derive(Clone, Debug)]
pub struct Signature(pub Vec<SignatureToken>);

impl View for Signature {
    type V = Seq<SignatureToken>;

    open spec fn view(&self) -> Seq<SignatureToken> {
        self.0@
    }
}

impl PartialEq for Signature {
    fn eq(&self, other: &Signature) -> (r: bool) {
        if self.0.len() != other.0.len() {
            return false;
        }
        let mut i: usize = 0;
        while i < self.0.len()
            invariant
                i <= self.0.len(),
                self.0.len() == other.0.len(),
                forall|j: int| 0 <= j < i ==> self.0@[j] == other.0@[j],
            decreases self.0.len() - i,
        {
            if self.0[i] != other.0[i] {
                return false;
            }
            i += 1;
        }
        assert(self.0@ =~= other.0@);
        true
    }
}

impl Eq for Signature {

}

impl PartialEqSpecImpl for Signature {
    open spec fn obeys_eq_spec() -> bool {
        true
    }

    open spec fn eq_spec(&self, other: &Signature) -> bool {
        self@ == other@
    }
}

/// A function as callers see it: the module that declares it, its name, and the
/// types it takes and returns.
#[derive(Clone, Debug, PartialEq, Eq)]
pub struct FunctionHandle {
    pub module: ModuleHandleIndex,
    pub name: IdentifierIndex,
    pub parameters: SignatureIndex,
    pub return_: SignatureIndex,
    pub type_parameters: Vec<AbilitySet>,
}

/// A function handle as a mathematical value.
#[verifier::ext_equal]
pub struct FunctionHandleView {
    pub module: ModuleHandleIndex,
    pub name: IdentifierIndex,
    pub parameters: SignatureIndex,
    pub return_: SignatureIndex,
    pub type_parameters: Seq<AbilitySet>,
}

impl View for FunctionHandle {
    type V = FunctionHandleView;

    open spec fn view(&self) -> FunctionHandleView {
        FunctionHandleView {
            module: self.module,
            name: self.name,
            parameters: self.parameters,
            return_: self.return_,
            type_parameters: self.type_parameters@,
        }
    }
}

/// Who may call a function.
#[derive(Clone, Copy, PartialEq, Eq, Structural, Debug)]
pub enum Visibility {
    Private,
    Public,
    Friend,
}

/// An unsigned number of 256 bits, in two halves.
#[derive(Clone, Copy, PartialEq, Eq, Structural, Debug)]
pub struct U256 {
    pub high: u128,
    pub low: u128,
}

/// One instruction of a function body.
#[derive(Clone, Copy, PartialEq, Eq, Structural, Debug)]
pub enum Bytecode {
    Pop,
    Ret,
    BrTrue(u16),
    BrFalse(u16),
    Branch(u16),
    LdU8(u8),
    LdU16(u16),
    LdU32(u32),
    LdU64(u64),
    LdU128(u128),
    LdU256(U256),
    CastU8,
    CastU16,
    CastU32,
    CastU64,
    CastU128,
    CastU256,
    LdConst(u16),
    LdTrue,
    LdFalse,
    CopyLoc(u8),
    MoveLoc(u8),
    StLoc(u8),
    Call(FunctionHandleIndex),
    CallGeneric(u16),
    Pack(StructDefinitionIndex),
    PackGeneric(u16),
    PackVariant(u16),
    PackVariantGeneric(u16),
    Unpack(StructDefinitionIndex),
    UnpackGeneric(u16),
    UnpackVariant(u16),
    UnpackVariantGeneric(u16),
    TestVariant(u16),
    TestVariantGeneric(u16),
    ReadRef,
    WriteRef,
    FreezeRef,
    MutBorrowLoc(u8),
    ImmBorrowLoc(u8),
    MutBorrowField(u16),
    MutBorrowVariantField(u16),
    MutBorrowFieldGeneric(u16),
    MutBorrowVariantFieldGeneric(u16),
    ImmBorrowField(u16),
    ImmBorrowVariantField(u16),
    ImmBorrowFieldGeneric(u16),
    ImmBorrowVariantFieldGeneric(u16),
    MutBorrowGlobal(StructDefinitionIndex),
    MutBorrowGlobalGeneric(u16),
    ImmBorrowGlobal(StructDefinitionIndex),
    ImmBorrowGlobalGeneric(u16),
    Add,
    Sub,
    Mul,
    Mod,
    Div,
    BitOr,
    BitAnd,
    Xor,
    Or,
    And,
    Not,
    Eq,
    Neq,
    Lt,
    Gt,
    Le,
    Ge,
    Abort,
    Nop,
    Exists(StructDefinitionIndex),
    ExistsGeneric(u16),
    MoveFrom(StructDefinitionIndex),
    MoveFromGeneric(u16),
    MoveTo(StructDefinitionIndex),
    MoveToGeneric(u16),
    Shl,
    Shr,
    VecPack(SignatureIndex, u64),
    VecLen(SignatureIndex),
    VecImmBorrow(SignatureIndex),
    VecMutBorrow(SignatureIndex),
    VecPushBack(SignatureIndex),
    VecPopBack(SignatureIndex),
    VecUnpack(SignatureIndex, u64),
    VecSwap(SignatureIndex),
}

/// The body of a function: the types of its locals and its instructions.
#[derive(Clone, Debug, PartialEq, Eq)]
pub struct CodeUnit {
    pub locals: SignatureIndex,
    pub code: Vec<Bytecode>,
}

/// A function body as a mathematical value.
#[verifier::ext_equal]
pub struct CodeUnitView {
    pub locals: SignatureIndex,
    pub code: Seq<Bytecode>,
}

impl View for CodeUnit {
    type V = CodeUnitView;

    open spec fn view(&self) -> CodeUnitView {
        CodeUnitView { locals: self.locals, code: self.code@ }
    }
}

/// A function that the module defines. One without a body is native: its code
/// is provided from outside the module.
#[derive(Clone, Debug, PartialEq, Eq)]
pub struct FunctionDefinition {
    pub function: FunctionHandleIndex,
    pub visibility: Visibility,
    pub is_entry: bool,
    pub acquires_global_resources: Vec<StructDefinitionIndex>,
    pub code: Option<CodeUnit>,
}

/// A function definition as a mathematical value.
#[verifier::ext_equal]
pub struct FunctionDefinitionView {
    pub function: FunctionHandleIndex,
    pub visibility: Visibility,
    pub is_entry: bool,
    pub acquires_global_resources: Seq<StructDefinitionIndex>,
    pub code: Option<CodeUnitView>,
}

impl View for FunctionDefinition {
    type V = FunctionDefinitionView;

    open spec fn view(&self) -> FunctionDefinitionView {
        FunctionDefinitionView {
            function: self.function,
            visibility: self.visibility,
            is_entry: self.is_entry,
            acquires_global_resources: self.acquires_global_resources@,
            code: match self.code {
                Some(unit) => Some(unit@),
                None => None,
            },
        }
    }
}

/// The tables of a compiled module that the editor reads and writes.
#[derive(Clone, Debug, PartialEq, Eq)]
pub struct CompiledModule {
    /// The handle of the module itself.
    pub self_module_handle_idx: ModuleHandleIndex,
    pub module_handles: Vec<ModuleHandle>,
    pub function_handles: Vec<FunctionHandle>,
    pub signatures: Vec<Signature>,
    pub identifiers: Vec<Identifier>,
    pub address_identifiers: Vec<AccountAddress>,
    pub function_defs: Vec<FunctionDefinition>,
}

/// A compiled module as a mathematical value.
#[verifier::ext_equal]
pub struct ModuleView {
    pub self_module_handle_idx: ModuleHandleIndex,
    pub module_handles: Seq<ModuleHandle>,
    pub function_handles: Seq<FunctionHandleView>,
    pub signatures: Seq<Seq<SignatureToken>>,
    pub identifiers: Seq<Seq<char>>,
    pub address_identifiers: Seq<Seq<u8>>,
    pub function_defs: Seq<FunctionDefinitionView>,
}

impl View for CompiledModule {
    type V = ModuleView;

    open spec fn view(&self) -> ModuleView {
        ModuleView {
            self_module_handle_idx: self.self_module_handle_idx,
            module_handles: self.module_handles@,
            function_handles: self.function_handles@.map_values(|h: FunctionHandle| h@),
            signatures: self.signatures@.map_values(|s: Signature| s@),
            identifiers: self.identifiers@.map_values(|i: Identifier| i@),
            address_identifiers: self.address_identifiers@.map_values(|a: AccountAddress| a@),
            function_defs: self.function_defs@.map_values(|d: FunctionDefinition| d@),
        }
    }
}

impl ModuleView {
    /// The module handle at `i` refers into the address and identifier pools.
    pub open spec fn module_handle_in_bounds(self, i: int) -> bool {
        &&& self.module_handles[i].address.0 < self.address_identifiers.len()
        &&& self.module_handles[i].name.0 < self.identifiers.len()
    }

    /// The function handle at `i` refers into the tables it names.
    pub open spec fn function_handle_in_bounds(self, i: int) -> bool {
        &&& self.function_handles[i].module.0 < self.module_handles.len()
        &&& self.function_handles[i].name.0 < self.identifiers.len()
        &&& self.function_handles[i].parameters.0 < self.signatures.len()
        &&& self.function_handles[i].return_.0 < self.signatures.len()
    }

    /// Every table fits its index type and every index that the editor follows
    /// refers to an entry.
    pub open spec fn well_formed(self) -> bool {
        &&& self.module_handles.len() <= TABLE_CAPACITY
        &&& self.function_handles.len() <= TABLE_CAPACITY
        &&& self.signatures.len() <= TABLE_CAPACITY
        &&& self.identifiers.len() <= TABLE_CAPACITY
        &&& self.address_identifiers.len() <= TABLE_CAPACITY
        &&& self.function_defs.len() <= TABLE_CAPACITY
        &&& self.self_module_handle_idx.0 < self.module_handles.len()
        &&& forall|i: int|
            0 <= i < self.module_handles.len() ==> #[trigger] self.module_handle_in_bounds(i)
        &&& forall|i: int|
            0 <= i < self.function_handles.len() ==> #[trigger] self.function_handle_in_bounds(i)
        &&& forall|i: int|
            0 <= i < self.function_defs.len() ==> (#[trigger] self.function_defs[i]).function.0
                < self.function_handles.len()
    }

    /// The name of the function that the handle at `i` stands for.
    pub open spec fn function_name(self, i: int) -> Seq<char> {
        self.identifiers[self.function_handles[i].name.0 as int]
    }

    /// The name of the module that declares the function of the handle at `i`.
    pub open spec fn function_module_name(self, i: int) -> Seq<char> {
        self.identifiers[self.module_handles[self.function_handles[i].module.0 as int].name.0 as int]
    }

    /// The address of the module that declares the function of the handle at `i`.
    pub open spec fn function_module_address(self, i: int) -> Seq<u8> {
        self.address_identifiers[self.module_handles[self.function_handles[i].module.0
            as int].address.0 as int]
    }

    /// The name of the function that the definition at `i` defines.
    pub open spec fn definition_name(self, i: int) -> Seq<char> {
        self.function_name(self.function_defs[i].function.0 as int)
    }

    /// The name of the module itself.
    pub open spec fn own_name(self) -> Seq<char> {
        self.identifiers[self.module_handles[self.self_module_handle_idx.0 as int].name.0 as int]
    }

    /// The address of the module itself.
    pub open spec fn own_address(self) -> Seq<u8> {
        self.address_identifiers[self.module_handles[self.self_module_handle_idx.0
            as int].address.0 as int]
    }
}

impl CompiledModule {
    /// Whether every table fits its index type and every index that the editor
    /// follows refers to an entry.
    pub fn is_well_formed(&self) -> (r: bool)
        ensures
            r == self@.well_formed(),
    {
        if self.module_handles.len() > TABLE_CAPACITY || self.function_handles.len()
            > TABLE_CAPACITY || self.signatures.len() > TABLE_CAPACITY || self.identifiers.len()
            > TABLE_CAPACITY || self.address_identifiers.len() > TABLE_CAPACITY
            || self.function_defs.len() > TABLE_CAPACITY {
            return false;
        }
        let self_idx: usize = self.self_module_handle_idx.0 as usize;
        if self_idx >= self.module_handles.len() {
            return false;
        }
        let mut i: usize = 0;
        while i < self.module_handles.len()
            invariant
                i <= self.module_handles.len(),
                forall|j: int| 0 <= j < i ==> #[trigger] self@.module_handle_in_bounds(j),
            decreases self.module_handles.len() - i,
        {
            let handle = &self.module_handles[i];
            let address: usize = handle.address.0 as usize;
            let name: usize = handle.name.0 as usize;
            if address >= self.address_identifiers.len() || name >= self.identifiers.len() {
                assert(!self@.module_handle_in_bounds(i as int));
                return false;
            }
            i += 1;
        }
        let mut i: usize = 0;
        while i < self.function_handles.len()
            invariant
                i <= self.function_handles.len(),
                forall|j: int| 0 <= j < i ==> #[trigger] self@.function_handle_in_bounds(j),
            decreases self.function_handles.len() - i,
        {
            let handle = &self.function_handles[i];
            let module: usize = handle.module.0 as usize;
            let name: usize = handle.name.0 as usize;
            let parameters: usize = handle.parameters.0 as usize;
            let return_: usize = handle.return_.0 as usize;
            if module >= self.module_handles.len() || name >= self.identifiers.len() || parameters
                >= self.signatures.len() || return_ >= self.signatures.len() {
                assert(!self@.function_handle_in_bounds(i as int));
                return false;
            }
            i += 1;
        }
        let mut i: usize = 0;
        while i < self.function_defs.len()
            invariant
                i <= self.function_defs.len(),
                forall|j: int|
                    0 <= j < i ==> (#[trigger] self@.function_defs[j]).function.0
                        < self.function_handles.len(),
            decreases self.function_defs.len() - i,
        {
            let function: usize = self.function_defs[i].function.0 as usize;
            if function >= self.function_handles.len() {
                assert(self@.function_defs[i as int].function.0 >= self.function_handles.len());
                return false;
            }
            i += 1;
        }
        true
    }
}

} // verus!
