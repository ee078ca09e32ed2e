//! The read-only object model that the emitter consumes.
use vstd::prelude::*;

verus! {

/// A reference to a named aggregate, optionally defined in another assembly.
#[derive(Debug, PartialEq, Eq)]
pub struct DotnetTypeRef {
    pub name_path: String,
    pub assembly: Option<String>,
    pub is_valuetype: bool,
}

/// A function signature: ordered inputs and one output.
#[derive(Debug, PartialEq, Eq)]
pub struct FnSig {
    pub inputs: Vec<Type>,
    pub output: Type,
}

/// An IR type.
#[derive(Debug, PartialEq, Eq)]
pub enum Type {
    Bool,
    USize,
    ISize,
    Void,
    DotnetChar,
    I128,
    U128,
    I64,
    U64,
    I32,
    U32,
    F64,
    F32,
    I16,
    U16,
    I8,
    U8,
    Ptr(Box<Type>),
    ManagedReference(Box<Type>),
    DotnetType(Box<DotnetTypeRef>),
    /// A function pointer; C spells every one as an untyped pointer, so the
    /// signature is not carried here.
    DelegatePtr,
    ManagedArray { element: Box<Type>, dims: u8 },
    Foreign,
    /// A generic parameter not yet substituted; it has no C spelling.
    GenericArg(u32),
}

/// One basic block: its id and its statements, already lowered to C text.
#[derive(Debug, PartialEq, Eq)]
pub struct BasicBlock {
    pub id: u32,
    pub trees: Vec<String>,
}

/// A method: name, signature, locals and basic blocks.
#[derive(Debug, PartialEq, Eq)]
pub struct Method {
    pub name: String,
    pub sig: FnSig,
    pub locals: Vec<(Option<String>, Type)>,
    pub blocks: Vec<BasicBlock>,
}

/// A named aggregate with its fields, optional explicit offsets and methods.
#[derive(Debug, PartialEq, Eq)]
pub struct TypeDef {
    pub name: String,
    pub fields: Vec<(String, Type)>,
    pub explicit_offsets: Option<Vec<u32>>,
    pub methods: Vec<Method>,
}

/// What is known of the unit being exported; the C target reads none of it.
#[derive(Debug, PartialEq, Eq)]
pub struct AssemblyInfo {
    pub name: String,
}

/// A reference to another compiled unit; the C target emits nothing for it.
#[derive(Debug, PartialEq, Eq)]
pub struct AssemblyExternRef {
    pub major: u16,
    pub minor: u16,
    pub build: u16,
    pub revision: u16,
}

} // verus!
