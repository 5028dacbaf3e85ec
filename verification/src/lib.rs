//! A typed, append-only arena with handle-based cross-referencing.
//!
//! Graph-shaped data (an intermediate representation of modules, functions
//! and types) is built without raw pointers or reference counting: each
//! container is an [`arena::Arena`] that owns its elements, and every
//! cross-reference is an [`arena::Handle`], a copyable, strongly typed
//! positional index into the arena that produced it. The surrounding data
//! model below is a consumer of that mechanism: its values own only handles,
//! never each other, so DAG- and cycle-shaped references stay out of the
//! ownership graph.

use vstd::prelude::*;
use std::collections::HashMap;
use std::hash::BuildHasherDefault;
use crate::arena::{Arena, Handle};

pub mod arena;
pub mod compact;

verus! {

/// The hasher that the module's maps are built with.
#[verifier::external_type_specification]
#[verifier::external_body]
pub struct ExFxHasher(fxhash::FxHasher);

/// The standard adapter that builds a fresh default hasher per use.
#[verifier::external_type_specification]
#[verifier::external_body]
#[verifier::reject_recursive_types(H)]
pub struct ExBuildHasherDefault<H>(BuildHasherDefault<H>);

/// A hash map seeded deterministically, as the data model expects.
type FastHashMap<K, T> = HashMap<K, T, BuildHasherDefault<fxhash::FxHasher>>;

/// Leading metadata of a module.
#[derive(Debug)]
pub struct Header {
    pub version: (u8, u8, u8),
    pub generator: u32,
}

/// Width of a scalar in bytes.
pub type Bytes = u8;

/// Number of components of a vector type.
#[derive(Clone, Debug)]
pub enum VectorSize {
    Bi,
    Tri,
    Quad,
}

/// Interpretation of the bits of a scalar.
#[derive(Clone, Debug)]
pub enum ScalarKind {
    Sint,
    Uint,
    Float,
}

/// An aggregate type declaration, addressed through its arena handle.
#[derive(Debug)]
pub struct StructDeclaration {

}

/// A data type; aggregate members are referred to by handle, never owned.
#[derive(Clone, Debug)]
pub enum Type {
    Void,
    Scalar { kind: ScalarKind, width: Bytes },
    Vector { size: VectorSize, kind: ScalarKind, width: Bytes },
    Struct(Handle<StructDeclaration>),
}

/// A computation appearing inside a statement.
#[derive(Debug)]
pub enum Expression {
    Arithmetic,
}

/// An ordered group of statements.
pub type Block = Vec<Statement>;

/// Marks a switch case that continues into the next one.
#[derive(Debug)]
pub struct FallThrough;

/// One step of structured control flow.
#[derive(Debug)]
pub enum Statement {
    Expression(Expression),
    Block(Block),
    If { condition: Expression, accept: Block, reject: Block },
    Switch {
        selector: Expression,
        cases: FastHashMap<i32, (Block, Option<FallThrough>)>,
        default: Block,
    },
    Return { value: Option<Expression> },
    Kill,
}

/// A function of the module; its types are owned, its body is a block.
#[derive(Debug)]
pub struct Function {
    pub name: Option<String>,
    pub parameter_types: Vec<Type>,
    pub return_type: Type,
    pub body: Block,
}

/// The execution model of an entry point, as the target format defines it.
#[verifier::external_type_specification]
#[verifier::external_body]
pub struct ExExecutionModel(spirv_headers::ExecutionModel);

/// An exported entry of a module; it refers to its function by handle.
#[derive(Debug)]
pub struct EntryPoint {
    pub exec_model: spirv_headers::ExecutionModel,
    pub name: String,
    pub function: Handle<Function>,
}

/// A whole program unit: arenas own every declaration and function, and all
/// cross-references among them are handles into those arenas.
#[derive(Debug)]
pub struct Module {
    pub header: Header,
    pub struct_declarations: Arena<StructDeclaration>,
    pub functions: Arena<Function>,
    pub entry_points: Vec<EntryPoint>,
}

} // verus!
