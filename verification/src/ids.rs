//! Stable semantic identities used by project-wide analysis.
//!
//! These IDs are small wrappers instead of strings: tooling, HIR, package
//! builds and a future VM need identities that survive renames, aliases and
//! import resolution.
use vstd::prelude::*;

verus! {

/// A module of a project, by its position in the project.
#[derive(Debug, Clone, Copy, PartialEq, Eq, Hash, PartialOrd, Ord, Structural)]
pub struct ModuleId(pub usize);

/// A type declared anywhere in a project, by its position in the index.
#[derive(Debug, Clone, Copy, PartialEq, Eq, Hash, PartialOrd, Ord, Structural)]
pub struct TypeId(pub usize);

/// A module-level procedure of a project, by its position in the index.
#[derive(Debug, Clone, Copy, PartialEq, Eq, Hash, PartialOrd, Ord, Structural)]
pub struct FunctionId(pub usize);

/// A member of a type.
#[derive(Debug, Clone, Copy, PartialEq, Eq, Hash, PartialOrd, Ord, Structural)]
pub struct MemberId(pub usize);

/// Whatever a qualified name can denote.
#[derive(Debug, Clone, Copy, PartialEq, Eq, Hash, PartialOrd, Ord, Structural)]
pub enum SymbolId {
    Module(ModuleId),
    Type(TypeId),
    Function(FunctionId),
    Member(MemberId),
}

} // verus!
