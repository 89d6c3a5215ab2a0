//! Semantic analysis for the Valo language: symbol indexing, overload
//! resolution, type properties, typed HIR and its structural and ownership
//! checks.
pub mod diagnostics;
pub mod text;
pub mod type_model;
pub mod name_map;
pub mod overloads;
pub mod ast;
pub mod type_properties;
pub mod arithmetic;
pub mod typed_hir;
pub mod ownership;
pub mod verify_hir;
pub mod ids;
pub mod hir;
pub mod validate;
pub mod symbols;
pub mod types;
pub mod builtin_types;
pub mod debug_hir;
pub mod context;
pub mod type_rules;
pub mod member_rules;
pub mod oop;
pub mod accessors;
pub mod control_flow;
pub mod statements;
pub mod constants;
pub mod assignment;
pub mod class_fields;
