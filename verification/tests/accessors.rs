use valo_semantics::accessors::{pick_writer, resolve_accessor};
use valo_semantics::ast::{PassingMode, Visibility};
use valo_semantics::diagnostics::{DiagnosticCode, Span};
use valo_semantics::symbols::ParamSig;
use valo_semantics::type_model::TypeName;
use valo_semantics::types::PropertyAccessorSig;

fn span() -> Span {
    Span { line: 7, column: 3 }
}

fn param(name: &str, ty: TypeName) -> ParamSig {
    ParamSig { name: name.to_string(), mode: PassingMode::ByVal, ty, is_optional: false, is_param_array: false }
}

fn accessor(params: Vec<ParamSig>) -> PropertyAccessorSig {
    PropertyAccessorSig { visibility: Visibility::Public, is_iterator: false, params, return_type: None }
}

fn index_then_value(index: TypeName, value: TypeName) -> PropertyAccessorSig {
    accessor(vec![param("index", index), param("value", value)])
}

#[test]
fn no_accessor_is_no_choice() {
    let r = pick_writer(&[], &[], &TypeName::Int32, "Item", span()).expect("no error");
    assert!(r.is_none());
    let r = resolve_accessor("Item", &[], &[Some(TypeName::Int32)], span()).expect("no error");
    assert!(r.is_none());
}

#[test]
fn a_lone_accessor_is_taken_whatever_is_written() {
    let candidates = vec![index_then_value(TypeName::Int32, TypeName::String)];
    let chosen = pick_writer(&candidates, &[], &TypeName::Boolean, "Item", span()).expect("no error").expect("a choice");
    assert!(std::ptr::eq(chosen, &candidates[0]));
}

#[test]
fn the_value_written_picks_the_writer() {
    let candidates =
        vec![index_then_value(TypeName::Int32, TypeName::String), index_then_value(TypeName::Int32, TypeName::Int32)];
    let chosen =
        pick_writer(&candidates, &[Some(TypeName::Int32)], &TypeName::Int32, "Item", span()).expect("no error").expect("a choice");
    assert!(std::ptr::eq(chosen, &candidates[1]));
    let chosen = pick_writer(&candidates, &[Some(TypeName::Int32)], &TypeName::String, "Item", span())
        .expect("no error")
        .expect("a choice");
    assert!(std::ptr::eq(chosen, &candidates[0]));
}

#[test]
fn a_write_no_accessor_takes_is_reported() {
    let candidates =
        vec![index_then_value(TypeName::Int32, TypeName::String), index_then_value(TypeName::Int32, TypeName::Int32)];
    let err = pick_writer(&candidates, &[Some(TypeName::Int32), Some(TypeName::Int32)], &TypeName::Int32, "Item", span())
        .expect_err("three arguments fit no accessor of two parameters");
    assert_eq!(err.code, DiagnosticCode::ArgumentCount);
    assert_eq!(err.message, "No accessor of property 'Item' accepts a write of this shape");
    assert_eq!(err.span, Some(span()));
}

#[test]
fn a_write_two_accessors_take_equally_is_ambiguous() {
    let candidates =
        vec![index_then_value(TypeName::Int32, TypeName::Double), index_then_value(TypeName::Double, TypeName::Int32)];
    let err = pick_writer(&candidates, &[Some(TypeName::Int32)], &TypeName::Int32, "Cell", span())
        .expect_err("each accessor is better for one argument");
    assert_eq!(err.code, DiagnosticCode::AmbiguousOverload);
    assert_eq!(err.message, "Which accessor of property 'Cell' is written to is ambiguous");
}

#[test]
fn the_arguments_pick_the_reader() {
    let candidates = vec![accessor(vec![param("key", TypeName::String)]), accessor(vec![param("index", TypeName::Int32)])];
    let chosen = resolve_accessor("Item", &candidates, &[Some(TypeName::Int16)], span()).expect("no error").expect("a choice");
    assert!(std::ptr::eq(chosen, &candidates[1]));
    let chosen = resolve_accessor("Item", &candidates, &[Some(TypeName::String)], span()).expect("no error").expect("a choice");
    assert!(std::ptr::eq(chosen, &candidates[0]));
}

#[test]
fn a_read_no_accessor_takes_is_reported() {
    let candidates = vec![accessor(vec![param("key", TypeName::String)]), accessor(vec![param("index", TypeName::Int32)])];
    let err = resolve_accessor("Item", &candidates, &[], span()).expect_err("every accessor needs an argument");
    assert_eq!(err.code, DiagnosticCode::ArgumentCount);
    assert_eq!(err.message, "No accessor of property 'Item' accepts these arguments");
}

#[test]
fn a_read_of_unknown_type_is_ambiguous() {
    let candidates = vec![accessor(vec![param("key", TypeName::String)]), accessor(vec![param("index", TypeName::Int32)])];
    let err = resolve_accessor("Item", &candidates, &[None], span()).expect_err("an unknown argument fits both alike");
    assert_eq!(err.code, DiagnosticCode::AmbiguousOverload);
    assert_eq!(err.message, "Which accessor of property 'Item' is meant is ambiguous");
}
