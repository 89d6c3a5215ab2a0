use valo_semantics::assignment::{
    array_element_target, array_target_var, indexed_target_of, shared_field_target_type, unknown_variable,
    variable_target_type, IndexedTarget, Options,
};
use valo_semantics::ast::{ArrayDecl, Expr, ExprKind, PassingMode, Visibility};
use valo_semantics::builtin_types::class;
use valo_semantics::context::Context;
use valo_semantics::diagnostics::{DiagnosticCode, Span};
use valo_semantics::name_map::NameMap;
use valo_semantics::symbols::{ParamSig, VarType};
use valo_semantics::text::key;
use valo_semantics::type_model::TypeName;
use valo_semantics::types::{ClassFieldSig, ClassPropertySig, PropertyAccessorSig, TypeRegistry};

fn at(line: usize) -> Span {
    Span { line, column: 3 }
}

fn field(is_shared: bool, ty: TypeName, array: Option<ArrayDecl>) -> ClassFieldSig {
    ClassFieldSig { visibility: Visibility::Private, is_shared, with_events: false, ty, array }
}

fn registry() -> TypeRegistry {
    let mut widget = class("Widget");
    widget.fields.insert(key("Width"), field(false, TypeName::Int32, None));
    widget.fields.insert(key("Count"), field(true, TypeName::Int64, None));
    widget.fields.insert(key("Cells"), field(false, TypeName::String, Some(ArrayDecl::Dynamic)));
    widget.fields.insert(key("Totals"), field(true, TypeName::Double, Some(ArrayDecl::Dynamic)));
    widget.fields.insert(key("Bag"), field(true, TypeName::Variant, None));
    widget.properties.insert(
        key("Title"),
        ClassPropertySig {
            name: "Title".to_string(),
            is_shared: false,
            is_readonly: false,
            is_writeonly: true,
            get: Vec::new(),
            set: vec![PropertyAccessorSig {
                visibility: Visibility::Public,
                is_iterator: false,
                params: vec![ParamSig {
                    name: "value".to_string(),
                    mode: PassingMode::ByVal,
                    ty: TypeName::String,
                    is_optional: false,
                    is_param_array: false,
                }],
                return_type: None,
            }],
        },
    );
    let mut table = class("Table");
    table.default_property = Some("Item".to_string());
    let mut types = TypeRegistry::new();
    types.classes.insert(key("Widget"), widget);
    types.classes.insert(key("Table"), table);
    types
}

fn instance_method() -> Context<'static> {
    Context::MethodSub { class_name: "Widget".to_string(), is_async: false }
}

fn with_me() -> NameMap<VarType> {
    let mut symbols: NameMap<VarType> = NameMap::new();
    symbols.insert(key("Me"), VarType::Scalar(Visibility::Private, TypeName::User("Widget".to_string())));
    symbols
}

fn lax() -> Options {
    Options { explicit: false, strict: false }
}

fn explicit() -> Options {
    Options { explicit: true, strict: false }
}

#[test]
fn a_local_is_assigned_by_its_type_and_constants_and_arrays_are_refused() {
    let types = registry();
    let sub = Context::Sub { is_async: false };
    let mut symbols: NameMap<VarType> = NameMap::new();
    symbols.insert(key("total"), VarType::Scalar(Visibility::Private, TypeName::Int64));
    symbols.insert(key("Limit"), VarType::Const(Visibility::Private, TypeName::Int32));
    symbols.insert(key("Items"), VarType::Array(Visibility::Private, TypeName::Int32, true));
    assert!(matches!(variable_target_type("TOTAL", at(1), &symbols, &types, &sub, explicit()), Ok(TypeName::Int64)));
    let constant = variable_target_type("limit", at(2), &symbols, &types, &sub, explicit()).unwrap_err();
    assert_eq!(constant.code, DiagnosticCode::InvalidAssignment);
    assert_eq!(constant.message, "Constant 'limit' cannot be assigned");
    assert_eq!(constant.span, Some(at(2)));
    let array = variable_target_type("Items", at(3), &symbols, &types, &sub, explicit()).unwrap_err();
    assert_eq!(array.code, DiagnosticCode::Array);
    assert_eq!(array.message, "Array variable 'Items' cannot be used as a scalar");
}

#[test]
fn an_undeclared_name_is_variant_unless_option_explicit() {
    let types = registry();
    let sub = Context::Sub { is_async: false };
    let symbols: NameMap<VarType> = NameMap::new();
    assert!(matches!(variable_target_type("fresh", at(1), &symbols, &types, &sub, lax()), Ok(TypeName::Variant)));
    let d = variable_target_type("fresh", at(4), &symbols, &types, &sub, explicit()).unwrap_err();
    assert_eq!(d.code, DiagnosticCode::UnknownName);
    assert_eq!(d.message, "Variable 'fresh' is not declared");
    assert_eq!(d.label.as_deref(), Some("unknown variable"));
    assert_eq!(d.help.as_deref(), Some("declare the variable before using it"));
    assert_eq!(d.span, Some(at(4)));
}

#[test]
fn inside_a_class_a_bare_name_reaches_its_fields_and_properties() {
    let types = registry();
    let method = instance_method();
    let symbols = with_me();
    assert!(matches!(variable_target_type("width", at(1), &symbols, &types, &method, explicit()), Ok(TypeName::Int32)));
    assert!(matches!(variable_target_type("Title", at(1), &symbols, &types, &method, explicit()), Ok(TypeName::String)));
    // Inside a class an undeclared name is an error even without Option Explicit.
    let d = variable_target_type("Height", at(5), &symbols, &types, &method, lax()).unwrap_err();
    assert_eq!(d.code, DiagnosticCode::UnknownName);
}

#[test]
fn a_shared_member_reaches_only_shared_fields() {
    let types = registry();
    let method = instance_method();
    let symbols: NameMap<VarType> = NameMap::new();
    assert!(matches!(variable_target_type("Count", at(1), &symbols, &types, &method, explicit()), Ok(TypeName::Int64)));
    let d = variable_target_type("Width", at(6), &symbols, &types, &method, explicit()).unwrap_err();
    assert_eq!(d.code, DiagnosticCode::MemberAccess);
    assert_eq!(d.message, "Instance field 'Width' cannot be accessed from a Shared method");
    let a = array_target_var("Cells", at(7), &symbols, &types, &method).unwrap_err();
    assert_eq!(a.code, DiagnosticCode::MemberAccess);
    assert_eq!(a.message, "Instance array 'Cells' cannot be accessed from a Shared method");
    assert!(matches!(
        array_target_var("totals", at(7), &symbols, &types, &method),
        Ok(VarType::Array(Visibility::Public, TypeName::Double, true))
    ));
}

#[test]
fn an_indexed_field_must_be_an_array_or_a_variant() {
    let types = registry();
    let method = instance_method();
    let symbols = with_me();
    assert!(matches!(
        array_target_var("Bag", at(1), &symbols, &types, &method),
        Ok(VarType::Scalar(Visibility::Public, TypeName::Variant))
    ));
    let d = array_target_var("Width", at(8), &symbols, &types, &method).unwrap_err();
    assert_eq!(d.code, DiagnosticCode::Array);
    assert_eq!(d.message, "Variable 'Width' is not an array");
    let sub = Context::Sub { is_async: false };
    let u = array_target_var("nowhere", at(9), &symbols, &types, &sub).unwrap_err();
    assert_eq!(u.code, DiagnosticCode::UnknownName);
    assert_eq!(u.message, "Variable 'nowhere' is not declared");
    assert!(u.label.is_none() && u.help.is_none());
}

#[test]
fn what_an_element_assignment_gives_by_what_the_name_holds() {
    let types = registry();
    let value = TypeName::Int16;
    let array = VarType::Array(Visibility::Private, TypeName::Byte, false);
    assert!(matches!(indexed_target_of(&array, "a", at(1), &value, &types), Ok(IndexedTarget::Element(TypeName::Byte))));
    let object = VarType::Scalar(Visibility::Private, TypeName::User("OBJECT".to_string()));
    assert!(matches!(
        indexed_target_of(&object, "o", at(1), &value, &types),
        Ok(IndexedTarget::LateBound(TypeName::Variant))
    ));
    let table = VarType::Optional(Visibility::Private, TypeName::User("table".to_string()));
    assert!(matches!(indexed_target_of(&table, "t", at(1), &value, &types), Ok(IndexedTarget::LateBound(TypeName::Int16))));
    let widget = VarType::Scalar(Visibility::Private, TypeName::User("Widget".to_string()));
    let d = indexed_target_of(&widget, "w", at(2), &value, &types).unwrap_err();
    assert_eq!(d.message, "Variable 'w' is not an array");
    let module = VarType::Module("Maths".to_string());
    let m = indexed_target_of(&module, "m", at(3), &value, &types).unwrap_err();
    assert_eq!(m.code, DiagnosticCode::InvalidQualifiedAccess);
    assert_eq!(m.message, "Module 'Maths' cannot be indexed");
    let ret = VarType::FunctionReturn(TypeName::Variant);
    assert!(indexed_target_of(&ret, "f", at(4), &value, &types).is_err());
}

#[test]
fn an_element_target_combines_the_binding_and_its_element() {
    let types = registry();
    let method = instance_method();
    let symbols = with_me();
    let value = TypeName::String;
    assert!(matches!(
        array_element_target("cells", at(1), &value, &symbols, &types, &method),
        Ok(IndexedTarget::Element(TypeName::String))
    ));
    assert!(matches!(
        array_element_target("bag", at(1), &value, &symbols, &types, &method),
        Ok(IndexedTarget::LateBound(TypeName::Variant))
    ));
    assert!(array_element_target("Width", at(1), &value, &symbols, &types, &method).is_err());
}

#[test]
fn a_shared_field_is_assigned_through_its_class_name() {
    let types = registry();
    let object = Expr { kind: ExprKind::Variable("widget".to_string()), span: at(1) };
    let mut symbols: NameMap<VarType> = NameMap::new();
    assert!(matches!(shared_field_target_type(&object, "COUNT", &symbols, &types), Some(TypeName::Int64)));
    assert!(shared_field_target_type(&object, "Width", &symbols, &types).is_none());
    symbols.insert(key("Widget"), VarType::Scalar(Visibility::Private, TypeName::Variant));
    assert!(shared_field_target_type(&object, "Count", &symbols, &types).is_none());
}

#[test]
fn the_unknown_variable_diagnostic_names_the_variable() {
    let d = unknown_variable("Zed", at(2));
    assert_eq!(d.message, "Variable 'Zed' is not declared");
    assert_eq!(d.code, DiagnosticCode::UnknownName);
}
