use valo_semantics::diagnostics::{DiagnosticCode, Span};
use valo_semantics::type_rules::ensure_class_type;
use valo_semantics::ast::{PassingMode, Visibility};
use valo_semantics::builtin_types::{class, collection};
use valo_semantics::context::Context;
use valo_semantics::name_map::NameMap;
use valo_semantics::symbols::{ParamSig, VarType};
use valo_semantics::text::key;
use valo_semantics::type_model::TypeName;
use valo_semantics::type_rules::{
    bare_property_type, conversion_function, is_builtin_vba_enum_type, is_class_type, is_indexable_var_type,
    is_numeric_type, is_reference_type, is_value_type, narrows, wider_bitwise_result,
};
use valo_semantics::types::{ClassPropertySig, PropertyAccessorSig, TypeRegistry, TypeSig};

use valo_semantics::member_rules::{class_member_names, param_shapes, signature_matches, structure_member_names};
use valo_semantics::builtin_types::{optional, required, sub};
use valo_semantics::type_rules::{
    class_implements_interface, class_inherits_from, enum_member_value_type, fits_delegate, is_bitwise_operand,
    is_enum_type, is_inherited_class_assignable, satisfies_type_bound,
};
use valo_semantics::types::EnumSig;

fn structure(name: &str) -> TypeSig {
    TypeSig {
        visibility: Visibility::Public,
        name: name.to_string(),
        type_params: Vec::new(),
        generic_constraints: Vec::new(),
        implements: Vec::new(),
        is_structure: true,
        fields: NameMap::new(),
        subs: NameMap::new(),
        functions: NameMap::new(),
        properties: NameMap::new(),
        default_property: None,
    }
}

#[test]
fn numeric_types_include_nullable_ones() {
    assert!(is_numeric_type(&TypeName::Currency));
    assert!(is_numeric_type(&TypeName::Nullable(Box::new(TypeName::Int32))));
    assert!(!is_numeric_type(&TypeName::String));
    assert!(!is_numeric_type(&TypeName::Nullable(Box::new(TypeName::Boolean))));
}

#[test]
fn going_down_the_ladder_narrows() {
    assert!(narrows(&TypeName::Int64, &TypeName::Int32));
    assert!(!narrows(&TypeName::Int32, &TypeName::Int64));
    assert!(!narrows(&TypeName::Int32, &TypeName::Double));
    assert!(narrows(&TypeName::Double, &TypeName::Single));
    assert!(narrows(&TypeName::Currency, &TypeName::Double));
    assert!(!narrows(&TypeName::Currency, &TypeName::Currency));
    assert!(!narrows(&TypeName::User("a".to_string()), &TypeName::User("A".to_string())));
}

#[test]
fn conversions_are_named_after_their_target() {
    assert_eq!(conversion_function(&TypeName::Int16), Some("CInt"));
    assert_eq!(conversion_function(&TypeName::Int32), Some("CLng"));
    assert_eq!(conversion_function(&TypeName::String), Some("CStr"));
    assert_eq!(conversion_function(&TypeName::Variant), None);
}

#[test]
fn a_bitwise_operation_yields_the_wider_integer() {
    assert!(matches!(wider_bitwise_result(&TypeName::Byte, &TypeName::Int32), TypeName::Int32));
    assert!(matches!(wider_bitwise_result(&TypeName::Int64, &TypeName::UInt64), TypeName::Int64));
    assert!(matches!(wider_bitwise_result(&TypeName::Variant, &TypeName::Byte), TypeName::Byte));
    assert!(matches!(wider_bitwise_result(&TypeName::Int32, &TypeName::Variant), TypeName::Int32));
    assert!(matches!(wider_bitwise_result(&TypeName::Variant, &TypeName::String), TypeName::Int16));
}

fn registry() -> TypeRegistry {
    let mut reg = TypeRegistry::new();
    reg.classes.insert(key("Widget"), class("Widget"));
    reg.classes.insert(key("Collection"), collection());
    reg.types.insert(key("Point"), structure("Point"));
    reg
}

#[test]
fn values_and_references_are_told_apart() {
    let reg = registry();
    assert!(is_reference_type(&TypeName::String, &reg));
    assert!(is_reference_type(&TypeName::User("widget".to_string()), &reg));
    assert!(is_reference_type(&TypeName::User("OBJECT".to_string()), &reg));
    assert!(!is_reference_type(&TypeName::User("Point".to_string()), &reg));
    assert!(is_value_type(&TypeName::User("point".to_string()), &reg));
    assert!(is_value_type(&TypeName::Nullable(Box::new(TypeName::Int32)), &reg));
    assert!(!is_value_type(&TypeName::Variant, &reg));
    assert!(!is_value_type(&TypeName::User("Widget".to_string()), &reg));
    assert!(is_value_type(&TypeName::Tuple(Vec::new()), &reg));
    assert!(is_class_type(&TypeName::User("Collection".to_string()), &reg));
    assert!(!is_class_type(&TypeName::Int32, &reg));
}

#[test]
fn arrays_and_object_values_can_be_indexed() {
    assert!(is_indexable_var_type(&VarType::Array(Visibility::Public, TypeName::Int32, false)));
    assert!(is_indexable_var_type(&VarType::Scalar(Visibility::Public, TypeName::Variant)));
    assert!(!is_indexable_var_type(&VarType::Scalar(Visibility::Public, TypeName::Int32)));
    assert!(!is_indexable_var_type(&VarType::FunctionReturn(TypeName::Variant)));
}

fn accessor(params: Vec<ParamSig>, return_type: Option<TypeName>) -> PropertyAccessorSig {
    PropertyAccessorSig { visibility: Visibility::Public, is_iterator: false, params, return_type }
}

fn value_param(ty: TypeName) -> ParamSig {
    ParamSig { name: "value".to_string(), mode: PassingMode::ByVal, ty, is_optional: false, is_param_array: false }
}

#[test]
fn a_bare_property_has_its_getter_type_or_its_assigned_type() {
    let read = ClassPropertySig {
        name: "Name".to_string(),
        is_shared: false,
        is_readonly: true,
        is_writeonly: false,
        get: vec![accessor(Vec::new(), Some(TypeName::String))],
        set: Vec::new(),
    };
    assert!(matches!(bare_property_type(&read), Some(TypeName::String)));
    let write = ClassPropertySig {
        name: "Size".to_string(),
        is_shared: false,
        is_readonly: false,
        is_writeonly: true,
        get: Vec::new(),
        set: vec![accessor(vec![value_param(TypeName::Int32), value_param(TypeName::Double)], None)],
    };
    assert!(matches!(bare_property_type(&write), Some(TypeName::Double)));
    let none = ClassPropertySig {
        name: "Nothing".to_string(),
        is_shared: false,
        is_readonly: false,
        is_writeonly: false,
        get: Vec::new(),
        set: Vec::new(),
    };
    assert!(bare_property_type(&none).is_none());
    assert!(write.getter().is_none());
    assert_eq!(write.writers().len(), 1);
}

#[test]
fn runtime_enums_are_recognised_without_case() {
    assert!(is_builtin_vba_enum_type("VbMsgBoxStyle"));
    assert!(is_builtin_vba_enum_type("vbtristate"));
    assert!(!is_builtin_vba_enum_type("VbColor"));
}

#[test]
fn a_body_knows_its_class_and_whether_it_may_await() {
    let sub = Context::Sub { is_async: true };
    assert!(sub.allows_await());
    assert_eq!(sub.current_class(), None);
    let setter = Context::PropertyLetSet { class_name: "Widget".to_string() };
    assert!(!setter.allows_await());
    assert_eq!(setter.current_class(), Some("Widget"));
    let mut saw_return = false;
    let mut saw_yield = false;
    let method = Context::MethodFunction {
        class_name: "Widget".to_string(),
        return_type: TypeName::Int32,
        return_slot: None,
        is_iterator: false,
        is_async: false,
        saw_return: &mut saw_return,
        saw_yield: &mut saw_yield,
    };
    assert!(!method.allows_await());
    assert_eq!(method.current_class(), Some("Widget"));
}


fn hierarchy() -> TypeRegistry {
    let mut reg = TypeRegistry::new();
    let mut shape = class("Shape");
    shape.implements = vec![TypeName::User("IDrawable".to_string())];
    let mut circle = class("Circle");
    circle.base_class = Some(TypeName::User("Shape".to_string()));
    let mut dot = class("Dot");
    dot.base_class = Some(TypeName::GenericInstance { name: "circle".to_string(), args: Vec::new() });
    reg.classes.insert(key("Shape"), shape);
    reg.classes.insert(key("Circle"), circle);
    reg.classes.insert(key("Dot"), dot);
    let mut members = NameMap::new();
    members.insert(key("Red"), 1i64);
    reg.enums.insert(key("Color"), EnumSig { visibility: Visibility::Public, name: "Color".to_string(), members });
    reg.delegates.insert(key("Handler"), sub("Handler", Vec::new()));
    reg
}

#[test]
fn a_class_inherits_from_every_base_up_its_chain() {
    let reg = hierarchy();
    assert!(class_inherits_from("Dot", "SHAPE", &reg));
    assert!(class_inherits_from("Circle", "Shape", &reg));
    assert!(!class_inherits_from("Shape", "Circle", &reg));
    assert!(!class_inherits_from("Missing", "Shape", &reg));
    let drawable = TypeName::User("IDrawable".to_string());
    assert!(class_implements_interface("Dot", &drawable, &reg));
    assert!(!class_implements_interface("Dot", &TypeName::User("IOther".to_string()), &reg));
}

#[test]
fn a_type_argument_meets_its_bound_by_identity_inheritance_or_interface() {
    let reg = hierarchy();
    let dot = TypeName::User("Dot".to_string());
    assert!(satisfies_type_bound(&dot, &TypeName::User("Shape".to_string()), &reg));
    assert!(satisfies_type_bound(&dot, &TypeName::User("IDrawable".to_string()), &reg));
    assert!(satisfies_type_bound(&dot, &TypeName::User("object".to_string()), &reg));
    assert!(!satisfies_type_bound(&TypeName::Int32, &TypeName::User("Object".to_string()), &reg));
    assert!(satisfies_type_bound(&TypeName::Int32, &TypeName::Int32, &reg));
    assert!(!satisfies_type_bound(&dot, &TypeName::User("Color".to_string()), &reg));
}

#[test]
fn enums_delegates_and_bitwise_operands() {
    let reg = hierarchy();
    let color = TypeName::User("color".to_string());
    assert!(is_enum_type(&color, &reg));
    assert!(is_bitwise_operand(&color, &reg));
    assert!(is_bitwise_operand(&TypeName::Variant, &reg));
    assert!(!is_bitwise_operand(&TypeName::Double, &reg));
    assert!(matches!(enum_member_value_type("RED", &reg), Some(TypeName::Int16)));
    assert!(enum_member_value_type("Blue", &reg).is_none());
    assert!(fits_delegate(&TypeName::User("handler".to_string()), &TypeName::FuncPtr, &reg));
    assert!(!fits_delegate(&TypeName::User("handler".to_string()), &TypeName::Int32, &reg));
    assert!(is_inherited_class_assignable(&TypeName::User("A".to_string()), &TypeName::User("B".to_string())));
    assert!(!is_inherited_class_assignable(&TypeName::User("A".to_string()), &TypeName::Int32));
}

#[test]
fn signatures_match_parameter_for_parameter() {
    let one = vec![required("a", TypeName::Int32), optional("b", TypeName::String)];
    let same = vec![required("x", TypeName::Int32), optional("y", TypeName::String)];
    let other = vec![required("x", TypeName::Int32), required("y", TypeName::String)];
    assert!(signature_matches(&one, Some(&TypeName::Int32), &same, Some(&TypeName::Int32)));
    assert!(!signature_matches(&one, Some(&TypeName::Int32), &other, Some(&TypeName::Int32)));
    assert!(!signature_matches(&one, None, &same, Some(&TypeName::Int32)));
    assert!(signature_matches(&one, None, &same, None));
    assert!(!signature_matches(&one, None, &same[..1], None));
    let shapes = param_shapes(&sub("F", one));
    assert_eq!(shapes.len(), 2);
    assert!(!shapes[0].is_optional);
    assert!(shapes[1].is_optional);
    assert!(matches!(shapes[1].ty, TypeName::String));
}

#[test]
fn member_names_list_every_overload_property_and_event() {
    let collection = collection();
    let names = class_member_names(&collection);
    assert_eq!(names, vec!["Add", "Remove", "Item", "Count"]);
    let mut point = structure("Point");
    point.subs.insert(key("Move"), vec![sub("Move", Vec::new()), sub("Move", vec![required("by", TypeName::Int32)])]);
    assert_eq!(structure_member_names(&point), vec!["Move", "Move"]);
}

#[test]
fn only_a_class_type_passes_the_class_check() {
    let reg = registry();
    let span = Span { line: 4, column: 9 };
    assert!(ensure_class_type(&TypeName::User("widget".to_string()), &reg, span, "Set requires an object").is_ok());
    let err = ensure_class_type(&TypeName::Int32, &reg, span, "Set requires an object").expect_err("not a class");
    assert_eq!(err.code, DiagnosticCode::TypeMismatch);
    assert_eq!(err.message, "Set requires an object");
    assert_eq!(err.span, Some(span));
}
