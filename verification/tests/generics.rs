use valo_semantics::ast::{GenericParamConstraint, PassingMode, Visibility};
use valo_semantics::symbols::{CallableSig, ParamSig};
use valo_semantics::type_model::TypeName;
use valo_semantics::types::{ClassPropertySig, PropertyAccessorSig};

fn user(name: &str) -> TypeName {
    TypeName::User(name.to_string())
}

fn bindings() -> Vec<(String, TypeName)> {
    vec![("T".to_string(), TypeName::Int32), ("U".to_string(), TypeName::String), ("t".to_string(), TypeName::Double)]
}

fn param(name: &str, ty: TypeName) -> ParamSig {
    ParamSig { name: name.to_string(), mode: PassingMode::ByRef, ty, is_optional: true, is_param_array: false }
}

#[test]
fn a_bound_parameter_is_replaced_by_the_first_binding_of_its_name() {
    assert!(matches!(user("T").substitute_generics(&bindings()), TypeName::Int32));
    assert!(matches!(user("t").substitute_generics(&bindings()), TypeName::Int32));
    assert!(matches!(user("u").substitute_generics(&bindings()), TypeName::String));
}

#[test]
fn an_unbound_name_and_a_plain_type_stay_as_they_are() {
    assert!(matches!(user("Shape").substitute_generics(&bindings()), TypeName::User(ref n) if n == "Shape"));
    assert!(matches!(TypeName::Boolean.substitute_generics(&bindings()), TypeName::Boolean));
    assert!(matches!(TypeName::Enum("T".to_string()).substitute_generics(&bindings()), TypeName::Enum(ref n) if n == "T"));
}

#[test]
fn replacement_reaches_into_composite_types() {
    let ty = TypeName::GenericInstance {
        name: "Pair".to_string(),
        args: vec![
            TypeName::Array(Box::new(user("T"))),
            TypeName::Tuple(vec![(Some("first".to_string()), TypeName::Nullable(Box::new(user("U")))), (None, user("V"))]),
        ],
    };
    match ty.substitute_generics(&bindings()) {
        TypeName::GenericInstance { name, args } => {
            assert_eq!(name, "Pair");
            assert_eq!(args.len(), 2);
            assert!(matches!(&args[0], TypeName::Array(inner) if matches!(**inner, TypeName::Int32)));
            match &args[1] {
                TypeName::Tuple(elements) => {
                    assert_eq!(elements.len(), 2);
                    assert_eq!(elements[0].0.as_deref(), Some("first"));
                    assert!(matches!(&elements[0].1, TypeName::Nullable(inner) if matches!(**inner, TypeName::String)));
                    assert_eq!(elements[1].0, None);
                    assert!(matches!(&elements[1].1, TypeName::User(n) if n == "V"));
                }
                _ => panic!("a tuple stays a tuple"),
            }
        }
        _ => panic!("a generic instance stays a generic instance"),
    }
}

#[test]
fn a_signature_is_instantiated_in_its_parameters_and_return_type() {
    let sig = CallableSig {
        visibility: Visibility::Friend,
        name: "Swap".to_string(),
        type_params: vec!["T".to_string()],
        generic_constraints: vec![GenericParamConstraint { name: "T".to_string(), bounds: vec![user("Shape")], require_new: true }],
        is_shared: true,
        is_iterator: false,
        is_declare: false,
        params: vec![param("left", user("T")), param("right", TypeName::Array(Box::new(user("U"))))],
        return_type: Some(user("T")),
    };
    let r = sig.substitute_generics(&bindings());
    assert_eq!(r.visibility, Visibility::Friend);
    assert_eq!(r.name, "Swap");
    assert_eq!(r.type_params, vec!["T".to_string()]);
    assert_eq!(r.generic_constraints.len(), 1);
    assert_eq!(r.generic_constraints[0].name, "T");
    assert!(r.generic_constraints[0].require_new);
    assert!(matches!(&r.generic_constraints[0].bounds[0], TypeName::User(n) if n == "Shape"));
    assert!(r.is_shared);
    assert_eq!(r.params.len(), 2);
    assert_eq!(r.params[0].name, "left");
    assert_eq!(r.params[0].mode, PassingMode::ByRef);
    assert!(r.params[0].is_optional);
    assert!(matches!(r.params[0].ty, TypeName::Int32));
    assert!(matches!(&r.params[1].ty, TypeName::Array(inner) if matches!(**inner, TypeName::String)));
    assert!(matches!(r.return_type, Some(TypeName::Int32)));
}

#[test]
fn a_property_is_instantiated_in_every_accessor() {
    let accessor = |ty: TypeName| PropertyAccessorSig {
        visibility: Visibility::Public,
        is_iterator: false,
        params: vec![param("index", user("U"))],
        return_type: Some(ty),
    };
    let property = ClassPropertySig {
        name: "Item".to_string(),
        is_shared: false,
        is_readonly: false,
        is_writeonly: false,
        get: vec![accessor(user("T"))],
        set: vec![accessor(user("X"))],
    };
    let r = property.substitute_generics(&bindings());
    assert_eq!(r.name, "Item");
    assert_eq!(r.get.len(), 1);
    assert_eq!(r.set.len(), 1);
    assert!(matches!(r.get[0].return_type, Some(TypeName::Int32)));
    assert!(matches!(r.get[0].params[0].ty, TypeName::String));
    assert!(matches!(&r.set[0].return_type, Some(TypeName::User(n)) if n == "X"));
}

#[test]
fn no_bindings_leave_a_type_as_it_was() {
    let ty = TypeName::Tuple(vec![(Some("x".to_string()), user("T")), (None, TypeName::Array(Box::new(user("U"))))]);
    match ty.substitute_generics(&[]) {
        TypeName::Tuple(elements) => {
            assert_eq!(elements[0].0.as_deref(), Some("x"));
            assert!(matches!(&elements[0].1, TypeName::User(n) if n == "T"));
            assert!(matches!(&elements[1].1, TypeName::Array(inner) if matches!(&**inner, TypeName::User(n) if n == "U")));
        }
        _ => panic!("a tuple stays a tuple"),
    }
}
