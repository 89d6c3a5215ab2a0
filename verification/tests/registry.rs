use valo_semantics::ast::{ClassInheritance, GenericParamConstraint, Visibility};
use valo_semantics::builtin_types::{class, register_classes};
use valo_semantics::name_map::NameMap;
use valo_semantics::symbols::VarType;
use valo_semantics::text::key;
use valo_semantics::type_model::TypeName;
use valo_semantics::types::{EnumSig, TypeRegistry};

fn enum_sig(name: &str) -> EnumSig {
    EnumSig { visibility: Visibility::Public, name: name.to_string(), members: NameMap::new() }
}

fn registry() -> TypeRegistry {
    let mut reg = TypeRegistry::new();
    reg.classes.insert(key("Shapes.Circle"), class("Shapes.Circle"));
    reg.classes.insert(key("Widget"), class("Widget"));
    reg.enums.insert(key("Shapes.Kind"), enum_sig("Shapes.Kind"));
    reg.enums.insert(key("Other.Kind"), enum_sig("Other.Kind"));
    reg
}

#[test]
fn a_simple_name_means_the_one_nested_type_that_ends_in_it() {
    let reg = registry();
    assert_eq!(reg.unique_nested_type_name("circle").as_deref(), Some("Shapes.Circle"));
    assert_eq!(reg.unique_nested_type_name("Kind"), None);
    assert_eq!(reg.unique_nested_type_name("Shapes.Circle"), None);
    assert_eq!(reg.unique_nested_type_name("Square"), None);
    assert!(reg.contains("CIRCLE"));
    assert!(reg.contains("widget"));
    assert!(!reg.contains("Kind"));
}

#[test]
fn an_ambiguous_import_denotes_nothing() {
    let mut reg = registry();
    reg.ambiguous_imports.insert(key("Widget"), vec!["A.Widget".to_string(), "B.Widget".to_string()]);
    assert!(!reg.contains("Widget"));
    assert!(reg.get_class("widget").is_none());
    assert!(reg.get_class("Shapes.Circle").is_some());
}

#[test]
fn a_written_type_is_spelled_as_declared() {
    let reg = registry();
    assert!(matches!(reg.canonical_type_name(&TypeName::User("WIDGET".to_string())), TypeName::User(n) if n == "Widget"));
    assert!(matches!(reg.canonical_type_name(&TypeName::User("circle".to_string())), TypeName::User(n) if n == "Shapes.Circle"));
    assert!(matches!(reg.canonical_type_name(&TypeName::User("object".to_string())), TypeName::User(n) if n == "Object"));
    assert!(matches!(reg.canonical_type_name(&TypeName::User("COLLECTION".to_string())), TypeName::User(n) if n == "Collection"));
    assert!(matches!(reg.canonical_type_name(&TypeName::User("Unknown".to_string())), TypeName::User(n) if n == "Unknown"));
    let array = reg.canonical_type_name(&TypeName::Array(Box::new(TypeName::User("widget".to_string()))));
    assert!(matches!(array, TypeName::Array(inner) if matches!(*inner, TypeName::User(ref n) if n == "Widget")));
    let generic = reg.canonical_type_name(&TypeName::GenericInstance {
        name: "widget".to_string(),
        args: vec![TypeName::User("circle".to_string()), TypeName::Int32],
    });
    match generic {
        TypeName::GenericInstance { name, args } => {
            assert_eq!(name, "Widget");
            assert!(matches!(&args[0], TypeName::User(n) if n == "Shapes.Circle"));
            assert!(matches!(args[1], TypeName::Int32));
        }
        other => panic!("unexpected {other:?}"),
    }
}

#[test]
fn generic_constraints_give_bounds_and_construction() {
    let mut reg = TypeRegistry::new();
    reg.generic_constraints.insert(
        key("T"),
        GenericParamConstraint { name: "T".to_string(), bounds: vec![TypeName::User("IShape".to_string())], require_new: true },
    );
    reg.generic_constraints.insert(
        key("U"),
        GenericParamConstraint { name: "U".to_string(), bounds: Vec::new(), require_new: false },
    );
    assert!(matches!(reg.bound_of("t"), Some(TypeName::User(n)) if n == "IShape"));
    assert!(reg.bound_of("U").is_none());
    assert!(reg.bound_of("V").is_none());
    assert!(reg.can_construct_generic("T"));
    assert!(!reg.can_construct_generic("U"));
    assert!(!reg.can_construct_generic("V"));
}

#[test]
fn registered_classes_are_found_by_any_case() {
    let mut reg = TypeRegistry::new();
    register_classes(&mut reg.classes);
    let collection = reg.get_class("collection").expect("built in");
    assert_eq!(collection.inheritance, ClassInheritance::Normal);
    assert!(reg.contains("Collection"));
}

#[test]
fn scalars_optionals_and_return_slots_agree_on_their_type() {
    let scalar = VarType::Scalar(Visibility::Private, TypeName::Int32);
    let optional = VarType::Optional(Visibility::Public, TypeName::Int32);
    let slot = VarType::FunctionReturn(TypeName::Int32);
    let other = VarType::Scalar(Visibility::Public, TypeName::String);
    assert!(scalar.same_var_type(&optional));
    assert!(slot.same_var_type(&scalar));
    assert!(!scalar.same_var_type(&other));
    assert!(!optional.same_var_type(&slot));
    let constant = VarType::Const(Visibility::Public, TypeName::Int32);
    assert!(!constant.same_var_type(&VarType::Const(Visibility::Private, TypeName::Int32)));
    assert!(constant.same_var_type(&VarType::Const(Visibility::Public, TypeName::Int32)));
    assert!(constant.is_const());
    assert_eq!(slot.visibility(), Visibility::Public);
    assert_eq!(scalar.visibility(), Visibility::Private);
    assert!(matches!(constant.scalar_type(), Some(TypeName::Int32)));
    assert!(VarType::Array(Visibility::Public, TypeName::Int32, true).scalar_type().is_none());
    assert!(VarType::Module("A".to_string()).same_var_type(&VarType::Module("A".to_string())));
    assert!(!VarType::Module("A".to_string()).same_var_type(&VarType::Module("a".to_string())));
}

#[test]
fn the_collection_members_are_keyed_by_their_lower_case_names() {
    let c = valo_semantics::builtin_types::collection();
    assert!(c.subs.get("add").is_some());
    assert!(c.subs.get("remove").is_some());
    assert!(c.properties.get("item").is_some());
    assert!(c.properties.get("count").is_some());
    assert!(c.subs.get("Add").is_none());
}
