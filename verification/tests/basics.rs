use valo_semantics::arithmetic::{signature, ArithmeticOp};
use valo_semantics::ast::{BinaryOp, FieldDecl, Program, TypeDecl, TypeKind, Visibility};
use valo_semantics::diagnostics::Span;
use valo_semantics::text::{eq_ignore_ascii_case, key, starts_with};
use valo_semantics::type_model::TypeName;
use valo_semantics::type_properties::{properties, KnownProperty, TypeProperties};
use valo_semantics::typed_hir::ComparisonOp;
use valo_semantics::validate::LoopContext;

#[test]
fn operators_map_to_arithmetic_and_comparisons() {
    assert_eq!(ArithmeticOp::from_ast(BinaryOp::Exponent), Some(ArithmeticOp::Power));
    assert_eq!(ArithmeticOp::from_ast(BinaryOp::Less), None);
    assert_eq!(ComparisonOp::from_ast(BinaryOp::LessEqual), Some(ComparisonOp::LessEqual));
    assert_eq!(ComparisonOp::from_ast(BinaryOp::Add), None);
}

fn operand(op: ArithmeticOp, left: TypeName, right: TypeName) -> Option<TypeName> {
    signature(op, &left, &right).map(|s| s.operand_type)
}

#[test]
fn arithmetic_is_carried_out_in_the_widest_operand_type() {
    assert!(matches!(operand(ArithmeticOp::Add, TypeName::Int16, TypeName::Int32), Some(TypeName::Int32)));
    assert!(matches!(operand(ArithmeticOp::Add, TypeName::Int32, TypeName::Int64), Some(TypeName::Int64)));
    assert!(matches!(operand(ArithmeticOp::Multiply, TypeName::Single, TypeName::Int64), Some(TypeName::Single)));
    assert!(matches!(operand(ArithmeticOp::Add, TypeName::Int32, TypeName::UInt32), Some(TypeName::Int64)));
    assert!(matches!(operand(ArithmeticOp::Add, TypeName::Byte, TypeName::UInt32), Some(TypeName::UInt32)));
    assert!(matches!(operand(ArithmeticOp::Divide, TypeName::Int32, TypeName::Int32), Some(TypeName::Double)));
    assert!(matches!(operand(ArithmeticOp::IntegerDivide, TypeName::Double, TypeName::Int32), Some(TypeName::Int64)));
    assert!(matches!(operand(ArithmeticOp::Add, TypeName::Decimal, TypeName::Int32), Some(TypeName::Double)));
    assert!(operand(ArithmeticOp::Add, TypeName::Int64, TypeName::UInt64).is_none());
    assert!(operand(ArithmeticOp::Add, TypeName::String, TypeName::Int32).is_none());
}

fn span() -> Span {
    Span { line: 1, column: 1 }
}

fn field(name: &str, ty: TypeName) -> FieldDecl {
    FieldDecl { name: name.to_string(), ty, array: None, visibility: Visibility::Public, span: span() }
}

fn program_with(types: Vec<TypeDecl>) -> Program {
    Program {
        namespace: None,
        types,
        enums: Vec::new(),
        interfaces: Vec::new(),
        classes: Vec::new(),
        procedures: Vec::new(),
        functions: Vec::new(),
        properties: Vec::new(),
        declares: Vec::new(),
        imports: Vec::new(),
        option_explicit: true,
    }
}

fn structure(name: &str, fields: Vec<FieldDecl>) -> TypeDecl {
    TypeDecl { name: name.to_string(), kind: TypeKind::Structure, visibility: Visibility::Public, fields, span: span() }
}

#[test]
fn properties_are_known_only_where_every_part_is_known() {
    let program = program_with(vec![
        structure("Point", vec![field("X", TypeName::Int32), field("Y", TypeName::Int32)]),
        structure("Named", vec![field("Name", TypeName::String), field("At", TypeName::User("point".to_string()))]),
        structure("Loop", vec![field("Next", TypeName::User("Loop".to_string()))]),
    ]);
    let plain = TypeProperties { copy: KnownProperty::Yes, requires_drop: KnownProperty::No };
    let unknown = TypeProperties { copy: KnownProperty::Unknown, requires_drop: KnownProperty::Unknown };
    assert_eq!(properties(&program, &TypeName::Int32), plain);
    assert_eq!(properties(&program, &TypeName::User("Point".to_string())), plain);
    assert_eq!(
        properties(&program, &TypeName::User("Named".to_string())),
        TypeProperties { copy: KnownProperty::Yes, requires_drop: KnownProperty::Yes }
    );
    assert_eq!(properties(&program, &TypeName::User("Loop".to_string())), unknown);
    assert_eq!(properties(&program, &TypeName::User("Missing".to_string())), unknown);
    assert_eq!(properties(&program, &TypeName::Variant), unknown);
}

#[test]
fn loop_depths_count_each_kind_of_loop() {
    let outer = LoopContext { for_depth: 0, while_depth: 0, do_depth: 0 };
    let inner = outer.in_for().in_do().in_for();
    assert_eq!(inner, LoopContext { for_depth: 2, while_depth: 0, do_depth: 1 });
    assert_eq!(inner.in_while().while_depth, 1);
}

#[test]
fn names_compare_without_ascii_case() {
    assert!(eq_ignore_ascii_case("Collection", "COLLECTION"));
    assert!(!eq_ignore_ascii_case("Collection", "Collections"));
    assert_eq!(key("Main.Point"), "main.point");
    assert!(starts_with("App.Widget", "App"));
    assert!(!starts_with("Ap", "App"));
}

#[test]
fn same_type_ignores_name_case_and_tuple_labels_both_ways() {
    let a = TypeName::Tuple(vec![(Some("x".to_string()), TypeName::User("Point".to_string())), (None, TypeName::Int32)]);
    let b = TypeName::Tuple(vec![(None, TypeName::User("POINT".to_string())), (Some("y".to_string()), TypeName::Int32)]);
    let c = TypeName::Tuple(vec![(None, TypeName::User("Point".to_string()))]);
    assert!(a.same_type(&b));
    assert!(b.same_type(&a));
    assert!(a.same_type(&a));
    assert!(!a.same_type(&c));
    assert!(!c.same_type(&a));
    let list = TypeName::GenericInstance { name: "List".to_string(), args: vec![TypeName::Int32] };
    let other = TypeName::GenericInstance { name: "list".to_string(), args: vec![TypeName::Int64] };
    assert!(!list.same_type(&other));
    assert!(!other.same_type(&list));
    assert!(TypeName::Array(Box::new(TypeName::Enum("Color".to_string())))
        .same_type(&TypeName::Array(Box::new(TypeName::Enum("color".to_string())))));
}

#[test]
fn nullable_is_transparent_and_no_type_is_known_not_copy() {
    let program = program_with(vec![
        structure("Point", vec![field("X", TypeName::Int32)]),
        structure("Empty", Vec::new()),
        structure("Named", vec![field("Name", TypeName::String), field("Any", TypeName::Variant)]),
    ]);
    for ty in [
        TypeName::Int32,
        TypeName::String,
        TypeName::Variant,
        TypeName::User("Point".to_string()),
        TypeName::User("Named".to_string()),
    ] {
        let wrapped = TypeName::Nullable(Box::new(match &ty {
            TypeName::User(n) => TypeName::User(n.clone()),
            TypeName::Int32 => TypeName::Int32,
            TypeName::String => TypeName::String,
            _ => TypeName::Variant,
        }));
        let p = properties(&program, &ty);
        assert_eq!(properties(&program, &wrapped), p);
        assert_ne!(p.copy, KnownProperty::No);
    }
    let plain = TypeProperties { copy: KnownProperty::Yes, requires_drop: KnownProperty::No };
    assert_eq!(properties(&program, &TypeName::User("Empty".to_string())), plain);
    assert_eq!(properties(&program, &TypeName::Tuple(Vec::new())), plain);
    assert_eq!(
        properties(&program, &TypeName::User("Named".to_string())),
        TypeProperties { copy: KnownProperty::Unknown, requires_drop: KnownProperty::Yes }
    );
}

#[test]
fn an_ascii_name_is_keyed_by_its_lowered_letters() {
    assert_eq!(key("Add"), "add");
    assert_ne!(key("Add"), key("Remove"));
    assert_eq!(key("My_Type2"), "my_type2");
}
