use valo_semantics::ast::{BinaryOp, ConstDecl, EnumDecl, EnumMemberDecl, Expr, ExprKind, UnaryOp, Visibility};
use valo_semantics::constants::{collect_enum_members, collect_enums, ensure_const_expr, eval_enum_const_expr, module_const_values, register_enum};
use valo_semantics::diagnostics::{DiagnosticCode, Span};
use valo_semantics::name_map::NameMap;
use valo_semantics::symbols::VarType;
use valo_semantics::text::key;
use valo_semantics::type_model::TypeName;
use valo_semantics::types::{EnumSig, TypeRegistry, TypeSig};

fn at(line: usize, kind: ExprKind) -> Expr {
    Expr { kind, span: Span { line, column: 1 } }
}

fn var(line: usize, name: &str) -> Expr {
    at(line, ExprKind::Variable(name.to_string()))
}

fn registry() -> TypeRegistry {
    let mut members: NameMap<i64> = NameMap::new();
    members.insert(key("Red"), 0);
    members.insert(key("Green"), 1);
    let mut types = TypeRegistry::new();
    types.enums.insert(key("Color"), EnumSig { visibility: Visibility::Public, name: "Color".to_string(), members });
    types
}

fn symbols() -> NameMap<VarType> {
    let mut symbols: NameMap<VarType> = NameMap::new();
    symbols.insert(key("Limit"), VarType::Const(Visibility::Private, TypeName::Int32));
    symbols.insert(key("count"), VarType::Scalar(Visibility::Private, TypeName::Int32));
    symbols
}

#[test]
fn literals_constants_and_enum_members_are_constant() {
    let types = registry();
    let symbols = symbols();
    let sum = at(
        1,
        ExprKind::Binary {
            op: BinaryOp::Add,
            left: Box::new(var(1, "LIMIT")),
            right: Box::new(at(
                1,
                ExprKind::Unary { op: UnaryOp::Negate, expr: Box::new(at(1, ExprKind::Integer(3))) },
            )),
        },
    );
    assert!(ensure_const_expr(&sum, &symbols, &types).is_ok());
    assert!(ensure_const_expr(&var(2, "green"), &symbols, &types).is_ok());
    let qualified = at(3, ExprKind::MemberAccess { object: Box::new(var(3, "color")), field: "RED".to_string(), conditional: false });
    assert!(ensure_const_expr(&qualified, &symbols, &types).is_ok());
}

#[test]
fn the_first_non_constant_part_is_reported() {
    let types = registry();
    let symbols = symbols();
    let mixed = at(
        1,
        ExprKind::Binary {
            op: BinaryOp::Multiply,
            left: Box::new(var(4, "count")),
            right: Box::new(at(5, ExprKind::Call { name: "Now".to_string(), args: Vec::new() })),
        },
    );
    let err = ensure_const_expr(&mixed, &symbols, &types).expect_err("a variable is not constant");
    assert_eq!(err.code, DiagnosticCode::TypeMismatch);
    assert_eq!(err.message, "Const initializer must be a compile-time constant");
    assert_eq!(err.span, Some(Span { line: 4, column: 1 }));
    let missing = at(6, ExprKind::MemberAccess { object: Box::new(var(6, "Color")), field: "Blue".to_string(), conditional: false });
    assert_eq!(ensure_const_expr(&missing, &symbols, &types).unwrap_err().span, Some(Span { line: 6, column: 1 }));
    assert!(ensure_const_expr(&at(7, ExprKind::Nothing), &symbols, &types).is_err());
}

fn bin(op: BinaryOp, left: Expr, right: Expr) -> Expr {
    at(1, ExprKind::Binary { op, left: Box::new(left), right: Box::new(right) })
}

fn lit(v: i64) -> Expr {
    at(1, ExprKind::Integer(v))
}

#[test]
fn enum_values_are_computed_from_members_and_constants() {
    let mut members: NameMap<i64> = NameMap::new();
    members.insert(key("first"), 4);
    let mut consts: NameMap<i64> = NameMap::new();
    consts.insert(key("step"), 3);
    consts.insert(key("first"), 100);
    let e = bin(BinaryOp::Add, var(1, "FIRST"), bin(BinaryOp::Multiply, var(1, "Step"), lit(2)));
    assert_eq!(eval_enum_const_expr(&e, &members, &consts).unwrap(), 10);
    let neg = at(1, ExprKind::Unary { op: UnaryOp::Negate, expr: Box::new(lit(7)) });
    assert_eq!(eval_enum_const_expr(&bin(BinaryOp::Divide, neg, lit(2)), &members, &consts).unwrap(), -3);
    assert_eq!(eval_enum_const_expr(&bin(BinaryOp::Subtract, lit(1), lit(5)), &members, &consts).unwrap(), -4);
}

#[test]
fn enum_value_errors_are_reported() {
    let members: NameMap<i64> = NameMap::new();
    let consts: NameMap<i64> = NameMap::new();
    let err = eval_enum_const_expr(&var(3, "Missing"), &members, &consts).unwrap_err();
    assert_eq!(err.code, DiagnosticCode::UnknownName);
    assert_eq!(err.message, "Enum member 'Missing' is not defined");
    assert_eq!(err.span, Some(Span { line: 3, column: 1 }));
    let err = eval_enum_const_expr(&bin(BinaryOp::Divide, lit(1), lit(0)), &members, &consts).unwrap_err();
    assert_eq!(err.code, DiagnosticCode::Generic);
    assert_eq!(err.message, "Division by zero");
    let err = eval_enum_const_expr(&bin(BinaryOp::Concat, lit(1), lit(2)), &members, &consts).unwrap_err();
    assert_eq!(err.code, DiagnosticCode::TypeMismatch);
    assert_eq!(err.message, "Enum value expression must be numeric");
    let err = eval_enum_const_expr(&at(9, ExprKind::String("x".to_string())), &members, &consts).unwrap_err();
    assert_eq!(err.span, Some(Span { line: 9, column: 1 }));
}

fn member(name: &str, value: Option<Expr>, line: usize) -> EnumMemberDecl {
    EnumMemberDecl { name: name.to_string(), value, span: Span { line, column: 5 } }
}

fn colors(members: Vec<EnumMemberDecl>) -> EnumDecl {
    EnumDecl { name: "Color".to_string(), visibility: Visibility::Public, members, span: Span { line: 1, column: 1 } }
}

#[test]
fn enum_members_count_up_from_the_member_before() {
    let mut consts: NameMap<i64> = NameMap::new();
    consts.insert(key("Base"), 10);
    let decl = colors(vec![
        member("Red", None, 2),
        member("Green", None, 3),
        member("Blue", Some(var(4, "base")), 4),
        member("Cyan", None, 5),
        member("Dark", Some(at(6, ExprKind::Unary { op: UnaryOp::Negate, expr: Box::new(var(6, "GREEN")) })), 6),
        member("Darker", None, 7),
    ]);
    let members = collect_enum_members(&decl, &consts).unwrap();
    assert_eq!(members.get("red"), Some(&0));
    assert_eq!(members.get("green"), Some(&1));
    assert_eq!(members.get("blue"), Some(&10));
    assert_eq!(members.get("cyan"), Some(&11));
    assert_eq!(members.get("dark"), Some(&-1));
    assert_eq!(members.get("darker"), Some(&0));
    assert_eq!(members.len(), 6);
}

#[test]
fn an_enum_member_declared_twice_is_reported() {
    let consts: NameMap<i64> = NameMap::new();
    let decl = colors(vec![member("Red", None, 2), member("RED", Some(at(3, ExprKind::Integer(4))), 3)]);
    let d = collect_enum_members(&decl, &consts).unwrap_err();
    assert_eq!(d.code, DiagnosticCode::DuplicateDeclaration);
    assert_eq!(d.message, "Enum member 'RED' is already declared in Enum 'Color'");
    assert_eq!(d.span, Some(Span { line: 3, column: 5 }));
}

#[test]
fn an_enum_member_naming_a_later_member_is_reported() {
    let consts: NameMap<i64> = NameMap::new();
    let decl = colors(vec![member("Red", Some(var(2, "Green")), 2), member("Green", None, 3)]);
    let d = collect_enum_members(&decl, &consts).unwrap_err();
    assert_eq!(d.code, DiagnosticCode::UnknownName);
    assert_eq!(d.message, "Enum member 'Green' is not defined");
    let empty = colors(Vec::new());
    assert_eq!(collect_enum_members(&empty, &consts).unwrap().len(), 0);
}

#[test]
fn an_enum_is_registered_once_under_its_lower_case_name() {
    let consts: NameMap<i64> = NameMap::new();
    let types: NameMap<TypeSig> = NameMap::new();
    let mut enums: NameMap<EnumSig> = NameMap::new();
    let decl = colors(vec![member("Red", None, 2), member("Green", None, 3)]);
    assert!(register_enum(&decl, &consts, &types, &mut enums).is_ok());
    let sig = enums.get("color").unwrap();
    assert_eq!(sig.name, "Color");
    assert_eq!(sig.members.get("green"), Some(&1));
    let again = colors(Vec::new());
    let d = register_enum(&again, &consts, &types, &mut enums).unwrap_err();
    assert_eq!(d.code, DiagnosticCode::DuplicateDeclaration);
    assert_eq!(d.message, "Enum 'Color' is already defined");
    assert_eq!(enums.len(), 1);
}

#[test]
fn module_constants_settle_over_passes_and_unresolvable_ones_are_left_out() {
    let consts = vec![
        ConstDecl {
            name: "Total".to_string(),
            value: at(1, ExprKind::Binary {
                op: BinaryOp::Add,
                left: Box::new(var(1, "base")),
                right: Box::new(at(1, ExprKind::Integer(1))),
            }),
        },
        ConstDecl { name: "Base".to_string(), value: at(2, ExprKind::Integer(2)) },
        ConstDecl { name: "Broken".to_string(), value: var(3, "Nowhere") },
    ];
    let values = module_const_values(&consts);
    assert_eq!(values.get("base"), Some(&2));
    assert_eq!(values.get("total"), Some(&3));
    assert_eq!(values.get("broken"), None);
    assert_eq!(values.len(), 2);
    assert_eq!(module_const_values(&[]).len(), 0);
}

#[test]
fn the_enums_of_a_program_are_registered_in_order() {
    let mut consts: NameMap<i64> = NameMap::new();
    consts.insert(key("Start"), 5);
    let types: NameMap<TypeSig> = NameMap::new();
    let decls = vec![
        colors(vec![member("Red", Some(var(2, "start")), 2), member("Green", None, 3)]),
        EnumDecl {
            name: "Size".to_string(),
            visibility: Visibility::Private,
            members: vec![member("Small", None, 5)],
            span: Span { line: 4, column: 1 },
        },
    ];
    let enums = collect_enums(&decls, &consts, &types).unwrap();
    assert_eq!(enums.len(), 2);
    assert_eq!(enums.get("color").unwrap().members.get("green"), Some(&6));
    assert_eq!(enums.get("size").unwrap().members.get("small"), Some(&0));
    let twice = vec![colors(Vec::new()), EnumDecl {
        name: "COLOR".to_string(),
        visibility: Visibility::Public,
        members: Vec::new(),
        span: Span { line: 9, column: 1 },
    }];
    let d = collect_enums(&twice, &consts, &types).unwrap_err();
    assert_eq!(d.message, "Enum 'COLOR' is already defined");
    assert_eq!(d.span, Some(Span { line: 9, column: 1 }));
}
