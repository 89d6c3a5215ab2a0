use valo_semantics::ast::{Parameter, PassingMode};
use valo_semantics::statements::add_parameters;
use valo_semantics::ast::Visibility;
use valo_semantics::builtin_types::class;
use valo_semantics::name_map::NameMap;
use valo_semantics::statements::{class_field_expr_type, class_field_object_type};
use valo_semantics::symbols::VarType;
use valo_semantics::text::key;
use valo_semantics::type_model::TypeName;
use valo_semantics::types::{ClassFieldSig, TypeRegistry};
use valo_semantics::ast::{
    AssignTarget, BinaryOp, CaseBranch, CaseItem, DoLoopCondition, ElseIfBranch, ExitTarget, Expr, ExprKind, Stmt,
    VarDecl,
};
use valo_semantics::context::Context;
use valo_semantics::diagnostics::Span;
use valo_semantics::statements::{assigns_to_name, expr_uses_with_target, stmt_span, stmt_uses_with_target};

fn span(line: usize) -> Span {
    Span { line, column: 1 }
}

fn e(kind: ExprKind) -> Expr {
    Expr { kind, span: span(1) }
}

fn var(name: &str) -> Expr {
    e(ExprKind::Variable(name.to_string()))
}

fn dot(member: &str) -> Expr {
    e(ExprKind::MemberAccess { object: Box::new(e(ExprKind::WithTarget)), field: member.to_string(), conditional: false })
}

fn assign(name: &str, value: Expr) -> Stmt {
    Stmt::Assign { target: AssignTarget::Variable { name: name.to_string() }, expr: value, span: span(2) }
}

#[test]
fn a_dot_access_anywhere_in_an_expression_uses_the_with_object() {
    let ctx = Context::Sub { is_async: false };
    assert!(expr_uses_with_target(&dot("Name"), &ctx));
    let nested = e(ExprKind::Binary {
        op: BinaryOp::Add,
        left: Box::new(var("x")),
        right: Box::new(e(ExprKind::Call { name: "Len".to_string(), args: vec![var("y"), dot("Count")] })),
    });
    assert!(expr_uses_with_target(&nested, &ctx));
    let plain = e(ExprKind::Call { name: "Len".to_string(), args: vec![var("y")] });
    assert!(!expr_uses_with_target(&plain, &ctx));
}

#[test]
fn a_dot_access_in_a_nested_statement_is_found() {
    let ctx = Context::Sub { is_async: false };
    let stmt = Stmt::If {
        condition: var("ok"),
        then_body: vec![assign("x", var("y"))],
        elseif_branches: vec![ElseIfBranch { condition: var("other"), body: vec![assign("x", dot("Width"))] }],
        else_body: Vec::new(),
        span: span(3),
    };
    assert!(stmt_uses_with_target(&stmt, &ctx));
    let select = Stmt::SelectCase {
        subject: var("k"),
        branches: vec![CaseBranch { items: vec![CaseItem::Range { start: var("a"), end: dot("Max") }], body: Vec::new() }],
        else_body: Vec::new(),
        span: span(4),
    };
    assert!(stmt_uses_with_target(&select, &ctx));
    let dims = Stmt::DimMany {
        decls: vec![VarDecl { name: "a".to_string(), initializer: None }, VarDecl {
            name: "b".to_string(),
            initializer: Some(dot("Size")),
        }],
        span: span(5),
    };
    assert!(stmt_uses_with_target(&dims, &ctx));
    let quiet = Stmt::DoLoop { condition: DoLoopCondition::PreWhile(var("go")), body: vec![assign("x", var("y"))], span: span(6) };
    assert!(!stmt_uses_with_target(&quiet, &ctx));
}

#[test]
fn a_nested_with_counts_only_by_its_target() {
    let ctx = Context::Sub { is_async: false };
    let inner = Stmt::With { target: var("shape"), body: vec![assign("x", dot("Width"))], span: span(7) };
    assert!(!stmt_uses_with_target(&inner, &ctx));
    let outer = Stmt::With { target: dot("Child"), body: Vec::new(), span: span(8) };
    assert!(stmt_uses_with_target(&outer, &ctx));
}

#[test]
fn every_statement_reports_its_own_place() {
    let ctx = Context::Sub { is_async: false };
    assert_eq!(stmt_span(&assign("x", var("y")), &ctx), span(2));
    assert_eq!(stmt_span(&Stmt::Exit { target: ExitTarget::Sub, span: span(9) }, &ctx), span(9));
    assert_eq!(stmt_span(&Stmt::End { span: span(10) }, &ctx), span(10));
}

#[test]
fn an_assignment_to_the_name_is_found_in_nested_blocks() {
    let body = vec![
        assign("total", var("y")),
        Stmt::For {
            variable: "i".to_string(),
            start: var("a"),
            end: var("b"),
            step: None,
            body: vec![Stmt::While { condition: var("c"), body: vec![assign("RESULT", var("i"))], span: span(3) }],
            span: span(4),
        },
    ];
    assert!(assigns_to_name(&body, "Result"));
    assert!(assigns_to_name(&body, "TOTAL"));
    assert!(!assigns_to_name(&body, "i"));
    let in_else = vec![Stmt::If {
        condition: var("c"),
        then_body: Vec::new(),
        elseif_branches: Vec::new(),
        else_body: vec![Stmt::SetAssign {
            target: AssignTarget::Variable { name: "Make".to_string() },
            expr: var("o"),
            span: span(5),
        }],
        span: span(6),
    }];
    assert!(assigns_to_name(&in_else, "make"));
    let member = vec![Stmt::Assign {
        target: AssignTarget::Member { object: var("o"), member: "Make".to_string() },
        expr: var("v"),
        span: span(7),
    }];
    assert!(!assigns_to_name(&member, "Make"));
}

#[test]
fn a_bare_name_reaches_a_field_of_the_current_class_unless_shadowed() {
    let mut widget = class("Widget");
    widget.fields.insert(
        key("Width"),
        ClassFieldSig { visibility: Visibility::Private, is_shared: false, with_events: false, ty: TypeName::Int32, array: None },
    );
    let mut types = TypeRegistry::new();
    types.classes.insert(key("Widget"), widget);
    let method = Context::MethodSub { class_name: "widget".to_string(), is_async: false };
    let mut symbols: NameMap<VarType> = NameMap::new();
    assert!(matches!(class_field_object_type(&var("WIDTH"), &symbols, &types, &method), Some(TypeName::Int32)));
    assert!(matches!(class_field_expr_type(&var("width"), &symbols, &types, &method), Some(TypeName::Int32)));
    assert!(class_field_object_type(&var("Height"), &symbols, &types, &method).is_none());
    assert!(class_field_object_type(&dot("Width"), &symbols, &types, &method).is_none());
    let sub = Context::Sub { is_async: false };
    assert!(class_field_object_type(&var("Width"), &symbols, &types, &sub).is_none());
    symbols.insert(key("width"), VarType::Scalar(Visibility::Private, TypeName::String));
    assert!(class_field_object_type(&var("Width"), &symbols, &types, &method).is_none());
}

fn parameter(name: &str, ty: TypeName, is_optional: bool, is_param_array: bool, line: usize) -> Parameter {
    Parameter { name: name.to_string(), ty, mode: PassingMode::ByVal, is_optional, is_param_array, span: span(line) }
}

#[test]
fn parameters_are_declared_in_the_scope_by_kind() {
    let mut symbols: NameMap<VarType> = NameMap::new();
    symbols.insert(key("total"), VarType::Scalar(Visibility::Private, TypeName::Int64));
    let params = vec![
        parameter("Count", TypeName::Int32, false, false, 1),
        parameter("Label", TypeName::String, true, false, 2),
        parameter("Rest", TypeName::Variant, false, true, 3),
    ];
    assert!(add_parameters(&params, &mut symbols).is_ok());
    assert!(matches!(symbols.get("count"), Some(VarType::Scalar(Visibility::Public, TypeName::Int32))));
    assert!(matches!(symbols.get("label"), Some(VarType::Optional(Visibility::Public, TypeName::String))));
    assert!(matches!(symbols.get("rest"), Some(VarType::Array(Visibility::Public, TypeName::Variant, true))));
    assert!(matches!(symbols.get("total"), Some(VarType::Scalar(Visibility::Private, TypeName::Int64))));
}

#[test]
fn a_parameter_name_already_taken_is_reported() {
    let mut symbols: NameMap<VarType> = NameMap::new();
    let params = vec![parameter("a", TypeName::Int32, false, false, 1), parameter("A", TypeName::Int32, false, false, 2)];
    let err = add_parameters(&params, &mut symbols).unwrap_err();
    assert_eq!(err.message, "Parameter 'A' is already declared");
    assert_eq!(err.span, Some(span(2)));
    assert!(symbols.get("a").is_some());
    let mut module: NameMap<VarType> = NameMap::new();
    module.insert(key("limit"), VarType::Const(Visibility::Public, TypeName::Int32));
    let err = add_parameters(&[parameter("Limit", TypeName::Int32, false, false, 4)], &mut module).unwrap_err();
    assert_eq!(err.message, "Parameter 'Limit' is already declared");
}
