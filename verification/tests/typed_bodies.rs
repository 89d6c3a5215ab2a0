use valo_semantics::debug_hir::format_ownership_report;
use valo_semantics::diagnostics::{DiagnosticCode, Span};
use valo_semantics::ownership::{analyze_body, check_body};
use valo_semantics::type_model::TypeName;
use valo_semantics::type_properties::{KnownProperty, TypeProperties};
use valo_semantics::typed_hir::{
    BodyFunctionId, CleanupStep, Constant, DisposeMethodId, Expression, ExpressionKind, IndexProjection, InitialState,
    Local, LocalId, LocalStorage, Place, PlaceOverlap, Projection, Scope, ScopeCleanup, ScopeId, Statement, TypedBody,
    ValueCategory,
};
use valo_semantics::verify_hir::verify_body;

fn span() -> Span {
    Span { line: 1, column: 1 }
}

fn int_local(id: usize, name: &str, scope: usize) -> Local {
    Local {
        id: LocalId(id),
        name: name.to_string(),
        ty: TypeName::Int32,
        properties: TypeProperties { copy: KnownProperty::Yes, requires_drop: KnownProperty::No },
        parameter_index: None,
        storage: LocalStorage::Value,
        initial_state: InitialState::Uninitialized,
        scope: ScopeId(scope),
        span: span(),
    }
}

fn scope(id: usize, parent: Option<usize>, locals: Vec<usize>) -> Scope {
    Scope {
        id: ScopeId(id),
        parent: parent.map(ScopeId),
        locals: locals.into_iter().map(LocalId).collect(),
        cleanup: Vec::new(),
        span: span(),
    }
}

fn int_const(value: i64) -> Expression {
    Expression {
        kind: ExpressionKind::Constant(Constant::Integer(value)),
        ty: TypeName::Int32,
        category: ValueCategory::Value,
        span: span(),
    }
}

fn bool_const(value: bool) -> Expression {
    Expression {
        kind: ExpressionKind::Constant(Constant::Boolean(value)),
        ty: TypeName::Boolean,
        category: ValueCategory::Value,
        span: span(),
    }
}

fn place(local: usize) -> Expression {
    Expression {
        kind: ExpressionKind::Place(Place::local(LocalId(local))),
        ty: TypeName::Int32,
        category: ValueCategory::Place,
        span: span(),
    }
}

fn load(local: usize) -> Expression {
    Expression {
        kind: ExpressionKind::Load(Box::new(place(local))),
        ty: TypeName::Int32,
        category: ValueCategory::Value,
        span: span(),
    }
}

fn return_void(exited: Vec<usize>) -> Statement {
    Statement::ReturnVoid {
        exited_scopes: exited.into_iter().map(ScopeId).collect(),
        cleanup_chain: Vec::new(),
        span: span(),
    }
}

fn body(return_type: TypeName, locals: Vec<Local>, scopes: Vec<Scope>, statements: Vec<Statement>) -> TypedBody {
    TypedBody {
        function: BodyFunctionId(0),
        name: "Main".to_string(),
        symbol_name: "Main()".to_string(),
        return_type,
        locals,
        structures: Vec::new(),
        classes: Vec::new(),
        fields: Vec::new(),
        disposers: Vec::new(),
        scopes,
        root_scope: ScopeId(0),
        statements,
        span: span(),
    }
}

fn simple_body() -> TypedBody {
    body(
        TypeName::Void,
        vec![int_local(0, "x", 0)],
        vec![scope(0, None, vec![0])],
        vec![Statement::Initialize { target: LocalId(0), value: int_const(1), span: span() }, return_void(vec![0])],
    )
}

#[test]
fn a_well_formed_body_verifies_and_its_exit_keeps_the_local() {
    let b = simple_body();
    assert!(verify_body(&b).is_ok());
    let report = analyze_body(&b).expect("the body is analysable");
    assert_eq!(format_ownership_report(&report), "exit Return [0]:\n  local #0: NoDrop\n");
}

#[test]
fn an_overwriting_store_reports_the_old_value() {
    let b = body(
        TypeName::Void,
        vec![int_local(0, "x", 0)],
        vec![scope(0, None, vec![0])],
        vec![
            Statement::Initialize { target: LocalId(0), value: int_const(1), span: span() },
            Statement::Store { target: Box::new(place(0)), value: int_const(2), span: span() },
            return_void(vec![0]),
        ],
    );
    assert!(verify_body(&b).is_ok());
    let report = analyze_body(&b).expect("the body is analysable");
    assert_eq!(
        format_ownership_report(&report),
        "replace local #0: old NoDrop\nexit Return [0]:\n  local #0: NoDrop\n"
    );
}

#[test]
fn each_branch_leaves_its_own_scope() {
    let b = body(
        TypeName::Void,
        Vec::new(),
        vec![scope(0, None, Vec::new()), scope(1, Some(0), Vec::new()), scope(2, Some(0), Vec::new())],
        vec![
            Statement::If {
                condition: bool_const(true),
                then_scope: ScopeId(1),
                then_body: Vec::new(),
                else_scope: ScopeId(2),
                else_body: Vec::new(),
                span: span(),
            },
            return_void(vec![0]),
        ],
    );
    assert!(verify_body(&b).is_ok());
    let report = analyze_body(&b).expect("the body is analysable");
    assert_eq!(format_ownership_report(&report), "exit Normal [1]:\nexit Normal [2]:\nexit Return [0]:\n");
}

#[test]
fn a_read_before_initialization_is_rejected() {
    let b = body(
        TypeName::Int32,
        vec![int_local(0, "x", 0)],
        vec![scope(0, None, vec![0])],
        vec![Statement::Return {
            value: load(0),
            exited_scopes: vec![ScopeId(0)],
            cleanup_chain: Vec::new(),
            span: span(),
        }],
    );
    assert!(verify_body(&b).is_ok());
    let error = check_body(&b).unwrap_err();
    assert_eq!(error.message, "'x' is used before initialization");
    assert_eq!(error.code, DiagnosticCode::TypeMismatch);
}

#[test]
fn duplicated_structures_are_rejected() {
    let mut b = simple_body();
    b.structures = vec![TypeName::User("Point".to_string()), TypeName::User("POINT".to_string())];
    assert_eq!(verify_body(&b).unwrap_err().message, "HIR Structure identity is invalid or duplicated");
}

#[test]
fn a_scope_that_no_statement_enters_is_unreachable() {
    let mut b = simple_body();
    b.scopes.push(scope(1, Some(0), Vec::new()));
    assert_eq!(verify_body(&b).unwrap_err().message, "HIR contains an unreachable scope");
}

#[test]
fn a_body_without_scopes_has_no_root() {
    let mut b = simple_body();
    b.scopes.clear();
    assert_eq!(verify_body(&b).unwrap_err().message, "HIR has no root scope");
}

#[test]
fn a_return_must_leave_every_enclosing_scope() {
    let b = body(TypeName::Void, Vec::new(), vec![scope(0, None, Vec::new())], vec![return_void(Vec::new())]);
    assert_eq!(verify_body(&b).unwrap_err().message, "Return has incorrect scope exits");
}

#[test]
fn a_void_return_in_a_function_is_rejected() {
    let b = body(TypeName::Int32, Vec::new(), vec![scope(0, None, Vec::new())], vec![return_void(vec![0])]);
    assert_eq!(verify_body(&b).unwrap_err().message, "Void return in a value-returning function");
}

#[test]
fn a_local_of_one_branch_is_not_visible_in_the_other() {
    let b = body(
        TypeName::Void,
        vec![int_local(0, "y", 1)],
        vec![scope(0, None, Vec::new()), scope(1, Some(0), vec![0]), scope(2, Some(0), Vec::new())],
        vec![Statement::If {
            condition: bool_const(true),
            then_scope: ScopeId(1),
            then_body: vec![Statement::Initialize { target: LocalId(0), value: int_const(1), span: span() }],
            else_scope: ScopeId(2),
            else_body: vec![Statement::Store { target: Box::new(place(0)), value: int_const(2), span: span() }],
            span: span(),
        }],
    );
    assert_eq!(verify_body(&b).unwrap_err().message, "Local is referenced outside its lexical scope");
}

#[test]
fn an_initializer_must_match_its_local() {
    let b = body(
        TypeName::Void,
        vec![int_local(0, "x", 0)],
        vec![scope(0, None, vec![0])],
        vec![Statement::Initialize { target: LocalId(0), value: bool_const(true), span: span() }],
    );
    assert_eq!(verify_body(&b).unwrap_err().message, "Initializer type does not match its local");
}

#[test]
fn a_condition_must_be_boolean() {
    let b = body(
        TypeName::Void,
        Vec::new(),
        vec![scope(0, None, Vec::new()), scope(1, Some(0), Vec::new()), scope(2, Some(0), Vec::new())],
        vec![Statement::If {
            condition: int_const(1),
            then_scope: ScopeId(1),
            then_body: Vec::new(),
            else_scope: ScopeId(2),
            else_body: Vec::new(),
            span: span(),
        }],
    );
    assert_eq!(verify_body(&b).unwrap_err().message, "Branch or loop condition is not Boolean");
}

#[test]
fn cleanup_runs_innermost_scope_first_and_newest_handler_first() {
    let mut b = simple_body();
    b.scopes.push(scope(1, Some(0), Vec::new()));
    b.scopes[1].cleanup = vec![
        ScopeCleanup::ExplicitDispose { resource: LocalId(0), method: DisposeMethodId(0) },
        ScopeCleanup::FinallyRegion { finally_scope: ScopeId(2) },
    ];
    b.scopes[0].cleanup = vec![ScopeCleanup::FinallyRegion { finally_scope: ScopeId(3) }];
    let chain = b.cleanup_chain(&[ScopeId(1), ScopeId(0)]);
    assert_eq!(
        chain,
        vec![
            CleanupStep { owner: ScopeId(1), action: ScopeCleanup::FinallyRegion { finally_scope: ScopeId(2) } },
            CleanupStep {
                owner: ScopeId(1),
                action: ScopeCleanup::ExplicitDispose { resource: LocalId(0), method: DisposeMethodId(0) },
            },
            CleanupStep { owner: ScopeId(0), action: ScopeCleanup::FinallyRegion { finally_scope: ScopeId(3) } },
        ]
    );
    assert_eq!(b.owned_exit_locals(&[ScopeId(1), ScopeId(0)]), vec![LocalId(0)]);
    assert_eq!(b.exit_drop_requirements(&[ScopeId(0)]), vec![(LocalId(0), KnownProperty::No)]);
}

fn indexed(root: usize, index: i64) -> Place {
    Place {
        root: LocalId(root),
        projections: vec![Projection::Index(IndexProjection {
            index: Box::new(int_const(index)),
            element_type: TypeName::Int32,
        })],
    }
}

#[test]
fn places_overlap_only_where_they_can_share_storage() {
    assert_eq!(Place::local(LocalId(0)).overlap(&Place::local(LocalId(1))), PlaceOverlap::Disjoint);
    assert_eq!(Place::local(LocalId(0)).overlap(&indexed(0, 1)), PlaceOverlap::Overlap);
    assert_eq!(indexed(0, 1).overlap(&indexed(0, 2)), PlaceOverlap::Disjoint);
    assert_eq!(indexed(0, 1).overlap(&indexed(0, 1)), PlaceOverlap::Overlap);
    let unknown = Place {
        root: LocalId(0),
        projections: vec![Projection::Index(IndexProjection { index: Box::new(load(1)), element_type: TypeName::Int32 })],
    };
    assert_eq!(unknown.overlap(&indexed(0, 1)), PlaceOverlap::Unknown);
    let field = Place { root: LocalId(0), projections: vec![Projection::TupleField(0)] };
    let other = Place { root: LocalId(0), projections: vec![Projection::TupleField(1)] };
    assert_eq!(field.overlap(&other), PlaceOverlap::Disjoint);
}

#[test]
fn the_chain_of_joined_scope_lists_is_the_joined_chains() {
    let mut b = simple_body();
    b.scopes.push(scope(1, Some(0), Vec::new()));
    b.scopes[1].cleanup = vec![
        ScopeCleanup::ExplicitDispose { resource: LocalId(0), method: DisposeMethodId(0) },
        ScopeCleanup::FinallyRegion { finally_scope: ScopeId(2) },
    ];
    b.scopes[0].cleanup = vec![ScopeCleanup::FinallyRegion { finally_scope: ScopeId(3) }];
    let mut joined = b.cleanup_chain(&[ScopeId(1)]);
    joined.extend(b.cleanup_chain(&[ScopeId(0), ScopeId(1)]));
    assert_eq!(b.cleanup_chain(&[ScopeId(1), ScopeId(0), ScopeId(1)]), joined);
}

#[test]
fn overlap_does_not_depend_on_the_order_of_the_places() {
    let a = indexed(0, 1);
    let b = indexed(0, 2);
    assert_eq!(a.overlap(&b), b.overlap(&a));
    assert_eq!(a.overlap(&Place::local(LocalId(0))), Place::local(LocalId(0)).overlap(&a));
}
