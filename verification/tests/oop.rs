use valo_semantics::ast::{ClassDecl, ClassInheritance, ClassMember, ClassMethod, OverrideKind, Program, Stmt, Visibility};
use valo_semantics::diagnostics::{DiagnosticCode, Span};
use valo_semantics::oop::validate_oop_semantics;
use valo_semantics::type_model::TypeName;
use valo_semantics::types::TypeRegistry;

fn span(line: usize) -> Span {
    Span { line, column: 1 }
}

fn program(classes: Vec<ClassDecl>) -> Program {
    Program {
        namespace: None,
        types: Vec::new(),
        enums: Vec::new(),
        interfaces: Vec::new(),
        classes,
        procedures: Vec::new(),
        functions: Vec::new(),
        properties: Vec::new(),
        declares: Vec::new(),
        imports: Vec::new(),
        option_explicit: true,
    }
}

fn body_of(has_body: bool) -> Vec<Stmt> {
    if has_body { vec![Stmt::End { span: span(99) }] } else { Vec::new() }
}

fn method(name: &str, override_kind: OverrideKind, has_body: bool, line: usize) -> ClassMember {
    ClassMember::Sub(ClassMethod { name: name.to_string(), override_kind, body: body_of(has_body), span: span(line) })
}

fn function(name: &str, override_kind: OverrideKind, has_body: bool, line: usize) -> ClassMember {
    ClassMember::Function(ClassMethod { name: name.to_string(), override_kind, body: body_of(has_body), span: span(line) })
}

fn class(name: &str, inheritance: ClassInheritance, base: Option<&str>, members: Vec<ClassMember>) -> ClassDecl {
    ClassDecl {
        name: name.to_string(),
        visibility: Visibility::Public,
        inheritance,
        base_class: base.map(|b| TypeName::User(b.to_string())),
        members,
        span: span(1),
    }
}

fn shape() -> ClassDecl {
    class(
        "Shape",
        ClassInheritance::MustInherit,
        None,
        vec![function("Area", OverrideKind::MustOverride, false, 2), method("Draw", OverrideKind::Overridable, true, 3)],
    )
}

fn check(classes: Vec<ClassDecl>) -> Result<(), (DiagnosticCode, String, Option<Span>)> {
    validate_oop_semantics(&program(classes), &TypeRegistry::new()).map_err(|d| (d.code, d.message, d.span))
}

#[test]
fn overriding_every_must_override_member_is_accepted() {
    let circle = class(
        "Circle",
        ClassInheritance::Normal,
        Some("Shape"),
        vec![function("Area", OverrideKind::Overrides, true, 10), method("Draw", OverrideKind::Overrides, true, 11)],
    );
    assert_eq!(check(vec![shape(), circle]), Ok(()));
}

#[test]
fn an_unoverridden_must_override_member_is_named_in_lower_case() {
    let circle = class("Circle", ClassInheritance::Normal, Some("Shape"), vec![method("Draw", OverrideKind::Overrides, true, 11)]);
    assert_eq!(
        check(vec![shape(), circle]),
        Err((
            DiagnosticCode::TypeMismatch,
            "Class 'Circle' must override inherited MustOverride member 'area'".to_string(),
            Some(span(2)),
        ))
    );
}

#[test]
fn a_must_inherit_class_may_leave_members_open() {
    let solid = class("Solid", ClassInheritance::MustInherit, Some("Shape"), Vec::new());
    assert_eq!(check(vec![shape(), solid]), Ok(()));
}

#[test]
fn must_override_needs_a_must_inherit_class() {
    let shape = class("Shape", ClassInheritance::Normal, None, vec![function("Area", OverrideKind::MustOverride, false, 2)]);
    assert_eq!(
        check(vec![shape]),
        Err((
            DiagnosticCode::TypeMismatch,
            "MustOverride member 'Area' requires MustInherit class 'Shape'".to_string(),
            Some(span(2)),
        ))
    );
}

#[test]
fn must_override_cannot_have_a_body() {
    let shape =
        class("Shape", ClassInheritance::MustInherit, None, vec![function("Area", OverrideKind::MustOverride, true, 2)]);
    assert_eq!(
        check(vec![shape]),
        Err((DiagnosticCode::TypeMismatch, "MustOverride member 'Area' cannot have a body".to_string(), Some(span(2))))
    );
}

#[test]
fn overriding_needs_a_base_member() {
    let circle =
        class("Circle", ClassInheritance::Normal, Some("Shape"), vec![method("Resize", OverrideKind::Overrides, true, 12)]);
    let shape = class("Shape", ClassInheritance::Normal, None, Vec::new());
    assert_eq!(
        check(vec![shape, circle]),
        Err((
            DiagnosticCode::MemberAccess,
            "Method 'Resize' cannot override because no base member is defined".to_string(),
            Some(span(12)),
        ))
    );
}

#[test]
fn overriding_needs_an_overridable_base_member() {
    let shape = class("Shape", ClassInheritance::Normal, None, vec![method("Draw", OverrideKind::Plain, true, 3)]);
    let circle =
        class("Circle", ClassInheritance::Normal, Some("Shape"), vec![method("draw", OverrideKind::Overrides, true, 12)]);
    assert_eq!(
        check(vec![shape, circle]),
        Err((
            DiagnosticCode::MemberAccess,
            "Method 'draw' cannot override because the base member is not marked Overridable".to_string(),
            Some(span(12)),
        ))
    );
}

#[test]
fn shadowing_closes_an_inherited_must_override_member() {
    let circle = class("Circle", ClassInheritance::Normal, Some("shape"), vec![function("AREA", OverrideKind::Shadows, true, 10)]);
    assert_eq!(check(vec![shape(), circle]), Ok(()));
}

#[test]
fn an_intermediate_class_can_override_for_its_heirs() {
    let solid = class("Solid", ClassInheritance::MustInherit, Some("Shape"), vec![function("Area", OverrideKind::Overrides, true, 20)]);
    let cube = class("Cube", ClassInheritance::Normal, Some("Solid"), Vec::new());
    assert_eq!(check(vec![shape(), solid, cube]), Ok(()));
}

#[test]
fn a_requirement_passes_down_the_chain() {
    let solid = class("Solid", ClassInheritance::MustInherit, Some("Shape"), Vec::new());
    let cube = class("Cube", ClassInheritance::Normal, Some("Solid"), Vec::new());
    assert_eq!(
        check(vec![shape(), solid, cube]),
        Err((
            DiagnosticCode::TypeMismatch,
            "Class 'Cube' must override inherited MustOverride member 'area'".to_string(),
            Some(span(2)),
        ))
    );
}

#[test]
fn overriding_a_member_of_a_distant_base_is_accepted() {
    let solid = class("Solid", ClassInheritance::MustInherit, Some("Shape"), Vec::new());
    let cube = class(
        "Cube",
        ClassInheritance::Normal,
        Some("Solid"),
        vec![function("Area", OverrideKind::Overrides, true, 30), method("Draw", OverrideKind::Overrides, true, 31)],
    );
    assert_eq!(check(vec![shape(), solid, cube]), Ok(()));
}

#[test]
fn a_base_that_no_class_declares_contributes_nothing() {
    let circle = class("Circle", ClassInheritance::Normal, Some("Missing"), vec![method("Draw", OverrideKind::Plain, true, 3)]);
    assert_eq!(check(vec![circle]), Ok(()));
}
