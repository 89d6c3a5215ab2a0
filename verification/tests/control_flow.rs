use valo_semantics::ast::{ContinueTarget, ExitTarget, OnErrorMode, ResumeTarget, Stmt};
use valo_semantics::context::Context;
use valo_semantics::control_flow::{validate_continue, validate_exit, validate_labels};
use valo_semantics::diagnostics::{DiagnosticCode, Span};
use valo_semantics::validate::LoopContext;

fn span(line: usize) -> Span {
    Span { line, column: 1 }
}

fn outside() -> LoopContext {
    LoopContext { for_depth: 0, while_depth: 0, do_depth: 0 }
}

#[test]
fn exit_sub_needs_a_sub() {
    let sub = Context::Sub { is_async: false };
    assert!(validate_exit(ExitTarget::Sub, span(1), &sub, outside()).is_ok());
    let setter = Context::PropertyLetSet { class_name: "Shape".to_string() };
    assert!(validate_exit(ExitTarget::Property, span(1), &setter, outside()).is_ok());
    let err = validate_exit(ExitTarget::Sub, span(3), &setter, outside()).expect_err("not in a Sub");
    assert_eq!(err.code, DiagnosticCode::ControlFlow);
    assert_eq!(err.message, "Exit Sub is only valid inside Sub");
    assert_eq!(err.span, Some(span(3)));
    assert_eq!(err.label.as_deref(), Some("invalid Exit Sub"));
    assert_eq!(err.help.as_deref(), Some("use Exit Sub only inside a Sub body"));
    let err = validate_exit(ExitTarget::Function, span(3), &setter, outside()).expect_err("not in a Function");
    assert_eq!(err.message, "Exit Function is only valid inside Function");
    let sub = Context::Sub { is_async: false };
    let err = validate_exit(ExitTarget::Property, span(3), &sub, outside()).expect_err("not in a Property");
    assert_eq!(err.help.as_deref(), Some("use Exit Property only inside a Property Get, Let, or Set body"));
}

#[test]
fn exit_from_a_loop_needs_a_loop_of_its_kind() {
    let sub = Context::Sub { is_async: false };
    let in_for = outside().in_for();
    assert!(validate_exit(ExitTarget::For, span(1), &sub, in_for).is_ok());
    let err = validate_exit(ExitTarget::Do, span(2), &sub, in_for).expect_err("no Do loop");
    assert_eq!(err.message, "Exit Do is only valid inside Do");
    assert_eq!(err.label.as_deref(), Some("invalid Exit Do"));
    assert_eq!(err.help, None);
}

#[test]
fn continue_needs_a_loop_of_its_kind() {
    let in_while = outside().in_while();
    assert!(validate_continue(ContinueTarget::While, span(1), in_while).is_ok());
    let err = validate_continue(ContinueTarget::For, span(5), in_while).expect_err("no For loop");
    assert_eq!(err.code, DiagnosticCode::ControlFlow);
    assert_eq!(err.message, "Continue For is only valid inside For");
    assert_eq!(err.label.as_deref(), Some("invalid Continue For"));
    assert_eq!(err.span, Some(span(5)));
}

#[test]
fn jumps_to_declared_labels_are_accepted() {
    let sub = Context::Sub { is_async: false };
    let body = vec![
        Stmt::OnError { mode: OnErrorMode::GoToLabel("Handler".to_string()), span: span(1) },
        Stmt::GoTo { label: "done".to_string(), span: span(2) },
        Stmt::Label { name: "Handler".to_string(), span: span(3) },
        Stmt::Resume { target: ResumeTarget::Label("Done".to_string()), span: span(4) },
        Stmt::Resume { target: ResumeTarget::Next, span: span(5) },
        Stmt::Label { name: "Done".to_string(), span: span(6) },
        Stmt::End { span: span(7) },
    ];
    assert!(validate_labels(&body, &sub).is_ok());
}

#[test]
fn a_label_declared_twice_is_reported_before_any_jump() {
    let sub = Context::Sub { is_async: false };
    let body = vec![
        Stmt::GoTo { label: "Nowhere".to_string(), span: span(1) },
        Stmt::Label { name: "Again".to_string(), span: span(2) },
        Stmt::Label { name: "AGAIN".to_string(), span: span(3) },
    ];
    let err = validate_labels(&body, &sub).expect_err("duplicate label");
    assert_eq!(err.code, DiagnosticCode::DuplicateDeclaration);
    assert_eq!(err.message, "Label 'AGAIN' is already declared");
    assert_eq!(err.span, Some(span(3)));
}

#[test]
fn a_jump_to_an_undeclared_label_is_reported() {
    let sub = Context::Sub { is_async: false };
    let body = vec![
        Stmt::Label { name: "Start".to_string(), span: span(1) },
        Stmt::Resume { target: ResumeTarget::Label("Retry".to_string()), span: span(2) },
    ];
    let err = validate_labels(&body, &sub).expect_err("undeclared label");
    assert_eq!(err.code, DiagnosticCode::UnknownName);
    assert_eq!(err.message, "Label 'Retry' is not declared");
    assert_eq!(err.span, Some(span(2)));
}
