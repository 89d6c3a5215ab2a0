//! Where `Exit`, `Continue`, labels and jumps may stand: an `Exit` or
//! `Continue` needs an enclosing body or loop of its kind, a label is
//! declared once per body, and every jump names a declared label.
use vstd::prelude::*;

use crate::ast::{ContinueTarget, ExitTarget, OnErrorMode, ResumeTarget, Stmt};
use crate::context::Context;
use crate::diagnostics::{Diagnostic, DiagnosticCode, Span};
use crate::name_map::NameMap;
use crate::text::{key, lowercase, push_str};
use crate::validate::LoopContext;

verus! {

/// Why a control-flow statement is rejected: its message, the note at its
/// place, and the help text if it has one.
pub struct FlowFailure {
    pub message: Seq<char>,
    pub label: Seq<char>,
    pub help: Option<Seq<char>>,
}

/// Whether a diagnostic reports a control-flow failure at a place.
pub open spec fn reports_flow(d: Diagnostic, f: FlowFailure, span: Span) -> bool {
    &&& d.code == DiagnosticCode::ControlFlow
    &&& d.message@ == f.message
    &&& d.span == Some(span)
    &&& d.label matches Some(l) && l@ == f.label
    &&& match f.help {
        Some(h) => d.help matches Some(x) && x@ == h,
        None => d.help is None,
    }
}

/// The keyword a loop kind is written with.
pub open spec fn loop_keyword(t: ContinueTarget) -> Seq<char> {
    match t {
        ContinueTarget::For => "For"@,
        ContinueTarget::While => "While"@,
        ContinueTarget::Do => "Do"@,
    }
}

/// Whether the statement stands inside a loop of the kind.
pub open spec fn inside_loop(t: ContinueTarget, lc: LoopContext) -> bool {
    match t {
        ContinueTarget::For => lc.for_depth > 0,
        ContinueTarget::While => lc.while_depth > 0,
        ContinueTarget::Do => lc.do_depth > 0,
    }
}

/// Why a `Continue` is rejected, if it is: it needs a loop of its kind.
pub open spec fn continue_failure(t: ContinueTarget, lc: LoopContext) -> Option<FlowFailure> {
    if inside_loop(t, lc) {
        None
    } else {
        let k = loop_keyword(t);
        Some(
            FlowFailure {
                message: "Continue "@ + k + " is only valid inside "@ + k,
                label: "invalid Continue "@ + k,
                help: None,
            },
        )
    }
}

/// Why an `Exit` is rejected, if it is: `Exit Sub`, `Exit Function` and
/// `Exit Property` need a body of that kind, `Exit For`, `Exit While` and
/// `Exit Do` a loop of that kind.
pub open spec fn exit_failure(t: ExitTarget, c: Context, lc: LoopContext) -> Option<FlowFailure> {
    match t {
        ExitTarget::Sub => if c is Sub || c is MethodSub {
            None
        } else {
            Some(
                FlowFailure {
                    message: "Exit Sub is only valid inside Sub"@,
                    label: "invalid Exit Sub"@,
                    help: Some("use Exit Sub only inside a Sub body"@),
                },
            )
        },
        ExitTarget::Function => if c is Function || c is MethodFunction {
            None
        } else {
            Some(
                FlowFailure {
                    message: "Exit Function is only valid inside Function"@,
                    label: "invalid Exit Function"@,
                    help: Some("use Exit Function only inside a Function body"@),
                },
            )
        },
        ExitTarget::Property => if c is PropertyGet || c is PropertyLetSet {
            None
        } else {
            Some(
                FlowFailure {
                    message: "Exit Property is only valid inside Property"@,
                    label: "invalid Exit Property"@,
                    help: Some("use Exit Property only inside a Property Get, Let, or Set body"@),
                },
            )
        },
        ExitTarget::For => continue_exit(ContinueTarget::For, lc),
        ExitTarget::While => continue_exit(ContinueTarget::While, lc),
        ExitTarget::Do => continue_exit(ContinueTarget::Do, lc),
    }
}

/// Why an `Exit` from a loop is rejected, if it is.
pub open spec fn continue_exit(t: ContinueTarget, lc: LoopContext) -> Option<FlowFailure> {
    if inside_loop(t, lc) {
        None
    } else {
        let k = loop_keyword(t);
        Some(FlowFailure { message: "Exit "@ + k + " is only valid inside "@ + k, label: "invalid Exit "@ + k, help: None })
    }
}

fn keyword(t: ContinueTarget) -> (r: &'static str)
    ensures
        r@ == loop_keyword(t),
{
    match t {
        ContinueTarget::For => "For",
        ContinueTarget::While => "While",
        ContinueTarget::Do => "Do",
    }
}

fn in_loop(t: ContinueTarget, lc: LoopContext) -> (r: bool)
    ensures
        r == inside_loop(t, lc),
{
    match t {
        ContinueTarget::For => lc.for_depth > 0,
        ContinueTarget::While => lc.while_depth > 0,
        ContinueTarget::Do => lc.do_depth > 0,
    }
}

/// The diagnostic for a rejected control-flow statement.
fn flow_error(message: String, label: String, span: Span) -> (d: Diagnostic)
    ensures
        d.code == DiagnosticCode::ControlFlow,
        d.message@ == message@,
        d.span == Some(span),
        d.label matches Some(l) && l@ == label@,
        d.help is None,
{
    Diagnostic::new(DiagnosticCode::ControlFlow, message, Some(span)).with_primary_label(label)
}

/// `head`, the loop keyword, `middle`, the keyword again: and the note
/// `note` followed by the keyword.
fn loop_error(head: &str, middle: &str, note: &str, t: ContinueTarget, span: Span) -> (d: Diagnostic)
    ensures
        d.code == DiagnosticCode::ControlFlow,
        d.message@ == head@ + loop_keyword(t) + middle@ + loop_keyword(t),
        d.span == Some(span),
        d.label matches Some(l) && l@ == note@ + loop_keyword(t),
        d.help is None,
{
    let k = keyword(t);
    let mut message = String::new();
    push_str(&mut message, head);
    push_str(&mut message, k);
    push_str(&mut message, middle);
    push_str(&mut message, k);
    let mut label = String::new();
    push_str(&mut label, note);
    push_str(&mut label, k);
    flow_error(message, label, span)
}

/// Checks that a `Continue` stands inside a loop of its kind.
pub fn validate_continue(target: ContinueTarget, span: Span, loop_context: LoopContext) -> (r: Result<(), Diagnostic>)
    ensures
        match continue_failure(target, loop_context) {
            Some(f) => r matches Err(d) && reports_flow(d, f, span),
            None => r is Ok,
        },
{
    if in_loop(target, loop_context) {
        return Ok(());
    }
    Err(loop_error("Continue ", " is only valid inside ", "invalid Continue ", target, span))
}

/// The diagnostic for an `Exit` that leaves a kind of body it is not in.
fn body_exit_error(message: &str, label: &str, help: &str, span: Span) -> (d: Diagnostic)
    ensures
        reports_flow(d, FlowFailure { message: message@, label: label@, help: Some(help@) }, span),
{
    let mut m = String::new();
    push_str(&mut m, message);
    let mut l = String::new();
    push_str(&mut l, label);
    let mut h = String::new();
    push_str(&mut h, help);
    flow_error(m, l, span).with_help(h)
}

/// Checks that an `Exit` stands in a body or loop of the kind it leaves.
pub fn validate_exit(target: ExitTarget, span: Span, context: &Context<'_>, loop_context: LoopContext) -> (r: Result<
    (),
    Diagnostic,
>)
    ensures
        match exit_failure(target, *context, loop_context) {
            Some(f) => r matches Err(d) && reports_flow(d, f, span),
            None => r is Ok,
        },
{
    match target {
        ExitTarget::Sub => match context {
            Context::Sub { .. } | Context::MethodSub { .. } => Ok(()),
            _ => Err(
                body_exit_error(
                    "Exit Sub is only valid inside Sub",
                    "invalid Exit Sub",
                    "use Exit Sub only inside a Sub body",
                    span,
                ),
            ),
        },
        ExitTarget::Function => match context {
            Context::Function { .. } | Context::MethodFunction { .. } => Ok(()),
            _ => Err(
                body_exit_error(
                    "Exit Function is only valid inside Function",
                    "invalid Exit Function",
                    "use Exit Function only inside a Function body",
                    span,
                ),
            ),
        },
        ExitTarget::Property => match context {
            Context::PropertyGet { .. } | Context::PropertyLetSet { .. } => Ok(()),
            _ => Err(
                body_exit_error(
                    "Exit Property is only valid inside Property",
                    "invalid Exit Property",
                    "use Exit Property only inside a Property Get, Let, or Set body",
                    span,
                ),
            ),
        },
        ExitTarget::For | ExitTarget::While | ExitTarget::Do => {
            let t = match target {
                ExitTarget::For => ContinueTarget::For,
                ExitTarget::While => ContinueTarget::While,
                _ => ContinueTarget::Do,
            };
            if in_loop(t, loop_context) {
                Ok(())
            } else {
                Err(loop_error("Exit ", " is only valid inside ", "invalid Exit ", t, span))
            }
        },
    }
}

/// The name and place of a label declaration.
pub open spec fn label_decl(s: Stmt) -> Option<(Seq<char>, Span)> {
    match s {
        Stmt::Label { name, span } => Some((name@, span)),
        _ => None,
    }
}

/// The label a jump names, and where the jump stands: `GoTo`, `Resume`
/// to a label, and `On Error GoTo` a label.
pub open spec fn jump_target(s: Stmt) -> Option<(Seq<char>, Span)> {
    match s {
        Stmt::GoTo { label, span } => Some((label@, span)),
        Stmt::Resume { target: ResumeTarget::Label(label), span } => Some((label@, span)),
        Stmt::OnError { mode: OnErrorMode::GoToLabel(label), span } => Some((label@, span)),
        _ => None,
    }
}

/// The lower-case name a statement declares as a label, if it is one.
pub open spec fn label_key(s: Stmt) -> Option<Seq<char>> {
    match label_decl(s) {
        Some((m, _)) => Some(lowercase(m)),
        None => None,
    }
}

/// Whether one of the first `n` statements declares a label whose
/// lower-case name is `k`.
pub open spec fn declares_label(stmts: Seq<Stmt>, n: int, k: Seq<char>) -> bool {
    exists|j: int| 0 <= j < n && #[trigger] label_key(stmts[j]) == Some(k)
}

/// Why the labels of a body are rejected: a message and a place.
pub struct LabelFailure {
    pub code: DiagnosticCode,
    pub message: Seq<char>,
    pub span: Span,
}

/// The first label from position `i` on that an earlier statement already
/// declares, without regard to case.
pub open spec fn duplicate_label(stmts: Seq<Stmt>, i: int) -> Option<LabelFailure>
    decreases stmts.len() - i,
{
    if i < 0 || i >= stmts.len() {
        None
    } else {
        match label_decl(stmts[i]) {
            Some((n, s)) => if declares_label(stmts, i, lowercase(n)) {
                Some(
                    LabelFailure {
                        code: DiagnosticCode::DuplicateDeclaration,
                        message: "Label '"@ + n + "' is already declared"@,
                        span: s,
                    },
                )
            } else {
                duplicate_label(stmts, i + 1)
            },
            None => duplicate_label(stmts, i + 1),
        }
    }
}

/// The first jump from position `i` on to a label the body does not
/// declare.
pub open spec fn undeclared_jump(stmts: Seq<Stmt>, i: int) -> Option<LabelFailure>
    decreases stmts.len() - i,
{
    if i < 0 || i >= stmts.len() {
        None
    } else {
        match jump_target(stmts[i]) {
            Some((n, s)) => if !declares_label(stmts, stmts.len() as int, lowercase(n)) {
                Some(LabelFailure { code: DiagnosticCode::UnknownName, message: "Label '"@ + n + "' is not declared"@, span: s })
            } else {
                undeclared_jump(stmts, i + 1)
            },
            None => undeclared_jump(stmts, i + 1),
        }
    }
}

/// Whether a diagnostic reports a label failure.
pub open spec fn reports_label(d: Diagnostic, f: LabelFailure) -> bool {
    &&& d.code == f.code
    &&& d.message@ == f.message
    &&& d.span == Some(f.span)
    &&& d.help is None
    &&& d.label is None
}

fn label_error(code: DiagnosticCode, name: &str, tail: &str, span: Span) -> (d: Diagnostic)
    ensures
        reports_label(d, LabelFailure { code, message: "Label '"@ + name@ + tail@, span }),
{
    let mut message = String::new();
    push_str(&mut message, "Label '");
    push_str(&mut message, name);
    push_str(&mut message, tail);
    Diagnostic::new(code, message, Some(span))
}

/// Checks the labels of one list of statements: no label is declared twice,
/// without regard to case, and every `GoTo`, `Resume` and `On Error GoTo`
/// names a label of the list. Duplicates are reported before jumps.
pub fn validate_labels(statements: &[Stmt], _context: &Context<'_>) -> (r: Result<(), Diagnostic>)
    ensures
        match duplicate_label(statements@, 0) {
            Some(f) => r matches Err(d) && reports_label(d, f),
            None => match undeclared_jump(statements@, 0) {
                Some(f) => r matches Err(d) && reports_label(d, f),
                None => r is Ok,
            },
        },
{
    let ghost stmts = statements@;
    let mut labels: NameMap<()> = NameMap::new();
    let mut i: usize = 0;
    while i < statements.len()
        invariant
            stmts == statements@,
            i <= stmts.len(),
            forall|k: Seq<char>| labels.table().contains_key(k) <==> declares_label(stmts, i as int, k),
            duplicate_label(stmts, 0) == duplicate_label(stmts, i as int),
        decreases stmts.len() - i,
    {
        if let Stmt::Label { name, span } = &statements[i] {
            let k = key(name.as_str());
            assert(label_key(stmts[i as int]) == Some(lowercase(name@)));
            let ghost before = labels.table();
            assert(forall|x: Seq<char>| before.contains_key(x) <==> declares_label(stmts, i as int, x));
            if labels.insert(k, ()) {
                assert(declares_label(stmts, i as int, lowercase(name@)));
                return Err(label_error(DiagnosticCode::DuplicateDeclaration, name.as_str(), "' is already declared", *span));
            }
            assert forall|x: Seq<char>| labels.table().contains_key(x) <==> declares_label(stmts, i + 1, x) by {
                if declares_label(stmts, i + 1, x) {
                    let j = choose|j: int| 0 <= j < i + 1 && #[trigger] label_key(stmts[j]) == Some(x);
                    if j < i {
                        assert(declares_label(stmts, i as int, x));
                        assert(before.contains_key(x));
                    }
                }
                if labels.table().contains_key(x) {
                    if x != lowercase(name@) {
                        assert(before.contains_key(x));
                        assert(declares_label(stmts, i as int, x));
                        let j = choose|j: int| 0 <= j < i && #[trigger] label_key(stmts[j]) == Some(x);
                        assert(0 <= j < i + 1 && label_key(stmts[j]) == Some(x));
                    } else {
                        assert(0 <= i < i + 1 && label_key(stmts[i as int]) == Some(x));
                    }
                }
            }
        } else {
            assert(label_key(stmts[i as int]) is None);
            assert forall|x: Seq<char>| labels.table().contains_key(x) <==> declares_label(stmts, i + 1, x) by {
                assert(labels.table().contains_key(x) <==> declares_label(stmts, i as int, x));
                if declares_label(stmts, i + 1, x) {
                    let j = choose|j: int| 0 <= j < i + 1 && #[trigger] label_key(stmts[j]) == Some(x);
                    assert(j != i);
                    assert(0 <= j < i && label_key(stmts[j]) == Some(x));
                }
                if declares_label(stmts, i as int, x) {
                    let j = choose|j: int| 0 <= j < i && #[trigger] label_key(stmts[j]) == Some(x);
                    assert(0 <= j < i + 1 && label_key(stmts[j]) == Some(x));
                }
            }
        }
        i = i + 1;
    }
    assert(duplicate_label(stmts, i as int) is None);
    let mut i: usize = 0;
    while i < statements.len()
        invariant
            stmts == statements@,
            i <= stmts.len(),
            forall|k: Seq<char>| labels.table().contains_key(k) <==> declares_label(stmts, stmts.len() as int, k),
            duplicate_label(stmts, 0) is None,
            undeclared_jump(stmts, 0) == undeclared_jump(stmts, i as int),
        decreases stmts.len() - i,
    {
        let target: Option<(&String, Span)> = match &statements[i] {
            Stmt::GoTo { label, span } => Some((label, *span)),
            Stmt::Resume { target: ResumeTarget::Label(label), span } => Some((label, *span)),
            Stmt::OnError { mode: OnErrorMode::GoToLabel(label), span } => Some((label, *span)),
            _ => None,
        };
        if let Some((label, span)) = target {
            assert(jump_target(stmts[i as int]) == Some((label@, span)));
            let k = key(label.as_str());
            if !labels.contains_key(k.as_str()) {
                return Err(label_error(DiagnosticCode::UnknownName, label.as_str(), "' is not declared", span));
            }
        } else {
            assert(jump_target(stmts[i as int]) is None);
        }
        i = i + 1;
    }
    Ok(())
}

} // verus!
