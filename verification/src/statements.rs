//! What the statement checks read of a body's statements: whether a
//! statement reaches the object of an enclosing `With` block (`.Name`),
//! which is only allowed inside one; where a statement stands; and whether
//! a body assigns to a name.
use vstd::prelude::*;

use crate::ast::{AssignTarget, CaseItem, ClassDecl, ClassMember, DoLoopCondition, Expr, ExprKind, Parameter, Stmt, UsingResource, VarDecl, Visibility};
use crate::context::{current_class_spec, Context};
use crate::name_map::NameMap;
use crate::symbols::{ParamSig, VarType};
use crate::type_model::{ty_eq, TypeName};
use crate::types::{hidden, ClassFieldSig, TypeRegistry};
use crate::diagnostics::{Diagnostic, DiagnosticCode, Span};
use crate::text::{eq_ignore_ascii_case, key, lowercase, push_str, same_ignoring_ascii_case};

verus! {

/// Whether an expression uses the `With` object anywhere in it.
pub open spec fn expr_uses_with(e: Expr) -> bool
    decreases e,
{
    match e.kind {
        ExprKind::WithTarget => true,
        ExprKind::New { args, initializer, .. } => (exists|i: int| 0 <= i < args@.len() && expr_uses_with(#[trigger] args@[i]))
            || (match initializer {
            Some(init) => exists|i: int| 0 <= i < init@.len() && expr_uses_with(#[trigger] init@[i]),
            None => false,
        }),
        ExprKind::Call { args, .. } => exists|i: int| 0 <= i < args@.len() && expr_uses_with(#[trigger] args@[i]),
        ExprKind::Index { target, args } => expr_uses_with(*target) || exists|i: int|
            0 <= i < args@.len() && expr_uses_with(#[trigger] args@[i]),
        ExprKind::IIf { condition, true_expr, false_expr } => expr_uses_with(*condition) || expr_uses_with(*true_expr)
            || expr_uses_with(*false_expr),
        ExprKind::NamedArg { expr, .. } => expr_uses_with(*expr),
        ExprKind::TypeOfIs { expr, .. } => expr_uses_with(*expr),
        ExprKind::MemberAccess { object, .. } => expr_uses_with(*object),
        ExprKind::MemberCall { object, args, .. } => expr_uses_with(*object) || exists|i: int|
            0 <= i < args@.len() && expr_uses_with(#[trigger] args@[i]),
        ExprKind::Binary { left, right, .. } => expr_uses_with(*left) || expr_uses_with(*right),
        ExprKind::Unary { expr, .. } => expr_uses_with(*expr),
        ExprKind::Lambda { body } => expr_uses_with(*body),
        ExprKind::Await(x) => expr_uses_with(*x),
        ExprKind::AddressOf(x) => expr_uses_with(*x),
        ExprKind::PassingModeOverride { expr, .. } => expr_uses_with(*expr),
        _ => false,
    }
}

/// Whether some expression of a list uses the `With` object.
pub open spec fn any_expr_uses_with(es: Seq<Expr>) -> bool {
    exists|i: int| 0 <= i < es.len() && expr_uses_with(#[trigger] es[i])
}

/// Whether an optional expression is present and uses the `With` object.
pub open spec fn opt_expr_uses_with(e: Option<Expr>) -> bool {
    match e {
        Some(x) => expr_uses_with(x),
        None => false,
    }
}

/// Whether an assignment target uses the `With` object.
pub open spec fn target_uses_with(t: AssignTarget) -> bool {
    match t {
        AssignTarget::Variable { .. } => false,
        AssignTarget::ArrayElement { indices, .. } => any_expr_uses_with(indices@),
        AssignTarget::Member { object, .. } => expr_uses_with(object),
        AssignTarget::MemberArrayElement { object, indices, .. } => expr_uses_with(object) || any_expr_uses_with(
            indices@,
        ),
    }
}

/// Whether a `Case` item uses the `With` object.
pub open spec fn case_item_uses_with(item: CaseItem) -> bool {
    match item {
        CaseItem::Value(e) => expr_uses_with(e),
        CaseItem::Compare { expr, .. } => expr_uses_with(expr),
        CaseItem::Range { start, end } => expr_uses_with(start) || expr_uses_with(end),
    }
}

/// Whether a `Do` loop's condition uses the `With` object.
pub open spec fn do_condition_uses_with(c: DoLoopCondition) -> bool {
    match c {
        DoLoopCondition::Infinite => false,
        DoLoopCondition::PreWhile(e) => expr_uses_with(e),
        DoLoopCondition::PreUntil(e) => expr_uses_with(e),
        DoLoopCondition::PostWhile(e) => expr_uses_with(e),
        DoLoopCondition::PostUntil(e) => expr_uses_with(e),
    }
}

/// Whether a statement uses the `With` object, in its own expressions or
/// in the statements it contains. The target of a nested `With` counts;
/// that block's own body does not.
pub open spec fn stmt_uses_with(s: Stmt) -> bool
    decreases s,
{
    match s {
        Stmt::Const { value, .. } => expr_uses_with(value),
        Stmt::Return { expr, .. } => expr_uses_with(expr),
        Stmt::ConstMany { consts, .. } => exists|i: int| 0 <= i < consts@.len() && expr_uses_with(#[trigger] consts@[i].value),
        Stmt::Assign { target, expr, .. } | Stmt::SetAssign { target, expr, .. } | Stmt::LSet { target, expr, .. }
        | Stmt::RSet { target, expr, .. } => target_uses_with(target) || expr_uses_with(expr),
        Stmt::ConsoleCall { args, .. } | Stmt::SubCall { args, .. } | Stmt::DebugPrint { args, .. } => any_expr_uses_with(
            args@,
        ),
        Stmt::OpenFile { path, number, record_len, .. } => expr_uses_with(path) || expr_uses_with(number)
            || opt_expr_uses_with(record_len),
        Stmt::CloseFile { numbers, .. } => any_expr_uses_with(numbers@),
        Stmt::LineInput { number, target, .. } => expr_uses_with(number) || target_uses_with(target),
        Stmt::InputFile { number, targets, .. } => expr_uses_with(number) || exists|i: int|
            0 <= i < targets@.len() && target_uses_with(#[trigger] targets@[i]),
        Stmt::PrintFile { number, items, .. } => expr_uses_with(number) || exists|i: int|
            0 <= i < items@.len() && expr_uses_with(#[trigger] items@[i].expr),
        Stmt::WriteFile { number, args, .. } => expr_uses_with(number) || any_expr_uses_with(args@),
        Stmt::GetFile { number, position, target, .. } => expr_uses_with(number) || opt_expr_uses_with(position)
            || target_uses_with(target),
        Stmt::PutFile { number, position, expr, .. } => expr_uses_with(number) || opt_expr_uses_with(position)
            || expr_uses_with(expr),
        Stmt::SeekFile { number, position, .. } => expr_uses_with(number) || expr_uses_with(position),
        Stmt::NameFile { old_path, new_path, .. } => expr_uses_with(old_path) || expr_uses_with(new_path),
        Stmt::MemberSubCall { object, args, .. } => expr_uses_with(object) || any_expr_uses_with(args@),
        Stmt::RaiseEvent { args, .. } => any_expr_uses_with(args@),
        Stmt::AddHandler { event, handler, .. } | Stmt::RemoveHandler { event, handler, .. } => expr_uses_with(event)
            || expr_uses_with(handler),
        Stmt::Await { expr, .. } => expr_uses_with(expr),
        Stmt::If { condition, then_body, elseif_branches, else_body, .. } => expr_uses_with(condition) || (exists|i: int|
            0 <= i < then_body@.len() && stmt_uses_with(#[trigger] then_body@[i])) || (exists|b: int|
            0 <= b < elseif_branches@.len() && (expr_uses_with(#[trigger] elseif_branches@[b].condition) || exists|i: int|
                0 <= i < elseif_branches@[b].body@.len() && stmt_uses_with(#[trigger] elseif_branches@[b].body@[i])))
            || (exists|i: int| 0 <= i < else_body@.len() && stmt_uses_with(#[trigger] else_body@[i])),
        Stmt::SelectCase { subject, branches, else_body, .. } => expr_uses_with(subject) || (exists|b: int|
            #![trigger branches@[b]]
            0 <= b < branches@.len() && ((exists|k: int|
                0 <= k < branches@[b].items@.len() && case_item_uses_with(#[trigger] branches@[b].items@[k])) || exists|
                i: int,
            | 0 <= i < branches@[b].body@.len() && stmt_uses_with(#[trigger] branches@[b].body@[i]))) || (exists|i: int|
            0 <= i < else_body@.len() && stmt_uses_with(#[trigger] else_body@[i])),
        Stmt::While { condition, body, .. } => expr_uses_with(condition) || exists|i: int|
            0 <= i < body@.len() && stmt_uses_with(#[trigger] body@[i]),
        Stmt::DoLoop { condition, body, .. } => do_condition_uses_with(condition) || exists|i: int|
            0 <= i < body@.len() && stmt_uses_with(#[trigger] body@[i]),
        Stmt::For { start, end, step, body, .. } => expr_uses_with(start) || expr_uses_with(end) || opt_expr_uses_with(
            step,
        ) || exists|i: int| 0 <= i < body@.len() && stmt_uses_with(#[trigger] body@[i]),
        Stmt::ForEach { iterable, body, .. } => expr_uses_with(iterable) || exists|i: int|
            0 <= i < body@.len() && stmt_uses_with(#[trigger] body@[i]),
        Stmt::ReDim { dims, .. } => exists|i: int| 0 <= i < dims@.len() && dim_uses_with(#[trigger] dims@[i]),
        Stmt::TryCatch { try_body, catch_body, finally_body, .. } => (exists|i: int|
            0 <= i < try_body@.len() && stmt_uses_with(#[trigger] try_body@[i])) || (match catch_body {
            Some(c) => exists|i: int| 0 <= i < c@.len() && stmt_uses_with(#[trigger] c@[i]),
            None => false,
        }) || (match finally_body {
            Some(f) => exists|i: int| 0 <= i < f@.len() && stmt_uses_with(#[trigger] f@[i]),
            None => false,
        }),
        Stmt::With { target, .. } => expr_uses_with(target),
        Stmt::Using { resource, body, .. } => (match resource {
            UsingResource::Declaration { initializer, new_args, .. } => opt_expr_uses_with(initializer)
                || any_expr_uses_with(new_args@),
            UsingResource::Target(e) => expr_uses_with(e),
        }) || exists|i: int| 0 <= i < body@.len() && stmt_uses_with(#[trigger] body@[i]),
        Stmt::Dim { initializer, .. } | Stmt::Static { initializer, .. } => opt_expr_uses_with(initializer),
        Stmt::DimMany { decls, .. } => decls_use_with(decls@),
        Stmt::StaticMany { decls, .. } => decls_use_with(decls@),
        Stmt::Yield { expr, .. } => expr_uses_with(expr),
        _ => false,
    }
}

/// Whether some initializer of a list of declarations uses the `With`
/// object.
pub open spec fn decls_use_with(decls: Seq<crate::ast::VarDecl>) -> bool {
    exists|i: int| 0 <= i < decls.len() && opt_expr_uses_with(#[trigger] decls[i].initializer)
}

/// Whether a `ReDim` bound pair uses the `With` object.
pub open spec fn dim_uses_with(d: (Option<Expr>, Expr)) -> bool {
    opt_expr_uses_with(d.0) || expr_uses_with(d.1)
}

/// Whether some statement of a list uses the `With` object.
pub open spec fn any_stmt_uses_with(ss: Seq<Stmt>) -> bool {
    exists|i: int| 0 <= i < ss.len() && stmt_uses_with(#[trigger] ss[i])
}

/// Whether some expression of a list uses the `With` object.
fn any_expr_uses_with_target(args: &Vec<Expr>, context: &Context<'_>) -> (r: bool)
    ensures
        r == any_expr_uses_with(args@),
    decreases args, 0nat,
{
    let mut i: usize = 0;
    while i < args.len()
        invariant
            i <= args@.len(),
            forall|j: int| 0 <= j < i ==> !expr_uses_with(#[trigger] args@[j]),
        decreases args@.len() - i,
    {
        proof {
            vstd::std_specs::vec::axiom_vec_index_decreases(*args, i as int);
        }
        if expr_uses_with_target(&args[i], context) {
            return true;
        }
        i = i + 1;
    }
    false
}

/// Whether an expression uses the object of an enclosing `With` block.
pub fn expr_uses_with_target(expr: &Expr, context: &Context<'_>) -> (r: bool)
    ensures
        r == expr_uses_with(*expr),
    decreases expr, 1nat,
{
    proof {
        assert(decreases_to!(*expr => expr.kind));
    }
    match &expr.kind {
        ExprKind::WithTarget => true,
        ExprKind::New { args, initializer, .. } => {
            any_expr_uses_with_target(args, context) || match initializer {
                Some(init) => any_expr_uses_with_target(init, context),
                None => false,
            }
        },
        ExprKind::Call { args, .. } => any_expr_uses_with_target(args, context),
        ExprKind::Index { target, args } => expr_uses_with_target(target, context) || any_expr_uses_with_target(
            args,
            context,
        ),
        ExprKind::IIf { condition, true_expr, false_expr } => expr_uses_with_target(condition, context)
            || expr_uses_with_target(true_expr, context) || expr_uses_with_target(false_expr, context),
        ExprKind::NamedArg { expr, .. } | ExprKind::TypeOfIs { expr, .. } => expr_uses_with_target(expr, context),
        ExprKind::MemberAccess { object, .. } => expr_uses_with_target(object, context),
        ExprKind::MemberCall { object, args, .. } => expr_uses_with_target(object, context)
            || any_expr_uses_with_target(args, context),
        ExprKind::Binary { left, right, .. } => expr_uses_with_target(left, context) || expr_uses_with_target(
            right,
            context,
        ),
        ExprKind::Unary { expr, .. } => expr_uses_with_target(expr, context),
        ExprKind::Lambda { body } => expr_uses_with_target(body, context),
        ExprKind::Await(inner) | ExprKind::AddressOf(inner) => expr_uses_with_target(inner, context),
        ExprKind::PassingModeOverride { expr, .. } => expr_uses_with_target(expr, context),
        _ => false,
    }
}

fn opt_expr_uses_with_target(e: &Option<Expr>, context: &Context<'_>) -> (r: bool)
    ensures
        r == opt_expr_uses_with(*e),
{
    match e {
        Some(x) => expr_uses_with_target(x, context),
        None => false,
    }
}

/// Whether an assignment target uses the object of an enclosing `With`.
fn assign_target_uses_with_target(target: &AssignTarget, context: &Context<'_>) -> (r: bool)
    ensures
        r == target_uses_with(*target),
{
    match target {
        AssignTarget::Variable { .. } => false,
        AssignTarget::ArrayElement { indices, .. } => any_expr_uses_with_target(indices, context),
        AssignTarget::Member { object, .. } => expr_uses_with_target(object, context),
        AssignTarget::MemberArrayElement { object, indices, .. } => expr_uses_with_target(object, context)
            || any_expr_uses_with_target(indices, context),
    }
}

/// Whether a `Case` item uses the object of an enclosing `With`.
fn case_item_uses_with_target(item: &CaseItem, context: &Context<'_>) -> (r: bool)
    ensures
        r == case_item_uses_with(*item),
{
    match item {
        CaseItem::Value(e) => expr_uses_with_target(e, context),
        CaseItem::Compare { expr, .. } => expr_uses_with_target(expr, context),
        CaseItem::Range { start, end } => expr_uses_with_target(start, context) || expr_uses_with_target(end, context),
    }
}

/// Whether a `Do` condition uses the object of an enclosing `With`.
fn do_condition_uses_with_target(condition: &DoLoopCondition, context: &Context<'_>) -> (r: bool)
    ensures
        r == do_condition_uses_with(*condition),
{
    match condition {
        DoLoopCondition::Infinite => false,
        DoLoopCondition::PreWhile(e) | DoLoopCondition::PreUntil(e) | DoLoopCondition::PostWhile(e)
        | DoLoopCondition::PostUntil(e) => expr_uses_with_target(e, context),
    }
}

/// Whether some bound of a `ReDim` uses the object of an enclosing `With`.
fn dims_use_with_target(dims: &Vec<(Option<Expr>, Expr)>, context: &Context<'_>) -> (r: bool)
    ensures
        r == exists|i: int| 0 <= i < dims@.len() && dim_uses_with(#[trigger] dims@[i]),
{
    let mut i: usize = 0;
    while i < dims.len()
        invariant
            i <= dims@.len(),
            forall|j: int| 0 <= j < i ==> !dim_uses_with(#[trigger] dims@[j]),
        decreases dims@.len() - i,
    {
        let pair = &dims[i];
        let a = opt_expr_uses_with_target(&pair.0, context);
        let b = expr_uses_with_target(&pair.1, context);
        assert(*pair == dims@[i as int]);
        if a || b {
            assert(dim_uses_with(dims@[i as int]));
            return true;
        }
        i = i + 1;
    }
    false
}

/// Whether some initializer of a list of declarations uses the object of
/// an enclosing `With`.
fn decls_use_with_target(decls: &Vec<VarDecl>, context: &Context<'_>) -> (r: bool)
    ensures
        r == decls_use_with(decls@),
{
    let mut i: usize = 0;
    while i < decls.len()
        invariant
            i <= decls@.len(),
            forall|j: int| 0 <= j < i ==> !opt_expr_uses_with(#[trigger] decls@[j].initializer),
        decreases decls@.len() - i,
    {
        if opt_expr_uses_with_target(&decls[i].initializer, context) {
            return true;
        }
        i = i + 1;
    }
    false
}

/// Whether some statement of a list uses the object of an enclosing `With`.
fn any_stmt_uses_with_target(stmts: &Vec<Stmt>, context: &Context<'_>) -> (r: bool)
    ensures
        r == any_stmt_uses_with(stmts@),
    decreases stmts, 0nat,
{
    let mut i: usize = 0;
    while i < stmts.len()
        invariant
            i <= stmts@.len(),
            forall|j: int| 0 <= j < i ==> !stmt_uses_with(#[trigger] stmts@[j]),
        decreases stmts@.len() - i,
    {
        proof {
            vstd::std_specs::vec::axiom_vec_index_decreases(*stmts, i as int);
        }
        if stmt_uses_with_target(&stmts[i], context) {
            return true;
        }
        i = i + 1;
    }
    false
}

/// Whether a statement uses the object of an enclosing `With` block, in its
/// own expressions or in the statements it contains; the target of a
/// nested `With` counts, that block's own body does not.
#[verifier::loop_isolation(false)]
pub fn stmt_uses_with_target(stmt: &Stmt, context: &Context<'_>) -> (r: bool)
    ensures
        r == stmt_uses_with(*stmt),
    decreases stmt, 1nat,
{
    match stmt {
        Stmt::Const { value, .. } => expr_uses_with_target(value, context),
        Stmt::Return { expr, .. } => expr_uses_with_target(expr, context),
        Stmt::ConstMany { consts, .. } => {
            let mut i: usize = 0;
            while i < consts.len()
                invariant
                    i <= consts@.len(),
                    forall|j: int| 0 <= j < i ==> !expr_uses_with(#[trigger] consts@[j].value),
                decreases consts@.len() - i,
            {
                if expr_uses_with_target(&consts[i].value, context) {
                    return true;
                }
                i = i + 1;
            }
            false
        },
        Stmt::Assign { target, expr, .. } | Stmt::SetAssign { target, expr, .. } | Stmt::LSet { target, expr, .. }
        | Stmt::RSet { target, expr, .. } => assign_target_uses_with_target(target, context) || expr_uses_with_target(
            expr,
            context,
        ),
        Stmt::ConsoleCall { args, .. } | Stmt::SubCall { args, .. } | Stmt::DebugPrint { args, .. } => {
            any_expr_uses_with_target(args, context)
        },
        Stmt::OpenFile { path, number, record_len, .. } => expr_uses_with_target(path, context) || expr_uses_with_target(
            number,
            context,
        ) || opt_expr_uses_with_target(record_len, context),
        Stmt::CloseFile { numbers, .. } => any_expr_uses_with_target(numbers, context),
        Stmt::LineInput { number, target, .. } => expr_uses_with_target(number, context)
            || assign_target_uses_with_target(target, context),
        Stmt::InputFile { number, targets, .. } => {
            if expr_uses_with_target(number, context) {
                return true;
            }
            let mut i: usize = 0;
            while i < targets.len()
                invariant
                    i <= targets@.len(),
                    forall|j: int| 0 <= j < i ==> !target_uses_with(#[trigger] targets@[j]),
                decreases targets@.len() - i,
            {
                if assign_target_uses_with_target(&targets[i], context) {
                    return true;
                }
                i = i + 1;
            }
            false
        },
        Stmt::PrintFile { number, items, .. } => {
            if expr_uses_with_target(number, context) {
                return true;
            }
            let mut i: usize = 0;
            while i < items.len()
                invariant
                    i <= items@.len(),
                    forall|j: int| 0 <= j < i ==> !expr_uses_with(#[trigger] items@[j].expr),
                decreases items@.len() - i,
            {
                if expr_uses_with_target(&items[i].expr, context) {
                    return true;
                }
                i = i + 1;
            }
            false
        },
        Stmt::WriteFile { number, args, .. } => expr_uses_with_target(number, context) || any_expr_uses_with_target(
            args,
            context,
        ),
        Stmt::GetFile { number, position, target, .. } => expr_uses_with_target(number, context)
            || opt_expr_uses_with_target(position, context) || assign_target_uses_with_target(target, context),
        Stmt::PutFile { number, position, expr, .. } => expr_uses_with_target(number, context)
            || opt_expr_uses_with_target(position, context) || expr_uses_with_target(expr, context),
        Stmt::SeekFile { number, position, .. } => expr_uses_with_target(number, context) || expr_uses_with_target(
            position,
            context,
        ),
        Stmt::NameFile { old_path, new_path, .. } => expr_uses_with_target(old_path, context)
            || expr_uses_with_target(new_path, context),
        Stmt::MemberSubCall { object, args, .. } => expr_uses_with_target(object, context)
            || any_expr_uses_with_target(args, context),
        Stmt::RaiseEvent { args, .. } => any_expr_uses_with_target(args, context),
        Stmt::AddHandler { event, handler, .. } | Stmt::RemoveHandler { event, handler, .. } => expr_uses_with_target(
            event,
            context,
        ) || expr_uses_with_target(handler, context),
        Stmt::Await { expr, .. } => expr_uses_with_target(expr, context),
        Stmt::If { condition, then_body, elseif_branches, else_body, .. } => {
            if expr_uses_with_target(condition, context) || any_stmt_uses_with_target(then_body, context) {
                return true;
            }
            let mut b: usize = 0;
            while b < elseif_branches.len()
                invariant
                    b <= elseif_branches@.len(),
                    forall|k: int|
                        #![trigger elseif_branches@[k]]
                        0 <= k < b ==> !expr_uses_with(elseif_branches@[k].condition) && !any_stmt_uses_with(
                            elseif_branches@[k].body@,
                        ),
                decreases elseif_branches@.len() - b,
            {
                proof {
                    vstd::std_specs::vec::axiom_vec_index_decreases(*elseif_branches, b as int);
                    assert(decreases_to!(elseif_branches[b as int] => elseif_branches[b as int].body));
                }
                let branch = &elseif_branches[b];
                if expr_uses_with_target(&branch.condition, context) || any_stmt_uses_with_target(&branch.body, context) {
                    return true;
                }
                b = b + 1;
            }
            any_stmt_uses_with_target(else_body, context)
        },
        Stmt::SelectCase { subject, branches, else_body, .. } => {
            if expr_uses_with_target(subject, context) {
                return true;
            }
            let mut b: usize = 0;
            while b < branches.len()
                invariant
                    b <= branches@.len(),
                    forall|k: int|
                        #![trigger branches@[k]]
                        0 <= k < b ==> !(exists|x: int|
                            0 <= x < branches@[k].items@.len() && case_item_uses_with(#[trigger] branches@[k].items@[x]))
                            && !any_stmt_uses_with(branches@[k].body@),
                decreases branches@.len() - b,
            {
                proof {
                    vstd::std_specs::vec::axiom_vec_index_decreases(*branches, b as int);
                    assert(decreases_to!(branches[b as int] => branches[b as int].body));
                }
                let branch = &branches[b];
                let mut x: usize = 0;
                while x < branch.items.len()
                    invariant
                        x <= branch.items@.len(),
                        forall|y: int| 0 <= y < x ==> !case_item_uses_with(#[trigger] branch.items@[y]),
                    decreases branch.items@.len() - x,
                {
                    if case_item_uses_with_target(&branch.items[x], context) {
                        return true;
                    }
                    x = x + 1;
                }
                if any_stmt_uses_with_target(&branch.body, context) {
                    return true;
                }
                b = b + 1;
            }
            any_stmt_uses_with_target(else_body, context)
        },
        Stmt::While { condition, body, .. } => expr_uses_with_target(condition, context) || any_stmt_uses_with_target(
            body,
            context,
        ),
        Stmt::DoLoop { condition, body, .. } => do_condition_uses_with_target(condition, context)
            || any_stmt_uses_with_target(body, context),
        Stmt::For { start, end, step, body, .. } => expr_uses_with_target(start, context) || expr_uses_with_target(
            end,
            context,
        ) || opt_expr_uses_with_target(step, context) || any_stmt_uses_with_target(body, context),
        Stmt::ForEach { iterable, body, .. } => expr_uses_with_target(iterable, context) || any_stmt_uses_with_target(
            body,
            context,
        ),
        Stmt::ReDim { dims, .. } => dims_use_with_target(dims, context),
        Stmt::TryCatch { try_body, catch_body, finally_body, .. } => {
            any_stmt_uses_with_target(try_body, context) || match catch_body {
                Some(c) => any_stmt_uses_with_target(c, context),
                None => false,
            } || match finally_body {
                Some(f) => any_stmt_uses_with_target(f, context),
                None => false,
            }
        },
        Stmt::With { target, .. } => expr_uses_with_target(target, context),
        Stmt::Using { resource, body, .. } => {
            let resource_uses = match resource {
                UsingResource::Declaration { initializer, new_args, .. } => opt_expr_uses_with_target(initializer, context)
                    || any_expr_uses_with_target(new_args, context),
                UsingResource::Target(e) => expr_uses_with_target(e, context),
            };
            resource_uses || any_stmt_uses_with_target(body, context)
        },
        Stmt::Dim { initializer, .. } | Stmt::Static { initializer, .. } => opt_expr_uses_with_target(initializer, context),
        Stmt::DimMany { decls, .. } | Stmt::StaticMany { decls, .. } => decls_use_with_target(decls, context),
        Stmt::Yield { expr, .. } => expr_uses_with_target(expr, context),
        _ => false,
    }
}

/// Where a statement stands.
pub open spec fn stmt_span_spec(stmt: Stmt) -> Span {
    match stmt {
        Stmt::End { span, .. }
        | Stmt::Throw { span, .. }
        | Stmt::Const { span, .. }
        | Stmt::ConstMany { span, .. }
        | Stmt::Return { span, .. }
        | Stmt::Assign { span, .. }
        | Stmt::SetAssign { span, .. }
        | Stmt::LSet { span, .. }
        | Stmt::RSet { span, .. }
        | Stmt::ConsoleCall { span, .. }
        | Stmt::SubCall { span, .. }
        | Stmt::DebugPrint { span, .. }
        | Stmt::OpenFile { span, .. }
        | Stmt::CloseFile { span, .. }
        | Stmt::LineInput { span, .. }
        | Stmt::InputFile { span, .. }
        | Stmt::PrintFile { span, .. }
        | Stmt::WriteFile { span, .. }
        | Stmt::GetFile { span, .. }
        | Stmt::PutFile { span, .. }
        | Stmt::SeekFile { span, .. }
        | Stmt::NameFile { span, .. }
        | Stmt::MemberSubCall { span, .. }
        | Stmt::RaiseEvent { span, .. }
        | Stmt::AddHandler { span, .. }
        | Stmt::RemoveHandler { span, .. }
        | Stmt::Await { span, .. }
        | Stmt::If { span, .. }
        | Stmt::SelectCase { span, .. }
        | Stmt::While { span, .. }
        | Stmt::DoLoop { span, .. }
        | Stmt::For { span, .. }
        | Stmt::ForEach { span, .. }
        | Stmt::ReDim { span, .. }
        | Stmt::TryCatch { span, .. }
        | Stmt::Erase { span, .. }
        | Stmt::Label { span, .. }
        | Stmt::GoTo { span, .. }
        | Stmt::OnError { span, .. }
        | Stmt::Resume { span, .. }
        | Stmt::With { span, .. }
        | Stmt::Using { span, .. }
        | Stmt::Dim { span, .. }
        | Stmt::Static { span, .. }
        | Stmt::DimMany { span, .. }
        | Stmt::StaticMany { span, .. }
        | Stmt::Exit { span, .. }
        | Stmt::Yield { span, .. } => span,
    }
}

/// Where a statement stands, for reporting it.
pub fn stmt_span(stmt: &Stmt, _context: &Context<'_>) -> (r: Span)
    ensures
        r == stmt_span_spec(*stmt),
{
    match stmt {
        Stmt::End { span, .. }
        | Stmt::Throw { span, .. }
        | Stmt::Const { span, .. }
        | Stmt::ConstMany { span, .. }
        | Stmt::Return { span, .. }
        | Stmt::Assign { span, .. }
        | Stmt::SetAssign { span, .. }
        | Stmt::LSet { span, .. }
        | Stmt::RSet { span, .. }
        | Stmt::ConsoleCall { span, .. }
        | Stmt::SubCall { span, .. }
        | Stmt::DebugPrint { span, .. }
        | Stmt::OpenFile { span, .. }
        | Stmt::CloseFile { span, .. }
        | Stmt::LineInput { span, .. }
        | Stmt::InputFile { span, .. }
        | Stmt::PrintFile { span, .. }
        | Stmt::WriteFile { span, .. }
        | Stmt::GetFile { span, .. }
        | Stmt::PutFile { span, .. }
        | Stmt::SeekFile { span, .. }
        | Stmt::NameFile { span, .. }
        | Stmt::MemberSubCall { span, .. }
        | Stmt::RaiseEvent { span, .. }
        | Stmt::AddHandler { span, .. }
        | Stmt::RemoveHandler { span, .. }
        | Stmt::Await { span, .. }
        | Stmt::If { span, .. }
        | Stmt::SelectCase { span, .. }
        | Stmt::While { span, .. }
        | Stmt::DoLoop { span, .. }
        | Stmt::For { span, .. }
        | Stmt::ForEach { span, .. }
        | Stmt::ReDim { span, .. }
        | Stmt::TryCatch { span, .. }
        | Stmt::Erase { span, .. }
        | Stmt::Label { span, .. }
        | Stmt::GoTo { span, .. }
        | Stmt::OnError { span, .. }
        | Stmt::Resume { span, .. }
        | Stmt::With { span, .. }
        | Stmt::Using { span, .. }
        | Stmt::Dim { span, .. }
        | Stmt::Static { span, .. }
        | Stmt::DimMany { span, .. }
        | Stmt::StaticMany { span, .. }
        | Stmt::Exit { span, .. }
        | Stmt::Yield { span, .. } => *span,
    }
}

/// Whether a statement assigns to the variable `n` (without regard to ASCII
/// case) with `=` or `Set`, directly or inside an `If`, `Select Case`,
/// loop or `With` block it contains.
pub open spec fn stmt_assigns(s: Stmt, n: Seq<char>) -> bool
    decreases s,
{
    match s {
        Stmt::Assign { target: AssignTarget::Variable { name }, .. } => same_ignoring_ascii_case(name@, n),
        Stmt::SetAssign { target: AssignTarget::Variable { name }, .. } => same_ignoring_ascii_case(name@, n),
        Stmt::If { then_body, elseif_branches, else_body, .. } => (exists|i: int|
            0 <= i < then_body@.len() && stmt_assigns(#[trigger] then_body@[i], n)) || (exists|b: int, i: int|
            0 <= b < elseif_branches@.len() && 0 <= i < elseif_branches@[b].body@.len() && stmt_assigns(
                #[trigger] elseif_branches@[b].body@[i],
                n,
            )) || (exists|i: int| 0 <= i < else_body@.len() && stmt_assigns(#[trigger] else_body@[i], n)),
        Stmt::SelectCase { branches, else_body, .. } => (exists|b: int, i: int|
            0 <= b < branches@.len() && 0 <= i < branches@[b].body@.len() && stmt_assigns(
                #[trigger] branches@[b].body@[i],
                n,
            )) || (exists|i: int| 0 <= i < else_body@.len() && stmt_assigns(#[trigger] else_body@[i], n)),
        Stmt::While { body, .. } => exists|i: int| 0 <= i < body@.len() && stmt_assigns(#[trigger] body@[i], n),
        Stmt::DoLoop { body, .. } => exists|i: int| 0 <= i < body@.len() && stmt_assigns(#[trigger] body@[i], n),
        Stmt::For { body, .. } => exists|i: int| 0 <= i < body@.len() && stmt_assigns(#[trigger] body@[i], n),
        Stmt::ForEach { body, .. } => exists|i: int| 0 <= i < body@.len() && stmt_assigns(#[trigger] body@[i], n),
        Stmt::With { body, .. } => exists|i: int| 0 <= i < body@.len() && stmt_assigns(#[trigger] body@[i], n),
        _ => false,
    }
}

/// Whether some statement of a list assigns to the variable `n`.
pub open spec fn stmts_assign(ss: Seq<Stmt>, n: Seq<char>) -> bool {
    exists|i: int| 0 <= i < ss.len() && stmt_assigns(#[trigger] ss[i], n)
}

fn body_assigns(stmts: &Vec<Stmt>, name: &str) -> (r: bool)
    ensures
        r == stmts_assign(stmts@, name@),
    decreases stmts, 0nat,
{
    let mut i: usize = 0;
    while i < stmts.len()
        invariant
            i <= stmts@.len(),
            forall|j: int| 0 <= j < i ==> !stmt_assigns(#[trigger] stmts@[j], name@),
        decreases stmts@.len() - i,
    {
        proof {
            vstd::std_specs::vec::axiom_vec_index_decreases(*stmts, i as int);
        }
        if stmt_assigns_exec(&stmts[i], name) {
            return true;
        }
        i = i + 1;
    }
    false
}

#[verifier::loop_isolation(false)]
fn stmt_assigns_exec(stmt: &Stmt, name: &str) -> (r: bool)
    ensures
        r == stmt_assigns(*stmt, name@),
    decreases stmt, 1nat,
{
    match stmt {
        Stmt::Assign { target: AssignTarget::Variable { name: target }, .. } => eq_ignore_ascii_case(target.as_str(), name),
        Stmt::SetAssign { target: AssignTarget::Variable { name: target }, .. } => eq_ignore_ascii_case(
            target.as_str(),
            name,
        ),
        Stmt::If { then_body, elseif_branches, else_body, .. } => {
            if body_assigns(then_body, name) {
                return true;
            }
            let mut b: usize = 0;
            while b < elseif_branches.len()
                invariant
                    b <= elseif_branches@.len(),
                    forall|k: int| #![trigger elseif_branches@[k]] 0 <= k < b ==> !stmts_assign(elseif_branches@[k].body@, name@),
                decreases elseif_branches@.len() - b,
            {
                proof {
                    vstd::std_specs::vec::axiom_vec_index_decreases(*elseif_branches, b as int);
                    assert(decreases_to!(elseif_branches[b as int] => elseif_branches[b as int].body));
                }
                if body_assigns(&elseif_branches[b].body, name) {
                    return true;
                }
                b = b + 1;
            }
            body_assigns(else_body, name)
        },
        Stmt::SelectCase { branches, else_body, .. } => {
            let mut b: usize = 0;
            while b < branches.len()
                invariant
                    b <= branches@.len(),
                    forall|k: int| #![trigger branches@[k]] 0 <= k < b ==> !stmts_assign(branches@[k].body@, name@),
                decreases branches@.len() - b,
            {
                proof {
                    vstd::std_specs::vec::axiom_vec_index_decreases(*branches, b as int);
                    assert(decreases_to!(branches[b as int] => branches[b as int].body));
                }
                if body_assigns(&branches[b].body, name) {
                    return true;
                }
                b = b + 1;
            }
            body_assigns(else_body, name)
        },
        Stmt::While { body, .. } => body_assigns(body, name),
        Stmt::DoLoop { body, .. } => body_assigns(body, name),
        Stmt::For { body, .. } => body_assigns(body, name),
        Stmt::ForEach { body, .. } => body_assigns(body, name),
        Stmt::With { body, .. } => body_assigns(body, name),
        _ => false,
    }
}

/// Whether a body assigns to the variable `name`, without regard to ASCII
/// case, anywhere in it that an assignment can reach: a function whose body
/// assigns to its own name sets its result that way.
pub fn assigns_to_name(statements: &[Stmt], name: &str) -> (r: bool)
    ensures
        r == stmts_assign(statements@, name@),
{
    let mut i: usize = 0;
    while i < statements.len()
        invariant
            i <= statements@.len(),
            forall|j: int| 0 <= j < i ==> !stmt_assigns(#[trigger] statements@[j], name@),
        decreases statements@.len() - i,
    {
        if stmt_assigns_exec(&statements[i], name) {
            return true;
        }
        i = i + 1;
    }
    false
}

/// The field of the current class that a bare name refers to, when no
/// variable in scope has that name: names without regard to case.
pub open spec fn class_field_of(e: Expr, symbols: NameMap<VarType>, types: TypeRegistry, c: Context) -> Option<ClassFieldSig> {
    match e.kind {
        ExprKind::Variable(n) => if symbols.table().contains_key(lowercase(n@)) {
            None
        } else {
            match current_class_spec(c) {
                None => None,
                Some(cn) => if hidden(types, cn) || !types.classes.table().contains_key(lowercase(cn)) {
                    None
                } else {
                    let sig = types.classes.table()[lowercase(cn)];
                    if sig.fields.table().contains_key(lowercase(n@)) {
                        Some(sig.fields.table()[lowercase(n@)])
                    } else {
                        None
                    }
                },
            }
        },
        _ => None,
    }
}

/// The declared type of the field of the current class that a bare name
/// refers to, when no variable in scope shadows it.
pub fn class_field_object_type(object: &Expr, symbols: &NameMap<VarType>, types: &TypeRegistry, context: &Context<'_>) -> (r:
    Option<TypeName>)
    ensures
        match class_field_of(*object, *symbols, *types, *context) {
            Some(f) => r matches Some(t) && ty_eq(t, f.ty),
            None => r is None,
        },
{
    let name = match &object.kind {
        ExprKind::Variable(name) => name,
        _ => {
            return None;
        },
    };
    let name_key = key(name.as_str());
    if symbols.contains_key(name_key.as_str()) {
        return None;
    }
    let class_name = match context.current_class() {
        Some(c) => c,
        None => {
            return None;
        },
    };
    let class_sig = match types.get_class(class_name) {
        Some(sig) => sig,
        None => {
            return None;
        },
    };
    match class_sig.fields.get(name_key.as_str()) {
        Some(field) => Some(field.ty.duplicate()),
        None => None,
    }
}

/// The declared type of the field of the current class that a bare name in
/// an expression refers to, when no variable in scope shadows it.
pub fn class_field_expr_type(expr: &Expr, symbols: &NameMap<VarType>, types: &TypeRegistry, context: &Context<'_>) -> (r:
    Option<TypeName>)
    ensures
        match class_field_of(*expr, *symbols, *types, *context) {
            Some(f) => r matches Some(t) && ty_eq(t, f.ty),
            None => r is None,
        },
{
    class_field_object_type(expr, symbols, types, context)
}

/// Whether `v` is what a parameter declares in a body's scope: a parameter
/// array is a dynamic array of its element type, an optional parameter is
/// optional, any other is a plain value; all are public.
pub open spec fn declares_param(v: VarType, p: Parameter) -> bool {
    if p.is_param_array {
        v matches VarType::Array(vis, t, dynamic) && vis is Public && ty_eq(t, p.ty) && dynamic
    } else if p.is_optional {
        v matches VarType::Optional(vis, t) && vis is Public && ty_eq(t, p.ty)
    } else {
        v matches VarType::Scalar(vis, t) && vis is Public && ty_eq(t, p.ty)
    }
}

/// Whether parameter `i` clashes with a name already in scope or with an
/// earlier parameter, names compared by their lower-case forms.
pub open spec fn param_clashes(params: Seq<Parameter>, scope: Map<Seq<char>, VarType>, i: int) -> bool {
    scope.contains_key(lowercase(params[i].name@)) || exists|j: int|
        0 <= j < i && lowercase(#[trigger] params[j].name@) == lowercase(params[i].name@)
}

/// The first parameter from position `i` on that clashes, if one does.
pub open spec fn first_param_clash(params: Seq<Parameter>, scope: Map<Seq<char>, VarType>, i: int) -> Option<int>
    decreases params.len() - i,
{
    if i < 0 || i >= params.len() {
        None
    } else if param_clashes(params, scope, i) {
        Some(i)
    } else {
        first_param_clash(params, scope, i + 1)
    }
}

/// Whether `after` is `before` with the first `n` parameters declared in it.
pub open spec fn params_added(params: Seq<Parameter>, before: Map<Seq<char>, VarType>, after: Map<Seq<char>, VarType>, n: int) -> bool {
    &&& forall|k: Seq<char>| after.contains_key(k) <==> (before.contains_key(k) || exists|j: int|
        0 <= j < n && lowercase(#[trigger] params[j].name@) == k)
    &&& forall|k: Seq<char>|
        before.contains_key(k) && !(exists|j: int| 0 <= j < n && lowercase(#[trigger] params[j].name@) == k) ==> after[k]
            == before[k]
    &&& forall|j: int| 0 <= j < n ==> declares_param(after[lowercase(#[trigger] params[j].name@)], params[j])
}

/// Declares a procedure's parameters in its scope, in order. A parameter
/// whose name is already in scope, or is taken by an earlier parameter, is
/// reported, and the parameters before it stay declared.
pub fn add_parameters(params: &[Parameter], symbols: &mut NameMap<VarType>) -> (r: Result<(), Diagnostic>)
    ensures
        match first_param_clash(params@, old(symbols).table(), 0) {
            Some(i) => r matches Err(d) && d.code == DiagnosticCode::DuplicateDeclaration && d.message@ == "Parameter '"@
                + params@[i].name@ + "' is already declared"@ && d.span == Some(params@[i].span) && d.help is None
                && d.label is None && params_added(params@, old(symbols).table(), final(symbols).table(), i),
            None => r is Ok && params_added(params@, old(symbols).table(), final(symbols).table(), params@.len() as int),
        },
{
    let ghost before = symbols.table();
    let ghost ps = params@;
    let mut i: usize = 0;
    while i < params.len()
        invariant
            ps == params@,
            before == old(symbols).table(),
            i <= ps.len(),
            first_param_clash(ps, before, 0) == first_param_clash(ps, before, i as int),
            params_added(ps, before, symbols.table(), i as int),
        decreases ps.len() - i,
    {
        let param = &params[i];
        let param_key = key(param.name.as_str());
        if symbols.contains_key(param_key.as_str()) {
            proof {
                let k = lowercase(ps[i as int].name@);
                assert(param_clashes(ps, before, i as int)) by {
                    if !before.contains_key(k) {
                        let j = choose|j: int| 0 <= j < i && lowercase(#[trigger] ps[j].name@) == k;
                        assert(0 <= j < i && lowercase(ps[j].name@) == lowercase(ps[i as int].name@));
                    }
                }
            }
            let mut message = String::new();
            push_str(&mut message, "Parameter '");
            push_str(&mut message, param.name.as_str());
            push_str(&mut message, "' is already declared");
            assert(first_param_clash(ps, before, i as int) == Some(i as int));
            assert(message@ =~= "Parameter '"@ + ps[i as int].name@ + "' is already declared"@);
            return Err(Diagnostic::new(DiagnosticCode::DuplicateDeclaration, message, Some(param.span)));
        }
        proof {
            let k = lowercase(ps[i as int].name@);
            assert(!param_clashes(ps, before, i as int)) by {
                if exists|j: int| 0 <= j < i && lowercase(#[trigger] ps[j].name@) == k {
                    let j = choose|j: int| 0 <= j < i && lowercase(#[trigger] ps[j].name@) == k;
                    assert(symbols.table().contains_key(lowercase(ps[j].name@)));
                }
            }
        }
        let var_type = if param.is_param_array {
            VarType::Array(Visibility::Public, param.ty.duplicate(), true)
        } else if param.is_optional {
            VarType::Optional(Visibility::Public, param.ty.duplicate())
        } else {
            VarType::Scalar(Visibility::Public, param.ty.duplicate())
        };
        let ghost mid = symbols.table();
        symbols.insert(param_key, var_type);
        proof {
            let k = lowercase(ps[i as int].name@);
            assert(declares_param(symbols.table()[k], ps[i as int]));
            assert forall|x: Seq<char>| symbols.table().contains_key(x) <==> (before.contains_key(x) || exists|j: int|
                0 <= j < i + 1 && lowercase(#[trigger] ps[j].name@) == x) by {
                if x != k && symbols.table().contains_key(x) {
                    assert(mid.contains_key(x));
                }
                if exists|j: int| 0 <= j < i + 1 && lowercase(#[trigger] ps[j].name@) == x {
                    let j = choose|j: int| 0 <= j < i + 1 && lowercase(#[trigger] ps[j].name@) == x;
                    if j < i {
                        assert(mid.contains_key(x));
                    }
                }
                if x != k && exists|j: int| 0 <= j < i && lowercase(#[trigger] ps[j].name@) == x {
                    assert(mid.contains_key(x));
                }
            }
            assert forall|x: Seq<char>|
                before.contains_key(x) && !(exists|j: int| 0 <= j < i + 1 && lowercase(#[trigger] ps[j].name@) == x)
                    implies symbols.table()[x] == before[x] by {
                assert(x != k) by {
                    if x == k {
                        assert(0 <= i < i + 1 && lowercase(ps[i as int].name@) == x);
                    }
                }
                if exists|j: int| 0 <= j < i && lowercase(#[trigger] ps[j].name@) == x {
                    let j = choose|j: int| 0 <= j < i && lowercase(#[trigger] ps[j].name@) == x;
                    assert(0 <= j < i + 1 && lowercase(ps[j].name@) == x);
                }
            }
            assert forall|j: int| 0 <= j < i + 1 implies declares_param(
                symbols.table()[lowercase(#[trigger] ps[j].name@)],
                ps[j],
            ) by {
                if j < i {
                    assert(lowercase(ps[j].name@) != k) by {
                        if lowercase(ps[j].name@) == k {
                            assert(mid.contains_key(lowercase(ps[j].name@)));
                        }
                    }
                    assert(declares_param(mid[lowercase(ps[j].name@)], ps[j]));
                }
            }
        }
        i = i + 1;
    }
    Ok(())
}

/// Whether a signature parameter is a declared parameter, copied.
pub open spec fn sig_of_param(s: ParamSig, p: Parameter) -> bool {
    &&& s.name@ == p.name@
    &&& s.mode == p.mode
    &&& ty_eq(s.ty, p.ty)
    &&& s.is_optional == p.is_optional
    &&& s.is_param_array == p.is_param_array
}

/// The signature parameters of declared parameters, in order.
pub fn params_to_sigs(params: &[Parameter]) -> (r: Vec<ParamSig>)
    ensures
        r@.len() == params@.len(),
        forall|i: int| 0 <= i < params@.len() ==> sig_of_param(#[trigger] r@[i], params@[i]),
{
    let mut out: Vec<ParamSig> = Vec::new();
    let mut i: usize = 0;
    while i < params.len()
        invariant
            i <= params@.len(),
            out@.len() == i,
            forall|j: int| 0 <= j < i ==> sig_of_param(#[trigger] out@[j], params@[j]),
        decreases params@.len() - i,
    {
        let p = &params[i];
        out.push(
            ParamSig {
                name: p.name.clone(),
                mode: p.mode,
                ty: p.ty.duplicate(),
                is_optional: p.is_optional,
                is_param_array: p.is_param_array,
            },
        );
        i = i + 1;
    }
    out
}

/// The lower-case name and the declared type of a `Const` member.
pub open spec fn member_const(m: ClassMember) -> Option<(Seq<char>, Option<TypeName>)> {
    match m {
        ClassMember::Const { name, ty, .. } => Some((lowercase(name@), ty)),
        _ => None,
    }
}

/// The declared type of a `Const` member (`None` when none is written).
pub open spec fn member_const_ty(m: ClassMember) -> Option<TypeName> {
    match m {
        ClassMember::Const { ty, .. } => ty,
        _ => None,
    }
}

/// The last `Const` member among the first `n` whose lower-case name is
/// `k`.
pub open spec fn last_const(members: Seq<ClassMember>, k: Seq<char>, n: int) -> Option<int>
    decreases n,
{
    if n <= 0 {
        None
    } else if member_const(members[n - 1]) matches Some((m, _)) && m == k {
        Some(n - 1)
    } else {
        last_const(members, k, n - 1)
    }
}

/// Whether `v` is what a `Const` member of this declared type puts in
/// scope: a public constant of that type, `Variant` when none is written.
pub open spec fn const_symbol(v: VarType, ty: Option<TypeName>) -> bool {
    v matches VarType::Const(vis, t) && vis is Public && match ty {
        Some(d) => ty_eq(t, d),
        None => t is Variant,
    }
}

/// Whether `table` holds, for each name, the last of the first `n` `Const`
/// members with that name.
pub open spec fn consts_collected(members: Seq<ClassMember>, table: Map<Seq<char>, VarType>, n: int) -> bool {
    forall|k: Seq<char>| #![trigger table.contains_key(k)]
        match last_const(members, k, n) {
            Some(j) => table.contains_key(k) && const_symbol(table[k], member_const_ty(members[j])),
            None => !table.contains_key(k),
        }
}

/// The constants a class declares, by lower-case name, each public and of
/// its declared type (`Variant` if none is written); of two with the same
/// name, the later counts.
pub fn class_constant_symbols(class_decl: &ClassDecl) -> (r: NameMap<VarType>)
    ensures
        consts_collected(class_decl.members@, r.table(), class_decl.members@.len() as int),
{
    let members = &class_decl.members;
    let mut out: NameMap<VarType> = NameMap::new();
    let mut i: usize = 0;
    while i < members.len()
        invariant
            members == &class_decl.members,
            i <= members@.len(),
            consts_collected(members@, out.table(), i as int),
        decreases members@.len() - i,
    {
        if let ClassMember::Const { name, ty, .. } = &members[i] {
            let t = match ty {
                Some(t) => t.duplicate(),
                None => TypeName::Variant,
            };
            let k = key(name.as_str());
            let ghost before = out.table();
            out.insert(k, VarType::Const(Visibility::Public, t));
            proof {
                assert forall|x: Seq<char>| #![trigger out.table().contains_key(x)] match last_const(members@, x, i + 1) {
                    Some(j) => out.table().contains_key(x) && const_symbol(out.table()[x], member_const_ty(members@[j])),
                    None => !out.table().contains_key(x),
                } by {
                    assert(member_const(members@[i as int]) == Some((k@, *ty)));
                    if x == k@ {
                        assert(last_const(members@, x, i + 1) == Some(i as int));
                        assert(member_const_ty(members@[i as int]) == *ty);
                        assert(out.table()[x] == VarType::Const(Visibility::Public, t));
                    } else {
                        assert(last_const(members@, x, i + 1) == last_const(members@, x, i as int));
                        assert(out.table().contains_key(x) == before.contains_key(x));
                        if before.contains_key(x) {
                            assert(out.table()[x] == before[x]);
                        }
                    }
                }
            }
            assert(consts_collected(members@, out.table(), i + 1));
        } else {
            proof {
                assert forall|x: Seq<char>| #![trigger out.table().contains_key(x)] last_const(members@, x, i + 1) == last_const(
                    members@,
                    x,
                    i as int,
                ) by {}
            }
            assert(consts_collected(members@, out.table(), i + 1));
        }
        i = i + 1;
    }
    out
}

} // verus!
