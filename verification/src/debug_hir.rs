//! Text renderings of analysis results, for tests and debugging.
use vstd::prelude::*;

use crate::ownership::{
    CleanupAction, ExitCleanup, ExitKind, ExitView, HandlerDecision, OwnershipReport, ReplacementCleanup,
    ReplacementView, ReportView,
};
use crate::text::{decimal, push_decimal, push_str};
use crate::typed_hir::{DisposeMethodId, LocalId, ScopeId};

verus! {

/// The name of a cleanup action.
pub open spec fn action_text(a: CleanupAction) -> Seq<char> {
    match a {
        CleanupAction::Drop => "Drop"@,
        CleanupAction::Dispose => "Dispose"@,
        CleanupAction::NoDrop => "NoDrop"@,
        CleanupAction::SkipUninitialized => "SkipUninitialized"@,
        CleanupAction::SkipMoved => "SkipMoved"@,
        CleanupAction::Unresolved => "Unresolved"@,
    }
}

/// The name of a kind of exit.
pub open spec fn exit_kind_text(k: ExitKind) -> Seq<char> {
    match k {
        ExitKind::Normal => "Normal"@,
        ExitKind::Return => "Return"@,
        ExitKind::ExitLoop => "ExitLoop"@,
        ExitKind::ContinueLoop => "ContinueLoop"@,
    }
}

/// A handler decision, written as its constructor.
pub open spec fn handler_text(h: HandlerDecision) -> Seq<char> {
    match h {
        HandlerDecision::Dispose(local, method, action) => "Dispose(LocalId("@ + decimal(local.0 as nat) + "), DisposeMethodId("@
            + decimal(method.0 as nat) + "), "@ + action_text(action) + ")"@,
        HandlerDecision::Finally(scope) => "Finally(ScopeId("@ + decimal(scope.0 as nat) + "))"@,
    }
}

/// Scope numbers separated by a comma and a space.
pub open spec fn numbers_text(scopes: Seq<ScopeId>) -> Seq<char>
    decreases scopes.len(),
{
    if scopes.len() == 0 {
        Seq::empty()
    } else if scopes.len() == 1 {
        decimal(scopes[0].0 as nat)
    } else {
        numbers_text(scopes.drop_last()) + ", "@ + decimal(scopes.last().0 as nat)
    }
}

/// Scope numbers as a bracketed list.
pub open spec fn scope_list_text(scopes: Seq<ScopeId>) -> Seq<char> {
    "["@ + numbers_text(scopes) + "]"@
}

/// The lines of a list of items, each rendered by `f`, in order.
pub open spec fn lines<T>(items: Seq<T>, f: spec_fn(T) -> Seq<char>) -> Seq<char>
    decreases items.len(),
{
    if items.len() == 0 {
        Seq::empty()
    } else {
        lines(items.drop_last(), f) + f(items.last())
    }
}

/// The line of an overwriting store.
pub open spec fn replacement_line(r: ReplacementView) -> Seq<char> {
    "replace local #"@ + decimal(r.place.root.0 as nat) + ": old "@ + action_text(r.old_value) + "\n"@
}

/// The line of a local an exit leaves.
pub open spec fn local_line(l: (LocalId, CleanupAction)) -> Seq<char> {
    "  local #"@ + decimal(l.0.0 as nat) + ": "@ + action_text(l.1) + "\n"@
}

/// The line of a resource an exit disposes.
pub open spec fn disposal_line(d: (LocalId, DisposeMethodId, CleanupAction)) -> Seq<char> {
    "  dispose local #"@ + decimal(d.0.0 as nat) + " via #"@ + decimal(d.1.0 as nat) + ": "@ + action_text(d.2) + "\n"@
}

/// The line of a handler an exit runs.
pub open spec fn handler_line(h: HandlerDecision) -> Seq<char> {
    "  handler "@ + handler_text(h) + "\n"@
}

/// The lines of an exit: its kind and scopes, then its locals, disposals and
/// handlers.
pub open spec fn exit_text(e: ExitView) -> Seq<char> {
    "exit "@ + exit_kind_text(e.kind) + " "@ + scope_list_text(e.exited_scopes) + ":\n"@ + lines(e.locals, |l| local_line(l))
        + lines(e.disposals, |d| disposal_line(d)) + lines(e.handlers, |h| handler_line(h))
}

/// The text of a cleanup plan: its overwriting stores, then its exits.
pub open spec fn report_text(r: ReportView) -> Seq<char> {
    lines(r.replacements, |x| replacement_line(x)) + lines(r.exits, |e| exit_text(e))
}

fn action_name(a: CleanupAction) -> (r: &'static str)
    ensures
        r@ == action_text(a),
{
    match a {
        CleanupAction::Drop => "Drop",
        CleanupAction::Dispose => "Dispose",
        CleanupAction::NoDrop => "NoDrop",
        CleanupAction::SkipUninitialized => "SkipUninitialized",
        CleanupAction::SkipMoved => "SkipMoved",
        CleanupAction::Unresolved => "Unresolved",
    }
}

fn exit_kind_name(k: ExitKind) -> (r: &'static str)
    ensures
        r@ == exit_kind_text(k),
{
    match k {
        ExitKind::Normal => "Normal",
        ExitKind::Return => "Return",
        ExitKind::ExitLoop => "ExitLoop",
        ExitKind::ContinueLoop => "ContinueLoop",
    }
}

/// Appends a handler decision written as its constructor.
fn push_handler(out: &mut String, h: HandlerDecision)
    ensures
        final(out)@ == old(out)@ + handler_text(h),
{
    match h {
        HandlerDecision::Dispose(local, method, action) => {
            push_str(out, "Dispose(LocalId(");
            push_decimal(out, local.0);
            push_str(out, "), DisposeMethodId(");
            push_decimal(out, method.0);
            push_str(out, "), ");
            push_str(out, action_name(action));
            push_str(out, ")");
        },
        HandlerDecision::Finally(scope) => {
            push_str(out, "Finally(ScopeId(");
            push_decimal(out, scope.0);
            push_str(out, "))");
        },
    }
    assert(out@ =~= old(out)@ + handler_text(h));
}

/// Appends scope numbers as a bracketed list.
fn push_scope_list(out: &mut String, scopes: &Vec<ScopeId>)
    ensures
        final(out)@ == old(out)@ + scope_list_text(scopes@),
{
    let ghost base = out@;
    push_str(out, "[");
    let mut i: usize = 0;
    while i < scopes.len()
        invariant
            i <= scopes@.len(),
            out@ == base + "["@ + numbers_text(scopes@.subrange(0, i as int)),
        decreases scopes@.len() - i,
    {
        let ghost before = out@;
        if i > 0 {
            push_str(out, ", ");
        }
        push_decimal(out, scopes[i].0);
        proof {
            let prefix = scopes@.subrange(0, i + 1);
            assert(prefix.drop_last() =~= scopes@.subrange(0, i as int));
            assert(prefix.last() == scopes@[i as int]);
            if i == 0 {
                assert(numbers_text(scopes@.subrange(0, 0)) =~= Seq::<char>::empty());
            }
        }
        i = i + 1;
        assert(out@ =~= base + "["@ + numbers_text(scopes@.subrange(0, i as int)));
    }
    push_str(out, "]");
    assert(scopes@.subrange(0, scopes@.len() as int) =~= scopes@);
    assert(out@ =~= base + scope_list_text(scopes@));
}

/// Appends the lines of one exit.
fn push_exit(out: &mut String, exit: &ExitCleanup)
    ensures
        final(out)@ == old(out)@ + exit_text(exit@),
{
    let ghost base = out@;
    push_str(out, "exit ");
    push_str(out, exit_kind_name(exit.kind));
    push_str(out, " ");
    push_scope_list(out, &exit.exited_scopes);
    push_str(out, ":\n");
    let ghost header = out@;
    let mut i: usize = 0;
    while i < exit.locals.len()
        invariant
            i <= exit.locals@.len(),
            out@ == header + lines(exit.locals@.subrange(0, i as int), |l| local_line(l)),
        decreases exit.locals@.len() - i,
    {
        let (local, action) = exit.locals[i];
        push_str(out, "  local #");
        push_decimal(out, local.0);
        push_str(out, ": ");
        push_str(out, action_name(action));
        push_str(out, "\n");
        assert(exit.locals@.subrange(0, i + 1).drop_last() =~= exit.locals@.subrange(0, i as int));
        i = i + 1;
        assert(out@ =~= header + lines(exit.locals@.subrange(0, i as int), |l| local_line(l)));
    }
    assert(exit.locals@.subrange(0, exit.locals@.len() as int) =~= exit.locals@);
    let ghost with_locals = out@;
    let mut i: usize = 0;
    while i < exit.disposals.len()
        invariant
            i <= exit.disposals@.len(),
            out@ == with_locals + lines(exit.disposals@.subrange(0, i as int), |d| disposal_line(d)),
        decreases exit.disposals@.len() - i,
    {
        let (local, method, action) = exit.disposals[i];
        push_str(out, "  dispose local #");
        push_decimal(out, local.0);
        push_str(out, " via #");
        push_decimal(out, method.0);
        push_str(out, ": ");
        push_str(out, action_name(action));
        push_str(out, "\n");
        assert(exit.disposals@.subrange(0, i + 1).drop_last() =~= exit.disposals@.subrange(0, i as int));
        i = i + 1;
        assert(out@ =~= with_locals + lines(exit.disposals@.subrange(0, i as int), |d| disposal_line(d)));
    }
    assert(exit.disposals@.subrange(0, exit.disposals@.len() as int) =~= exit.disposals@);
    let ghost with_disposals = out@;
    let mut i: usize = 0;
    while i < exit.handlers.len()
        invariant
            i <= exit.handlers@.len(),
            out@ == with_disposals + lines(exit.handlers@.subrange(0, i as int), |h| handler_line(h)),
        decreases exit.handlers@.len() - i,
    {
        push_str(out, "  handler ");
        push_handler(out, exit.handlers[i]);
        push_str(out, "\n");
        assert(exit.handlers@.subrange(0, i + 1).drop_last() =~= exit.handlers@.subrange(0, i as int));
        i = i + 1;
        assert(out@ =~= with_disposals + lines(exit.handlers@.subrange(0, i as int), |h| handler_line(h)));
    }
    assert(exit.handlers@.subrange(0, exit.handlers@.len() as int) =~= exit.handlers@);
    assert(out@ =~= base + exit_text(exit@));
}

/// Renders a cleanup plan: one line per overwriting store with the local it
/// writes and what happens to the old value, then each exit with its kind,
/// the scopes it leaves, and what it does with each local, resource and
/// handler.
pub fn format_ownership_report(report: &OwnershipReport) -> (r: String)
    ensures
        r@ == report_text(report@),
{
    let mut output = String::new();
    let mut i: usize = 0;
    let ghost replacements = report@.replacements;
    while i < report.replacements.len()
        invariant
            i <= report.replacements@.len(),
            replacements == report.replacements@.map_values(|x: ReplacementCleanup| x@),
            output@ == lines(replacements.subrange(0, i as int), |x| replacement_line(x)),
        decreases report.replacements@.len() - i,
    {
        let replacement = &report.replacements[i];
        push_str(&mut output, "replace local #");
        push_decimal(&mut output, replacement.place.root.0);
        push_str(&mut output, ": old ");
        push_str(&mut output, action_name(replacement.old_value));
        push_str(&mut output, "\n");
        assert(replacements.subrange(0, i + 1).drop_last() =~= replacements.subrange(0, i as int));
        assert(replacements[i as int] == replacement@);
        i = i + 1;
        assert(output@ =~= lines(replacements.subrange(0, i as int), |x| replacement_line(x)));
    }
    assert(replacements.subrange(0, replacements.len() as int) =~= replacements);
    let ghost with_replacements = output@;
    let ghost exits = report@.exits;
    let mut i: usize = 0;
    while i < report.exits.len()
        invariant
            i <= report.exits@.len(),
            exits == report.exits@.map_values(|e: ExitCleanup| e@),
            output@ == with_replacements + lines(exits.subrange(0, i as int), |e| exit_text(e)),
        decreases report.exits@.len() - i,
    {
        push_exit(&mut output, &report.exits[i]);
        assert(exits.subrange(0, i + 1).drop_last() =~= exits.subrange(0, i as int));
        assert(exits[i as int] == report.exits@[i as int]@);
        i = i + 1;
        assert(output@ =~= with_replacements + lines(exits.subrange(0, i as int), |e| exit_text(e)));
    }
    assert(exits.subrange(0, exits.len() as int) =~= exits);
    output
}

} // verus!
