//! Initial dataflow over resolved HIR: which locals hold a value at each
//! point, what every exit must clean up, and which borrows conflict.
//! Immutable borrows are emitted for source-level `ByRef ReadOnly`; moves are
//! representable internally only.
use vstd::prelude::*;

use crate::diagnostics::{Diagnostic, DiagnosticCode, Span};
use crate::text::{push_str, push_char};
use crate::type_properties::KnownProperty;
use crate::typed_hir::{
    cleanup_chain_spec, lemma_owned_exit_locals_in_range, owned_exit_locals_spec, place_overlap,
    scope_locals_in_range, scope_steps, CallArgument, CleanupStep, DisposeMethodId,
    DoCondition, Expression, ExpressionKind, InitialState, LocalId, LocalStorage, Place, PlaceOverlap,
    Local, Projection, ScopeCleanup, ScopeId, Statement, TypedBody,
};

verus! {

/// What is known of a local at one program point.
#[derive(Debug, Clone, Copy, PartialEq, Eq, Structural)]
pub enum State {
    Uninitialized,
    Initialized,
    Moved,
    MaybeUnavailable,
}

/// How an argument borrows its place.
#[derive(Debug, Clone, Copy, PartialEq, Eq, Structural)]
pub enum BorrowKind {
    Immutable,
    Mutable,
}

/// What leaving a scope does with one local or resource.
#[derive(Debug, Clone, Copy, PartialEq, Eq, Structural)]
pub enum CleanupAction {
    Drop,
    Dispose,
    NoDrop,
    SkipUninitialized,
    SkipMoved,
    Unresolved,
}

/// How control leaves a set of scopes.
#[derive(Debug, Clone, Copy, PartialEq, Eq, Structural)]
pub enum ExitKind {
    Normal,
    Return,
    ExitLoop,
    ContinueLoop,
}

/// The decision for one handler on an exit path.
#[derive(Debug, Clone, Copy, PartialEq, Eq, Structural)]
pub enum HandlerDecision {
    Dispose(LocalId, DisposeMethodId, CleanupAction),
    Finally(ScopeId),
}

/// Everything one exit must clean up.
#[derive(Debug)]
pub struct ExitCleanup {
    pub kind: ExitKind,
    pub span: Span,
    pub exited_scopes: Vec<ScopeId>,
    pub locals: Vec<(LocalId, CleanupAction)>,
    pub disposals: Vec<(LocalId, DisposeMethodId, CleanupAction)>,
    /// Ordered actions from the typed transfer plan, including Finally.
    pub handlers: Vec<HandlerDecision>,
}

/// What a store does with the value it overwrites. The place is the store's
/// own target, borrowed from the body analysed.
#[derive(Debug)]
pub struct ReplacementCleanup<'a> {
    pub span: Span,
    pub place: &'a Place,
    pub old_value: CleanupAction,
}

/// The cleanup plan of a body: every exit and every overwriting store, in
/// the order the analysis met them.
#[derive(Debug)]
pub struct OwnershipReport<'a> {
    pub exits: Vec<ExitCleanup>,
    pub replacements: Vec<ReplacementCleanup<'a>>,
}

/// An exit, as plain values.
pub struct ExitView {
    pub kind: ExitKind,
    pub span: Span,
    pub exited_scopes: Seq<ScopeId>,
    pub locals: Seq<(LocalId, CleanupAction)>,
    pub disposals: Seq<(LocalId, DisposeMethodId, CleanupAction)>,
    pub handlers: Seq<HandlerDecision>,
}

/// A replacement, as plain values.
pub struct ReplacementView {
    pub span: Span,
    pub place: Place,
    pub old_value: CleanupAction,
}

/// A report, as plain values.
pub struct ReportView {
    pub exits: Seq<ExitView>,
    pub replacements: Seq<ReplacementView>,
}

impl View for ExitCleanup {
    type V = ExitView;

    open spec fn view(&self) -> ExitView {
        ExitView {
            kind: self.kind,
            span: self.span,
            exited_scopes: self.exited_scopes@,
            locals: self.locals@,
            disposals: self.disposals@,
            handlers: self.handlers@,
        }
    }
}

impl<'a> View for ReplacementCleanup<'a> {
    type V = ReplacementView;

    open spec fn view(&self) -> ReplacementView {
        ReplacementView { span: self.span, place: *self.place, old_value: self.old_value }
    }
}

impl<'a> View for OwnershipReport<'a> {
    type V = ReportView;

    open spec fn view(&self) -> ReportView {
        ReportView {
            exits: self.exits@.map_values(|e: ExitCleanup| e@),
            replacements: self.replacements@.map_values(|r: ReplacementCleanup<'a>| r@),
        }
    }
}

/// Why a body was rejected: the message, where, and any suggestion.
pub struct Failure {
    pub message: Seq<char>,
    pub span: Span,
    pub help: Option<Seq<char>>,
}

/// A failure without a suggestion.
pub open spec fn fail(message: Seq<char>, span: Span) -> Failure {
    Failure { message, span, help: None }
}

/// Whether a diagnostic reports exactly this failure.
pub open spec fn reports(d: Diagnostic, f: Failure) -> bool {
    &&& d.code == DiagnosticCode::TypeMismatch
    &&& d.message@ == f.message
    &&& d.span == Some(f.span)
    &&& match f.help {
        Some(h) => d.help matches Some(x) && x@ == h,
        None => d.help is None,
    }
}

/// What leaving a scope does with a local in a given state.
pub open spec fn cleanup_action_spec(body: TypedBody, id: LocalId, state: State) -> CleanupAction {
    match state {
        State::Uninitialized => CleanupAction::SkipUninitialized,
        State::Moved => CleanupAction::SkipMoved,
        State::MaybeUnavailable => CleanupAction::Unresolved,
        State::Initialized => match body.locals@[id.0 as int].properties.requires_drop {
            KnownProperty::Yes => CleanupAction::Drop,
            KnownProperty::No => CleanupAction::NoDrop,
            KnownProperty::Unknown => CleanupAction::Unresolved,
        },
    }
}

/// The decision for one handler of a transfer plan.
pub open spec fn handler_decision(step: CleanupStep, states: Seq<State>) -> HandlerDecision {
    match step.action {
        ScopeCleanup::ExplicitDispose { resource, method } => HandlerDecision::Dispose(
            resource,
            method,
            match states[resource.0 as int] {
                State::Initialized => CleanupAction::Dispose,
                State::Moved => CleanupAction::SkipMoved,
                State::Uninitialized => CleanupAction::SkipUninitialized,
                State::MaybeUnavailable => CleanupAction::Unresolved,
            },
        ),
        ScopeCleanup::FinallyRegion { finally_scope } => HandlerDecision::Finally(finally_scope),
    }
}

/// The disposals among a list of handler decisions, in order.
pub open spec fn disposals_of(handlers: Seq<HandlerDecision>) -> Seq<(LocalId, DisposeMethodId, CleanupAction)>
    decreases handlers.len(),
{
    if handlers.len() == 0 {
        Seq::empty()
    } else {
        disposals_of(handlers.drop_last()) + match handlers.last() {
            HandlerDecision::Dispose(r, m, a) => seq![(r, m, a)],
            HandlerDecision::Finally(_) => Seq::empty(),
        }
    }
}

/// The exit recorded when control leaves `exited` in the given states.
pub open spec fn exit_spec(body: TypedBody, kind: ExitKind, exited: Seq<ScopeId>, span: Span, states: Seq<State>) -> ExitView {
    let handlers = cleanup_chain_spec(body.scopes@, exited).map_values(|step: CleanupStep| handler_decision(step, states));
    ExitView {
        kind,
        span,
        exited_scopes: exited,
        locals: owned_exit_locals_spec(body.scopes@, body.locals@, exited).map_values(
            |id: LocalId| (id, cleanup_action_spec(body, id, states[id.0 as int])),
        ),
        disposals: disposals_of(handlers),
        handlers,
    }
}

/// Two paths joined: a local keeps its state where both agree, and is
/// otherwise maybe unavailable.
pub open spec fn merge_spec(left: Seq<State>, right: Seq<State>) -> Seq<State> {
    Seq::new(left.len(), |i: int| if left[i] == right[i] { left[i] } else { State::MaybeUnavailable })
}

/// The place an expression designates, if it is a place.
pub open spec fn semantic_place_spec(e: Expression) -> Option<Place> {
    match e.kind {
        ExpressionKind::Place(p) => Some(p),
        _ => None,
    }
}

/// The message for a use of a local that does not hold a value.
pub open spec fn unavailable_message(state: State, name: Seq<char>) -> Seq<char> {
    match state {
        State::Uninitialized => seq!['\''] + name + "' is used before initialization"@,
        State::Moved => seq!['\''] + name + "' is used after its ownership was moved"@,
        _ => seq!['\''] + name + "' may be uninitialized or moved on this path"@,
    }
}

/// A use of a local is allowed only where it is definitely initialized.
pub open spec fn require_initialized_spec(state: State, name: Seq<char>, span: Span) -> Result<(), Failure> {
    if state is Initialized {
        Ok(())
    } else {
        Err(fail(unavailable_message(state, name), span))
    }
}

/// The states after checking an expression, or why it is rejected.
pub open spec fn check_expr_spec(body: TypedBody, e: Expression, states: Seq<State>) -> Result<Seq<State>, Failure>
    decreases e, 0nat,
{
    match e.kind {
        ExpressionKind::Constant(_) | ExpressionKind::ArrayInit { .. } | ExpressionKind::NewClass(_)
        | ExpressionKind::NewCollection => Ok(states),
        ExpressionKind::Tuple(values) => {
            proof {
                vstd::std_specs::vec::axiom_vec_decreases_to_view(values);
            }
            check_exprs_spec(body, values@, 0, states)
        },
        ExpressionKind::Place(place) => {
            proof {
                vstd::std_specs::vec::axiom_vec_decreases_to_view(place.projections);
            }
            check_indices_spec(body, place.projections@, 0, states)
        },
        ExpressionKind::Load(inner) | ExpressionKind::BorrowImmutable(inner) | ExpressionKind::BorrowMutable(inner) => {
            match inner.kind {
                ExpressionKind::Place(place) => {
                    proof {
                        vstd::std_specs::vec::axiom_vec_decreases_to_view(place.projections);
                    }
                    match check_indices_spec(body, place.projections@, 0, states) {
                        Err(f) => Err(f),
                        Ok(after) => {
                            let local = body.locals@[place.root.0 as int];
                            match require_initialized_spec(after[place.root.0 as int], local.name@, e.span) {
                                Err(f) => Err(f),
                                Ok(_) => if e.kind is BorrowMutable && local.storage is BorrowedImmutable {
                                    Err(fail("Cannot mutably borrow a ReadOnly reference"@, e.span))
                                } else {
                                    Ok(after)
                                },
                            }
                        },
                    }
                },
                _ => Err(fail("Reference does not designate a resolved place"@, e.span)),
            }
        },
        ExpressionKind::Move(inner) => match inner.kind {
            ExpressionKind::Place(place) => if place.projections@.len() != 0 {
                Err(fail("Move requires a local place"@, e.span))
            } else {
                let local = body.locals@[place.root.0 as int];
                match require_initialized_spec(states[place.root.0 as int], local.name@, e.span) {
                    Err(f) => Err(f),
                    Ok(_) => if !(local.storage is Value) {
                        Err(fail("Cannot move out of a borrowed reference"@, e.span))
                    } else {
                        match local.properties.copy {
                            // An explicit Move of a Copy value is an ordinary copy.
                            KnownProperty::Yes => Ok(states),
                            KnownProperty::No => Ok(states.update(place.root.0 as int, State::Moved)),
                            KnownProperty::Unknown => Err(fail("Move requires a resolved Copy/non-Copy classification"@, e.span)),
                        }
                    },
                }
            },
            _ => Err(fail("Move requires a local place"@, e.span)),
        },
        ExpressionKind::Convert { value, .. } => check_expr_spec(body, *value, states),
        ExpressionKind::StringLen(value) | ExpressionKind::StringFormat { value, .. } | ExpressionKind::BoxDynamic(value)
        | ExpressionKind::UnboxDynamic { value, .. } | ExpressionKind::CollectionCount(value) => check_expr_spec(body, *value, states),
        ExpressionKind::Arithmetic { left, right, .. } | ExpressionKind::Compare { left, right, .. }
        | ExpressionKind::StringConcat { left, right } | ExpressionKind::StringCompare { left, right, .. }
        | ExpressionKind::ReferenceIdentity { left, right, .. } => match check_expr_spec(body, *left, states) {
            Err(f) => Err(f),
            Ok(after) => check_expr_spec(body, *right, after),
        },
        ExpressionKind::CollectionItem { collection, index } => match check_expr_spec(body, *collection, states) {
            Err(f) => Err(f),
            Ok(after) => check_expr_spec(body, *index, after),
        },
        ExpressionKind::Call { arguments, .. } => {
            proof {
                vstd::std_specs::vec::axiom_vec_decreases_to_view(arguments);
            }
            check_args_spec(body, arguments@, 0, Seq::empty(), states)
        },
    }
}

/// Checks the expressions from position `k` on, left to right.
pub open spec fn check_exprs_spec(body: TypedBody, values: Seq<Expression>, k: int, states: Seq<State>) -> Result<Seq<State>, Failure>
    decreases values, values.len() - k,
{
    if k < 0 || k >= values.len() {
        Ok(states)
    } else {
        match check_expr_spec(body, values[k], states) {
            Err(f) => Err(f),
            Ok(after) => check_exprs_spec(body, values, k + 1, after),
        }
    }
}

/// Checks the index expressions of the projections from position `k` on.
pub open spec fn check_indices_spec(body: TypedBody, projections: Seq<Projection>, k: int, states: Seq<State>) -> Result<Seq<State>, Failure>
    decreases projections, projections.len() - k,
{
    if k < 0 || k >= projections.len() {
        Ok(states)
    } else {
        match projections[k] {
            Projection::Index(index) => match check_expr_spec(body, *index.index, states) {
                Err(f) => Err(f),
                Ok(after) => check_indices_spec(body, projections, k + 1, after),
            },
            _ => check_indices_spec(body, projections, k + 1, states),
        }
    }
}

/// The place an argument borrows, and how, if it borrows one.
pub open spec fn borrow_of(argument: CallArgument) -> Option<(Place, BorrowKind)> {
    match argument.value.kind {
        ExpressionKind::BorrowMutable(inner) => match semantic_place_spec(*inner) {
            Some(p) => Some((p, BorrowKind::Mutable)),
            None => None,
        },
        ExpressionKind::BorrowImmutable(inner) => match semantic_place_spec(*inner) {
            Some(p) => Some((p, BorrowKind::Immutable)),
            None => None,
        },
        _ => None,
    }
}

/// Whether a new borrow conflicts with one already made in the same call:
/// the places may share storage and at least one of the two is mutable.
pub open spec fn conflicts(borrowed: Seq<(Place, BorrowKind)>, place: Place, kind: BorrowKind) -> bool {
    exists|i: int|
        0 <= i < borrowed.len() && place_overlap(place, #[trigger] borrowed[i].0) != PlaceOverlap::Disjoint
            && (borrowed[i].1 is Mutable || kind is Mutable)
}

/// Checks the arguments of a call from position `k` on, with the borrows
/// already made by the earlier ones.
pub open spec fn check_args_spec(body: TypedBody, arguments: Seq<CallArgument>, k: int, borrowed: Seq<(Place, BorrowKind)>, states: Seq<State>) -> Result<Seq<State>, Failure>
    decreases arguments, arguments.len() - k,
{
    if k < 0 || k >= arguments.len() {
        Ok(states)
    } else {
        let argument = arguments[k];
        let now_borrowed = match borrow_of(argument) {
            Some((p, kind)) => borrowed.push((p, kind)),
            None => borrowed,
        };
        if borrow_of(argument) matches Some((p, kind)) && conflicts(borrowed, p, kind) {
            Err(Failure {
                message: "The same local cannot be passed to conflicting ByRef parameters in one call"@,
                span: argument.value.span,
                help: Some("Pass distinct variables so mutable ByRef access is exclusive"@),
            })
        } else {
            match check_expr_spec(body, argument.value, states) {
                Err(f) => Err(f),
                Ok(after) => check_args_spec(body, arguments, k + 1, now_borrowed, after),
            }
        }
    }
}

/// Whether every local an expression names is a local of a body with `n`
/// locals.
pub open spec fn expr_locals_ok(n: nat, e: Expression) -> bool
    decreases e,
{
    match e.kind {
        ExpressionKind::Constant(_) | ExpressionKind::ArrayInit { .. } | ExpressionKind::NewClass(_)
        | ExpressionKind::NewCollection => true,
        ExpressionKind::Tuple(values) => forall|i: int| 0 <= i < values@.len() ==> expr_locals_ok(n, #[trigger] values@[i]),
        ExpressionKind::Place(place) => place.root.0 < n && forall|i: int|
            0 <= i < place.projections@.len() ==> (#[trigger] place.projections@[i] matches Projection::Index(index)
                ==> expr_locals_ok(n, *index.index)),
        ExpressionKind::Load(inner) | ExpressionKind::BorrowImmutable(inner) | ExpressionKind::BorrowMutable(inner)
        | ExpressionKind::Move(inner) | ExpressionKind::Convert { value: inner, .. } | ExpressionKind::StringLen(inner)
        | ExpressionKind::StringFormat { value: inner, .. } | ExpressionKind::BoxDynamic(inner)
        | ExpressionKind::UnboxDynamic { value: inner, .. } | ExpressionKind::CollectionCount(inner) => expr_locals_ok(n, *inner),
        ExpressionKind::Arithmetic { left, right, .. } | ExpressionKind::Compare { left, right, .. }
        | ExpressionKind::StringConcat { left, right } | ExpressionKind::StringCompare { left, right, .. }
        | ExpressionKind::ReferenceIdentity { left, right, .. }
        | ExpressionKind::CollectionItem { collection: left, index: right } => expr_locals_ok(n, *left) && expr_locals_ok(n, *right),
        ExpressionKind::Call { arguments, .. } => forall|i: int|
            0 <= i < arguments@.len() ==> expr_locals_ok(n, #[trigger] arguments@[i].value),
    }
}

/// Builds the diagnostic for a rejected body.
fn error(message: &str, span: Span) -> (d: Diagnostic)
    ensures
        reports(d, fail(message@, span)),
{
    Diagnostic::new(DiagnosticCode::TypeMismatch, String::from_str(message), Some(span))
}

fn require_initialized(state: State, name: &str, span: Span) -> (r: Result<(), Diagnostic>)
    ensures
        match require_initialized_spec(state, name@, span) {
            Ok(_) => r is Ok,
            Err(f) => r matches Err(d) && reports(d, f),
        },
{
    let tail = match state {
        State::Initialized => return Ok(()),
        State::Uninitialized => "' is used before initialization",
        State::Moved => "' is used after its ownership was moved",
        State::MaybeUnavailable => "' may be uninitialized or moved on this path",
    };
    let mut message = String::new();
    push_char(&mut message, '\'');
    push_str(&mut message, name);
    push_str(&mut message, tail);
    assert(message@ == unavailable_message(state, name@));
    Err(Diagnostic::new(DiagnosticCode::TypeMismatch, message, Some(span)))
}

fn semantic_place(expression: &Expression) -> (r: Option<&Place>)
    ensures
        match semantic_place_spec(*expression) {
            Some(p) => r matches Some(q) && *q == p,
            None => r is None,
        },
{
    match &expression.kind {
        ExpressionKind::Place(place) => Some(place),
        _ => None,
    }
}

fn local_place(expression: &Expression) -> (r: Option<LocalId>)
    ensures
        match semantic_place_spec(*expression) {
            Some(p) => if p.projections@.len() == 0 { r == Some(p.root) } else { r is None },
            None => r is None,
        },
{
    match semantic_place(expression) {
        Some(place) => if place.projections.len() == 0 {
            Some(place.root)
        } else {
            None
        },
        None => None,
    }
}

fn check_place_indices(body: &TypedBody, place: &Place, states: &mut Vec<State>) -> (r: Result<(), Diagnostic>)
    requires
        old(states)@.len() == body.locals@.len(),
        forall|i: int|
            0 <= i < place.projections@.len() ==> (#[trigger] place.projections@[i] matches Projection::Index(index)
                ==> expr_locals_ok(body.locals@.len(), *index.index)),
    ensures
        final(states)@.len() == old(states)@.len(),
        match check_indices_spec(*body, place.projections@, 0, old(states)@) {
            Ok(s) => r is Ok && final(states)@ == s,
            Err(f) => r matches Err(d) && reports(d, f),
        },
    decreases place, 0nat,
{
    let ghost start = states@;
    let mut k: usize = 0;
    while k < place.projections.len()
        invariant
            k <= place.projections@.len(),
            start == old(states)@,
            start.len() == body.locals@.len(),
            states@.len() == body.locals@.len(),
            forall|i: int|
                0 <= i < place.projections@.len() ==> (#[trigger] place.projections@[i] matches Projection::Index(index)
                    ==> expr_locals_ok(body.locals@.len(), *index.index)),
            check_indices_spec(*body, place.projections@, 0, start) == check_indices_spec(*body, place.projections@, k as int, states@),
        decreases place.projections@.len() - k,
    {
        if let Projection::Index(index) = &place.projections[k] {
            proof {
                assert(place.projections@[k as int] matches Projection::Index(index));
                assert(decreases_to!(*place => place.projections));
                vstd::std_specs::vec::axiom_vec_index_decreases(place.projections, k as int);
            }
            let r = check_expression(body, &index.index, states);
            if r.is_err() {
                return r;
            }
        }
        k = k + 1;
    }
    Ok(())
}

/// Checks one expression: every use reads an initialized local, borrows and
/// moves are allowed, and the arguments of a call do not conflict.
fn check_expression(body: &TypedBody, expression: &Expression, states: &mut Vec<State>) -> (r: Result<(), Diagnostic>)
    requires
        old(states)@.len() == body.locals@.len(),
        expr_locals_ok(body.locals@.len(), *expression),
    ensures
        final(states)@.len() == old(states)@.len(),
        match check_expr_spec(*body, *expression, old(states)@) {
            Ok(s) => r is Ok && final(states)@ == s,
            Err(f) => r matches Err(d) && reports(d, f),
        },
    decreases expression, 1nat,
{
    let ghost n = body.locals@.len();
    let ghost start = states@;
    match &expression.kind {
        ExpressionKind::Constant(_) | ExpressionKind::ArrayInit { .. } | ExpressionKind::NewClass(_)
        | ExpressionKind::NewCollection => Ok(()),
        ExpressionKind::Tuple(values) => {
            let mut k: usize = 0;
            while k < values.len()
                invariant
                    expression.kind == ExpressionKind::Tuple(*values),
                    start == old(states)@,
                    start.len() == body.locals@.len(),
                    k <= values@.len(),
                    states@.len() == n,
                    n == body.locals@.len(),
                    forall|i: int| 0 <= i < values@.len() ==> expr_locals_ok(n, #[trigger] values@[i]),
                    check_exprs_spec(*body, values@, 0, start) == check_exprs_spec(*body, values@, k as int, states@),
                decreases values@.len() - k,
            {
                proof {
                    assert(decreases_to!(expression.kind => expression.kind->Tuple_0));
                    vstd::std_specs::vec::axiom_vec_index_decreases(*values, k as int);
                }
                let r = check_expression(body, &values[k], states);
                if r.is_err() {
                    return r;
                }
                k = k + 1;
            }
            Ok(())
        },
        ExpressionKind::Place(place) => check_place_indices(body, place, states),
        ExpressionKind::Load(inner) | ExpressionKind::BorrowImmutable(inner) | ExpressionKind::BorrowMutable(inner) => {
            proof {
                reveal_with_fuel(expr_locals_ok, 2);
            }
            let place = match semantic_place(inner) {
                Some(place) => place,
                None => return Err(error("Reference does not designate a resolved place", expression.span)),
            };
            let r = check_place_indices(body, place, states);
            if r.is_err() {
                return r;
            }
            let local = place.root;
            let r = require_initialized(states[local.0], body.locals[local.0].name.as_str(), expression.span);
            if r.is_err() {
                return r;
            }
            if matches!(expression.kind, ExpressionKind::BorrowMutable(_))
                && body.locals[local.0].storage == LocalStorage::BorrowedImmutable {
                return Err(error("Cannot mutably borrow a ReadOnly reference", expression.span));
            }
            Ok(())
        },
        ExpressionKind::Move(inner) => {
            proof {
                reveal_with_fuel(expr_locals_ok, 2);
            }
            let local = match local_place(inner) {
                Some(local) => local,
                None => return Err(error("Move requires a local place", expression.span)),
            };
            let r = require_initialized(states[local.0], body.locals[local.0].name.as_str(), expression.span);
            if r.is_err() {
                return r;
            }
            if body.locals[local.0].storage != LocalStorage::Value {
                return Err(error("Cannot move out of a borrowed reference", expression.span));
            }
            match body.locals[local.0].properties.copy {
                // An explicit Move of a Copy value is an ordinary copy.
                KnownProperty::Yes => {},
                KnownProperty::No => states.set(local.0, State::Moved),
                KnownProperty::Unknown => {
                    return Err(error("Move requires a resolved Copy/non-Copy classification", expression.span));
                },
            }
            Ok(())
        },
        ExpressionKind::Convert { value, .. } | ExpressionKind::StringLen(value)
        | ExpressionKind::StringFormat { value, .. } | ExpressionKind::BoxDynamic(value)
        | ExpressionKind::UnboxDynamic { value, .. } | ExpressionKind::CollectionCount(value) => check_expression(body, value, states),
        ExpressionKind::Arithmetic { left, right, .. } | ExpressionKind::Compare { left, right, .. }
        | ExpressionKind::StringConcat { left, right } | ExpressionKind::StringCompare { left, right, .. }
        | ExpressionKind::ReferenceIdentity { left, right, .. } => {
            let r = check_expression(body, left, states);
            if r.is_err() {
                return r;
            }
            check_expression(body, right, states)
        },
        ExpressionKind::CollectionItem { collection, index } => {
            let r = check_expression(body, collection, states);
            if r.is_err() {
                return r;
            }
            check_expression(body, index, states)
        },
        ExpressionKind::Call { arguments, .. } => {
            proof {
                assert(decreases_to!(expression.kind => expression.kind->Call_arguments));
                vstd::std_specs::vec::axiom_vec_decreases_to_view(*arguments);
            }
            check_call_arguments(body, arguments, states)
        },
    }
}

/// Checks the arguments of a call in order. Two arguments may not borrow
/// places that can share storage when either borrow is mutable.
fn check_call_arguments(body: &TypedBody, arguments: &Vec<CallArgument>, states: &mut Vec<State>) -> (r: Result<(), Diagnostic>)
    requires
        old(states)@.len() == body.locals@.len(),
        forall|i: int| 0 <= i < arguments@.len() ==> expr_locals_ok(body.locals@.len(), #[trigger] arguments@[i].value),
    ensures
        final(states)@.len() == old(states)@.len(),
        match check_args_spec(*body, arguments@, 0, Seq::empty(), old(states)@) {
            Ok(s) => r is Ok && final(states)@ == s,
            Err(f) => r matches Err(d) && reports(d, f),
        },
    decreases arguments@, 0nat,
{
    let ghost n = body.locals@.len();
    let ghost start = states@;
    let mut borrowed: Vec<(&Place, BorrowKind)> = Vec::new();
    assert(borrowed@.map_values(|b: (&Place, BorrowKind)| (*b.0, b.1)) =~= Seq::<(Place, BorrowKind)>::empty());
    let mut k: usize = 0;
    while k < arguments.len()
        invariant
            k <= arguments@.len(),
            start == old(states)@,
            start.len() == body.locals@.len(),
            states@.len() == n,
            n == body.locals@.len(),
            forall|i: int| 0 <= i < arguments@.len() ==> expr_locals_ok(n, #[trigger] arguments@[i].value),
            check_args_spec(*body, arguments@, 0, Seq::empty(), start) == check_args_spec(
                *body,
                arguments@,
                k as int,
                borrowed@.map_values(|b: (&Place, BorrowKind)| (*b.0, b.1)),
                states@,
            ),
        decreases arguments@.len() - k,
    {
        let argument = &arguments[k];
        let ghost seen = borrowed@.map_values(|b: (&Place, BorrowKind)| (*b.0, b.1));
        let borrow: Option<(&Place, BorrowKind)> = match &argument.value.kind {
            ExpressionKind::BorrowMutable(inner) => match semantic_place(inner) {
                Some(place) => Some((place, BorrowKind::Mutable)),
                None => None,
            },
            ExpressionKind::BorrowImmutable(inner) => match semantic_place(inner) {
                Some(place) => Some((place, BorrowKind::Immutable)),
                None => None,
            },
            _ => None,
        };
        if let Some((place, kind)) = borrow {
            let mut conflict = false;
            let mut j: usize = 0;
            while j < borrowed.len()
                invariant
                    j <= borrowed@.len(),
                    seen == borrowed@.map_values(|b: (&Place, BorrowKind)| (*b.0, b.1)),
                    conflict == exists|i: int|
                        0 <= i < j && place_overlap(*place, #[trigger] seen[i].0) != PlaceOverlap::Disjoint
                            && (seen[i].1 is Mutable || kind is Mutable),
                decreases borrowed@.len() - j,
            {
                let (previous, previous_kind) = borrowed[j];
                assert(seen[j as int] == (*previous, previous_kind));
                if place.overlap(previous) != PlaceOverlap::Disjoint
                    && (previous_kind == BorrowKind::Mutable || kind == BorrowKind::Mutable) {
                    conflict = true;
                }
                j = j + 1;
            }
            if conflict {
                return Err(
                    error(
                        "The same local cannot be passed to conflicting ByRef parameters in one call",
                        argument.value.span,
                    ).with_help(String::from_str("Pass distinct variables so mutable ByRef access is exclusive")),
                );
            }
            borrowed.push((place, kind));
            assert(borrowed@.map_values(|b: (&Place, BorrowKind)| (*b.0, b.1)) =~= seen.push((*place, kind)));
        } else {
            assert(borrowed@.map_values(|b: (&Place, BorrowKind)| (*b.0, b.1)) =~= seen);
        }
        let r = check_expression(body, &argument.value, states);
        if r.is_err() {
            return r;
        }
        k = k + 1;
    }
    Ok(())
}

/// Whether every scope lists only locals of the body, and disposes only them.
pub open spec fn scopes_ok(body: TypedBody) -> bool {
    &&& forall|i: int, j: int|
        0 <= i < body.scopes@.len() && 0 <= j < body.scopes@[i].locals@.len() ==> #[trigger] body.scopes@[i].locals@[j].0
            < body.locals@.len()
    &&& forall|i: int, j: int|
        0 <= i < body.scopes@.len() && 0 <= j < body.scopes@[i].cleanup@.len() ==> (#[trigger] body.scopes@[i].cleanup@[j] matches ScopeCleanup::ExplicitDispose {
            resource,
            ..
        } ==> resource.0 < body.locals@.len())
}

/// Whether every scope an exit leaves is a scope of the body.
pub open spec fn exit_ok(body: TypedBody, exited: Seq<ScopeId>) -> bool {
    forall|i: int| 0 <= i < exited.len() ==> #[trigger] exited[i].0 < body.scopes@.len()
}

/// Whether every local and scope a statement names belongs to the body.
pub open spec fn stmt_ok(body: TypedBody, s: Statement) -> bool
    decreases s,
{
    let n = body.locals@.len();
    match s {
        Statement::Initialize { target, value, .. } => target.0 < n && expr_locals_ok(n, value),
        Statement::Store { target, value, .. } => expr_locals_ok(n, *target) && expr_locals_ok(n, value),
        Statement::Return { value, exited_scopes, .. } => expr_locals_ok(n, value) && exit_ok(body, exited_scopes@),
        Statement::ReturnVoid { exited_scopes, .. } => exit_ok(body, exited_scopes@),
        Statement::ExitLoop { exited_scopes, .. } => exit_ok(body, exited_scopes@),
        Statement::ContinueLoop { exited_scopes, .. } => exit_ok(body, exited_scopes@),
        Statement::CallSub { arguments, .. } => forall|i: int| 0 <= i < arguments@.len() ==> expr_locals_ok(n, #[trigger] arguments@[i].value),
        Statement::CollectionAdd { collection, item, before, .. } => expr_locals_ok(n, collection) && expr_locals_ok(n, item) && match *before {
            Some(b) => expr_locals_ok(n, b),
            None => true,
        },
        Statement::CollectionRemove { collection, index, .. } => expr_locals_ok(n, collection) && expr_locals_ok(n, index),
        Statement::If { condition, then_scope, then_body, else_scope, else_body, .. } => {
            &&& expr_locals_ok(n, condition)
            &&& then_scope.0 < body.scopes@.len()
            &&& else_scope.0 < body.scopes@.len()
            &&& forall|i: int| 0 <= i < then_body@.len() ==> stmt_ok(body, #[trigger] then_body@[i])
            &&& forall|i: int| 0 <= i < else_body@.len() ==> stmt_ok(body, #[trigger] else_body@[i])
        },
        Statement::TryFinally { try_scope, try_body, finally_scope, finally_body, .. } => {
            &&& try_scope.0 < body.scopes@.len()
            &&& finally_scope.0 < body.scopes@.len()
            &&& forall|i: int| 0 <= i < try_body@.len() ==> stmt_ok(body, #[trigger] try_body@[i])
            &&& forall|i: int| 0 <= i < finally_body@.len() ==> stmt_ok(body, #[trigger] finally_body@[i])
        },
        Statement::TryCatch { try_scope, try_body, catch_scope, catch_body, finally_scope, finally_body, .. } => {
            &&& try_scope.0 < body.scopes@.len()
            &&& catch_scope.0 < body.scopes@.len()
            &&& (finally_scope matches Some(f) ==> f.0 < body.scopes@.len())
            &&& forall|i: int| 0 <= i < try_body@.len() ==> stmt_ok(body, #[trigger] try_body@[i])
            &&& forall|i: int| 0 <= i < catch_body@.len() ==> stmt_ok(body, #[trigger] catch_body@[i])
            &&& forall|i: int| 0 <= i < finally_body@.len() ==> stmt_ok(body, #[trigger] finally_body@[i])
        },
        Statement::UsingDispose { body_scope, body: inner, .. } => {
            &&& body_scope.0 < body.scopes@.len()
            &&& forall|i: int| 0 <= i < inner@.len() ==> stmt_ok(body, #[trigger] inner@[i])
        },
        Statement::While { condition, body_scope, body: inner, .. } => {
            &&& expr_locals_ok(n, condition)
            &&& body_scope.0 < body.scopes@.len()
            &&& forall|i: int| 0 <= i < inner@.len() ==> stmt_ok(body, #[trigger] inner@[i])
        },
        Statement::Do { condition, body_scope, body: inner, .. } => {
            &&& match condition {
                DoCondition::Infinite => true,
                DoCondition::PreWhile(e) | DoCondition::PreUntil(e) | DoCondition::PostWhile(e)
                | DoCondition::PostUntil(e) => expr_locals_ok(n, e),
            }
            &&& body_scope.0 < body.scopes@.len()
            &&& forall|i: int| 0 <= i < inner@.len() ==> stmt_ok(body, #[trigger] inner@[i])
        },
        Statement::For { variable, start, end, step, body_scope, body: inner, .. } => {
            &&& variable.0 < n
            &&& expr_locals_ok(n, *start) && expr_locals_ok(n, *end) && expr_locals_ok(n, *step)
            &&& body_scope.0 < body.scopes@.len()
            &&& forall|i: int| 0 <= i < inner@.len() ==> stmt_ok(body, #[trigger] inner@[i])
        },
        Statement::ForEach { variable, iterable, body_scope, body: inner, .. } => {
            &&& variable.0 < n
            &&& expr_locals_ok(n, iterable)
            &&& body_scope.0 < body.scopes@.len()
            &&& forall|i: int| 0 <= i < inner@.len() ==> stmt_ok(body, #[trigger] inner@[i])
        },
    }
}

/// Whether every statement of a list names only locals and scopes of the body.
pub open spec fn stmts_ok(body: TypedBody, statements: Seq<Statement>) -> bool {
    forall|i: int| 0 <= i < statements.len() ==> stmt_ok(body, #[trigger] statements[i])
}

/// Whether a body can be analysed: every index it holds is in range.
pub open spec fn body_ok(body: TypedBody) -> bool {
    scopes_ok(body) && stmts_ok(body, body.statements@)
}

/// Where control stands after some statements: whether it left them by a
/// transfer, the state of each local, and the report so far.
pub struct Flow {
    pub terminated: bool,
    pub states: Seq<State>,
    pub report: ReportView,
}

/// The report with one more exit.
pub open spec fn with_exit(report: ReportView, exit: ExitView) -> ReportView {
    ReportView { exits: report.exits.push(exit), replacements: report.replacements }
}

/// The report with the exit of a block that ends normally, unless it ended by
/// a transfer.
pub open spec fn with_normal_exit(body: TypedBody, report: ReportView, flow: Flow, scope: ScopeId, span: Span) -> ReportView {
    if flow.terminated {
        report
    } else {
        with_exit(report, exit_spec(body, ExitKind::Normal, seq![scope], span, flow.states))
    }
}

/// Checks the statements from position `k` on. Statements after one that
/// transfers control are not reached, and are not checked.
pub open spec fn check_stmts_spec(body: TypedBody, statements: Seq<Statement>, k: int, states: Seq<State>, report: ReportView) -> Result<Flow, Failure>
    decreases statements, statements.len() - k,
{
    if k < 0 || k >= statements.len() {
        Ok(Flow { terminated: false, states, report })
    } else {
        match check_stmt_spec(body, statements[k], states, report) {
            Err(f) => Err(f),
            Ok(flow) => if flow.terminated {
                Ok(flow)
            } else {
                check_stmts_spec(body, statements, k + 1, flow.states, flow.report)
            },
        }
    }
}

/// After a loop body: the loop may run any number of times, so each local
/// keeps its state only if the body leaves it unchanged.
pub open spec fn after_loop(body: TypedBody, before: Seq<State>, scope: ScopeId, span: Span, flow: Flow) -> Flow {
    Flow {
        terminated: false,
        states: merge_spec(before, flow.states),
        report: with_normal_exit(body, flow.report, flow, scope, span),
    }
}

/// Whether a store moves a non-Copy place into a place that can overlap it.
pub open spec fn self_move(body: TypedBody, target: Expression, value: Expression) -> bool {
    &&& value.kind matches ExpressionKind::Move(source)
    &&& semantic_place_spec(target) matches Some(destination)
    &&& semantic_place_spec(*source) matches Some(from)
    &&& place_overlap(destination, from) != PlaceOverlap::Disjoint
    &&& body.locals@[from.root.0 as int].properties.copy is No
}

/// The failure for a transfer out of a Finally block.
pub open spec fn finally_exit_failure(span: Span) -> Failure {
    fail("Non-local exit inside typed Finally is not supported"@, span)
}

/// Checks one statement.
pub open spec fn check_stmt_spec(body: TypedBody, s: Statement, states: Seq<State>, report: ReportView) -> Result<Flow, Failure>
    decreases s, 0nat,
{
    match s {
        Statement::Initialize { target, value, span } => match check_expr_spec(body, value, states) {
            Err(f) => Err(f),
            Ok(st) => if st[target.0 as int] != State::Uninitialized {
                Err(fail("Local is initialized more than once"@, span))
            } else {
                Ok(Flow { terminated: false, states: st.update(target.0 as int, State::Initialized), report })
            },
        },
        Statement::Store { target, value, span } => if self_move(body, *target, value) {
            Err(fail("Cannot assign a non-Copy place from Move of itself"@, span))
        } else {
            match check_expr_spec(body, value, states) {
                Err(f) => Err(f),
                Ok(st) => match semantic_place_spec(*target) {
                    None => Err(fail("Store target is not a resolved place"@, span)),
                    Some(place) => match check_indices_spec(body, place.projections@, 0, st) {
                        Err(f) => Err(f),
                        Ok(st2) => {
                            let local = place.root;
                            if body.locals@[local.0 as int].storage is BorrowedImmutable {
                                Err(fail("Cannot assign through a ReadOnly reference"@, span))
                            } else {
                                let old_value = if place.projections@.len() == 0 {
                                    cleanup_action_spec(body, local, st2[local.0 as int])
                                } else {
                                    CleanupAction::Unresolved
                                };
                                let report2 = ReportView {
                                    exits: report.exits,
                                    replacements: report.replacements.push(ReplacementView { span, place, old_value }),
                                };
                                if place.projections@.len() != 0 {
                                    match require_initialized_spec(st2[local.0 as int], body.locals@[local.0 as int].name@, span) {
                                        Err(f) => Err(f),
                                        Ok(_) => Ok(Flow { terminated: false, states: st2, report: report2 }),
                                    }
                                } else {
                                    Ok(Flow { terminated: false, states: st2.update(local.0 as int, State::Initialized), report: report2 })
                                }
                            }
                        },
                    },
                },
            }
        },
        Statement::Return { value, exited_scopes, span, .. } => match check_expr_spec(body, value, states) {
            Err(f) => Err(f),
            Ok(st) => Ok(Flow {
                terminated: true,
                states: st,
                report: with_exit(report, exit_spec(body, ExitKind::Return, exited_scopes@, span, st)),
            }),
        },
        Statement::ReturnVoid { exited_scopes, span, .. } => Ok(Flow {
            terminated: true,
            states,
            report: with_exit(report, exit_spec(body, ExitKind::Return, exited_scopes@, span, states)),
        }),
        Statement::ExitLoop { exited_scopes, span, .. } => Ok(Flow {
            terminated: true,
            states,
            report: with_exit(report, exit_spec(body, ExitKind::ExitLoop, exited_scopes@, span, states)),
        }),
        Statement::ContinueLoop { exited_scopes, span, .. } => Ok(Flow {
            terminated: true,
            states,
            report: with_exit(report, exit_spec(body, ExitKind::ContinueLoop, exited_scopes@, span, states)),
        }),
        Statement::CallSub { arguments, .. } => match check_args_spec(body, arguments@, 0, Seq::empty(), states) {
            Err(f) => Err(f),
            Ok(st) => Ok(Flow { terminated: false, states: st, report }),
        },
        Statement::CollectionAdd { collection, item, before, .. } => match check_expr_spec(body, collection, states) {
            Err(f) => Err(f),
            Ok(st) => match check_expr_spec(body, item, st) {
                Err(f) => Err(f),
                Ok(st2) => match *before {
                    Some(b) => match check_expr_spec(body, b, st2) {
                        Err(f) => Err(f),
                        Ok(st3) => Ok(Flow { terminated: false, states: st3, report }),
                    },
                    None => Ok(Flow { terminated: false, states: st2, report }),
                },
            },
        },
        Statement::CollectionRemove { collection, index, .. } => match check_expr_spec(body, collection, states) {
            Err(f) => Err(f),
            Ok(st) => match check_expr_spec(body, index, st) {
                Err(f) => Err(f),
                Ok(st2) => Ok(Flow { terminated: false, states: st2, report }),
            },
        },
        Statement::If { condition, then_scope, then_body, else_scope, else_body, span } => match check_expr_spec(body, condition, states) {
            Err(f) => Err(f),
            Ok(st) => match check_stmts_spec(body, then_body@, 0, st, report) {
                Err(f) => Err(f),
                Ok(t) => match check_stmts_spec(body, else_body@, 0, st, t.report) {
                    Err(f) => Err(f),
                    Ok(e) => {
                        let r = with_normal_exit(body, with_normal_exit(body, e.report, t, then_scope, span), e, else_scope, span);
                        if t.terminated && e.terminated {
                            Ok(Flow { terminated: true, states: st, report: r })
                        } else if t.terminated {
                            Ok(Flow { terminated: false, states: e.states, report: r })
                        } else if e.terminated {
                            Ok(Flow { terminated: false, states: t.states, report: r })
                        } else {
                            Ok(Flow { terminated: false, states: merge_spec(t.states, e.states), report: r })
                        }
                    },
                },
            },
        },
        Statement::TryFinally { try_scope, try_body, finally_scope, finally_body, span } => match check_stmts_spec(body, try_body@, 0, states, report) {
            Err(f) => Err(f),
            Ok(t) => match check_stmts_spec(body, finally_body@, 0, t.states, with_normal_exit(body, t.report, t, try_scope, span)) {
                Err(f) => Err(f),
                Ok(fin) => if fin.terminated {
                    Err(finally_exit_failure(span))
                } else {
                    Ok(Flow {
                        terminated: t.terminated,
                        states: fin.states,
                        report: with_exit(fin.report, exit_spec(body, ExitKind::Normal, seq![finally_scope], span, fin.states)),
                    })
                },
            },
        },
        Statement::TryCatch { try_scope, try_body, catch_scope, catch_body, finally_scope, finally_body, span, .. } => match check_stmts_spec(body, try_body@, 0, states, report) {
            Err(f) => Err(f),
            Ok(t) => match check_stmts_spec(body, catch_body@, 0, states, t.report) {
                Err(f) => Err(f),
                Ok(c) => {
                    let r = with_normal_exit(body, with_normal_exit(body, c.report, t, try_scope, span), c, catch_scope, span);
                    let terminated = t.terminated && c.terminated;
                    let st = if t.terminated && c.terminated {
                        states
                    } else if t.terminated {
                        c.states
                    } else if c.terminated {
                        t.states
                    } else {
                        merge_spec(t.states, c.states)
                    };
                    match finally_scope {
                        None => Ok(Flow { terminated, states: st, report: r }),
                        Some(fs) => match check_stmts_spec(body, finally_body@, 0, st, r) {
                            Err(f) => Err(f),
                            Ok(fin) => if fin.terminated {
                                Err(finally_exit_failure(span))
                            } else {
                                Ok(Flow {
                                    terminated,
                                    states: fin.states,
                                    report: with_exit(fin.report, exit_spec(body, ExitKind::Normal, seq![fs], span, fin.states)),
                                })
                            },
                        },
                    }
                },
            },
        },
        Statement::UsingDispose { body_scope, body: inner, span, .. } => match check_stmts_spec(body, inner@, 0, states, report) {
            Err(f) => Err(f),
            Ok(u) => Ok(Flow { terminated: u.terminated, states: u.states, report: with_normal_exit(body, u.report, u, body_scope, span) }),
        },
        Statement::While { condition, body_scope, body: inner, span, .. } => match check_expr_spec(body, condition, states) {
            Err(f) => Err(f),
            Ok(st) => match check_stmts_spec(body, inner@, 0, st, report) {
                Err(f) => Err(f),
                Ok(a) => Ok(after_loop(body, st, body_scope, span, a)),
            },
        },
        Statement::Do { condition, body_scope, body: inner, span, .. } => {
            let checked = match condition {
                DoCondition::Infinite => Ok(states),
                DoCondition::PreWhile(e) | DoCondition::PreUntil(e) | DoCondition::PostWhile(e)
                | DoCondition::PostUntil(e) => check_expr_spec(body, e, states),
            };
            match checked {
                Err(f) => Err(f),
                Ok(st) => match check_stmts_spec(body, inner@, 0, st, report) {
                    Err(f) => Err(f),
                    Ok(a) => Ok(after_loop(body, st, body_scope, span, a)),
                },
            }
        },
        Statement::For { variable, start, end, step, body_scope, body: inner, span, .. } => match check_expr_spec(body, *start, states) {
            Err(f) => Err(f),
            Ok(st1) => match check_expr_spec(body, *end, st1) {
                Err(f) => Err(f),
                Ok(st2) => match check_expr_spec(body, *step, st2) {
                    Err(f) => Err(f),
                    Ok(st3) => {
                        let st = st3.update(variable.0 as int, State::Initialized);
                        match check_stmts_spec(body, inner@, 0, st, report) {
                            Err(f) => Err(f),
                            Ok(a) => Ok(after_loop(body, st, body_scope, span, a)),
                        }
                    },
                },
            },
        },
        Statement::ForEach { variable, iterable, body_scope, body: inner, span, .. } => match check_expr_spec(body, iterable, states) {
            Err(f) => Err(f),
            Ok(st1) => {
                let st = st1.update(variable.0 as int, State::Initialized);
                match check_stmts_spec(body, inner@, 0, st, report) {
                    Err(f) => Err(f),
                    Ok(a) => Ok(after_loop(body, st, body_scope, span, a)),
                }
            },
        },
    }
}

/// The initial state of each local: parameters hold a value on entry, other
/// locals do not.
pub open spec fn initial_states(body: TypedBody) -> Seq<State> {
    body.locals@.map_values(|l: Local| if l.initial_state is Initialized { State::Initialized } else { State::Uninitialized })
}

/// The cleanup plan of a body, or why the body is rejected.
pub open spec fn analyze_spec(body: TypedBody) -> Result<ReportView, Failure> {
    match check_stmts_spec(body, body.statements@, 0, initial_states(body), ReportView { exits: Seq::empty(), replacements: Seq::empty() }) {
        Err(f) => Err(f),
        Ok(flow) => Ok(flow.report),
    }
}

/// Every handler on a chain of exited scopes disposes only locals of the body.
pub proof fn lemma_chain_resources_in_range(body: TypedBody, exited: Seq<ScopeId>)
    requires
        scopes_ok(body),
        exit_ok(body, exited),
    ensures
        forall|k: int| 0 <= k < cleanup_chain_spec(body.scopes@, exited).len() ==> (#[trigger] cleanup_chain_spec(body.scopes@, exited)[k].action matches ScopeCleanup::ExplicitDispose {
            resource,
            ..
        } ==> resource.0 < body.locals@.len()),
    decreases exited.len(),
{
    if exited.len() > 0 {
        let init = exited.drop_last();
        assert forall|i: int| 0 <= i < init.len() implies #[trigger] init[i].0 < body.scopes@.len() by {
            assert(init[i] == exited[i]);
        }
        lemma_chain_resources_in_range(body, init);
        let s = exited.last();
        assert(exited[exited.len() - 1] == s);
        let steps = scope_steps(body.scopes@, s);
        let cleanup = body.scopes@[s.0 as int].cleanup@;
        assert forall|k: int| 0 <= k < steps.len() implies (#[trigger] steps[k].action matches ScopeCleanup::ExplicitDispose {
            resource,
            ..
        } ==> resource.0 < body.locals@.len()) by {
            assert(steps[k].action == cleanup.reverse()[k]);
            assert(cleanup.reverse()[k] == cleanup[cleanup.len() - 1 - k]);
            assert(body.scopes@[s.0 as int].cleanup@[cleanup.len() - 1 - k] == cleanup[cleanup.len() - 1 - k]);
        }
        let whole = cleanup_chain_spec(body.scopes@, exited);
        let prefix = cleanup_chain_spec(body.scopes@, init);
        assert(whole == prefix + steps);
        assert forall|k: int| 0 <= k < whole.len() implies (#[trigger] whole[k].action matches ScopeCleanup::ExplicitDispose {
            resource,
            ..
        } ==> resource.0 < body.locals@.len()) by {
            if k < prefix.len() {
                assert(whole[k] == prefix[k]);
            } else {
                assert(whole[k] == steps[k - prefix.len()]);
            }
        }
    }
}

fn copy_states(states: &[State]) -> (r: Vec<State>)
    ensures
        r@ == states@,
{
    let mut out: Vec<State> = Vec::new();
    let mut i: usize = 0;
    while i < states.len()
        invariant
            i <= states@.len(),
            out@ == states@.subrange(0, i as int),
        decreases states@.len() - i,
    {
        out.push(states[i]);
        i = i + 1;
        assert(out@ =~= states@.subrange(0, i as int));
    }
    assert(states@.subrange(0, states@.len() as int) =~= states@);
    out
}

fn copy_scopes(scopes: &[ScopeId]) -> (r: Vec<ScopeId>)
    ensures
        r@ == scopes@,
{
    let mut out: Vec<ScopeId> = Vec::new();
    let mut i: usize = 0;
    while i < scopes.len()
        invariant
            i <= scopes@.len(),
            out@ == scopes@.subrange(0, i as int),
        decreases scopes@.len() - i,
    {
        out.push(scopes[i]);
        i = i + 1;
        assert(out@ =~= scopes@.subrange(0, i as int));
    }
    assert(scopes@.subrange(0, scopes@.len() as int) =~= scopes@);
    out
}

/// Joins two paths into `destination`: a local keeps its state where both
/// agree, and is otherwise maybe unavailable.
fn merge(destination: &mut Vec<State>, left: &[State], right: &[State])
    requires
        left@.len() == old(destination)@.len(),
        right@.len() == old(destination)@.len(),
    ensures
        final(destination)@ == merge_spec(left@, right@),
{
    let mut index: usize = 0;
    while index < destination.len()
        invariant
            left@.len() == destination@.len(),
            right@.len() == destination@.len(),
            index <= destination@.len(),
            forall|i: int| 0 <= i < index ==> #[trigger] destination@[i] == merge_spec(left@, right@)[i],
        decreases destination@.len() - index,
    {
        let state = if left[index] == right[index] {
            left[index]
        } else {
            State::MaybeUnavailable
        };
        destination.set(index, state);
        index = index + 1;
    }
    assert(destination@ =~= merge_spec(left@, right@));
}

fn cleanup_action(body: &TypedBody, id: LocalId, state: State) -> (r: CleanupAction)
    requires
        id.0 < body.locals@.len(),
    ensures
        r == cleanup_action_spec(*body, id, state),
{
    match state {
        State::Uninitialized => CleanupAction::SkipUninitialized,
        State::Moved => CleanupAction::SkipMoved,
        State::MaybeUnavailable => CleanupAction::Unresolved,
        State::Initialized => match body.locals[id.0].properties.requires_drop {
            KnownProperty::Yes => CleanupAction::Drop,
            KnownProperty::No => CleanupAction::NoDrop,
            KnownProperty::Unknown => CleanupAction::Unresolved,
        },
    }
}

/// Records what leaving `exited_scopes` must clean up, given the state of
/// each local at the exit.
fn record_exit<'a>(
    body: &TypedBody,
    kind: ExitKind,
    exited_scopes: &[ScopeId],
    span: Span,
    states: &[State],
    report: &mut OwnershipReport<'a>,
)
    requires
        scopes_ok(*body),
        exit_ok(*body, exited_scopes@),
        states@.len() == body.locals@.len(),
    ensures
        final(report)@ == with_exit(old(report)@, exit_spec(*body, kind, exited_scopes@, span, states@)),
{
    let ghost b = *body;
    proof {
        assert(scope_locals_in_range(*body, exited_scopes@)) by {
            assert forall|i: int, j: int|
                0 <= i < exited_scopes@.len() && 0 <= j < body.scopes@[exited_scopes@[i].0 as int].locals@.len() implies #[trigger] body.scopes@[exited_scopes@[i].0 as int].locals@[j].0
                    < body.locals@.len() by {
                assert(exited_scopes@[i].0 < body.scopes@.len());
            }
        }
        lemma_owned_exit_locals_in_range(body.scopes@, body.locals@, exited_scopes@);
        lemma_chain_resources_in_range(*body, exited_scopes@);
    }
    let owned = body.owned_exit_locals(exited_scopes);
    let ghost action_of = |id: LocalId| (id, cleanup_action_spec(b, id, states@[id.0 as int]));
    let mut locals: Vec<(LocalId, CleanupAction)> = Vec::new();
    let mut i: usize = 0;
    while i < owned.len()
        invariant
            i <= owned@.len(),
            b == *body,
            forall|j: int| 0 <= j < owned@.len() ==> #[trigger] owned@[j].0 < body.locals@.len(),
            action_of == (|id: LocalId| (id, cleanup_action_spec(b, id, states@[id.0 as int]))),
            states@.len() == body.locals@.len(),
            locals@ == owned@.subrange(0, i as int).map_values(action_of),
        decreases owned@.len() - i,
    {
        let id = owned[i];
        locals.push((id, cleanup_action(body, id, states[id.0])));
        i = i + 1;
        assert(locals@ =~= owned@.subrange(0, i as int).map_values(action_of));
    }
    assert(owned@.subrange(0, owned@.len() as int) =~= owned@);
    let chain = body.cleanup_chain(exited_scopes);
    let ghost decide = |step: CleanupStep| handler_decision(step, states@);
    let mut handlers: Vec<HandlerDecision> = Vec::new();
    let mut i: usize = 0;
    while i < chain.len()
        invariant
            i <= chain@.len(),
            decide == (|step: CleanupStep| handler_decision(step, states@)),
            states@.len() == body.locals@.len(),
            forall|k: int| 0 <= k < chain@.len() ==> (#[trigger] chain@[k].action matches ScopeCleanup::ExplicitDispose {
                resource,
                ..
            } ==> resource.0 < body.locals@.len()),
            handlers@ == chain@.subrange(0, i as int).map_values(decide),
        decreases chain@.len() - i,
    {
        let step = chain[i];
        let decision = match step.action {
            ScopeCleanup::ExplicitDispose { resource, method } => {
                let action = match states[resource.0] {
                    State::Initialized => CleanupAction::Dispose,
                    State::Moved => CleanupAction::SkipMoved,
                    State::Uninitialized => CleanupAction::SkipUninitialized,
                    State::MaybeUnavailable => CleanupAction::Unresolved,
                };
                HandlerDecision::Dispose(resource, method, action)
            },
            ScopeCleanup::FinallyRegion { finally_scope } => HandlerDecision::Finally(finally_scope),
        };
        handlers.push(decision);
        i = i + 1;
        assert(handlers@ =~= chain@.subrange(0, i as int).map_values(decide));
    }
    assert(chain@.subrange(0, chain@.len() as int) =~= chain@);
    let mut disposals: Vec<(LocalId, DisposeMethodId, CleanupAction)> = Vec::new();
    let mut i: usize = 0;
    while i < handlers.len()
        invariant
            i <= handlers@.len(),
            disposals@ == disposals_of(handlers@.subrange(0, i as int)),
        decreases handlers@.len() - i,
    {
        assert(handlers@.subrange(0, i + 1).drop_last() =~= handlers@.subrange(0, i as int));
        match handlers[i] {
            HandlerDecision::Dispose(resource, method, action) => {
                disposals.push((resource, method, action));
                assert(disposals@ =~= disposals_of(handlers@.subrange(0, i + 1)));
            },
            HandlerDecision::Finally(_) => {
                assert(disposals@ =~= disposals_of(handlers@.subrange(0, i + 1)));
            },
        }
        i = i + 1;
    }
    assert(handlers@.subrange(0, handlers@.len() as int) =~= handlers@);
    let exit = ExitCleanup {
        kind,
        span,
        exited_scopes: copy_scopes(exited_scopes),
        locals,
        disposals,
        handlers,
    };
    let ghost before = report@;
    report.exits.push(exit);
    assert(report@.exits =~= before.exits.push(exit@));
    assert(report@.replacements =~= before.replacements);
}

fn single_scope(scope: ScopeId) -> (v: Vec<ScopeId>)
    ensures
        v@ == seq![scope],
{
    let mut v: Vec<ScopeId> = Vec::new();
    v.push(scope);
    assert(v@ =~= seq![scope]);
    v
}

/// Checks statements in order, stopping after one that transfers control.
/// Returns whether control left them by a transfer.
fn check_statements<'a>(
    body: &'a TypedBody,
    statements: &'a [Statement],
    states: &mut Vec<State>,
    report: &mut OwnershipReport<'a>,
) -> (r: Result<bool, Diagnostic>)
    requires
        scopes_ok(*body),
        stmts_ok(*body, statements@),
        old(states)@.len() == body.locals@.len(),
    ensures
        final(states)@.len() == old(states)@.len(),
        match check_stmts_spec(*body, statements@, 0, old(states)@, old(report)@) {
            Ok(flow) => r == Ok::<bool, Diagnostic>(flow.terminated) && final(states)@ == flow.states && final(report)@ == flow.report,
            Err(f) => r matches Err(d) && reports(d, f),
        },
    decreases statements@, 0nat,
{
    let ghost start_states = states@;
    let ghost start_report = report@;
    let mut k: usize = 0;
    while k < statements.len()
        invariant
            k <= statements@.len(),
            scopes_ok(*body),
            stmts_ok(*body, statements@),
            start_states.len() == body.locals@.len(),
            states@.len() == body.locals@.len(),
            start_states == old(states)@,
            start_report == old(report)@,
            check_stmts_spec(*body, statements@, 0, start_states, start_report) == check_stmts_spec(
                *body,
                statements@,
                k as int,
                states@,
                report@,
            ),
        decreases statements@.len() - k,
    {
        match check_statement(body, &statements[k], states, report) {
            Err(d) => return Err(d),
            Ok(true) => return Ok(true),
            Ok(false) => {},
        }
        k = k + 1;
    }
    Ok(false)
}

/// Checks a loop body. A loop can execute zero or multiple times, so a move
/// in the body cannot establish a definite state for code following the loop.
fn check_loop_body<'a>(
    body: &'a TypedBody,
    loop_body: &'a [Statement],
    body_scope: ScopeId,
    span: Span,
    states: &mut Vec<State>,
    report: &mut OwnershipReport<'a>,
) -> (r: Result<(), Diagnostic>)
    requires
        scopes_ok(*body),
        stmts_ok(*body, loop_body@),
        body_scope.0 < body.scopes@.len(),
        old(states)@.len() == body.locals@.len(),
    ensures
        final(states)@.len() == old(states)@.len(),
        match check_stmts_spec(*body, loop_body@, 0, old(states)@, old(report)@) {
            Ok(a) => r is Ok && final(states)@ == after_loop(*body, old(states)@, body_scope, span, a).states
                && final(report)@ == after_loop(*body, old(states)@, body_scope, span, a).report,
            Err(f) => r matches Err(d) && reports(d, f),
        },
    decreases loop_body@, 1nat,
{
    let before = copy_states(states.as_slice());
    let mut after = copy_states(states.as_slice());
    let terminated = match check_statements(body, loop_body, &mut after, report) {
        Err(d) => return Err(d),
        Ok(t) => t,
    };
    if !terminated {
        let exited = single_scope(body_scope);
        record_exit(body, ExitKind::Normal, exited.as_slice(), span, after.as_slice(), report);
    }
    merge(states, before.as_slice(), after.as_slice());
    Ok(())
}

/// Checks one statement, updating the state of each local and the report.
/// Returns whether the statement transfers control.
fn check_statement<'a>(
    body: &'a TypedBody,
    statement: &'a Statement,
    states: &mut Vec<State>,
    report: &mut OwnershipReport<'a>,
) -> (r: Result<bool, Diagnostic>)
    requires
        scopes_ok(*body),
        stmt_ok(*body, *statement),
        old(states)@.len() == body.locals@.len(),
    ensures
        final(states)@.len() == old(states)@.len(),
        match check_stmt_spec(*body, *statement, old(states)@, old(report)@) {
            Ok(flow) => r == Ok::<bool, Diagnostic>(flow.terminated) && final(states)@ == flow.states && final(report)@ == flow.report,
            Err(f) => r matches Err(d) && reports(d, f),
        },
    decreases statement, 2nat,
{
    match statement {
        Statement::Initialize { .. } => check_initialize(body, statement, states, report),
        Statement::Store { .. } => check_store(body, statement, states, report),
        Statement::Return { .. } | Statement::ReturnVoid { .. } | Statement::ExitLoop { .. } | Statement::ContinueLoop { .. } => check_exit_statement(body, statement, states, report),
        Statement::CallSub { .. } | Statement::CollectionAdd { .. } | Statement::CollectionRemove { .. } => check_collection_or_call(body, statement, states, report),
        Statement::If { .. } => check_if(body, statement, states, report),
        Statement::TryFinally { .. } => check_try_finally(body, statement, states, report),
        Statement::TryCatch { .. } => check_try_catch(body, statement, states, report),
        Statement::UsingDispose { .. } => check_using(body, statement, states, report),
        Statement::While { .. } | Statement::Do { .. } | Statement::For { .. } | Statement::ForEach { .. } => check_loop_statement(body, statement, states, report),
    }
}

/// Checks an `Initialize`: its value, and that the local had none yet.
fn check_initialize<'a>(
    body: &'a TypedBody,
    statement: &'a Statement,
    states: &mut Vec<State>,
    report: &mut OwnershipReport<'a>,
) -> (r: Result<bool, Diagnostic>)
    requires
        *statement is Initialize,
        scopes_ok(*body),
        stmt_ok(*body, *statement),
        old(states)@.len() == body.locals@.len(),
    ensures
        final(states)@.len() == old(states)@.len(),
        match check_stmt_spec(*body, *statement, old(states)@, old(report)@) {
            Ok(flow) => r == Ok::<bool, Diagnostic>(flow.terminated) && final(states)@ == flow.states && final(report)@ == flow.report,
            Err(f) => r matches Err(d) && reports(d, f),
        },
{
    match statement {
        Statement::Initialize { target, value, span } => {
            if let Err(d) = check_expression(body, value, states) {
                return Err(d);
            }
            if states[target.0] != State::Uninitialized {
                return Err(error("Local is initialized more than once", *span));
            }
            states.set(target.0, State::Initialized);
            Ok(false)
        },
        // The other statements are excluded by the precondition.
        _ => Ok(false),
    }
}

/// Checks a `Store`: a non-Copy place may not be moved into itself, the target must be a
/// resolved place that is not read-only, and the overwritten value is recorded.
fn check_store<'a>(
    body: &'a TypedBody,
    statement: &'a Statement,
    states: &mut Vec<State>,
    report: &mut OwnershipReport<'a>,
) -> (r: Result<bool, Diagnostic>)
    requires
        *statement is Store,
        scopes_ok(*body),
        stmt_ok(*body, *statement),
        old(states)@.len() == body.locals@.len(),
    ensures
        final(states)@.len() == old(states)@.len(),
        match check_stmt_spec(*body, *statement, old(states)@, old(report)@) {
            Ok(flow) => r == Ok::<bool, Diagnostic>(flow.terminated) && final(states)@ == flow.states && final(report)@ == flow.report,
            Err(f) => r matches Err(d) && reports(d, f),
        },
{
    match statement {
        Statement::Store { target, value, span } => {
            proof {
                reveal_with_fuel(expr_locals_ok, 2);
            }
            if let ExpressionKind::Move(source) = &value.kind {
                if let Some(destination) = semantic_place(target) {
                    if let Some(from) = semantic_place(source) {
                        if destination.overlap(from) != PlaceOverlap::Disjoint
                            && body.locals[from.root.0].properties.copy == KnownProperty::No {
                            return Err(error("Cannot assign a non-Copy place from Move of itself", *span));
                        }
                    }
                }
            }
            if let Err(d) = check_expression(body, value, states) {
                return Err(d);
            }
            let place = match semantic_place(target) {
                Some(place) => place,
                None => return Err(error("Store target is not a resolved place", *span)),
            };
            if let Err(d) = check_place_indices(body, place, states) {
                return Err(d);
            }
            let local = place.root;
            if body.locals[local.0].storage == LocalStorage::BorrowedImmutable {
                return Err(error("Cannot assign through a ReadOnly reference", *span));
            }
            let old_value = if place.projections.len() == 0 {
                cleanup_action(body, local, states[local.0])
            } else {
                CleanupAction::Unresolved
            };
            let ghost before = report@;
            let replacement = ReplacementCleanup { span: *span, place, old_value };
            report.replacements.push(replacement);
            assert(report@.replacements =~= before.replacements.push(replacement@));
            assert(report@.exits =~= before.exits);
            if place.projections.len() != 0 {
                if let Err(d) = require_initialized(states[local.0], body.locals[local.0].name.as_str(), *span) {
                    return Err(d);
                }
            } else {
                states.set(local.0, State::Initialized);
            }
            Ok(false)
        },
        // The other statements are excluded by the precondition.
        _ => Ok(false),
    }
}

/// Checks a transfer out of the current scopes: `Return`, `Exit` or `Continue`.
fn check_exit_statement<'a>(
    body: &'a TypedBody,
    statement: &'a Statement,
    states: &mut Vec<State>,
    report: &mut OwnershipReport<'a>,
) -> (r: Result<bool, Diagnostic>)
    requires
        (*statement is Return || *statement is ReturnVoid || *statement is ExitLoop || *statement is ContinueLoop),
        scopes_ok(*body),
        stmt_ok(*body, *statement),
        old(states)@.len() == body.locals@.len(),
    ensures
        final(states)@.len() == old(states)@.len(),
        match check_stmt_spec(*body, *statement, old(states)@, old(report)@) {
            Ok(flow) => r == Ok::<bool, Diagnostic>(flow.terminated) && final(states)@ == flow.states && final(report)@ == flow.report,
            Err(f) => r matches Err(d) && reports(d, f),
        },
{
    match statement {
        Statement::Return { value, exited_scopes, span, .. } => {
            if let Err(d) = check_expression(body, value, states) {
                return Err(d);
            }
            record_exit(body, ExitKind::Return, exited_scopes.as_slice(), *span, states.as_slice(), report);
            Ok(true)
        },
        Statement::ReturnVoid { exited_scopes, span, .. } => {
            record_exit(body, ExitKind::Return, exited_scopes.as_slice(), *span, states.as_slice(), report);
            Ok(true)
        },
        Statement::ExitLoop { exited_scopes, span, .. } => {
            record_exit(body, ExitKind::ExitLoop, exited_scopes.as_slice(), *span, states.as_slice(), report);
            Ok(true)
        },
        Statement::ContinueLoop { exited_scopes, span, .. } => {
            record_exit(body, ExitKind::ContinueLoop, exited_scopes.as_slice(), *span, states.as_slice(), report);
            Ok(true)
        },
        // The other statements are excluded by the precondition.
        _ => Ok(false),
    }
}

/// Checks a statement that only evaluates expressions: a `Sub` call or a
/// collection update.
fn check_collection_or_call<'a>(
    body: &'a TypedBody,
    statement: &'a Statement,
    states: &mut Vec<State>,
    report: &mut OwnershipReport<'a>,
) -> (r: Result<bool, Diagnostic>)
    requires
        (*statement is CallSub || *statement is CollectionAdd || *statement is CollectionRemove),
        scopes_ok(*body),
        stmt_ok(*body, *statement),
        old(states)@.len() == body.locals@.len(),
    ensures
        final(states)@.len() == old(states)@.len(),
        match check_stmt_spec(*body, *statement, old(states)@, old(report)@) {
            Ok(flow) => r == Ok::<bool, Diagnostic>(flow.terminated) && final(states)@ == flow.states && final(report)@ == flow.report,
            Err(f) => r matches Err(d) && reports(d, f),
        },
{
    match statement {
        Statement::CallSub { arguments, .. } => {
            if let Err(d) = check_call_arguments(body, arguments, states) {
                return Err(d);
            }
            Ok(false)
        },
        Statement::CollectionAdd { collection, item, before, .. } => {
            if let Err(d) = check_expression(body, collection, states) {
                return Err(d);
            }
            if let Err(d) = check_expression(body, item, states) {
                return Err(d);
            }
            if let Some(before) = &**before {
                if let Err(d) = check_expression(body, before, states) {
                    return Err(d);
                }
            }
            Ok(false)
        },
        Statement::CollectionRemove { collection, index, .. } => {
            if let Err(d) = check_expression(body, collection, states) {
                return Err(d);
            }
            if let Err(d) = check_expression(body, index, states) {
                return Err(d);
            }
            Ok(false)
        },
        // The other statements are excluded by the precondition.
        _ => Ok(false),
    }
}

/// Checks both branches of an `If` from the same state and joins them.
fn check_if<'a>(
    body: &'a TypedBody,
    statement: &'a Statement,
    states: &mut Vec<State>,
    report: &mut OwnershipReport<'a>,
) -> (r: Result<bool, Diagnostic>)
    requires
        *statement is If,
        scopes_ok(*body),
        stmt_ok(*body, *statement),
        old(states)@.len() == body.locals@.len(),
    ensures
        final(states)@.len() == old(states)@.len(),
        match check_stmt_spec(*body, *statement, old(states)@, old(report)@) {
            Ok(flow) => r == Ok::<bool, Diagnostic>(flow.terminated) && final(states)@ == flow.states && final(report)@ == flow.report,
            Err(f) => r matches Err(d) && reports(d, f),
        },
    decreases statement, 1nat,
{
    match statement {
        Statement::If { condition, then_scope, then_body, else_scope, else_body, span } => {
            if let Err(d) = check_expression(body, condition, states) {
                return Err(d);
            }
            let mut then_states = copy_states(states.as_slice());
            let mut else_states = copy_states(states.as_slice());
            let then_ends = match check_statements(body, then_body.as_slice(), &mut then_states, report) {
                Err(d) => return Err(d),
                Ok(t) => t,
            };
            let else_ends = match check_statements(body, else_body.as_slice(), &mut else_states, report) {
                Err(d) => return Err(d),
                Ok(t) => t,
            };
            if !then_ends {
                let exited = single_scope(*then_scope);
                record_exit(body, ExitKind::Normal, exited.as_slice(), *span, then_states.as_slice(), report);
            }
            if !else_ends {
                let exited = single_scope(*else_scope);
                record_exit(body, ExitKind::Normal, exited.as_slice(), *span, else_states.as_slice(), report);
            }
            if then_ends && else_ends {
                Ok(true)
            } else if then_ends {
                *states = else_states;
                Ok(false)
            } else if else_ends {
                *states = then_states;
                Ok(false)
            } else {
                merge(states, then_states.as_slice(), else_states.as_slice());
                Ok(false)
            }
        },
        // The other statements are excluded by the precondition.
        _ => Ok(false),
    }
}

/// Checks a `Try`/`Finally`: the Finally block runs on every path and may not
/// transfer control outward.
fn check_try_finally<'a>(
    body: &'a TypedBody,
    statement: &'a Statement,
    states: &mut Vec<State>,
    report: &mut OwnershipReport<'a>,
) -> (r: Result<bool, Diagnostic>)
    requires
        *statement is TryFinally,
        scopes_ok(*body),
        stmt_ok(*body, *statement),
        old(states)@.len() == body.locals@.len(),
    ensures
        final(states)@.len() == old(states)@.len(),
        match check_stmt_spec(*body, *statement, old(states)@, old(report)@) {
            Ok(flow) => r == Ok::<bool, Diagnostic>(flow.terminated) && final(states)@ == flow.states && final(report)@ == flow.report,
            Err(f) => r matches Err(d) && reports(d, f),
        },
    decreases statement, 1nat,
{
    match statement {
        Statement::TryFinally { try_scope, try_body, finally_scope, finally_body, span } => {
            let try_terminated = match check_statements(body, try_body.as_slice(), states, report) {
                Err(d) => return Err(d),
                Ok(t) => t,
            };
            if !try_terminated {
                let exited = single_scope(*try_scope);
                record_exit(body, ExitKind::Normal, exited.as_slice(), *span, states.as_slice(), report);
            }
            match check_statements(body, finally_body.as_slice(), states, report) {
                Err(d) => return Err(d),
                Ok(true) => return Err(error("Non-local exit inside typed Finally is not supported", *span)),
                Ok(false) => {},
            }
            let exited = single_scope(*finally_scope);
            record_exit(body, ExitKind::Normal, exited.as_slice(), *span, states.as_slice(), report);
            Ok(try_terminated)
        },
        // The other statements are excluded by the precondition.
        _ => Ok(false),
    }
}

/// Checks a `Try`/`Catch`, with its optional `Finally`.
fn check_try_catch<'a>(
    body: &'a TypedBody,
    statement: &'a Statement,
    states: &mut Vec<State>,
    report: &mut OwnershipReport<'a>,
) -> (r: Result<bool, Diagnostic>)
    requires
        *statement is TryCatch,
        scopes_ok(*body),
        stmt_ok(*body, *statement),
        old(states)@.len() == body.locals@.len(),
    ensures
        final(states)@.len() == old(states)@.len(),
        match check_stmt_spec(*body, *statement, old(states)@, old(report)@) {
            Ok(flow) => r == Ok::<bool, Diagnostic>(flow.terminated) && final(states)@ == flow.states && final(report)@ == flow.report,
            Err(f) => r matches Err(d) && reports(d, f),
        },
    decreases statement, 1nat,
{
    match statement {
        Statement::TryCatch { try_scope, try_body, catch_scope, catch_body, finally_scope, finally_body, span, .. } => {
            let mut try_states = copy_states(states.as_slice());
            let mut catch_states = copy_states(states.as_slice());
            let try_terminated = match check_statements(body, try_body.as_slice(), &mut try_states, report) {
                Err(d) => return Err(d),
                Ok(t) => t,
            };
            let catch_terminated = match check_statements(body, catch_body.as_slice(), &mut catch_states, report) {
                Err(d) => return Err(d),
                Ok(t) => t,
            };
            if !try_terminated {
                let exited = single_scope(*try_scope);
                record_exit(body, ExitKind::Normal, exited.as_slice(), *span, try_states.as_slice(), report);
            }
            if !catch_terminated {
                let exited = single_scope(*catch_scope);
                record_exit(body, ExitKind::Normal, exited.as_slice(), *span, catch_states.as_slice(), report);
            }
            let terminated = try_terminated && catch_terminated;
            if try_terminated && catch_terminated {
            } else if try_terminated {
                *states = catch_states;
            } else if catch_terminated {
                *states = try_states;
            } else {
                merge(states, try_states.as_slice(), catch_states.as_slice());
            }
            if let Some(finally_scope) = finally_scope {
                match check_statements(body, finally_body.as_slice(), states, report) {
                    Err(d) => return Err(d),
                    Ok(true) => return Err(error("Non-local exit inside typed Finally is not supported", *span)),
                    Ok(false) => {},
                }
                let exited = single_scope(*finally_scope);
                record_exit(body, ExitKind::Normal, exited.as_slice(), *span, states.as_slice(), report);
            }
            Ok(terminated)
        },
        // The other statements are excluded by the precondition.
        _ => Ok(false),
    }
}

/// Checks a `Using` block.
fn check_using<'a>(
    body: &'a TypedBody,
    statement: &'a Statement,
    states: &mut Vec<State>,
    report: &mut OwnershipReport<'a>,
) -> (r: Result<bool, Diagnostic>)
    requires
        *statement is UsingDispose,
        scopes_ok(*body),
        stmt_ok(*body, *statement),
        old(states)@.len() == body.locals@.len(),
    ensures
        final(states)@.len() == old(states)@.len(),
        match check_stmt_spec(*body, *statement, old(states)@, old(report)@) {
            Ok(flow) => r == Ok::<bool, Diagnostic>(flow.terminated) && final(states)@ == flow.states && final(report)@ == flow.report,
            Err(f) => r matches Err(d) && reports(d, f),
        },
    decreases statement, 1nat,
{
    match statement {
        Statement::UsingDispose { body_scope, body: using_body, span, .. } => {
            let ended = match check_statements(body, using_body.as_slice(), states, report) {
                Err(d) => return Err(d),
                Ok(t) => t,
            };
            if !ended {
                let exited = single_scope(*body_scope);
                record_exit(body, ExitKind::Normal, exited.as_slice(), *span, states.as_slice(), report);
            }
            Ok(ended)
        },
        // The other statements are excluded by the precondition.
        _ => Ok(false),
    }
}

/// Checks a loop: its condition or bounds, then its body.
fn check_loop_statement<'a>(
    body: &'a TypedBody,
    statement: &'a Statement,
    states: &mut Vec<State>,
    report: &mut OwnershipReport<'a>,
) -> (r: Result<bool, Diagnostic>)
    requires
        (*statement is While || *statement is Do || *statement is For || *statement is ForEach),
        scopes_ok(*body),
        stmt_ok(*body, *statement),
        old(states)@.len() == body.locals@.len(),
    ensures
        final(states)@.len() == old(states)@.len(),
        match check_stmt_spec(*body, *statement, old(states)@, old(report)@) {
            Ok(flow) => r == Ok::<bool, Diagnostic>(flow.terminated) && final(states)@ == flow.states && final(report)@ == flow.report,
            Err(f) => r matches Err(d) && reports(d, f),
        },
    decreases statement, 1nat,
{
    match statement {
        Statement::While { condition, body_scope, body: loop_body, span, .. } => {
            if let Err(d) = check_expression(body, condition, states) {
                return Err(d);
            }
            if let Err(d) = check_loop_body(body, loop_body.as_slice(), *body_scope, *span, states, report) {
                return Err(d);
            }
            Ok(false)
        },
        Statement::Do { condition, body_scope, body: loop_body, span, .. } => {
            let expression = match condition {
                DoCondition::Infinite => None,
                DoCondition::PreWhile(e) | DoCondition::PreUntil(e) | DoCondition::PostWhile(e)
                | DoCondition::PostUntil(e) => Some(e),
            };
            if let Some(expression) = expression {
                if let Err(d) = check_expression(body, expression, states) {
                    return Err(d);
                }
            }
            if let Err(d) = check_loop_body(body, loop_body.as_slice(), *body_scope, *span, states, report) {
                return Err(d);
            }
            Ok(false)
        },
        Statement::For { variable, start, end, step, body_scope, body: loop_body, span, .. } => {
            if let Err(d) = check_expression(body, start, states) {
                return Err(d);
            }
            if let Err(d) = check_expression(body, end, states) {
                return Err(d);
            }
            if let Err(d) = check_expression(body, step, states) {
                return Err(d);
            }
            states.set(variable.0, State::Initialized);
            if let Err(d) = check_loop_body(body, loop_body.as_slice(), *body_scope, *span, states, report) {
                return Err(d);
            }
            Ok(false)
        },
        Statement::ForEach { variable, iterable, body_scope, body: loop_body, span, .. } => {
            if let Err(d) = check_expression(body, iterable, states) {
                return Err(d);
            }
            states.set(variable.0, State::Initialized);
            if let Err(d) = check_loop_body(body, loop_body.as_slice(), *body_scope, *span, states, report) {
                return Err(d);
            }
            Ok(false)
        },

        // The other statements are excluded by the precondition.
        _ => Ok(false),
    }
}

/// Checks a body and discards the cleanup plan.
pub fn check_body(body: &TypedBody) -> (r: Result<(), Diagnostic>)
    requires
        body_ok(*body),
    ensures
        match analyze_spec(*body) {
            Ok(_) => r is Ok,
            Err(f) => r matches Err(d) && reports(d, f),
        },
{
    match analyze_body(body) {
        Ok(_) => Ok(()),
        Err(d) => Err(d),
    }
}

/// Runs the ownership dataflow over a body: every use must read a
/// definitely initialized local, borrows in one call must not conflict, and
/// every exit and overwriting store gets its cleanup decisions.
pub fn analyze_body<'a>(body: &'a TypedBody) -> (r: Result<OwnershipReport<'a>, Diagnostic>)
    requires
        body_ok(*body),
    ensures
        match analyze_spec(*body) {
            Ok(report) => r matches Ok(x) && x@ == report,
            Err(f) => r matches Err(d) && reports(d, f),
        },
{
    let mut states: Vec<State> = Vec::new();
    let mut i: usize = 0;
    while i < body.locals.len()
        invariant
            i <= body.locals@.len(),
            states@ == initial_states(*body).subrange(0, i as int),
        decreases body.locals@.len() - i,
    {
        let state = match body.locals[i].initial_state {
            InitialState::Initialized => State::Initialized,
            InitialState::Uninitialized => State::Uninitialized,
        };
        states.push(state);
        i = i + 1;
        assert(states@ =~= initial_states(*body).subrange(0, i as int));
    }
    assert(initial_states(*body).subrange(0, body.locals@.len() as int) =~= initial_states(*body));
    let mut report = OwnershipReport { exits: Vec::new(), replacements: Vec::new() };
    assert(report@.exits =~= Seq::<ExitView>::empty());
    assert(report@.replacements =~= Seq::<ReplacementView>::empty());
    match check_statements(body, body.statements.as_slice(), &mut states, &mut report) {
        Ok(_) => Ok(report),
        Err(d) => Err(d),
    }
}

/// Joining a path with itself changes nothing.
pub proof fn lemma_merge_same(states: Seq<State>)
    ensures
        merge_spec(states, states) == states,
{
    assert(merge_spec(states, states) =~= states);
}

/// Joining two paths does not depend on their order.
pub proof fn lemma_merge_commutes(left: Seq<State>, right: Seq<State>)
    requires
        left.len() == right.len(),
    ensures
        merge_spec(left, right) == merge_spec(right, left),
{
    assert(merge_spec(left, right) =~= merge_spec(right, left));
}

/// A local is dropped or disposed of only where it definitely holds a value.
pub proof fn lemma_cleanup_only_initialized(body: TypedBody, id: LocalId, state: State)
    ensures
        cleanup_action_spec(body, id, state) is Drop ==> state is Initialized,
        cleanup_action_spec(body, id, state) is NoDrop ==> state is Initialized,
        !(cleanup_action_spec(body, id, state) is Dispose),
{
}

/// Whether a cleanup action is what leaving a scope must do with a local in
/// this state whose type has this cleanup property: a value that definitely
/// holds something needing cleanup is dropped, one needing none is left
/// alone, one of unknown needs is unresolved, and a local without a value
/// (never set, moved out, or only on some paths) is never dropped.
pub open spec fn cleanup_fits(action: CleanupAction, state: State, requires_drop: KnownProperty) -> bool {
    &&& (action is Drop <==> (state is Initialized && requires_drop is Yes))
    &&& (action is NoDrop <==> (state is Initialized && requires_drop is No))
    &&& (action is SkipUninitialized <==> state is Uninitialized)
    &&& (action is SkipMoved <==> state is Moved)
    &&& !(action is Dispose)
}

/// At every exit, each local owned by a scope being left gets the cleanup
/// its state and its type call for: an initialized local whose type needs
/// cleanup is dropped, never leaked, and nothing else is dropped.
pub proof fn lemma_exit_cleanup_fits_state(
    body: TypedBody,
    kind: ExitKind,
    exited: Seq<ScopeId>,
    span: Span,
    states: Seq<State>,
    x: int,
)
    requires
        0 <= x < owned_exit_locals_spec(body.scopes@, body.locals@, exited).len(),
    ensures
        ({
            let id = owned_exit_locals_spec(body.scopes@, body.locals@, exited)[x];
            let e = exit_spec(body, kind, exited, span, states);
            &&& e.locals.len() == owned_exit_locals_spec(body.scopes@, body.locals@, exited).len()
            &&& e.locals[x] == (id, e.locals[x].1)
            &&& cleanup_fits(e.locals[x].1, states[id.0 as int], body.locals@[id.0 as int].properties.requires_drop)
        }),
{
}

/// A resource with an explicit disposal is disposed of exactly when it
/// definitely holds a value; one moved out or never set is skipped, and one
/// set only on some paths is unresolved.
pub proof fn lemma_disposal_follows_state(step: CleanupStep, states: Seq<State>)
    ensures
        handler_decision(step, states) matches HandlerDecision::Dispose(resource, _, action) ==> ({
            &&& (action is Dispose <==> states[resource.0 as int] is Initialized)
            &&& (action is SkipMoved <==> states[resource.0 as int] is Moved)
            &&& (action is SkipUninitialized <==> states[resource.0 as int] is Uninitialized)
            &&& !(action is Drop || action is NoDrop)
        }),
{
}

} // verus!
