//! Structural preconditions for ownership analysis and eventual MIR lowering.
//!
//! A typed body is checked before anything relies on it: every identity
//! matches its index, every local is used inside its lexical scope, every
//! scope is reached exactly once from its parent, every expression has the
//! type its operation gives it, and every transfer of control leaves exactly
//! the scopes between it and its target with their cleanup in order.
use vstd::prelude::*;

use crate::diagnostics::{Diagnostic, DiagnosticCode, Span};
use crate::ownership::{body_ok, expr_locals_ok, fail, reports, scopes_ok, stmt_ok, stmts_ok, Failure};
use crate::text::{eq_ignore_ascii_case, same_ignoring_ascii_case, same_text};
use crate::type_model::{integral, same_type, TypeName};
use crate::typed_hir::{
    cleanup_chain_spec, scopes_in_range, ArgumentMode, CallArgument, CallSignature, CleanupStep, Conversion, DoCondition, Expression,
    ExpressionKind, InitialState, LocalId, LocalStorage, LoopId, Place, Projection, Scope, ScopeCleanup, ScopeId,
    Statement, TypedBody, ValueCategory,
};

verus! {

/// Whether a type is the built-in `Collection` class, its name compared
/// without ASCII case.
pub open spec fn is_collection(t: TypeName) -> bool {
    t matches TypeName::User(name) && same_ignoring_ascii_case(name@, "Collection"@)
}

/// Whether a type is numeric: an integer or a floating type.
pub open spec fn numeric_or_float(t: TypeName) -> bool {
    integral(t) || t is Single || t is Double
}

/// Whether one of the listed types denotes the same type as `t`.
pub open spec fn declares(types: Seq<TypeName>, t: TypeName) -> bool {
    exists|i: int| 0 <= i < types.len() && same_type(#[trigger] types[i], t)
}

/// Whether an argument's value has the shape its passing mode needs: a
/// computed value for `ByVal`, and the matching borrow or move otherwise.
pub open spec fn mode_matches(mode: ArgumentMode, kind: ExpressionKind) -> bool {
    match mode {
        ArgumentMode::ByVal => kind is Constant || kind is Tuple || kind is ArrayInit || kind is Load || kind is Convert
            || kind is Arithmetic || kind is Compare || kind is StringConcat || kind is StringCompare || kind is StringLen
            || kind is StringFormat || kind is Call,
        ArgumentMode::BorrowMutable => kind is BorrowMutable,
        ArgumentMode::BorrowImmutable => kind is BorrowImmutable,
        ArgumentMode::Move => kind is Move,
    }
}

/// Whether following parents from `s` exactly `depth` times reaches a scope
/// without a parent, every scope on the way being a scope of the body.
pub open spec fn rooted(scopes: Seq<Scope>, s: ScopeId, depth: nat) -> bool
    decreases depth,
{
    &&& s.0 < scopes.len()
    &&& if depth == 0 {
        scopes[s.0 as int].parent is None
    } else {
        scopes[s.0 as int].parent matches Some(p) && rooted(scopes, p, (depth - 1) as nat)
    }
}

/// Whether `declared` is `current` or one of the `depth` scopes enclosing it.
pub open spec fn within(scopes: Seq<Scope>, declared: ScopeId, current: ScopeId, depth: nat) -> bool
    decreases depth,
{
    if current == declared {
        true
    } else if depth == 0 {
        false
    } else {
        match scopes[current.0 as int].parent {
            Some(p) => within(scopes, declared, p, (depth - 1) as nat),
            None => false,
        }
    }
}

/// A local may be named only inside the scope that declares it or a scope
/// nested in it.
pub open spec fn verify_local_spec(body: TypedBody, local: LocalId, current: ScopeId, span: Span, depth: nat) -> Result<(), Failure> {
    if local.0 >= body.locals@.len() {
        Err(fail("Local ID is out of range"@, span))
    } else if within(body.scopes@, body.locals@[local.0 as int].scope, current, depth) {
        Ok(())
    } else {
        Err(fail("Local is referenced outside its lexical scope"@, span))
    }
}

/// The result of checking a call against its resolved signature: the shape
/// first, then each argument in order.
pub open spec fn verify_call_spec(
    body: TypedBody,
    signature: CallSignature,
    arguments: Seq<CallArgument>,
    ty: TypeName,
    span: Span,
    current: ScopeId,
    depth: nat,
) -> Result<(), Failure>
    decreases arguments, arguments.len() + 1,
{
    if signature.parameter_types@.len() != arguments.len() || signature.parameter_modes@.len() != arguments.len()
        || !same_type(ty, signature.return_type) {
        Err(fail("Call does not match its resolved signature"@, span))
    } else {
        verify_args_spec(body, arguments, signature.parameter_types@, signature.parameter_modes@, 0, current, depth)
    }
}

/// Checks the arguments of a call from position `k` on: the passing mode,
/// the type, the shape of the value, then the value itself.
pub open spec fn verify_args_spec(
    body: TypedBody,
    arguments: Seq<CallArgument>,
    types: Seq<TypeName>,
    modes: Seq<ArgumentMode>,
    k: int,
    current: ScopeId,
    depth: nat,
) -> Result<(), Failure>
    decreases arguments, arguments.len() - k,
{
    if k < 0 || k >= arguments.len() {
        Ok(())
    } else {
        let a = arguments[k];
        if a.mode != modes[k] {
            Err(fail("Call argument has the wrong resolved passing mode"@, a.value.span))
        } else if !same_type(a.value.ty, types[k]) {
            Err(fail("Call argument has the wrong resolved type"@, a.value.span))
        } else if !mode_matches(a.mode, a.value.kind) {
            Err(fail("Call argument mode does not match its value category"@, a.value.span))
        } else {
            match verify_expr_spec(body, a.value, current, depth) {
                Err(f) => Err(f),
                Ok(_) => verify_args_spec(body, arguments, types, modes, k + 1, current, depth),
            }
        }
    }
}

/// Checks the elements of a tuple constructor from position `k` on against
/// the element types of the tuple.
pub open spec fn verify_tuple_spec(
    body: TypedBody,
    values: Seq<Expression>,
    elements: Seq<(Option<String>, TypeName)>,
    k: int,
    current: ScopeId,
    depth: nat,
) -> Result<(), Failure>
    decreases values, values.len() - k,
{
    if k < 0 || k >= values.len() {
        Ok(())
    } else {
        match verify_expr_spec(body, values[k], current, depth) {
            Err(f) => Err(f),
            Ok(_) => if !same_type(values[k].ty, elements[k].1) {
                Err(fail("Tuple element has the wrong type"@, values[k].span))
            } else {
                verify_tuple_spec(body, values, elements, k + 1, current, depth)
            },
        }
    }
}

/// Follows the projections of a place from position `k` on, starting from a
/// part of type `place_type`: the type of the part reached, or why a step is
/// invalid.
pub open spec fn verify_projections_spec(
    body: TypedBody,
    projections: Seq<Projection>,
    k: int,
    place_type: TypeName,
    current: ScopeId,
    span: Span,
    depth: nat,
) -> Result<TypeName, Failure>
    decreases projections, projections.len() - k,
{
    if k < 0 || k >= projections.len() {
        Ok(place_type)
    } else {
        match projections[k] {
            Projection::Field(id) => if id.0 >= body.fields@.len() {
                Err(fail("Invalid field identity"@, span))
            } else {
                let field = body.fields@[id.0 as int];
                if field.id != id || !same_type(field.owner, place_type) {
                    Err(fail("Field projection has the wrong owner type"@, span))
                } else {
                    verify_projections_spec(body, projections, k + 1, field.ty, current, span, depth)
                }
            },
            Projection::TupleField(index) => match place_type {
                TypeName::Tuple(elements) => if index >= elements@.len() {
                    Err(fail("Tuple-field index is out of range"@, span))
                } else {
                    verify_projections_spec(body, projections, k + 1, elements@[index as int].1, current, span, depth)
                },
                _ => Err(fail("Tuple-field projection requires a tuple place"@, span)),
            },
            Projection::Index(index) => match verify_expr_spec(body, *index.index, current, depth) {
                Err(f) => Err(f),
                Ok(_) => match place_type {
                    TypeName::Array(element) => if !integral(index.index.ty) || !same_type(*element, index.element_type) {
                        Err(fail("Index projection has incompatible types"@, span))
                    } else {
                        verify_projections_spec(body, projections, k + 1, index.element_type, current, span, depth)
                    },
                    _ => Err(fail("Index projection requires an array place"@, span)),
                },
            },
        }
    }
}

/// Checks a unary operation: its operand, then whether the types fit.
pub open spec fn after_operand(operand: Result<(), Failure>, types_fit: bool, message: Seq<char>, span: Span) -> Result<(), Failure> {
    match operand {
        Err(f) => Err(f),
        Ok(_) => if types_fit {
            Ok(())
        } else {
            Err(fail(message, span))
        },
    }
}

/// Checks a binary operation: the left operand, the right one, then whether
/// the types fit.
pub open spec fn after_operands(
    left: Result<(), Failure>,
    right: Result<(), Failure>,
    types_fit: bool,
    message: Seq<char>,
    span: Span,
) -> Result<(), Failure> {
    match left {
        Err(f) => Err(f),
        Ok(_) => after_operand(right, types_fit, message, span),
    }
}

/// Whether an expression is well formed: its operands are, and its type and
/// category are those its operation gives.
pub open spec fn verify_expr_spec(body: TypedBody, e: Expression, current: ScopeId, depth: nat) -> Result<(), Failure>
    decreases e, 0nat,
{
    let span = e.span;
    match e.kind {
        ExpressionKind::Constant(_) | ExpressionKind::ArrayInit { .. } => Ok(()),
        ExpressionKind::NewCollection => if is_collection(e.ty) {
            Ok(())
        } else {
            Err(fail("Collection allocation has wrong type"@, span))
        },
        ExpressionKind::BoxDynamic(value) => after_operand(
            verify_expr_spec(body, *value, current, depth),
            e.ty is Variant && !(value.ty is Variant),
            "Dynamic box types are invalid"@,
            span,
        ),
        ExpressionKind::UnboxDynamic { value, target } => after_operand(
            verify_expr_spec(body, *value, current, depth),
            value.ty is Variant && same_type(e.ty, target),
            "Dynamic unbox types are invalid"@,
            span,
        ),
        ExpressionKind::CollectionCount(value) => after_operand(
            verify_expr_spec(body, *value, current, depth),
            e.ty is Int32 && is_collection(value.ty),
            "Collection.Count types are invalid"@,
            span,
        ),
        ExpressionKind::CollectionItem { collection, index } => after_operands(
            verify_expr_spec(body, *collection, current, depth),
            verify_expr_spec(body, *index, current, depth),
            e.ty is Variant && index.ty is Int64 && is_collection(collection.ty),
            "Collection.Item types are invalid"@,
            span,
        ),
        ExpressionKind::NewClass(ty) => if declares(body.classes@, ty) && same_type(e.ty, ty) {
            Ok(())
        } else {
            Err(fail("Class allocation has an unresolved type"@, span))
        },
        ExpressionKind::StringLen(value) => after_operand(
            verify_expr_spec(body, *value, current, depth),
            value.ty is String && e.ty is Int32,
            "String length has incompatible types"@,
            span,
        ),
        ExpressionKind::StringFormat { value, decimals } => after_operand(
            verify_expr_spec(body, *value, current, depth),
            e.ty is String && (integral(value.ty) || value.ty is Single || value.ty is Double || value.ty is Boolean)
                && !(decimals matches Some(d) && d > 6),
            "String interpolation format is invalid"@,
            span,
        ),
        ExpressionKind::StringConcat { left, right } => after_operands(
            verify_expr_spec(body, *left, current, depth),
            verify_expr_spec(body, *right, current, depth),
            left.ty is String && right.ty is String && e.ty is String,
            "String operation has incompatible types"@,
            span,
        ),
        ExpressionKind::StringCompare { left, right, .. } => after_operands(
            verify_expr_spec(body, *left, current, depth),
            verify_expr_spec(body, *right, current, depth),
            left.ty is String && right.ty is String && e.ty is Boolean,
            "String operation has incompatible types"@,
            span,
        ),
        ExpressionKind::ReferenceIdentity { left, right, .. } => after_operands(
            verify_expr_spec(body, *left, current, depth),
            verify_expr_spec(body, *right, current, depth),
            same_type(left.ty, right.ty) && e.ty is Boolean && declares(body.classes@, left.ty),
            "Reference identity operands are invalid"@,
            span,
        ),
        ExpressionKind::Tuple(values) => match e.ty {
            TypeName::Tuple(elements) => if values@.len() != elements@.len() {
                Err(fail("Tuple constructor arity differs from its type"@, span))
            } else {
                proof {
                    vstd::std_specs::vec::axiom_vec_decreases_to_view(values);
                }
                verify_tuple_spec(body, values@, elements@, 0, current, depth)
            },
            _ => Err(fail("Tuple constructor has a non-tuple type"@, span)),
        },
        ExpressionKind::Place(place) => match verify_local_spec(body, place.root, current, span, depth) {
            Err(f) => Err(f),
            Ok(_) => match {
                proof {
                    vstd::std_specs::vec::axiom_vec_decreases_to_view(place.projections);
                }
                verify_projections_spec(
                body,
                place.projections@,
                0,
                body.locals@[place.root.0 as int].ty,
                current,
                span,
                depth,
            )} {
                Err(f) => Err(f),
                Ok(t) => if !(e.category is Place) || !same_type(t, e.ty) {
                    Err(fail("Place has an incorrect type or category"@, span))
                } else {
                    Ok(())
                },
            },
        },
        ExpressionKind::Load(place) | ExpressionKind::BorrowMutable(place) | ExpressionKind::BorrowImmutable(place)
        | ExpressionKind::Move(place) => after_operand(
            verify_expr_spec(body, *place, current, depth),
            place.category is Place && same_type(place.ty, e.ty),
            "Load or borrow does not match its place"@,
            span,
        ),
        ExpressionKind::Convert { value, conversion } => after_operand(
            verify_expr_spec(body, *value, current, depth),
            numeric_or_float(value.ty) && numeric_or_float(e.ty) && !(conversion is TruncateToInteger && !integral(e.ty)),
            "Numeric conversion has incompatible types"@,
            span,
        ),
        ExpressionKind::Arithmetic { signature, left, right, .. } => after_operands(
            verify_expr_spec(body, *left, current, depth),
            verify_expr_spec(body, *right, current, depth),
            same_type(left.ty, signature.operand_type) && same_type(right.ty, signature.operand_type) && same_type(
                e.ty,
                signature.result_type,
            ),
            "Arithmetic types do not match the resolved signature"@,
            span,
        ),
        ExpressionKind::Compare { left, right, .. } => after_operands(
            verify_expr_spec(body, *left, current, depth),
            verify_expr_spec(body, *right, current, depth),
            same_type(left.ty, right.ty) && e.ty is Boolean,
            "Comparison operands or result have incompatible types"@,
            span,
        ),
        ExpressionKind::Call { signature, arguments, .. } => {
            proof {
                vstd::std_specs::vec::axiom_vec_decreases_to_view(arguments);
            }
            verify_call_spec(body, signature, arguments@, e.ty, span, current, depth)
        },
    }
}

/// The diagnostic for a structurally invalid body.
fn invalid(message: &str, span: Span) -> (d: Diagnostic)
    ensures
        reports(d, fail(message@, span)),
{
    Diagnostic::new(DiagnosticCode::TypeMismatch, String::from_str(message), Some(span))
}

/// Whether a type is the built-in `Collection` class.
fn collection_type(t: &TypeName) -> (r: bool)
    ensures
        r == is_collection(*t),
{
    match t {
        TypeName::User(name) => eq_ignore_ascii_case(name.as_str(), "Collection"),
        _ => false,
    }
}

/// Whether a type is an integer or floating type.
fn numeric_type(t: &TypeName) -> (r: bool)
    ensures
        r == numeric_or_float(*t),
{
    t.is_integral() || matches!(t, TypeName::Single | TypeName::Double)
}

/// Whether one of `types` denotes the same type as `t`.
fn any_same_type(types: &Vec<TypeName>, t: &TypeName) -> (r: bool)
    ensures
        r == declares(types@, *t),
{
    let mut i: usize = 0;
    while i < types.len()
        invariant
            i <= types@.len(),
            forall|j: int| 0 <= j < i ==> !same_type(#[trigger] types@[j], *t),
        decreases types@.len() - i,
    {
        if types[i].same_type(t) {
            return true;
        }
        i = i + 1;
    }
    false
}

/// Whether an argument's value has the shape its passing mode needs.
fn argument_shape_matches(mode: ArgumentMode, kind: &ExpressionKind) -> (r: bool)
    ensures
        r == mode_matches(mode, *kind),
{
    match mode {
        ArgumentMode::ByVal => matches!(
            kind,
            ExpressionKind::Constant(_) | ExpressionKind::Tuple(_) | ExpressionKind::ArrayInit { .. } | ExpressionKind::Load(_)
            | ExpressionKind::Convert { .. } | ExpressionKind::Arithmetic { .. } | ExpressionKind::Compare { .. }
            | ExpressionKind::StringConcat { .. } | ExpressionKind::StringCompare { .. } | ExpressionKind::StringLen(_)
            | ExpressionKind::StringFormat { .. } | ExpressionKind::Call { .. }
        ),
        ArgumentMode::BorrowMutable => matches!(kind, ExpressionKind::BorrowMutable(_)),
        ArgumentMode::BorrowImmutable => matches!(kind, ExpressionKind::BorrowImmutable(_)),
        ArgumentMode::Move => matches!(kind, ExpressionKind::Move(_)),
    }
}

/// Checks that a local is named only inside its declaring scope or a scope
/// nested in it.
fn verify_local(body: &TypedBody, local: LocalId, current: ScopeId, span: Span, Ghost(depth): Ghost<nat>) -> (r: Result<(), Diagnostic>)
    requires
        rooted(body.scopes@, current, depth),
    ensures
        match verify_local_spec(*body, local, current, span, depth) {
            Ok(_) => r is Ok,
            Err(f) => r matches Err(d) && reports(d, f),
        },
{
    if local.0 >= body.locals.len() {
        return Err(invalid("Local ID is out of range", span));
    }
    let declared = body.locals[local.0].scope;
    let mut scope = current;
    let ghost mut d = depth;
    loop
        invariant
            rooted(body.scopes@, scope, d),
            local.0 < body.locals@.len(),
            declared == body.locals@[local.0 as int].scope,
            within(body.scopes@, declared, current, depth) == within(body.scopes@, declared, scope, d),
        decreases d,
    {
        if scope == declared {
            return Ok(());
        }
        match body.scopes[scope.0].parent {
            Some(parent) => {
                scope = parent;
                proof {
                    d = (d - 1) as nat;
                }
            },
            None => return Err(invalid("Local is referenced outside its lexical scope", span)),
        }
    }
}

/// The result the spec gives an expression, as the checks below report it.
pub open spec fn reported(spec: Result<(), Failure>, r: Result<(), Diagnostic>) -> bool {
    match spec {
        Ok(_) => r is Ok,
        Err(f) => r matches Err(d) && reports(d, f),
    }
}

/// Checks an expression: its operands first, then its own types.
fn verify_expression(body: &TypedBody, expression: &Expression, current: ScopeId, Ghost(depth): Ghost<nat>) -> (r: Result<(), Diagnostic>)
    requires
        rooted(body.scopes@, current, depth),
    ensures
        reported(verify_expr_spec(*body, *expression, current, depth), r),
    decreases expression, 2nat,
{
    match &expression.kind {
        ExpressionKind::Constant(_) | ExpressionKind::ArrayInit { .. } | ExpressionKind::NewCollection
        | ExpressionKind::NewClass(_) => verify_allocation(body, expression),
        ExpressionKind::BoxDynamic(_) | ExpressionKind::UnboxDynamic { .. } | ExpressionKind::CollectionCount(_)
        | ExpressionKind::StringLen(_) | ExpressionKind::StringFormat { .. } | ExpressionKind::Load(_)
        | ExpressionKind::BorrowMutable(_) | ExpressionKind::BorrowImmutable(_) | ExpressionKind::Move(_)
        | ExpressionKind::Convert { .. } => verify_unary(body, expression, current, Ghost(depth)),
        ExpressionKind::CollectionItem { .. } | ExpressionKind::StringConcat { .. } | ExpressionKind::StringCompare { .. }
        | ExpressionKind::ReferenceIdentity { .. } | ExpressionKind::Arithmetic { .. } | ExpressionKind::Compare { .. } => verify_binary(
            body,
            expression,
            current,
            Ghost(depth),
        ),
        ExpressionKind::Tuple(_) => verify_tuple(body, expression, current, Ghost(depth)),
        ExpressionKind::Place(place) => verify_place(body, place, expression, current, Ghost(depth)),
        ExpressionKind::Call { signature, arguments, .. } => {
            proof {
                assert(decreases_to!(expression.kind => expression.kind->Call_arguments));
                vstd::std_specs::vec::axiom_vec_decreases_to_view(*arguments);
            }
            verify_call(body, signature, arguments, &expression.ty, expression.span, current, Ghost(depth))
        },
    }
}

/// Checks an expression without operands: a constant or an allocation.
fn verify_allocation(body: &TypedBody, expression: &Expression) -> (r: Result<(), Diagnostic>)
    requires
        expression.kind is Constant || expression.kind is ArrayInit || expression.kind is NewCollection
            || expression.kind is NewClass,
    ensures
        forall|current: ScopeId, depth: nat| reported(#[trigger] verify_expr_spec(*body, *expression, current, depth), r),
{
    match &expression.kind {
        ExpressionKind::NewCollection => if collection_type(&expression.ty) {
            Ok(())
        } else {
            Err(invalid("Collection allocation has wrong type", expression.span))
        },
        ExpressionKind::NewClass(ty) => if any_same_type(&body.classes, ty) && expression.ty.same_type(ty) {
            Ok(())
        } else {
            Err(invalid("Class allocation has an unresolved type", expression.span))
        },
        _ => Ok(()),
    }
}

/// Checks an expression with one operand.
fn verify_unary(body: &TypedBody, expression: &Expression, current: ScopeId, Ghost(depth): Ghost<nat>) -> (r: Result<(), Diagnostic>)
    requires
        rooted(body.scopes@, current, depth),
        expression.kind is BoxDynamic || expression.kind is UnboxDynamic || expression.kind is CollectionCount
            || expression.kind is StringLen || expression.kind is StringFormat || expression.kind is Load
            || expression.kind is BorrowMutable || expression.kind is BorrowImmutable || expression.kind is Move
            || expression.kind is Convert,
    ensures
        reported(verify_expr_spec(*body, *expression, current, depth), r),
    decreases expression, 1nat,
{
    let span = expression.span;
    match &expression.kind {
        ExpressionKind::BoxDynamic(value) => {
            if let Err(d) = verify_expression(body, value, current, Ghost(depth)) {
                return Err(d);
            }
            if matches!(expression.ty, TypeName::Variant) && !matches!(value.ty, TypeName::Variant) {
                Ok(())
            } else {
                Err(invalid("Dynamic box types are invalid", span))
            }
        },
        ExpressionKind::UnboxDynamic { value, target } => {
            if let Err(d) = verify_expression(body, value, current, Ghost(depth)) {
                return Err(d);
            }
            if matches!(value.ty, TypeName::Variant) && expression.ty.same_type(target) {
                Ok(())
            } else {
                Err(invalid("Dynamic unbox types are invalid", span))
            }
        },
        ExpressionKind::CollectionCount(value) => {
            if let Err(d) = verify_expression(body, value, current, Ghost(depth)) {
                return Err(d);
            }
            if matches!(expression.ty, TypeName::Int32) && collection_type(&value.ty) {
                Ok(())
            } else {
                Err(invalid("Collection.Count types are invalid", span))
            }
        },
        ExpressionKind::StringLen(value) => {
            if let Err(d) = verify_expression(body, value, current, Ghost(depth)) {
                return Err(d);
            }
            if !matches!(value.ty, TypeName::String) || !matches!(expression.ty, TypeName::Int32) {
                return Err(invalid("String length has incompatible types", span));
            }
            Ok(())
        },
        ExpressionKind::StringFormat { value, decimals } => {
            if let Err(d) = verify_expression(body, value, current, Ghost(depth)) {
                return Err(d);
            }
            let too_precise = match decimals {
                Some(digits) => *digits > 6,
                None => false,
            };
            if !matches!(expression.ty, TypeName::String) || !(value.ty.is_integral() || matches!(
                value.ty,
                TypeName::Single | TypeName::Double | TypeName::Boolean
            )) || too_precise {
                return Err(invalid("String interpolation format is invalid", span));
            }
            Ok(())
        },
        ExpressionKind::Load(place) | ExpressionKind::BorrowMutable(place) | ExpressionKind::BorrowImmutable(place)
        | ExpressionKind::Move(place) => {
            if let Err(d) = verify_expression(body, place, current, Ghost(depth)) {
                return Err(d);
            }
            if place.category != ValueCategory::Place || !place.ty.same_type(&expression.ty) {
                return Err(invalid("Load or borrow does not match its place", span));
            }
            Ok(())
        },
        ExpressionKind::Convert { value, conversion } => {
            if let Err(d) = verify_expression(body, value, current, Ghost(depth)) {
                return Err(d);
            }
            if !numeric_type(&value.ty) || !numeric_type(&expression.ty) || (*conversion == Conversion::TruncateToInteger
                && !expression.ty.is_integral()) {
                return Err(invalid("Numeric conversion has incompatible types", span));
            }
            Ok(())
        },
        // The other expressions are excluded by the precondition.
        _ => Ok(()),
    }
}

/// Checks an expression with two operands, the left one first.
fn verify_binary(body: &TypedBody, expression: &Expression, current: ScopeId, Ghost(depth): Ghost<nat>) -> (r: Result<(), Diagnostic>)
    requires
        rooted(body.scopes@, current, depth),
        expression.kind is CollectionItem || expression.kind is StringConcat || expression.kind is StringCompare
            || expression.kind is ReferenceIdentity || expression.kind is Arithmetic || expression.kind is Compare,
    ensures
        reported(verify_expr_spec(*body, *expression, current, depth), r),
    decreases expression, 1nat,
{
    let span = expression.span;
    match &expression.kind {
        ExpressionKind::CollectionItem { collection, index } => {
            if let Err(d) = verify_expression(body, collection, current, Ghost(depth)) {
                return Err(d);
            }
            if let Err(d) = verify_expression(body, index, current, Ghost(depth)) {
                return Err(d);
            }
            if matches!(expression.ty, TypeName::Variant) && matches!(index.ty, TypeName::Int64) && collection_type(
                &collection.ty,
            ) {
                Ok(())
            } else {
                Err(invalid("Collection.Item types are invalid", span))
            }
        },
        ExpressionKind::StringConcat { left, right } | ExpressionKind::StringCompare { left, right, .. } => {
            if let Err(d) = verify_expression(body, left, current, Ghost(depth)) {
                return Err(d);
            }
            if let Err(d) = verify_expression(body, right, current, Ghost(depth)) {
                return Err(d);
            }
            let result_fits = if matches!(expression.kind, ExpressionKind::StringConcat { .. }) {
                matches!(expression.ty, TypeName::String)
            } else {
                matches!(expression.ty, TypeName::Boolean)
            };
            if !matches!(left.ty, TypeName::String) || !matches!(right.ty, TypeName::String) || !result_fits {
                return Err(invalid("String operation has incompatible types", span));
            }
            Ok(())
        },
        ExpressionKind::ReferenceIdentity { left, right, .. } => {
            if let Err(d) = verify_expression(body, left, current, Ghost(depth)) {
                return Err(d);
            }
            if let Err(d) = verify_expression(body, right, current, Ghost(depth)) {
                return Err(d);
            }
            if !left.ty.same_type(&right.ty) || !matches!(expression.ty, TypeName::Boolean) || !any_same_type(
                &body.classes,
                &left.ty,
            ) {
                return Err(invalid("Reference identity operands are invalid", span));
            }
            Ok(())
        },
        ExpressionKind::Arithmetic { signature, left, right, .. } => {
            if let Err(d) = verify_expression(body, left, current, Ghost(depth)) {
                return Err(d);
            }
            if let Err(d) = verify_expression(body, right, current, Ghost(depth)) {
                return Err(d);
            }
            if !left.ty.same_type(&signature.operand_type) || !right.ty.same_type(&signature.operand_type)
                || !expression.ty.same_type(&signature.result_type) {
                return Err(invalid("Arithmetic types do not match the resolved signature", span));
            }
            Ok(())
        },
        ExpressionKind::Compare { left, right, .. } => {
            if let Err(d) = verify_expression(body, left, current, Ghost(depth)) {
                return Err(d);
            }
            if let Err(d) = verify_expression(body, right, current, Ghost(depth)) {
                return Err(d);
            }
            if !left.ty.same_type(&right.ty) || !matches!(expression.ty, TypeName::Boolean) {
                return Err(invalid("Comparison operands or result have incompatible types", span));
            }
            Ok(())
        },
        // The other expressions are excluded by the precondition.
        _ => Ok(()),
    }
}

/// Checks a tuple constructor: a tuple type of the same arity, and each
/// element of its element's type.
fn verify_tuple(body: &TypedBody, expression: &Expression, current: ScopeId, Ghost(depth): Ghost<nat>) -> (r: Result<(), Diagnostic>)
    requires
        rooted(body.scopes@, current, depth),
        expression.kind is Tuple,
    ensures
        reported(verify_expr_spec(*body, *expression, current, depth), r),
    decreases expression, 1nat,
{
    match &expression.kind {
        ExpressionKind::Tuple(values) => {
            let elements = match &expression.ty {
                TypeName::Tuple(elements) => elements,
                _ => return Err(invalid("Tuple constructor has a non-tuple type", expression.span)),
            };
            if values.len() != elements.len() {
                return Err(invalid("Tuple constructor arity differs from its type", expression.span));
            }
            let mut k: usize = 0;
            while k < values.len()
                invariant
                    expression.kind == ExpressionKind::Tuple(*values),
                    expression.ty == TypeName::Tuple(*elements),
                    values@.len() == elements@.len(),
                    k <= values@.len(),
                    rooted(body.scopes@, current, depth),
                    verify_tuple_spec(*body, values@, elements@, 0, current, depth) == verify_tuple_spec(
                        *body,
                        values@,
                        elements@,
                        k as int,
                        current,
                        depth,
                    ),
                decreases values@.len() - k,
            {
                proof {
                    assert(decreases_to!(expression.kind => expression.kind->Tuple_0));
                    vstd::std_specs::vec::axiom_vec_index_decreases(*values, k as int);
                }
                if let Err(d) = verify_expression(body, &values[k], current, Ghost(depth)) {
                    return Err(d);
                }
                if !values[k].ty.same_type(&elements[k].1) {
                    return Err(invalid("Tuple element has the wrong type", values[k].span));
                }
                k = k + 1;
            }
            Ok(())
        },
        // The other expressions are excluded by the precondition.
        _ => Ok(()),
    }
}

/// Checks a place: its local is in scope, each projection applies to the
/// part reached so far, and the part reached has the expression's type.
fn verify_place(body: &TypedBody, place: &Place, expression: &Expression, current: ScopeId, Ghost(depth): Ghost<nat>) -> (r: Result<(), Diagnostic>)
    requires
        rooted(body.scopes@, current, depth),
        expression.kind == ExpressionKind::Place(*place),
    ensures
        reported(verify_expr_spec(*body, *expression, current, depth), r),
    decreases place, 0nat,
{
    let span = expression.span;
    if let Err(d) = verify_local(body, place.root, current, span, Ghost(depth)) {
        return Err(d);
    }
    let mut place_type: &TypeName = &body.locals[place.root.0].ty;
    let ghost start = body.locals@[place.root.0 as int].ty;
    let mut k: usize = 0;
    while k < place.projections.len()
        invariant
            k <= place.projections@.len(),
            rooted(body.scopes@, current, depth),
            expression.kind == ExpressionKind::Place(*place),
            span == expression.span,
            verify_local_spec(*body, place.root, current, span, depth) is Ok,
            place.root.0 < body.locals@.len(),
            start == body.locals@[place.root.0 as int].ty,
            verify_projections_spec(*body, place.projections@, 0, start, current, span, depth) == verify_projections_spec(
                *body,
                place.projections@,
                k as int,
                *place_type,
                current,
                span,
                depth,
            ),
        decreases place.projections@.len() - k,
    {
        match &place.projections[k] {
            Projection::Field(id) => {
                if id.0 >= body.fields.len() {
                    return Err(invalid("Invalid field identity", span));
                }
                let field = &body.fields[id.0];
                if field.id != *id || !field.owner.same_type(place_type) {
                    return Err(invalid("Field projection has the wrong owner type", span));
                }
                place_type = &field.ty;
            },
            Projection::TupleField(index) => {
                let elements = match place_type {
                    TypeName::Tuple(elements) => elements,
                    _ => return Err(invalid("Tuple-field projection requires a tuple place", span)),
                };
                if *index >= elements.len() {
                    return Err(invalid("Tuple-field index is out of range", span));
                }
                place_type = &elements[*index].1;
            },
            Projection::Index(index) => {
                proof {
                    assert(place.projections@[k as int] matches Projection::Index(index));
                    vstd::std_specs::vec::axiom_vec_index_decreases(place.projections, k as int);
                }
                if let Err(d) = verify_expression(body, &index.index, current, Ghost(depth)) {
                    return Err(d);
                }
                let element = match place_type {
                    TypeName::Array(element) => element,
                    _ => return Err(invalid("Index projection requires an array place", span)),
                };
                if !index.index.ty.is_integral() || !(&**element).same_type(&index.element_type) {
                    return Err(invalid("Index projection has incompatible types", span));
                }
                place_type = &index.element_type;
            },
        }
        k = k + 1;
    }
    if expression.category != ValueCategory::Place || !place_type.same_type(&expression.ty) {
        return Err(invalid("Place has an incorrect type or category", span));
    }
    Ok(())
}

/// Checks a call against its resolved signature: the arity and result type,
/// then each argument's passing mode, type and shape, then its value.
fn verify_call(
    body: &TypedBody,
    signature: &CallSignature,
    arguments: &Vec<CallArgument>,
    ty: &TypeName,
    span: Span,
    current: ScopeId,
    Ghost(depth): Ghost<nat>,
) -> (r: Result<(), Diagnostic>)
    requires
        rooted(body.scopes@, current, depth),
    ensures
        reported(verify_call_spec(*body, *signature, arguments@, *ty, span, current, depth), r),
    decreases arguments@, 0nat,
{
    if signature.parameter_types.len() != arguments.len() || signature.parameter_modes.len() != arguments.len()
        || !ty.same_type(&signature.return_type) {
        return Err(invalid("Call does not match its resolved signature", span));
    }
    let mut k: usize = 0;
    while k < arguments.len()
        invariant
            k <= arguments@.len(),
            signature.parameter_types@.len() == arguments@.len(),
            signature.parameter_modes@.len() == arguments@.len(),
            same_type(*ty, signature.return_type),
            rooted(body.scopes@, current, depth),
            verify_args_spec(*body, arguments@, signature.parameter_types@, signature.parameter_modes@, 0, current, depth)
                == verify_args_spec(
                *body,
                arguments@,
                signature.parameter_types@,
                signature.parameter_modes@,
                k as int,
                current,
                depth,
            ),
        decreases arguments@.len() - k,
    {
        let argument = &arguments[k];
        if argument.mode != signature.parameter_modes[k] {
            return Err(invalid("Call argument has the wrong resolved passing mode", argument.value.span));
        }
        if !argument.value.ty.same_type(&signature.parameter_types[k]) {
            return Err(invalid("Call argument has the wrong resolved type", argument.value.span));
        }
        if !argument_shape_matches(argument.mode, &argument.value.kind) {
            return Err(invalid("Call argument mode does not match its value category", argument.value.span));
        }
        if let Err(d) = verify_expression(body, &argument.value, current, Ghost(depth)) {
            return Err(d);
        }
        k = k + 1;
    }
    Ok(())
}

/// A loop that encloses the statements being checked, and the scope that
/// holds the loop statement.
#[derive(Clone, Copy)]
pub struct LoopFrame {
    pub id: LoopId,
    pub parent: ScopeId,
}

/// The innermost enclosing loop with the given identity.
pub open spec fn innermost_frame(loops: Seq<LoopFrame>, id: LoopId) -> Option<LoopFrame>
    decreases loops.len(),
{
    if loops.len() == 0 {
        None
    } else if loops.last().id == id {
        Some(loops.last())
    } else {
        innermost_frame(loops.drop_last(), id)
    }
}

/// The scopes a transfer from `current` leaves, innermost first: up to and
/// without `stop`, or every scope out to the root when there is no stop.
/// `None` when the walk reaches the root without meeting `stop`.
pub open spec fn chain_spec(scopes: Seq<Scope>, current: ScopeId, stop: Option<ScopeId>, depth: nat) -> Option<Seq<ScopeId>>
    decreases depth,
{
    if stop == Some(current) {
        Some(Seq::empty())
    } else if depth == 0 {
        if stop is Some {
            None
        } else {
            Some(seq![current])
        }
    } else {
        match scopes[current.0 as int].parent {
            Some(p) => match chain_spec(scopes, p, stop, (depth - 1) as nat) {
                Some(rest) => Some(seq![current] + rest),
                None => None,
            },
            None => None,
        }
    }
}

/// Enters a child scope: it must be a scope whose parent is the current one,
/// and not entered before.
pub open spec fn visit_child_spec(body: TypedBody, child: ScopeId, parent: ScopeId, span: Span, visited: Seq<bool>) -> Result<Seq<bool>, Failure> {
    if child.0 >= body.scopes@.len() || body.scopes@[child.0 as int].parent != Some(parent) || child.0 >= visited.len()
        || visited[child.0 as int] {
        Err(fail("HIR child scope has an invalid parent or is reused"@, span))
    } else {
        Ok(visited.update(child.0 as int, true))
    }
}

/// The handlers of a scope as a list: one Finally region, or none.
pub open spec fn finally_handlers(finally_scope: Option<ScopeId>) -> Seq<ScopeCleanup> {
    match finally_scope {
        Some(f) => seq![ScopeCleanup::FinallyRegion { finally_scope: f }],
        None => Seq::empty(),
    }
}

/// Whether a statement can transfer control out of the statements that hold
/// it: a return, a loop exit or continue, at any depth.
pub open spec fn exits_outward(s: Statement) -> bool
    decreases s, 1nat,
{
    match s {
        Statement::Return { .. } | Statement::ReturnVoid { .. } | Statement::ExitLoop { .. }
        | Statement::ContinueLoop { .. } => true,
        Statement::If { then_body, else_body, .. } => exits_from(then_body@, 0) || exits_from(else_body@, 0),
        Statement::While { body, .. } | Statement::Do { body, .. } | Statement::For { body, .. }
        | Statement::ForEach { body, .. } | Statement::UsingDispose { body, .. } => exits_from(body@, 0),
        Statement::TryFinally { try_body, finally_body, .. } => exits_from(try_body@, 0) || exits_from(finally_body@, 0),
        Statement::TryCatch { try_body, catch_body, finally_body, .. } => exits_from(try_body@, 0) || exits_from(catch_body@, 0)
            || exits_from(finally_body@, 0),
        Statement::Initialize { .. } | Statement::Store { .. } | Statement::CallSub { .. }
        | Statement::CollectionAdd { .. } | Statement::CollectionRemove { .. } => false,
    }
}

/// Whether some statement from position `k` on can transfer control out of
/// the list.
pub open spec fn exits_from(statements: Seq<Statement>, k: int) -> bool
    decreases statements, statements.len() - k,
{
    if k < 0 || k >= statements.len() {
        false
    } else {
        exits_outward(statements[k]) || exits_from(statements, k + 1)
    }
}

/// Whether some statement of a list can transfer control out of it.
pub open spec fn any_exits_outward(statements: Seq<Statement>) -> bool {
    exits_from(statements, 0)
}

/// Whether a list of statements begins by initializing `resource`.
pub open spec fn initializes_first(statements: Seq<Statement>, resource: LocalId) -> bool {
    statements.len() > 0 && (statements[0] matches Statement::Initialize { target, .. } && target == resource)
}

/// A branch or loop condition must be Boolean.
pub open spec fn boolean_condition_spec(condition: Expression) -> Result<(), Failure> {
    if condition.ty is Boolean {
        Ok(())
    } else {
        Err(fail("Branch or loop condition is not Boolean"@, condition.span))
    }
}

/// Checks a condition: the expression, then that it is Boolean.
pub open spec fn verify_condition_spec(body: TypedBody, condition: Expression, current: ScopeId, depth: nat) -> Result<(), Failure> {
    match verify_expr_spec(body, condition, current, depth) {
        Err(f) => Err(f),
        Ok(_) => boolean_condition_spec(condition),
    }
}

/// Checks a bound or step of a `For`: the expression, then that it has the
/// loop variable's type.
pub open spec fn verify_bound_spec(body: TypedBody, bound: Expression, variable_type: TypeName, current: ScopeId, depth: nat) -> Result<(), Failure> {
    match verify_expr_spec(body, bound, current, depth) {
        Err(f) => Err(f),
        Ok(_) => if !same_type(bound.ty, variable_type) {
            Err(fail("For bound or step has the wrong type"@, bound.span))
        } else {
            Ok(())
        },
    }
}

/// Whether a type is the `Collection` class written exactly so.
pub open spec fn is_exact_collection(t: TypeName) -> bool {
    t matches TypeName::User(name) && name@ == "Collection"@
}

/// The expressions a statement holds, checked before its structure: each
/// well formed and of the type the statement needs.
pub open spec fn verify_stmt_expr_spec(body: TypedBody, s: Statement, current: ScopeId, depth: nat) -> Result<(), Failure> {
    match s {
        Statement::Initialize { target, value, .. } => match verify_expr_spec(body, value, current, depth) {
            Err(f) => Err(f),
            Ok(_) => if target.0 >= body.locals@.len() || !same_type(body.locals@[target.0 as int].ty, value.ty) {
                Err(fail("Initializer type does not match its local"@, value.span))
            } else {
                Ok(())
            },
        },
        Statement::Return { value, .. } => match verify_expr_spec(body, value, current, depth) {
            Err(f) => Err(f),
            Ok(_) => if !same_type(value.ty, body.return_type) {
                Err(fail("Return type does not match the function"@, value.span))
            } else {
                Ok(())
            },
        },
        Statement::ReturnVoid { span, .. } => if body.return_type is Void {
            Ok(())
        } else {
            Err(fail("Void return in a value-returning function"@, span))
        },
        Statement::CallSub { signature, arguments, span, .. } => if !(signature.return_type is Void) {
            Err(fail("Sub call must have Void return"@, span))
        } else {
            verify_call_spec(body, signature, arguments@, TypeName::Void, span, current, depth)
        },
        Statement::CollectionAdd { collection, item, before, span } => match verify_expr_spec(body, collection, current, depth) {
            Err(f) => Err(f),
            Ok(_) => match verify_expr_spec(body, item, current, depth) {
                Err(f) => Err(f),
                Ok(_) => match match *before {
                    Some(b) => verify_expr_spec(body, b, current, depth),
                    None => Ok(()),
                } {
                    Err(f) => Err(f),
                    Ok(_) => if !is_collection(collection.ty) || !(item.ty is Variant) || (*before matches Some(b) && !(
                    b.ty is Int64)) {
                        Err(fail("Collection.Add types are invalid"@, span))
                    } else {
                        Ok(())
                    },
                },
            },
        },
        Statement::CollectionRemove { collection, index, span } => after_operands(
            verify_expr_spec(body, collection, current, depth),
            verify_expr_spec(body, index, current, depth),
            is_collection(collection.ty) && index.ty is Int64,
            "Collection.Remove types are invalid"@,
            span,
        ),
        Statement::Store { target, value, .. } => after_operands(
            verify_expr_spec(body, *target, current, depth),
            verify_expr_spec(body, value, current, depth),
            target.category is Place && same_type(target.ty, value.ty),
            "Store target and value types do not match"@,
            value.span,
        ),
        Statement::If { condition, .. } | Statement::While { condition, .. } => verify_condition_spec(
            body,
            condition,
            current,
            depth,
        ),
        Statement::Do { condition, .. } => match condition {
            DoCondition::Infinite => Ok(()),
            DoCondition::PreWhile(e) | DoCondition::PreUntil(e) | DoCondition::PostWhile(e)
            | DoCondition::PostUntil(e) => verify_condition_spec(body, e, current, depth),
        },
        Statement::For { variable, start, end, step, span, .. } => match verify_local_spec(body, variable, current, span, depth) {
            Err(f) => Err(f),
            Ok(_) => {
                let variable_type = body.locals@[variable.0 as int].ty;
                if !integral(variable_type) {
                    Err(fail("For variable is not integral"@, span))
                } else {
                    match verify_bound_spec(body, *start, variable_type, current, depth) {
                        Err(f) => Err(f),
                        Ok(_) => match verify_bound_spec(body, *end, variable_type, current, depth) {
                            Err(f) => Err(f),
                            Ok(_) => verify_bound_spec(body, *step, variable_type, current, depth),
                        },
                    }
                }
            },
        },
        Statement::ForEach { variable, iterable, element_type, span, .. } => match verify_local_spec(body, variable, current, span, depth) {
            Err(f) => Err(f),
            Ok(_) => after_operand(
                verify_expr_spec(body, iterable, current, depth),
                same_type(body.locals@[variable.0 as int].ty, element_type) && ((iterable.ty matches TypeName::Array(inner)
                    && same_type(*inner, element_type)) || (is_exact_collection(iterable.ty) && element_type is Variant)),
                "For Each element type does not match its array and variable"@,
                span,
            ),
        },
        Statement::TryFinally { .. } | Statement::TryCatch { .. } | Statement::UsingDispose { .. }
        | Statement::ExitLoop { .. } | Statement::ContinueLoop { .. } => Ok(()),
    }
}

/// Checks a transfer of control: it leaves exactly the scopes between it and
/// its target, and runs exactly their handlers in order.
pub open spec fn verify_exit_spec(
    body: TypedBody,
    current: ScopeId,
    stop: Option<ScopeId>,
    exited: Seq<ScopeId>,
    chain: Seq<CleanupStep>,
    message: Seq<char>,
    span: Span,
    depth: nat,
) -> Result<(), Failure> {
    match chain_spec(body.scopes@, current, stop, depth) {
        None => Err(fail("Scope exit does not reach its target"@, body.span)),
        Some(expected) => if exited != expected {
            Err(fail(message, span))
        } else if chain != cleanup_chain_spec(body.scopes@, exited) {
            Err(fail("Transfer has an incorrect cleanup chain"@, span))
        } else {
            Ok(())
        },
    }
}

/// Checks the statements from position `k` on, in scope `current` at depth
/// `depth` below the root, inside the loops `loops`: the scopes entered so
/// far, or why a statement is invalid.
pub open spec fn verify_stmts_spec(
    body: TypedBody,
    statements: Seq<Statement>,
    k: int,
    current: ScopeId,
    loops: Seq<LoopFrame>,
    visited: Seq<bool>,
    depth: nat,
) -> Result<Seq<bool>, Failure>
    decreases statements, statements.len() - k,
{
    if k < 0 || k >= statements.len() {
        Ok(visited)
    } else {
        match verify_stmt_spec(body, statements[k], current, loops, visited, depth) {
            Err(f) => Err(f),
            Ok(v) => verify_stmts_spec(body, statements, k + 1, current, loops, v, depth),
        }
    }
}

/// Checks one statement: its expressions, then its structure.
pub open spec fn verify_stmt_spec(
    body: TypedBody,
    s: Statement,
    current: ScopeId,
    loops: Seq<LoopFrame>,
    visited: Seq<bool>,
    depth: nat,
) -> Result<Seq<bool>, Failure>
    decreases s, 0nat,
{
    match verify_stmt_expr_spec(body, s, current, depth) {
        Err(f) => Err(f),
        Ok(_) => match s {
            Statement::Initialize { target, span, .. } => if target.0 >= body.locals@.len()
                || body.locals@[target.0 as int].scope != current {
                Err(fail("Initializer targets a local outside its declaration scope"@, span))
            } else {
                Ok(visited)
            },
            Statement::Return { exited_scopes, cleanup_chain, span, .. }
            | Statement::ReturnVoid { exited_scopes, cleanup_chain, span } => match verify_exit_spec(
                body,
                current,
                None,
                exited_scopes@,
                cleanup_chain@,
                "Return has incorrect scope exits"@,
                span,
                depth,
            ) {
                Err(f) => Err(f),
                Ok(_) => Ok(visited),
            },
            Statement::ExitLoop { loop_id, exited_scopes, cleanup_chain, span }
            | Statement::ContinueLoop { loop_id, exited_scopes, cleanup_chain, span } => match innermost_frame(loops, loop_id) {
                None => Err(fail("Loop control has no enclosing loop"@, span)),
                Some(frame) => match verify_exit_spec(
                    body,
                    current,
                    Some(frame.parent),
                    exited_scopes@,
                    cleanup_chain@,
                    "Loop control has incorrect scope exits"@,
                    span,
                    depth,
                ) {
                    Err(f) => Err(f),
                    Ok(_) => Ok(visited),
                },
            },
            Statement::Store { .. } | Statement::CallSub { .. } | Statement::CollectionAdd { .. }
            | Statement::CollectionRemove { .. } => Ok(visited),
            Statement::If { then_scope, then_body, else_scope, else_body, span, .. } => match visit_child_spec(
                body,
                then_scope,
                current,
                span,
                visited,
            ) {
                Err(f) => Err(f),
                Ok(v1) => match verify_stmts_spec(body, then_body@, 0, then_scope, loops, v1, depth + 1) {
                    Err(f) => Err(f),
                    Ok(v2) => match visit_child_spec(body, else_scope, current, span, v2) {
                        Err(f) => Err(f),
                        Ok(v3) => verify_stmts_spec(body, else_body@, 0, else_scope, loops, v3, depth + 1),
                    },
                },
            },
            Statement::TryFinally { try_scope, try_body, finally_scope, finally_body, span } => if try_scope
                == finally_scope {
                Err(fail("Try and Finally cannot share a scope"@, span))
            } else {
                match visit_child_spec(body, try_scope, current, span, visited) {
                    Err(f) => Err(f),
                    Ok(v1) => if body.scopes@[try_scope.0 as int].cleanup@ != finally_handlers(Some(finally_scope)) {
                        Err(fail("Try scope has no matching Finally handler"@, span))
                    } else {
                        match verify_stmts_spec(body, try_body@, 0, try_scope, loops, v1, depth + 1) {
                            Err(f) => Err(f),
                            Ok(v2) => match visit_child_spec(body, finally_scope, current, span, v2) {
                                Err(f) => Err(f),
                                Ok(v3) => match verify_stmts_spec(body, finally_body@, 0, finally_scope, loops, v3, depth + 1) {
                                    Err(f) => Err(f),
                                    Ok(v4) => if any_exits_outward(finally_body@) {
                                        Err(fail("Typed Finally cannot transfer control outward"@, span))
                                    } else {
                                        Ok(v4)
                                    },
                                },
                            },
                        }
                    },
                }
            },
            Statement::TryCatch {
                try_scope,
                try_body,
                catch_scope,
                catch_local,
                catch_body,
                finally_scope,
                finally_body,
                span,
            } => if try_scope == catch_scope || (finally_scope matches Some(id) && (id == try_scope || id == catch_scope)) {
                Err(fail("Try, Catch and Finally must have distinct scopes"@, span))
            } else {
                let expected = finally_handlers(finally_scope);
                match visit_child_spec(body, try_scope, current, span, visited) {
                    Err(f) => Err(f),
                    Ok(v1) => if body.scopes@[try_scope.0 as int].cleanup@ != expected {
                        Err(fail("Try scope has an incorrect Finally handler"@, span))
                    } else {
                        match verify_stmts_spec(body, try_body@, 0, try_scope, loops, v1, depth + 1) {
                            Err(f) => Err(f),
                            Ok(v2) => match visit_child_spec(body, catch_scope, current, span, v2) {
                                Err(f) => Err(f),
                                Ok(v3) => if body.scopes@[catch_scope.0 as int].cleanup@ != expected {
                                    Err(fail("Catch scope has an incorrect Finally handler"@, span))
                                } else if catch_local matches Some(local) && (local.0 >= body.locals@.len()
                                    || body.locals@[local.0 as int].scope != catch_scope
                                    || !(body.locals@[local.0 as int].initial_state is Initialized)) {
                                    Err(fail("Catch local is not initialized on entry"@, span))
                                } else {
                                    match verify_stmts_spec(body, catch_body@, 0, catch_scope, loops, v3, depth + 1) {
                                        Err(f) => Err(f),
                                        Ok(v4) => match finally_scope {
                                            Some(fs) => match visit_child_spec(body, fs, current, span, v4) {
                                                Err(f) => Err(f),
                                                Ok(v5) => match verify_stmts_spec(body, finally_body@, 0, fs, loops, v5, depth + 1) {
                                                    Err(f) => Err(f),
                                                    Ok(v6) => if any_exits_outward(finally_body@) {
                                                        Err(fail("Typed Finally cannot transfer control outward"@, span))
                                                    } else {
                                                        Ok(v6)
                                                    },
                                                },
                                            },
                                            None => if finally_body@.len() != 0 {
                                                Err(fail("Try/Catch body has an unattached Finally"@, span))
                                            } else {
                                                Ok(v4)
                                            },
                                        },
                                    }
                                },
                            },
                        }
                    },
                }
            },
            Statement::UsingDispose { resource, method, body_scope, body: inner, span } => match visit_child_spec(
                body,
                body_scope,
                current,
                span,
                visited,
            ) {
                Err(f) => Err(f),
                Ok(v1) => if body.scopes@[body_scope.0 as int].cleanup@ != seq![ScopeCleanup::ExplicitDispose { resource, method }] {
                    Err(fail("Using scope has no matching Dispose cleanup"@, span))
                } else if !initializes_first(inner@, resource) {
                    Err(fail("Using resource is not initialized at scope entry"@, span))
                } else {
                    verify_stmts_spec(body, inner@, 0, body_scope, loops, v1, depth + 1)
                },
            },
            Statement::While { id, body_scope, body: inner, span, .. } | Statement::Do { id, body_scope, body: inner, span, .. }
            | Statement::For { id, body_scope, body: inner, span, .. }
            | Statement::ForEach { id, body_scope, body: inner, span, .. } => match visit_child_spec(
                body,
                body_scope,
                current,
                span,
                visited,
            ) {
                Err(f) => Err(f),
                Ok(v1) => verify_stmts_spec(
                    body,
                    inner@,
                    0,
                    body_scope,
                    loops.push(LoopFrame { id, parent: current }),
                    v1,
                    depth + 1,
                ),
            },
        },
    }
}

/// Whether a statement check left the visited scopes as the spec says, or
/// reported the failure the spec gives.
pub open spec fn reported_visits(spec: Result<Seq<bool>, Failure>, r: Result<(), Diagnostic>, visited: Seq<bool>) -> bool {
    match spec {
        Ok(v) => r is Ok && visited == v,
        Err(f) => r matches Err(d) && reports(d, f),
    }
}

/// The scopes on a transfer path are scopes of the body.
proof fn lemma_chain_in_range(scopes: Seq<Scope>, current: ScopeId, stop: Option<ScopeId>, depth: nat)
    requires
        rooted(scopes, current, depth),
    ensures
        chain_spec(scopes, current, stop, depth) matches Some(c) ==> forall|i: int| 0 <= i < c.len() ==> #[trigger] c[i].0 < scopes.len(),
    decreases depth,
{
    if stop != Some(current) && depth > 0 {
        if let Some(p) = scopes[current.0 as int].parent {
            lemma_chain_in_range(scopes, p, stop, (depth - 1) as nat);
            if let Some(rest) = chain_spec(scopes, p, stop, (depth - 1) as nat) {
                let c = seq![current] + rest;
                assert forall|i: int| 0 <= i < c.len() implies #[trigger] c[i].0 < scopes.len() by {
                    if i > 0 {
                        assert(c[i] == rest[i - 1]);
                    }
                }
            }
        }
    }
}

/// The innermost enclosing loop with the given identity.
fn innermost_loop(loops: &Vec<LoopFrame>, id: LoopId) -> (r: Option<LoopFrame>)
    ensures
        r == innermost_frame(loops@, id),
{
    let mut k: usize = loops.len();
    assert(loops@.subrange(0, k as int) =~= loops@);
    while k > 0
        invariant
            k <= loops@.len(),
            innermost_frame(loops@, id) == innermost_frame(loops@.subrange(0, k as int), id),
        decreases k,
    {
        let frame = loops[k - 1];
        assert(loops@.subrange(0, k as int).drop_last() =~= loops@.subrange(0, k - 1));
        if frame.id == id {
            return Some(frame);
        }
        k = k - 1;
    }
    None
}

/// The enclosing loops with one more, innermost.
fn with_frame(loops: &Vec<LoopFrame>, frame: LoopFrame) -> (r: Vec<LoopFrame>)
    ensures
        r@ == loops@.push(frame),
{
    let mut out: Vec<LoopFrame> = Vec::new();
    let mut i: usize = 0;
    while i < loops.len()
        invariant
            i <= loops@.len(),
            out@ == loops@.subrange(0, i as int),
        decreases loops@.len() - i,
    {
        out.push(loops[i]);
        i = i + 1;
        assert(out@ =~= loops@.subrange(0, i as int));
    }
    out.push(frame);
    assert(out@ =~= loops@.push(frame));
    out
}

/// Whether two scope lists are equal.
fn same_scopes(a: &[ScopeId], b: &[ScopeId]) -> (r: bool)
    ensures
        r == (a@ == b@),
{
    if a.len() != b.len() {
        return false;
    }
    let mut i: usize = 0;
    while i < a.len()
        invariant
            a@.len() == b@.len(),
            i <= a@.len(),
            forall|j: int| 0 <= j < i ==> a@[j] == b@[j],
        decreases a@.len() - i,
    {
        if a[i] != b[i] {
            return false;
        }
        i = i + 1;
    }
    assert(a@ =~= b@);
    true
}

/// Whether two cleanup chains are equal.
fn same_steps(a: &[CleanupStep], b: &[CleanupStep]) -> (r: bool)
    ensures
        r == (a@ == b@),
{
    if a.len() != b.len() {
        return false;
    }
    let mut i: usize = 0;
    while i < a.len()
        invariant
            a@.len() == b@.len(),
            i <= a@.len(),
            forall|j: int| 0 <= j < i ==> a@[j] == b@[j],
        decreases a@.len() - i,
    {
        if a[i] != b[i] {
            return false;
        }
        i = i + 1;
    }
    assert(a@ =~= b@);
    true
}

/// Whether a scope's handlers are exactly the given one, or none.
fn handlers_are(cleanup: &Vec<ScopeCleanup>, expected: Option<ScopeCleanup>) -> (r: bool)
    ensures
        r == (cleanup@ == match expected {
            Some(e) => seq![e],
            None => Seq::<ScopeCleanup>::empty(),
        }),
{
    match expected {
        Some(e) => {
            if cleanup.len() != 1 {
                return false;
            }
            let same = cleanup[0] == e;
            if same {
                assert(cleanup@ =~= seq![e]);
            } else {
                assert(cleanup@[0] != seq![e][0]);
            }
            same
        },
        None => {
            if cleanup.len() == 0 {
                assert(cleanup@ =~= Seq::<ScopeCleanup>::empty());
            }
            cleanup.len() == 0
        },
    }
}

/// The scopes a transfer from `current` leaves, innermost first, up to
/// `stop` or out to the root.
fn chain(body: &TypedBody, current: ScopeId, stop: Option<ScopeId>, Ghost(depth): Ghost<nat>) -> (r: Result<Vec<ScopeId>, Diagnostic>)
    requires
        rooted(body.scopes@, current, depth),
    ensures
        match chain_spec(body.scopes@, current, stop, depth) {
            Some(c) => r matches Ok(v) && v@ == c,
            None => r matches Err(d) && reports(d, fail("Scope exit does not reach its target"@, body.span)),
        },
{
    let mut out: Vec<ScopeId> = Vec::new();
    let mut scope = current;
    let ghost mut d = depth;
    loop
        invariant
            rooted(body.scopes@, scope, d),
            chain_spec(body.scopes@, current, stop, depth) == match chain_spec(body.scopes@, scope, stop, d) {
                Some(rest) => Some(out@ + rest),
                None => None,
            },
        decreases d,
    {
        let reached = match stop {
            Some(target) => target == scope,
            None => false,
        };
        if reached {
            assert(out@ + Seq::<ScopeId>::empty() =~= out@);
            return Ok(out);
        }
        let ghost before = out@;
        out.push(scope);
        match body.scopes[scope.0].parent {
            Some(parent) => {
                proof {
                    if let Some(rest) = chain_spec(body.scopes@, parent, stop, (d - 1) as nat) {
                        assert(before + (seq![scope] + rest) =~= out@ + rest);
                    }
                }
                scope = parent;
                proof {
                    d = (d - 1) as nat;
                }
            },
            None => {
                if stop.is_some() {
                    return Err(invalid("Scope exit does not reach its target", body.span));
                }
                assert(before + seq![scope] =~= out@);
                return Ok(out);
            },
        }
    }
}

/// Checks that a transfer leaves exactly the scopes between it and its
/// target and runs exactly their handlers.
fn verify_exit(
    body: &TypedBody,
    current: ScopeId,
    stop: Option<ScopeId>,
    exited: &Vec<ScopeId>,
    actual: &Vec<CleanupStep>,
    message: &str,
    span: Span,
    Ghost(depth): Ghost<nat>,
) -> (r: Result<(), Diagnostic>)
    requires
        rooted(body.scopes@, current, depth),
    ensures
        reported(verify_exit_spec(*body, current, stop, exited@, actual@, message@, span, depth), r),
{
    let expected = match chain(body, current, stop, Ghost(depth)) {
        Ok(v) => v,
        Err(d) => return Err(d),
    };
    if !same_scopes(exited.as_slice(), expected.as_slice()) {
        return Err(invalid(message, span));
    }
    proof {
        lemma_chain_in_range(body.scopes@, current, stop, depth);
    }
    verify_cleanup_chain(body, exited.as_slice(), actual.as_slice(), span)
}

/// Checks that a transfer runs exactly the handlers of the scopes it leaves,
/// in order.
fn verify_cleanup_chain(body: &TypedBody, exited_scopes: &[ScopeId], actual: &[CleanupStep], span: Span) -> (r: Result<(), Diagnostic>)
    requires
        scopes_in_range(*body, exited_scopes@),
    ensures
        actual@ == cleanup_chain_spec(body.scopes@, exited_scopes@) ==> r is Ok,
        actual@ != cleanup_chain_spec(body.scopes@, exited_scopes@) ==> (r matches Err(d) && reports(
            d,
            fail("Transfer has an incorrect cleanup chain"@, span),
        )),
{
    let steps = body.cleanup_chain(exited_scopes);
    if !same_steps(actual, steps.as_slice()) {
        return Err(invalid("Transfer has an incorrect cleanup chain", span));
    }
    Ok(())
}

/// Enters a child scope of `parent`, which must not have been entered before.
fn visit_child(body: &TypedBody, child: ScopeId, parent: ScopeId, span: Span, visited: &mut Vec<bool>) -> (r: Result<(), Diagnostic>)
    ensures
        final(visited)@.len() == old(visited)@.len(),
        reported_visits(visit_child_spec(*body, child, parent, span, old(visited)@), r, final(visited)@),
{
    let parent_matches = child.0 < body.scopes.len() && match body.scopes[child.0].parent {
        Some(p) => p == parent,
        None => false,
    };
    if !parent_matches || child.0 >= visited.len() || visited[child.0] {
        return Err(invalid("HIR child scope has an invalid parent or is reused", span));
    }
    visited.set(child.0, true);
    Ok(())
}

/// Whether some statement can transfer control out of the list.
fn has_nonlocal_exit(statements: &[Statement]) -> (r: bool)
    ensures
        r == any_exits_outward(statements@),
    decreases statements@, 0nat,
{
    let mut i: usize = 0;
    while i < statements.len()
        invariant
            i <= statements@.len(),
            exits_from(statements@, 0) == exits_from(statements@, i as int),
        decreases statements@.len() - i,
    {
        if statement_exits(&statements[i]) {
            return true;
        }
        i = i + 1;
    }
    false
}

/// Whether a statement can transfer control out of the list holding it.
fn statement_exits(statement: &Statement) -> (r: bool)
    ensures
        r == exits_outward(*statement),
    decreases statement, 1nat,
{
    match statement {
        Statement::Return { .. } | Statement::ReturnVoid { .. } | Statement::ExitLoop { .. }
        | Statement::ContinueLoop { .. } => true,
        Statement::If { then_body, else_body, .. } => has_nonlocal_exit(then_body.as_slice()) || has_nonlocal_exit(
            else_body.as_slice(),
        ),
        Statement::While { body, .. } | Statement::Do { body, .. } | Statement::For { body, .. }
        | Statement::ForEach { body, .. } | Statement::UsingDispose { body, .. } => has_nonlocal_exit(body.as_slice()),
        Statement::TryFinally { try_body, finally_body, .. } => has_nonlocal_exit(try_body.as_slice()) || has_nonlocal_exit(
            finally_body.as_slice(),
        ),
        Statement::TryCatch { try_body, catch_body, finally_body, .. } => has_nonlocal_exit(try_body.as_slice())
            || has_nonlocal_exit(catch_body.as_slice()) || has_nonlocal_exit(finally_body.as_slice()),
        Statement::Initialize { .. } | Statement::Store { .. } | Statement::CallSub { .. }
        | Statement::CollectionAdd { .. } | Statement::CollectionRemove { .. } => false,
    }
}

/// The scopes that own a cleanup handler, in the order the statements from
/// position `k` on list them.
pub open spec fn handlers_from(statements: Seq<Statement>, k: int) -> Seq<ScopeId>
    decreases statements, statements.len() - k,
{
    if k < 0 || k >= statements.len() {
        Seq::empty()
    } else {
        handlers_of(statements[k]) + handlers_from(statements, k + 1)
    }
}

/// The scopes a statement makes owners of cleanup handlers: the body of a
/// `Using`, the Try of a `Try`/`Finally`, the Try and Catch of a
/// `Try`/`Catch` with a Finally; at any depth.
pub open spec fn handlers_of(s: Statement) -> Seq<ScopeId>
    decreases s, 1nat,
{
    match s {
        Statement::UsingDispose { body_scope, body, .. } => seq![body_scope] + handlers_from(body@, 0),
        Statement::If { then_body, else_body, .. } => handlers_from(then_body@, 0) + handlers_from(else_body@, 0),
        Statement::TryFinally { try_scope, try_body, finally_body, .. } => seq![try_scope] + handlers_from(try_body@, 0)
            + handlers_from(finally_body@, 0),
        Statement::TryCatch { try_scope, try_body, catch_scope, catch_body, finally_scope, finally_body, .. } => (if finally_scope is Some {
            seq![try_scope, catch_scope]
        } else {
            Seq::empty()
        }) + handlers_from(try_body@, 0) + handlers_from(catch_body@, 0) + handlers_from(finally_body@, 0),
        Statement::While { body, .. } | Statement::Do { body, .. } | Statement::For { body, .. }
        | Statement::ForEach { body, .. } => handlers_from(body@, 0),
        _ => Seq::empty(),
    }
}

/// Adds to `found` the scopes that own a cleanup handler in the statements.
fn collect_handler_scopes(statements: &[Statement], found: &mut Vec<ScopeId>)
    ensures
        final(found)@ == old(found)@ + handlers_from(statements@, 0),
    decreases statements@, 0nat,
{
    let ghost start = found@;
    let mut k: usize = 0;
    while k < statements.len()
        invariant
            k <= statements@.len(),
            start + handlers_from(statements@, 0) == found@ + handlers_from(statements@, k as int),
        decreases statements@.len() - k,
    {
        let ghost before = found@;
        collect_statement_handlers(&statements[k], found);
        assert(before + (handlers_of(statements@[k as int]) + handlers_from(statements@, k + 1)) =~= found@
            + handlers_from(statements@, k + 1));
        k = k + 1;
    }
    assert(found@ + Seq::<ScopeId>::empty() =~= found@);
}

/// Adds to `found` the scopes of one statement that own a cleanup handler.
fn collect_statement_handlers(statement: &Statement, found: &mut Vec<ScopeId>)
    ensures
        final(found)@ == old(found)@ + handlers_of(*statement),
    decreases statement, 1nat,
{
    let ghost start = found@;
    match statement {
        Statement::UsingDispose { body_scope, body, .. } => {
            found.push(*body_scope);
            collect_handler_scopes(body.as_slice(), found);
            assert(found@ =~= start + handlers_of(*statement));
        },
        Statement::If { then_body, else_body, .. } => {
            collect_handler_scopes(then_body.as_slice(), found);
            collect_handler_scopes(else_body.as_slice(), found);
            assert(found@ =~= start + handlers_of(*statement));
        },
        Statement::TryFinally { try_scope, try_body, finally_body, .. } => {
            found.push(*try_scope);
            collect_handler_scopes(try_body.as_slice(), found);
            collect_handler_scopes(finally_body.as_slice(), found);
            assert(found@ =~= start + handlers_of(*statement));
        },
        Statement::TryCatch { try_scope, try_body, catch_scope, catch_body, finally_scope, finally_body, .. } => {
            if finally_scope.is_some() {
                found.push(*try_scope);
                found.push(*catch_scope);
            }
            let ghost owners = found@;
            collect_handler_scopes(try_body.as_slice(), found);
            collect_handler_scopes(catch_body.as_slice(), found);
            collect_handler_scopes(finally_body.as_slice(), found);
            assert(found@ =~= start + handlers_of(*statement));
        },
        Statement::While { body, .. } | Statement::Do { body, .. } | Statement::For { body, .. }
        | Statement::ForEach { body, .. } => {
            collect_handler_scopes(body.as_slice(), found);
        },
        _ => {
            assert(found@ =~= start + handlers_of(*statement));
        },
    }
}

/// Checks that a condition is Boolean.
fn boolean_condition(condition: &Expression) -> (r: Result<(), Diagnostic>)
    ensures
        reported(boolean_condition_spec(*condition), r),
{
    if matches!(condition.ty, TypeName::Boolean) {
        Ok(())
    } else {
        Err(invalid("Branch or loop condition is not Boolean", condition.span))
    }
}

/// Checks a condition expression and that it is Boolean.
fn verify_condition(body: &TypedBody, condition: &Expression, current: ScopeId, Ghost(depth): Ghost<nat>) -> (r: Result<(), Diagnostic>)
    requires
        rooted(body.scopes@, current, depth),
    ensures
        reported(verify_condition_spec(*body, *condition, current, depth), r),
{
    if let Err(d) = verify_expression(body, condition, current, Ghost(depth)) {
        return Err(d);
    }
    boolean_condition(condition)
}

/// Checks a bound or step of a `For` loop.
fn verify_bound(
    body: &TypedBody,
    bound: &Expression,
    variable_type: &TypeName,
    current: ScopeId,
    Ghost(depth): Ghost<nat>,
) -> (r: Result<(), Diagnostic>)
    requires
        rooted(body.scopes@, current, depth),
    ensures
        reported(verify_bound_spec(*body, *bound, *variable_type, current, depth), r),
{
    if let Err(d) = verify_expression(body, bound, current, Ghost(depth)) {
        return Err(d);
    }
    if !bound.ty.same_type(variable_type) {
        return Err(invalid("For bound or step has the wrong type", bound.span));
    }
    Ok(())
}

/// Checks the expressions a statement holds and the types it needs of them.
fn verify_statement_expressions(body: &TypedBody, statement: &Statement, current: ScopeId, Ghost(depth): Ghost<nat>) -> (r: Result<(), Diagnostic>)
    requires
        rooted(body.scopes@, current, depth),
    ensures
        reported(verify_stmt_expr_spec(*body, *statement, current, depth), r),
{
    match statement {
        Statement::Initialize { .. } | Statement::Return { .. } | Statement::ReturnVoid { .. } | Statement::CallSub { .. }
        | Statement::Store { .. } => verify_value_expressions(body, statement, current, Ghost(depth)),
        Statement::CollectionAdd { .. } | Statement::CollectionRemove { .. } => verify_collection_expressions(
            body,
            statement,
            current,
            Ghost(depth),
        ),
        Statement::If { .. } | Statement::While { .. } | Statement::Do { .. } | Statement::For { .. }
        | Statement::ForEach { .. } => verify_header_expressions(body, statement, current, Ghost(depth)),
        Statement::TryFinally { .. } | Statement::TryCatch { .. } | Statement::UsingDispose { .. }
        | Statement::ExitLoop { .. } | Statement::ContinueLoop { .. } => Ok(()),
    }
}

/// Checks the value of an initialization, return, store or procedure call.
fn verify_value_expressions(body: &TypedBody, statement: &Statement, current: ScopeId, Ghost(depth): Ghost<nat>) -> (r: Result<(), Diagnostic>)
    requires
        rooted(body.scopes@, current, depth),
        *statement is Initialize || *statement is Return || *statement is ReturnVoid || *statement is CallSub || *statement is Store,
    ensures
        reported(verify_stmt_expr_spec(*body, *statement, current, depth), r),
{
    match statement {
        Statement::Initialize { target, value, .. } => {
            if let Err(d) = verify_expression(body, value, current, Ghost(depth)) {
                return Err(d);
            }
            if target.0 >= body.locals.len() || !body.locals[target.0].ty.same_type(&value.ty) {
                return Err(invalid("Initializer type does not match its local", value.span));
            }
            Ok(())
        },
        Statement::Return { value, .. } => {
            if let Err(d) = verify_expression(body, value, current, Ghost(depth)) {
                return Err(d);
            }
            if !value.ty.same_type(&body.return_type) {
                return Err(invalid("Return type does not match the function", value.span));
            }
            Ok(())
        },
        Statement::ReturnVoid { span, .. } => if body.return_type.is_void() {
            Ok(())
        } else {
            Err(invalid("Void return in a value-returning function", *span))
        },
        Statement::CallSub { signature, arguments, span, .. } => {
            if !signature.return_type.is_void() {
                return Err(invalid("Sub call must have Void return", *span));
            }
            verify_call(body, signature, arguments, &TypeName::Void, *span, current, Ghost(depth))
        },
        Statement::Store { target, value, .. } => {
            if let Err(d) = verify_expression(body, target, current, Ghost(depth)) {
                return Err(d);
            }
            if let Err(d) = verify_expression(body, value, current, Ghost(depth)) {
                return Err(d);
            }
            if target.category != ValueCategory::Place || !target.ty.same_type(&value.ty) {
                return Err(invalid("Store target and value types do not match", value.span));
            }
            Ok(())
        },
        // The other statements are excluded by the precondition.
        _ => Ok(()),
    }
}

/// Checks the operands of a collection update.
fn verify_collection_expressions(body: &TypedBody, statement: &Statement, current: ScopeId, Ghost(depth): Ghost<nat>) -> (r: Result<(), Diagnostic>)
    requires
        rooted(body.scopes@, current, depth),
        *statement is CollectionAdd || *statement is CollectionRemove,
    ensures
        reported(verify_stmt_expr_spec(*body, *statement, current, depth), r),
{
    match statement {
        Statement::CollectionAdd { collection, item, before, span } => {
            if let Err(d) = verify_expression(body, collection, current, Ghost(depth)) {
                return Err(d);
            }
            if let Err(d) = verify_expression(body, item, current, Ghost(depth)) {
                return Err(d);
            }
            let before_ok = match &**before {
                Some(position) => {
                    if let Err(d) = verify_expression(body, position, current, Ghost(depth)) {
                        return Err(d);
                    }
                    matches!(position.ty, TypeName::Int64)
                },
                None => true,
            };
            if !collection_type(&collection.ty) || !matches!(item.ty, TypeName::Variant) || !before_ok {
                return Err(invalid("Collection.Add types are invalid", *span));
            }
            Ok(())
        },
        Statement::CollectionRemove { collection, index, span } => {
            if let Err(d) = verify_expression(body, collection, current, Ghost(depth)) {
                return Err(d);
            }
            if let Err(d) = verify_expression(body, index, current, Ghost(depth)) {
                return Err(d);
            }
            if !collection_type(&collection.ty) || !matches!(index.ty, TypeName::Int64) {
                return Err(invalid("Collection.Remove types are invalid", *span));
            }
            Ok(())
        },
        // The other statements are excluded by the precondition.
        _ => Ok(()),
    }
}

/// Checks the condition of a branch or loop, or the variable and bounds of a
/// counted or collection loop.
fn verify_header_expressions(body: &TypedBody, statement: &Statement, current: ScopeId, Ghost(depth): Ghost<nat>) -> (r: Result<(), Diagnostic>)
    requires
        rooted(body.scopes@, current, depth),
        *statement is If || *statement is While || *statement is Do || *statement is For || *statement is ForEach,
    ensures
        reported(verify_stmt_expr_spec(*body, *statement, current, depth), r),
{
    match statement {
        Statement::If { condition, .. } | Statement::While { condition, .. } => verify_condition(
            body,
            condition,
            current,
            Ghost(depth),
        ),
        Statement::Do { condition, .. } => match condition {
            DoCondition::Infinite => Ok(()),
            DoCondition::PreWhile(e) | DoCondition::PreUntil(e) | DoCondition::PostWhile(e)
            | DoCondition::PostUntil(e) => verify_condition(body, e, current, Ghost(depth)),
        },
        Statement::For { variable, start, end, step, span, .. } => {
            if let Err(d) = verify_local(body, *variable, current, *span, Ghost(depth)) {
                return Err(d);
            }
            let variable_type = &body.locals[variable.0].ty;
            if !variable_type.is_integral() {
                return Err(invalid("For variable is not integral", *span));
            }
            if let Err(d) = verify_bound(body, start, variable_type, current, Ghost(depth)) {
                return Err(d);
            }
            if let Err(d) = verify_bound(body, end, variable_type, current, Ghost(depth)) {
                return Err(d);
            }
            verify_bound(body, step, variable_type, current, Ghost(depth))
        },
        Statement::ForEach { variable, iterable, element_type, span, .. } => {
            if let Err(d) = verify_local(body, *variable, current, *span, Ghost(depth)) {
                return Err(d);
            }
            if let Err(d) = verify_expression(body, iterable, current, Ghost(depth)) {
                return Err(d);
            }
            let from_array = match &iterable.ty {
                TypeName::Array(inner) => (&**inner).same_type(element_type),
                _ => false,
            };
            let from_collection = match &iterable.ty {
                TypeName::User(name) => same_text(name.as_str(), "Collection"),
                _ => false,
            } && matches!(element_type, TypeName::Variant);
            if !body.locals[variable.0].ty.same_type(element_type) || !(from_array || from_collection) {
                return Err(invalid("For Each element type does not match its array and variable", *span));
            }
            Ok(())
        },
        // The other statements are excluded by the precondition.
        _ => Ok(()),
    }
}

/// Checks statements in order, in scope `current` at depth `depth` below the
/// root, inside the loops `loops`, marking each scope entered.
fn verify_statements(
    body: &TypedBody,
    statements: &[Statement],
    current: ScopeId,
    loops: &Vec<LoopFrame>,
    visited: &mut Vec<bool>,
    Ghost(depth): Ghost<nat>,
) -> (r: Result<(), Diagnostic>)
    requires
        rooted(body.scopes@, current, depth),
        old(visited)@.len() == body.scopes@.len(),
    ensures
        final(visited)@.len() == old(visited)@.len(),
        reported_visits(verify_stmts_spec(*body, statements@, 0, current, loops@, old(visited)@, depth), r, final(visited)@),
    decreases statements@, 0nat,
{
    let ghost start = visited@;
    let mut k: usize = 0;
    while k < statements.len()
        invariant
            k <= statements@.len(),
            rooted(body.scopes@, current, depth),
            visited@.len() == body.scopes@.len(),
            start.len() == body.scopes@.len(),
            start == old(visited)@,
            verify_stmts_spec(*body, statements@, 0, current, loops@, start, depth) == verify_stmts_spec(
                *body,
                statements@,
                k as int,
                current,
                loops@,
                visited@,
                depth,
            ),
        decreases statements@.len() - k,
    {
        if let Err(d) = verify_statement(body, &statements[k], current, loops, visited, Ghost(depth)) {
            return Err(d);
        }
        k = k + 1;
    }
    Ok(())
}

/// Checks one statement: its expressions, then its structure.
fn verify_statement(
    body: &TypedBody,
    statement: &Statement,
    current: ScopeId,
    loops: &Vec<LoopFrame>,
    visited: &mut Vec<bool>,
    Ghost(depth): Ghost<nat>,
) -> (r: Result<(), Diagnostic>)
    requires
        rooted(body.scopes@, current, depth),
        old(visited)@.len() == body.scopes@.len(),
    ensures
        final(visited)@.len() == old(visited)@.len(),
        reported_visits(verify_stmt_spec(*body, *statement, current, loops@, old(visited)@, depth), r, final(visited)@),
    decreases statement, 2nat,
{
    if let Err(d) = verify_statement_expressions(body, statement, current, Ghost(depth)) {
        return Err(d);
    }
    match statement {
        Statement::If { .. } => verify_if(body, statement, current, loops, visited, Ghost(depth)),
        Statement::TryFinally { .. } => verify_try_finally(body, statement, current, loops, visited, Ghost(depth)),
        Statement::TryCatch { .. } => verify_try_catch(body, statement, current, loops, visited, Ghost(depth)),
        Statement::UsingDispose { .. } => verify_using(body, statement, current, loops, visited, Ghost(depth)),
        Statement::While { .. } | Statement::Do { .. } | Statement::For { .. } | Statement::ForEach { .. } => verify_loop(
            body,
            statement,
            current,
            loops,
            visited,
            Ghost(depth),
        ),
        _ => verify_flat(body, statement, current, loops, Ghost(depth)),
    }
}

/// Checks a statement that holds no statements: an initialization targets a
/// local of the current scope, and a transfer leaves exactly the right
/// scopes.
fn verify_flat(body: &TypedBody, statement: &Statement, current: ScopeId, loops: &Vec<LoopFrame>, Ghost(depth): Ghost<nat>) -> (r: Result<(), Diagnostic>)
    requires
        rooted(body.scopes@, current, depth),
        verify_stmt_expr_spec(*body, *statement, current, depth) is Ok,
        !(*statement is If || *statement is TryFinally || *statement is TryCatch || *statement is UsingDispose
            || *statement is While || *statement is Do || *statement is For || *statement is ForEach),
    ensures
        forall|visited: Seq<bool>| reported_visits(#[trigger] verify_stmt_spec(*body, *statement, current, loops@, visited, depth), r, visited),
{
    match statement {
        Statement::Initialize { target, span, .. } => {
            if target.0 >= body.locals.len() || body.locals[target.0].scope != current {
                return Err(invalid("Initializer targets a local outside its declaration scope", *span));
            }
            Ok(())
        },
        Statement::Return { exited_scopes, cleanup_chain, span, .. }
        | Statement::ReturnVoid { exited_scopes, cleanup_chain, span } => verify_exit(
            body,
            current,
            None,
            exited_scopes,
            cleanup_chain,
            "Return has incorrect scope exits",
            *span,
            Ghost(depth),
        ),
        Statement::ExitLoop { loop_id, exited_scopes, cleanup_chain, span }
        | Statement::ContinueLoop { loop_id, exited_scopes, cleanup_chain, span } => {
            let frame = match innermost_loop(loops, *loop_id) {
                Some(frame) => frame,
                None => return Err(invalid("Loop control has no enclosing loop", *span)),
            };
            verify_exit(
                body,
                current,
                Some(frame.parent),
                exited_scopes,
                cleanup_chain,
                "Loop control has incorrect scope exits",
                *span,
                Ghost(depth),
            )
        },
        _ => Ok(()),
    }
}

/// Checks an `If`: each branch is a fresh child scope of the current one.
fn verify_if(body: &TypedBody, statement: &Statement, current: ScopeId, loops: &Vec<LoopFrame>, visited: &mut Vec<bool>, Ghost(depth): Ghost<nat>) -> (r: Result<(), Diagnostic>)
    requires
        rooted(body.scopes@, current, depth),
        old(visited)@.len() == body.scopes@.len(),
        verify_stmt_expr_spec(*body, *statement, current, depth) is Ok,
        *statement is If,
    ensures
        final(visited)@.len() == old(visited)@.len(),
        reported_visits(verify_stmt_spec(*body, *statement, current, loops@, old(visited)@, depth), r, final(visited)@),
    decreases statement, 1nat,
{
    match statement {
        Statement::If { then_scope, then_body, else_scope, else_body, span, .. } => {
            if let Err(d) = visit_child(body, *then_scope, current, *span, visited) {
                return Err(d);
            }
            if let Err(d) = verify_statements(body, then_body.as_slice(), *then_scope, loops, visited, Ghost(depth + 1)) {
                return Err(d);
            }
            if let Err(d) = visit_child(body, *else_scope, current, *span, visited) {
                return Err(d);
            }
            verify_statements(body, else_body.as_slice(), *else_scope, loops, visited, Ghost(depth + 1))
        },
        // The other statements are excluded by the precondition.
        _ => Ok(()),
    }
}

/// Checks a `Try`/`Finally`: distinct sibling scopes, the Try scope's only
/// handler is this Finally, and the Finally body cannot transfer outward.
fn verify_try_finally(body: &TypedBody, statement: &Statement, current: ScopeId, loops: &Vec<LoopFrame>, visited: &mut Vec<bool>, Ghost(depth): Ghost<nat>) -> (r: Result<(), Diagnostic>)
    requires
        rooted(body.scopes@, current, depth),
        old(visited)@.len() == body.scopes@.len(),
        verify_stmt_expr_spec(*body, *statement, current, depth) is Ok,
        *statement is TryFinally,
    ensures
        final(visited)@.len() == old(visited)@.len(),
        reported_visits(verify_stmt_spec(*body, *statement, current, loops@, old(visited)@, depth), r, final(visited)@),
    decreases statement, 1nat,
{
    match statement {
        Statement::TryFinally { try_scope, try_body, finally_scope, finally_body, span } => {
            if *try_scope == *finally_scope {
                return Err(invalid("Try and Finally cannot share a scope", *span));
            }
            if let Err(d) = visit_child(body, *try_scope, current, *span, visited) {
                return Err(d);
            }
            if !handlers_are(&body.scopes[try_scope.0].cleanup, Some(ScopeCleanup::FinallyRegion { finally_scope: *finally_scope })) {
                return Err(invalid("Try scope has no matching Finally handler", *span));
            }
            if let Err(d) = verify_statements(body, try_body.as_slice(), *try_scope, loops, visited, Ghost(depth + 1)) {
                return Err(d);
            }
            if let Err(d) = visit_child(body, *finally_scope, current, *span, visited) {
                return Err(d);
            }
            if let Err(d) = verify_statements(body, finally_body.as_slice(), *finally_scope, loops, visited, Ghost(depth + 1)) {
                return Err(d);
            }
            if has_nonlocal_exit(finally_body.as_slice()) {
                return Err(invalid("Typed Finally cannot transfer control outward", *span));
            }
            Ok(())
        },
        // The other statements are excluded by the precondition.
        _ => Ok(()),
    }
}

/// Checks a `Try`/`Catch`: distinct scopes, the Try and Catch scopes carry
/// exactly the Finally handler if there is one, the Catch local holds a value
/// on entry, and a Finally body cannot transfer outward.
fn verify_try_catch(body: &TypedBody, statement: &Statement, current: ScopeId, loops: &Vec<LoopFrame>, visited: &mut Vec<bool>, Ghost(depth): Ghost<nat>) -> (r: Result<(), Diagnostic>)
    requires
        rooted(body.scopes@, current, depth),
        old(visited)@.len() == body.scopes@.len(),
        verify_stmt_expr_spec(*body, *statement, current, depth) is Ok,
        *statement is TryCatch,
    ensures
        final(visited)@.len() == old(visited)@.len(),
        reported_visits(verify_stmt_spec(*body, *statement, current, loops@, old(visited)@, depth), r, final(visited)@),
    decreases statement, 1nat,
{
    match statement {
        Statement::TryCatch { try_scope, try_body, catch_scope, catch_local, catch_body, finally_scope, finally_body, span } => {
            let shares = match finally_scope {
                Some(id) => *id == *try_scope || *id == *catch_scope,
                None => false,
            };
            if *try_scope == *catch_scope || shares {
                return Err(invalid("Try, Catch and Finally must have distinct scopes", *span));
            }
            let expected = match finally_scope {
                Some(f) => Some(ScopeCleanup::FinallyRegion { finally_scope: *f }),
                None => None,
            };
            if let Err(d) = visit_child(body, *try_scope, current, *span, visited) {
                return Err(d);
            }
            if !handlers_are(&body.scopes[try_scope.0].cleanup, expected) {
                return Err(invalid("Try scope has an incorrect Finally handler", *span));
            }
            if let Err(d) = verify_statements(body, try_body.as_slice(), *try_scope, loops, visited, Ghost(depth + 1)) {
                return Err(d);
            }
            if let Err(d) = visit_child(body, *catch_scope, current, *span, visited) {
                return Err(d);
            }
            if !handlers_are(&body.scopes[catch_scope.0].cleanup, expected) {
                return Err(invalid("Catch scope has an incorrect Finally handler", *span));
            }
            if let Some(local) = catch_local {
                if local.0 >= body.locals.len() || body.locals[local.0].scope != *catch_scope
                    || body.locals[local.0].initial_state != InitialState::Initialized {
                    return Err(invalid("Catch local is not initialized on entry", *span));
                }
            }
            if let Err(d) = verify_statements(body, catch_body.as_slice(), *catch_scope, loops, visited, Ghost(depth + 1)) {
                return Err(d);
            }
            match finally_scope {
                Some(fs) => {
                    if let Err(d) = visit_child(body, *fs, current, *span, visited) {
                        return Err(d);
                    }
                    if let Err(d) = verify_statements(body, finally_body.as_slice(), *fs, loops, visited, Ghost(depth + 1)) {
                        return Err(d);
                    }
                    if has_nonlocal_exit(finally_body.as_slice()) {
                        return Err(invalid("Typed Finally cannot transfer control outward", *span));
                    }
                    Ok(())
                },
                None => if finally_body.len() != 0 {
                    Err(invalid("Try/Catch body has an unattached Finally", *span))
                } else {
                    Ok(())
                },
            }
        },
        // The other statements are excluded by the precondition.
        _ => Ok(()),
    }
}

/// Checks a `Using`: its scope's only handler disposes the resource, and the
/// body begins by initializing the resource.
fn verify_using(body: &TypedBody, statement: &Statement, current: ScopeId, loops: &Vec<LoopFrame>, visited: &mut Vec<bool>, Ghost(depth): Ghost<nat>) -> (r: Result<(), Diagnostic>)
    requires
        rooted(body.scopes@, current, depth),
        old(visited)@.len() == body.scopes@.len(),
        verify_stmt_expr_spec(*body, *statement, current, depth) is Ok,
        *statement is UsingDispose,
    ensures
        final(visited)@.len() == old(visited)@.len(),
        reported_visits(verify_stmt_spec(*body, *statement, current, loops@, old(visited)@, depth), r, final(visited)@),
    decreases statement, 1nat,
{
    match statement {
        Statement::UsingDispose { resource, method, body_scope, body: inner, span } => {
            if let Err(d) = visit_child(body, *body_scope, current, *span, visited) {
                return Err(d);
            }
            if !handlers_are(
                &body.scopes[body_scope.0].cleanup,
                Some(ScopeCleanup::ExplicitDispose { resource: *resource, method: *method }),
            ) {
                return Err(invalid("Using scope has no matching Dispose cleanup", *span));
            }
            let initialized_first = inner.len() > 0 && match &inner[0] {
                Statement::Initialize { target, .. } => *target == *resource,
                _ => false,
            };
            if !initialized_first {
                return Err(invalid("Using resource is not initialized at scope entry", *span));
            }
            verify_statements(body, inner.as_slice(), *body_scope, loops, visited, Ghost(depth + 1))
        },
        // The other statements are excluded by the precondition.
        _ => Ok(()),
    }
}

/// Checks a loop: its body is a fresh child scope, checked inside one more
/// enclosing loop.
fn verify_loop(body: &TypedBody, statement: &Statement, current: ScopeId, loops: &Vec<LoopFrame>, visited: &mut Vec<bool>, Ghost(depth): Ghost<nat>) -> (r: Result<(), Diagnostic>)
    requires
        rooted(body.scopes@, current, depth),
        old(visited)@.len() == body.scopes@.len(),
        verify_stmt_expr_spec(*body, *statement, current, depth) is Ok,
        *statement is While || *statement is Do || *statement is For || *statement is ForEach,
    ensures
        final(visited)@.len() == old(visited)@.len(),
        reported_visits(verify_stmt_spec(*body, *statement, current, loops@, old(visited)@, depth), r, final(visited)@),
    decreases statement, 1nat,
{
    match statement {
        Statement::While { id, body_scope, body: inner, span, .. } | Statement::Do { id, body_scope, body: inner, span, .. }
        | Statement::For { id, body_scope, body: inner, span, .. }
        | Statement::ForEach { id, body_scope, body: inner, span, .. } => {
            if let Err(d) = visit_child(body, *body_scope, current, *span, visited) {
                return Err(d);
            }
            let nested = with_frame(loops, LoopFrame { id: *id, parent: current });
            verify_statements(body, inner.as_slice(), *body_scope, &nested, visited, Ghost(depth + 1))
        },
        // The other statements are excluded by the precondition.
        _ => Ok(()),
    }
}

/// Whether the declared value types are named types, each different from
/// every one declared before it.
pub open spec fn structures_distinct(structures: Seq<TypeName>) -> bool {
    forall|i: int|
        0 <= i < structures.len() ==> (#[trigger] structures[i] is User) && !declares(structures.subrange(0, i), structures[i])
}

/// Whether every field belongs to a declared value or reference type.
pub open spec fn field_owners_declared(body: TypedBody) -> bool {
    forall|i: int| 0 <= i < body.fields@.len() ==> declares(body.structures@ + body.classes@, #[trigger] body.fields@[i].owner)
}

/// Whether the body's root scope is scope 0 and has no parent.
pub open spec fn has_root(body: TypedBody) -> bool {
    body.root_scope == ScopeId(0) && body.scopes@.len() > 0 && body.scopes@[0].parent is None
}

/// Whether the `j`th local listed by scope `i` is not a local of the body
/// recorded as declared in that scope.
pub open spec fn misregistered(body: TypedBody, i: int, j: int) -> bool {
    let scope = body.scopes@[i];
    let local = scope.locals@[j];
    local.0 >= body.locals@.len() || body.locals@[local.0 as int].id != local || body.locals@[local.0 as int].scope != scope.id
}

/// What is wrong with the `j`th handler of scope `i`, if anything: a disposal
/// must dispose a local the scope owns by value with a `Dispose` of its type;
/// a Finally region must be a sibling scope.
pub open spec fn handler_problem(body: TypedBody, i: int, j: int) -> Option<Seq<char>> {
    let scope = body.scopes@[i];
    match scope.cleanup@[j] {
        ScopeCleanup::ExplicitDispose { resource, method } => if resource.0 >= body.locals@.len() {
            Some("Using cleanup has an invalid resource"@)
        } else if method.0 >= body.disposers@.len() {
            Some("Using cleanup has an invalid Dispose method"@)
        } else {
            let local = body.locals@[resource.0 as int];
            if local.scope != scope.id || !(local.storage is Value) || !same_type(local.ty, body.disposers@[method.0 as int].owner) {
                Some("Using cleanup does not own its resource"@)
            } else {
                None
            }
        },
        ScopeCleanup::FinallyRegion { finally_scope } => if finally_scope.0 >= body.scopes@.len() {
            Some("Finally handler has an invalid scope"@)
        } else {
            let finally = body.scopes@[finally_scope.0 as int];
            if finally.parent != scope.parent || finally.id == scope.id {
                Some("Finally handler is not a sibling of Try"@)
            } else {
                None
            }
        },
    }
}

/// The first problem among the handlers of scope `i` from position `j` on.
pub open spec fn first_handler_problem(body: TypedBody, i: int, j: int) -> Option<Seq<char>>
    decreases body.scopes@[i].cleanup@.len() - j,
{
    if j < 0 || j >= body.scopes@[i].cleanup@.len() {
        None
    } else {
        match handler_problem(body, i, j) {
            Some(m) => Some(m),
            None => first_handler_problem(body, i, j + 1),
        }
    }
}

/// What is wrong with scope `i`, if anything: its identity, the locals it
/// lists, then its handlers.
pub open spec fn scope_failure(body: TypedBody, i: int) -> Option<Failure> {
    let scope = body.scopes@[i];
    if scope.id != ScopeId(i as usize) {
        Some(fail("Scope ID does not match its index"@, scope.span))
    } else if exists|j: int| 0 <= j < scope.locals@.len() && #[trigger] misregistered(body, i, j) {
        Some(fail("Local is registered in the wrong scope"@, scope.span))
    } else {
        match first_handler_problem(body, i, 0) {
            Some(m) => Some(fail(m, scope.span)),
            None => None,
        }
    }
}

/// The first failure among the scopes from position `i` on.
pub open spec fn scopes_failure(body: TypedBody, i: int) -> Option<Failure>
    decreases body.scopes@.len() - i,
{
    if i < 0 || i >= body.scopes@.len() {
        None
    } else {
        match scope_failure(body, i) {
            Some(f) => Some(f),
            None => scopes_failure(body, i + 1),
        }
    }
}

/// Whether local `i` does not carry its index, or is not listed by the scope
/// it names.
pub open spec fn unmatched_local(body: TypedBody, i: int) -> bool {
    let local = body.locals@[i];
    local.id != LocalId(i as usize) || local.scope.0 >= body.scopes@.len() || !body.scopes@[local.scope.0 as int].locals@.contains(
        local.id,
    )
}

/// The first local from position `i` on that does not match its scope.
pub open spec fn locals_failure(body: TypedBody, i: int) -> Option<Failure>
    decreases body.locals@.len() - i,
{
    if i < 0 || i >= body.locals@.len() {
        None
    } else if unmatched_local(body, i) {
        Some(fail("Local has no matching scope entry"@, body.locals@[i].span))
    } else {
        locals_failure(body, i + 1)
    }
}

/// Whether every field and every `Dispose` method carries its index.
pub open spec fn fields_indexed(body: TypedBody) -> bool {
    forall|i: int| 0 <= i < body.fields@.len() ==> #[trigger] body.fields@[i].id.0 == i
}

/// Whether every `Dispose` method carries its index.
pub open spec fn disposers_indexed(body: TypedBody) -> bool {
    forall|i: int| 0 <= i < body.disposers@.len() ==> #[trigger] body.disposers@[i].id.0 == i
}

/// The scopes entered before any statement is checked: the root alone.
pub open spec fn root_only(n: nat) -> Seq<bool> {
    Seq::new(n, |i: int| i == 0)
}

/// Whether some scope has a handler that no statement owns.
pub open spec fn unowned_handler(body: TypedBody) -> bool {
    exists|i: int|
        0 <= i < body.scopes@.len() && #[trigger] body.scopes@[i].cleanup@.len() != 0 && !handlers_from(body.statements@, 0).contains(
            body.scopes@[i].id,
        )
}

/// The structural verdict on a typed body: every identity matches its
/// index, the scopes form a tree reached exactly once from the root, every
/// statement and expression is well formed, and every handler has an owner.
pub open spec fn verify_body_spec(body: TypedBody) -> Result<(), Failure> {
    if !structures_distinct(body.structures@) {
        Err(fail("HIR Structure identity is invalid or duplicated"@, body.span))
    } else if !field_owners_declared(body) {
        Err(fail("HIR field owner is not a declared value or reference type"@, body.span))
    } else if !has_root(body) {
        Err(fail("HIR has no root scope"@, body.span))
    } else {
        match scopes_failure(body, 0) {
            Some(f) => Err(f),
            None => match locals_failure(body, 0) {
                Some(f) => Err(f),
                None => if !fields_indexed(body) {
                    Err(fail("Field ID does not match its index"@, body.span))
                } else if !disposers_indexed(body) {
                    Err(fail("Dispose method ID does not match its index"@, body.span))
                } else {
                    match verify_stmts_spec(
                        body,
                        body.statements@,
                        0,
                        body.root_scope,
                        Seq::empty(),
                        root_only(body.scopes@.len()),
                        0,
                    ) {
                        Err(f) => Err(f),
                        Ok(visited) => if unowned_handler(body) {
                            Err(fail("Cleanup handler has no owning region"@, body.span))
                        } else if exists|i: int| 0 <= i < visited.len() && !#[trigger] visited[i] {
                            Err(fail("HIR contains an unreachable scope"@, body.span))
                        } else {
                            Ok(())
                        },
                    }
                },
            },
        }
    }
}

proof fn lemma_scopes_all_pass(body: TypedBody, i: int, j: int)
    requires
        0 <= i <= j < body.scopes@.len(),
        scopes_failure(body, i) is None,
    ensures
        scope_failure(body, j) is None,
    decreases j - i,
{
    if i < j {
        lemma_scopes_all_pass(body, i + 1, j);
    }
}

proof fn lemma_locals_all_pass(body: TypedBody, i: int, j: int)
    requires
        0 <= i <= j < body.locals@.len(),
        locals_failure(body, i) is None,
    ensures
        !unmatched_local(body, j),
    decreases j - i,
{
    if i < j {
        lemma_locals_all_pass(body, i + 1, j);
    }
}

/// What a body that passes structural verification is like: it has a root
/// scope with no parent; every scope, local, field and `Dispose` method
/// carries its own index; every local lies in a scope that lists it, and
/// every local a scope lists is recorded as declared there; and every
/// cleanup handler belongs to a statement.
pub proof fn lemma_verified_body_well_formed(body: TypedBody)
    requires
        verify_body_spec(body) is Ok,
    ensures
        has_root(body),
        forall|i: int| 0 <= i < body.scopes@.len() ==> (#[trigger] body.scopes@[i]).id == ScopeId(i as usize),
        forall|i: int, j: int|
            0 <= i < body.scopes@.len() && 0 <= j < body.scopes@[i].locals@.len() ==> !#[trigger] misregistered(body, i, j),
        forall|i: int|
            0 <= i < body.locals@.len() ==> (#[trigger] body.locals@[i]).id == LocalId(i as usize) && body.locals@[i].scope.0
                < body.scopes@.len() && body.scopes@[body.locals@[i].scope.0 as int].locals@.contains(body.locals@[i].id),
        fields_indexed(body),
        disposers_indexed(body),
        !unowned_handler(body),
{
    assert forall|i: int| 0 <= i < body.scopes@.len() implies (#[trigger] body.scopes@[i]).id == ScopeId(i as usize) by {
        lemma_scopes_all_pass(body, 0, i);
    }
    assert forall|i: int, j: int|
        0 <= i < body.scopes@.len() && 0 <= j < body.scopes@[i].locals@.len() implies !#[trigger] misregistered(body, i, j) by {
        lemma_scopes_all_pass(body, 0, i);
    }
    assert forall|i: int| 0 <= i < body.locals@.len() implies (#[trigger] body.locals@[i]).id == LocalId(i as usize)
        && body.locals@[i].scope.0 < body.scopes@.len() && body.scopes@[body.locals@[i].scope.0 as int].locals@.contains(
        body.locals@[i].id,
    ) by {
        lemma_locals_all_pass(body, 0, i);
    }
}

/// Whether a list of locals names `local`.
fn lists_local(locals: &Vec<LocalId>, local: LocalId) -> (r: bool)
    ensures
        r == locals@.contains(local),
{
    let mut i: usize = 0;
    while i < locals.len()
        invariant
            i <= locals@.len(),
            forall|j: int| 0 <= j < i ==> locals@[j] != local,
        decreases locals@.len() - i,
    {
        if locals[i] == local {
            assert(locals@[i as int] == local);
            return true;
        }
        i = i + 1;
    }
    false
}

/// Whether a list of scopes names `scope`.
fn lists_scope(scopes: &Vec<ScopeId>, scope: ScopeId) -> (r: bool)
    ensures
        r == scopes@.contains(scope),
{
    let mut i: usize = 0;
    while i < scopes.len()
        invariant
            i <= scopes@.len(),
            forall|j: int| 0 <= j < i ==> scopes@[j] != scope,
        decreases scopes@.len() - i,
    {
        if scopes[i] == scope {
            assert(scopes@[i as int] == scope);
            return true;
        }
        i = i + 1;
    }
    false
}

/// Checks the declared value types and the owners of the fields.
fn verify_declarations(body: &TypedBody) -> (r: Result<(), Diagnostic>)
    ensures
        if !structures_distinct(body.structures@) {
            r matches Err(d) && reports(d, fail("HIR Structure identity is invalid or duplicated"@, body.span))
        } else if !field_owners_declared(*body) {
            r matches Err(d) && reports(d, fail("HIR field owner is not a declared value or reference type"@, body.span))
        } else {
            r is Ok
        },
{
    let mut i: usize = 0;
    while i < body.structures.len()
        invariant
            i <= body.structures@.len(),
            forall|k: int|
                0 <= k < i ==> (#[trigger] body.structures@[k] is User) && !declares(body.structures@.subrange(0, k), body.structures@[k]),
        decreases body.structures@.len() - i,
    {
        let structure = &body.structures[i];
        if !matches!(structure, TypeName::User(_)) {
            return Err(invalid("HIR Structure identity is invalid or duplicated", body.span));
        }
        let mut j: usize = 0;
        while j < i
            invariant
                i < body.structures@.len(),
                j <= i,
                structure == body.structures@[i as int],
                forall|m: int| 0 <= m < j ==> !same_type(#[trigger] body.structures@[m], *structure),
            decreases i - j,
        {
            if body.structures[j].same_type(structure) {
                assert(body.structures@.subrange(0, i as int)[j as int] == body.structures@[j as int]);
                return Err(invalid("HIR Structure identity is invalid or duplicated", body.span));
            }
            j = j + 1;
        }
        assert forall|m: int| 0 <= m < i implies !same_type(#[trigger] body.structures@.subrange(0, i as int)[m], *structure) by {
            assert(body.structures@.subrange(0, i as int)[m] == body.structures@[m]);
        }
        i = i + 1;
    }
    let ghost owners = body.structures@ + body.classes@;
    let mut f: usize = 0;
    while f < body.fields.len()
        invariant
            f <= body.fields@.len(),
            structures_distinct(body.structures@),
            owners == body.structures@ + body.classes@,
            forall|k: int| 0 <= k < f ==> declares(owners, #[trigger] body.fields@[k].owner),
        decreases body.fields@.len() - f,
    {
        let owner = &body.fields[f].owner;
        let found = if any_same_type(&body.structures, owner) {
            proof {
                let k = choose|k: int| 0 <= k < body.structures@.len() && same_type(#[trigger] body.structures@[k], *owner);
                assert(owners[k] == body.structures@[k]);
            }
            true
        } else if any_same_type(&body.classes, owner) {
            proof {
                let k = choose|k: int| 0 <= k < body.classes@.len() && same_type(#[trigger] body.classes@[k], *owner);
                assert(owners[body.structures@.len() + k] == body.classes@[k]);
            }
            true
        } else {
            proof {
                assert forall|k: int| 0 <= k < owners.len() implies !same_type(#[trigger] owners[k], *owner) by {
                    if k < body.structures@.len() {
                        assert(owners[k] == body.structures@[k]);
                    } else {
                        assert(owners[k] == body.classes@[k - body.structures@.len()]);
                    }
                }
            }
            false
        };
        if !found {
            return Err(invalid("HIR field owner is not a declared value or reference type", body.span));
        }
        f = f + 1;
    }
    Ok(())
}

/// The problem with the `j`th handler of scope `i`, if any.
fn check_handler(body: &TypedBody, i: usize, j: usize) -> (r: Option<&'static str>)
    requires
        i < body.scopes@.len(),
        j < body.scopes@[i as int].cleanup@.len(),
    ensures
        match handler_problem(*body, i as int, j as int) {
            Some(m) => r matches Some(x) && x@ == m,
            None => r is None,
        },
{
    let scope = &body.scopes[i];
    match scope.cleanup[j] {
        ScopeCleanup::ExplicitDispose { resource, method } => {
            if resource.0 >= body.locals.len() {
                return Some("Using cleanup has an invalid resource");
            }
            if method.0 >= body.disposers.len() {
                return Some("Using cleanup has an invalid Dispose method");
            }
            let local = &body.locals[resource.0];
            if local.scope != scope.id || local.storage != LocalStorage::Value || !local.ty.same_type(
                &body.disposers[method.0].owner,
            ) {
                return Some("Using cleanup does not own its resource");
            }
            None
        },
        ScopeCleanup::FinallyRegion { finally_scope } => {
            if finally_scope.0 >= body.scopes.len() {
                return Some("Finally handler has an invalid scope");
            }
            let finally = &body.scopes[finally_scope.0];
            let same_parent = match (finally.parent, scope.parent) {
                (Some(a), Some(b)) => a == b,
                (None, None) => true,
                _ => false,
            };
            if !same_parent || finally.id == scope.id {
                return Some("Finally handler is not a sibling of Try");
            }
            None
        },
    }
}

/// Checks every scope in order: its identity, the locals it lists, and its
/// handlers.
#[verifier::loop_isolation(false)]
fn verify_scopes(body: &TypedBody) -> (r: Result<(), Diagnostic>)
    ensures
        match scopes_failure(*body, 0) {
            Some(f) => r matches Err(d) && reports(d, f),
            None => r is Ok,
        },
{
    let mut i: usize = 0;
    while i < body.scopes.len()
        invariant
            i <= body.scopes@.len(),
            scopes_failure(*body, 0) == scopes_failure(*body, i as int),
        decreases body.scopes@.len() - i,
    {
        let scope = &body.scopes[i];
        if scope.id != ScopeId(i) {
            return Err(invalid("Scope ID does not match its index", scope.span));
        }
        let mut j: usize = 0;
        while j < scope.locals.len()
            invariant
                i < body.scopes@.len(),
                scope == body.scopes@[i as int],
                j <= scope.locals@.len(),
                forall|m: int| 0 <= m < j ==> !#[trigger] misregistered(*body, i as int, m),
            decreases scope.locals@.len() - j,
        {
            let local = scope.locals[j];
            if local.0 >= body.locals.len() || body.locals[local.0].id != local || body.locals[local.0].scope != scope.id {
                assert(misregistered(*body, i as int, j as int));
                return Err(invalid("Local is registered in the wrong scope", scope.span));
            }
            j = j + 1;
        }
        let mut c: usize = 0;
        while c < scope.cleanup.len()
            invariant
                i < body.scopes@.len(),
                scope == body.scopes@[i as int],
                c <= scope.cleanup@.len(),
                first_handler_problem(*body, i as int, 0) == first_handler_problem(*body, i as int, c as int),
            decreases scope.cleanup@.len() - c,
        {
            if let Some(message) = check_handler(body, i, c) {
                return Err(invalid(message, scope.span));
            }
            c = c + 1;
        }
        i = i + 1;
    }
    Ok(())
}

/// Checks that every local carries its index and is listed by its scope.
fn verify_locals(body: &TypedBody) -> (r: Result<(), Diagnostic>)
    ensures
        match locals_failure(*body, 0) {
            Some(f) => r matches Err(d) && reports(d, f),
            None => r is Ok,
        },
{
    let mut i: usize = 0;
    while i < body.locals.len()
        invariant
            i <= body.locals@.len(),
            locals_failure(*body, 0) == locals_failure(*body, i as int),
        decreases body.locals@.len() - i,
    {
        let local = &body.locals[i];
        if local.id != LocalId(i) || local.scope.0 >= body.scopes.len() || !lists_local(&body.scopes[local.scope.0].locals, local.id) {
            return Err(invalid("Local has no matching scope entry", local.span));
        }
        i = i + 1;
    }
    Ok(())
}

/// Whether every field and every `Dispose` method carries its index.
fn verify_indices(body: &TypedBody) -> (r: Result<(), Diagnostic>)
    ensures
        if !fields_indexed(*body) {
            r matches Err(d) && reports(d, fail("Field ID does not match its index"@, body.span))
        } else if !disposers_indexed(*body) {
            r matches Err(d) && reports(d, fail("Dispose method ID does not match its index"@, body.span))
        } else {
            r is Ok
        },
{
    let mut i: usize = 0;
    while i < body.fields.len()
        invariant
            i <= body.fields@.len(),
            forall|k: int| 0 <= k < i ==> #[trigger] body.fields@[k].id.0 == k,
        decreases body.fields@.len() - i,
    {
        if body.fields[i].id.0 != i {
            return Err(invalid("Field ID does not match its index", body.span));
        }
        i = i + 1;
    }
    let mut i: usize = 0;
    while i < body.disposers.len()
        invariant
            i <= body.disposers@.len(),
            fields_indexed(*body),
            forall|k: int| 0 <= k < i ==> #[trigger] body.disposers@[k].id.0 == k,
        decreases body.disposers@.len() - i,
    {
        if body.disposers[i].id.0 != i {
            return Err(invalid("Dispose method ID does not match its index", body.span));
        }
        i = i + 1;
    }
    Ok(())
}

/// Checks that a typed body meets the structural preconditions of ownership
/// analysis and lowering: identities match their indices, scopes form a tree
/// each of whose scopes is entered exactly once, every local is used inside
/// its lexical scope, every expression has the type its operation gives it,
/// every transfer leaves exactly the scopes up to its target with their
/// handlers in order, and every handler has an owning statement.
#[verifier::loop_isolation(false)]
pub fn verify_body(body: &TypedBody) -> (r: Result<(), Diagnostic>)
    ensures
        reported(verify_body_spec(*body), r),
{
    if let Err(d) = verify_declarations(body) {
        return Err(d);
    }
    let has_root_scope = body.root_scope == ScopeId(0) && body.scopes.len() > 0 && body.scopes[0].parent.is_none();
    if !has_root_scope {
        return Err(invalid("HIR has no root scope", body.span));
    }
    if let Err(d) = verify_scopes(body) {
        return Err(d);
    }
    if let Err(d) = verify_locals(body) {
        return Err(d);
    }
    if let Err(d) = verify_indices(body) {
        return Err(d);
    }
    let mut visited: Vec<bool> = Vec::new();
    let mut i: usize = 0;
    while i < body.scopes.len()
        invariant
            i <= body.scopes@.len(),
            visited@ == root_only(body.scopes@.len()).subrange(0, i as int),
        decreases body.scopes@.len() - i,
    {
        visited.push(i == 0);
        i = i + 1;
        assert(visited@ =~= root_only(body.scopes@.len()).subrange(0, i as int));
    }
    assert(visited@ =~= root_only(body.scopes@.len()));
    assert(rooted(body.scopes@, body.root_scope, 0));
    let loops: Vec<LoopFrame> = Vec::new();
    assert(loops@ =~= Seq::<LoopFrame>::empty());
    if let Err(d) = verify_statements(body, body.statements.as_slice(), body.root_scope, &loops, &mut visited, Ghost(0)) {
        return Err(d);
    }
    let mut handler_scopes: Vec<ScopeId> = Vec::new();
    collect_handler_scopes(body.statements.as_slice(), &mut handler_scopes);
    assert(handler_scopes@ =~= handlers_from(body.statements@, 0));
    let mut i: usize = 0;
    while i < body.scopes.len()
        invariant
            i <= body.scopes@.len(),
            handler_scopes@ == handlers_from(body.statements@, 0),
            forall|k: int|
                0 <= k < i ==> !(#[trigger] body.scopes@[k].cleanup@.len() != 0 && !handler_scopes@.contains(body.scopes@[k].id)),
        decreases body.scopes@.len() - i,
    {
        if body.scopes[i].cleanup.len() != 0 && !lists_scope(&handler_scopes, body.scopes[i].id) {
            return Err(invalid("Cleanup handler has no owning region", body.span));
        }
        i = i + 1;
    }
    let mut i: usize = 0;
    while i < visited.len()
        invariant
            i <= visited@.len(),
            forall|k: int| 0 <= k < i ==> #[trigger] visited@[k],
        decreases visited@.len() - i,
    {
        if !visited[i] {
            return Err(invalid("HIR contains an unreachable scope", body.span));
        }
        i = i + 1;
    }
    Ok(())
}

proof fn lemma_expr_locals(body: TypedBody, e: Expression, current: ScopeId, depth: nat)
    requires
        verify_expr_spec(body, e, current, depth) is Ok,
    ensures
        expr_locals_ok(body.locals@.len(), e),
    decreases e, 0nat,
{
    let n = body.locals@.len();
    match e.kind {
        ExpressionKind::Tuple(values) => {
            vstd::std_specs::vec::axiom_vec_decreases_to_view(values);
            lemma_tuple_locals(body, values@, e.ty->Tuple_0@, 0, current, depth);
        },
        ExpressionKind::Place(place) => {
            vstd::std_specs::vec::axiom_vec_decreases_to_view(place.projections);
            lemma_projection_locals(body, place.projections@, 0, body.locals@[place.root.0 as int].ty, current, e.span, depth);
        },
        ExpressionKind::Call { signature, arguments, .. } => {
            vstd::std_specs::vec::axiom_vec_decreases_to_view(arguments);
            lemma_call_locals(body, signature, arguments@, e.ty, e.span, current, depth);
        },
        ExpressionKind::Load(inner) | ExpressionKind::BorrowMutable(inner) | ExpressionKind::BorrowImmutable(inner)
        | ExpressionKind::Move(inner) | ExpressionKind::Convert { value: inner, .. } | ExpressionKind::StringLen(inner)
        | ExpressionKind::StringFormat { value: inner, .. } | ExpressionKind::BoxDynamic(inner)
        | ExpressionKind::UnboxDynamic { value: inner, .. } | ExpressionKind::CollectionCount(inner) => {
            lemma_expr_locals(body, *inner, current, depth);
        },
        ExpressionKind::Arithmetic { left, right, .. } | ExpressionKind::Compare { left, right, .. }
        | ExpressionKind::StringConcat { left, right } | ExpressionKind::StringCompare { left, right, .. }
        | ExpressionKind::ReferenceIdentity { left, right, .. }
        | ExpressionKind::CollectionItem { collection: left, index: right } => {
            lemma_expr_locals(body, *left, current, depth);
            lemma_expr_locals(body, *right, current, depth);
        },
        _ => {},
    }
}

proof fn lemma_tuple_locals(
    body: TypedBody,
    values: Seq<Expression>,
    elements: Seq<(Option<String>, TypeName)>,
    k: int,
    current: ScopeId,
    depth: nat,
)
    requires
        0 <= k,
        verify_tuple_spec(body, values, elements, k, current, depth) is Ok,
    ensures
        forall|i: int| k <= i < values.len() ==> expr_locals_ok(body.locals@.len(), #[trigger] values[i]),
    decreases values, values.len() - k,
{
    if k < values.len() {
        lemma_expr_locals(body, values[k], current, depth);
        lemma_tuple_locals(body, values, elements, k + 1, current, depth);
    }
}

proof fn lemma_projection_locals(
    body: TypedBody,
    projections: Seq<Projection>,
    k: int,
    place_type: TypeName,
    current: ScopeId,
    span: Span,
    depth: nat,
)
    requires
        0 <= k,
        verify_projections_spec(body, projections, k, place_type, current, span, depth) is Ok,
    ensures
        forall|i: int|
            k <= i < projections.len() ==> (#[trigger] projections[i] matches Projection::Index(index) ==> expr_locals_ok(
                body.locals@.len(),
                *index.index,
            )),
    decreases projections, projections.len() - k,
{
    if k < projections.len() {
        match projections[k] {
            Projection::Field(id) => {
                lemma_projection_locals(body, projections, k + 1, body.fields@[id.0 as int].ty, current, span, depth);
            },
            Projection::TupleField(index) => {
                lemma_projection_locals(body, projections, k + 1, place_type->Tuple_0@[index as int].1, current, span, depth);
            },
            Projection::Index(index) => {
                lemma_expr_locals(body, *index.index, current, depth);
                lemma_projection_locals(body, projections, k + 1, index.element_type, current, span, depth);
            },
        }
    }
}

proof fn lemma_args_locals(
    body: TypedBody,
    arguments: Seq<CallArgument>,
    types: Seq<TypeName>,
    modes: Seq<ArgumentMode>,
    k: int,
    current: ScopeId,
    depth: nat,
)
    requires
        0 <= k,
        verify_args_spec(body, arguments, types, modes, k, current, depth) is Ok,
    ensures
        forall|i: int| k <= i < arguments.len() ==> expr_locals_ok(body.locals@.len(), #[trigger] arguments[i].value),
    decreases arguments, arguments.len() - k,
{
    if k < arguments.len() {
        lemma_expr_locals(body, arguments[k].value, current, depth);
        lemma_args_locals(body, arguments, types, modes, k + 1, current, depth);
    }
}

proof fn lemma_call_locals(
    body: TypedBody,
    signature: CallSignature,
    arguments: Seq<CallArgument>,
    ty: TypeName,
    span: Span,
    current: ScopeId,
    depth: nat,
)
    requires
        verify_call_spec(body, signature, arguments, ty, span, current, depth) is Ok,
    ensures
        forall|i: int| 0 <= i < arguments.len() ==> expr_locals_ok(body.locals@.len(), #[trigger] arguments[i].value),
    decreases arguments, arguments.len() + 1,
{
    lemma_args_locals(body, arguments, signature.parameter_types@, signature.parameter_modes@, 0, current, depth);
}

proof fn lemma_exit_in_range(
    body: TypedBody,
    current: ScopeId,
    stop: Option<ScopeId>,
    exited: Seq<ScopeId>,
    chain: Seq<CleanupStep>,
    message: Seq<char>,
    span: Span,
    depth: nat,
)
    requires
        rooted(body.scopes@, current, depth),
        verify_exit_spec(body, current, stop, exited, chain, message, span, depth) is Ok,
    ensures
        forall|i: int| 0 <= i < exited.len() ==> #[trigger] exited[i].0 < body.scopes@.len(),
{
    lemma_chain_in_range(body.scopes@, current, stop, depth);
}

proof fn lemma_stmts_ok(
    body: TypedBody,
    statements: Seq<Statement>,
    k: int,
    current: ScopeId,
    loops: Seq<LoopFrame>,
    visited: Seq<bool>,
    depth: nat,
)
    requires
        0 <= k,
        rooted(body.scopes@, current, depth),
        verify_stmts_spec(body, statements, k, current, loops, visited, depth) is Ok,
    ensures
        forall|i: int| k <= i < statements.len() ==> stmt_ok(body, #[trigger] statements[i]),
    decreases statements, statements.len() - k,
{
    if k < statements.len() {
        lemma_stmt_ok(body, statements[k], current, loops, visited, depth);
        let v = verify_stmt_spec(body, statements[k], current, loops, visited, depth)->Ok_0;
        lemma_stmts_ok(body, statements, k + 1, current, loops, v, depth);
    }
}

proof fn lemma_stmt_ok(body: TypedBody, s: Statement, current: ScopeId, loops: Seq<LoopFrame>, visited: Seq<bool>, depth: nat)
    requires
        rooted(body.scopes@, current, depth),
        verify_stmt_spec(body, s, current, loops, visited, depth) is Ok,
    ensures
        stmt_ok(body, s),
    decreases s, 1nat,
{
    let n = body.locals@.len();
    match s {
        Statement::Initialize { value, .. } => {
            lemma_expr_locals(body, value, current, depth);
        },
        Statement::Store { target, value, .. } => {
            lemma_expr_locals(body, *target, current, depth);
            lemma_expr_locals(body, value, current, depth);
        },
        Statement::Return { value, exited_scopes, cleanup_chain, span } => {
            lemma_expr_locals(body, value, current, depth);
            lemma_exit_in_range(body, current, None, exited_scopes@, cleanup_chain@, "Return has incorrect scope exits"@, span, depth);
        },
        Statement::ReturnVoid { exited_scopes, cleanup_chain, span } => {
            lemma_exit_in_range(body, current, None, exited_scopes@, cleanup_chain@, "Return has incorrect scope exits"@, span, depth);
        },
        Statement::ExitLoop { loop_id, exited_scopes, cleanup_chain, span }
        | Statement::ContinueLoop { loop_id, exited_scopes, cleanup_chain, span } => {
            let frame = innermost_frame(loops, loop_id)->Some_0;
            lemma_exit_in_range(
                body,
                current,
                Some(frame.parent),
                exited_scopes@,
                cleanup_chain@,
                "Loop control has incorrect scope exits"@,
                span,
                depth,
            );
        },
        Statement::CallSub { signature, arguments, span, .. } => {
            lemma_call_locals(body, signature, arguments@, TypeName::Void, span, current, depth);
        },
        Statement::CollectionAdd { collection, item, before, .. } => {
            lemma_expr_locals(body, collection, current, depth);
            lemma_expr_locals(body, item, current, depth);
            if let Some(b) = *before {
                lemma_expr_locals(body, b, current, depth);
            }
        },
        Statement::CollectionRemove { collection, index, .. } => {
            lemma_expr_locals(body, collection, current, depth);
            lemma_expr_locals(body, index, current, depth);
        },
        Statement::If { condition, then_scope, then_body, else_scope, else_body, span } => {
            lemma_expr_locals(body, condition, current, depth);
            let v1 = visit_child_spec(body, then_scope, current, span, visited)->Ok_0;
            lemma_stmts_ok(body, then_body@, 0, then_scope, loops, v1, depth + 1);
            let v2 = verify_stmts_spec(body, then_body@, 0, then_scope, loops, v1, depth + 1)->Ok_0;
            let v3 = visit_child_spec(body, else_scope, current, span, v2)->Ok_0;
            lemma_stmts_ok(body, else_body@, 0, else_scope, loops, v3, depth + 1);
        },
        Statement::TryFinally { try_scope, try_body, finally_scope, finally_body, span } => {
            let v1 = visit_child_spec(body, try_scope, current, span, visited)->Ok_0;
            lemma_stmts_ok(body, try_body@, 0, try_scope, loops, v1, depth + 1);
            let v2 = verify_stmts_spec(body, try_body@, 0, try_scope, loops, v1, depth + 1)->Ok_0;
            let v3 = visit_child_spec(body, finally_scope, current, span, v2)->Ok_0;
            lemma_stmts_ok(body, finally_body@, 0, finally_scope, loops, v3, depth + 1);
        },
        Statement::TryCatch { try_scope, try_body, catch_scope, catch_body, finally_scope, finally_body, span, .. } => {
            let v1 = visit_child_spec(body, try_scope, current, span, visited)->Ok_0;
            lemma_stmts_ok(body, try_body@, 0, try_scope, loops, v1, depth + 1);
            let v2 = verify_stmts_spec(body, try_body@, 0, try_scope, loops, v1, depth + 1)->Ok_0;
            let v3 = visit_child_spec(body, catch_scope, current, span, v2)->Ok_0;
            lemma_stmts_ok(body, catch_body@, 0, catch_scope, loops, v3, depth + 1);
            let v4 = verify_stmts_spec(body, catch_body@, 0, catch_scope, loops, v3, depth + 1)->Ok_0;
            if let Some(fs) = finally_scope {
                let v5 = visit_child_spec(body, fs, current, span, v4)->Ok_0;
                lemma_stmts_ok(body, finally_body@, 0, fs, loops, v5, depth + 1);
            }
        },
        Statement::UsingDispose { body_scope, body: inner, span, .. } => {
            let v1 = visit_child_spec(body, body_scope, current, span, visited)->Ok_0;
            lemma_stmts_ok(body, inner@, 0, body_scope, loops, v1, depth + 1);
        },
        Statement::While { id, condition, body_scope, body: inner, span } => {
            lemma_expr_locals(body, condition, current, depth);
            let v1 = visit_child_spec(body, body_scope, current, span, visited)->Ok_0;
            lemma_stmts_ok(body, inner@, 0, body_scope, loops.push(LoopFrame { id, parent: current }), v1, depth + 1);
        },
        Statement::Do { id, condition, body_scope, body: inner, span } => {
            match condition {
                DoCondition::PreWhile(e) | DoCondition::PreUntil(e) | DoCondition::PostWhile(e)
                | DoCondition::PostUntil(e) => {
                    lemma_expr_locals(body, e, current, depth);
                },
                DoCondition::Infinite => {},
            }
            let v1 = visit_child_spec(body, body_scope, current, span, visited)->Ok_0;
            lemma_stmts_ok(body, inner@, 0, body_scope, loops.push(LoopFrame { id, parent: current }), v1, depth + 1);
        },
        Statement::For { id, start, end, step, body_scope, body: inner, span, .. } => {
            lemma_expr_locals(body, *start, current, depth);
            lemma_expr_locals(body, *end, current, depth);
            lemma_expr_locals(body, *step, current, depth);
            let v1 = visit_child_spec(body, body_scope, current, span, visited)->Ok_0;
            lemma_stmts_ok(body, inner@, 0, body_scope, loops.push(LoopFrame { id, parent: current }), v1, depth + 1);
        },
        Statement::ForEach { id, iterable, body_scope, body: inner, span, .. } => {
            lemma_expr_locals(body, iterable, current, depth);
            let v1 = visit_child_spec(body, body_scope, current, span, visited)->Ok_0;
            lemma_stmts_ok(body, inner@, 0, body_scope, loops.push(LoopFrame { id, parent: current }), v1, depth + 1);
        },
    }
}

proof fn lemma_handlers_sound(body: TypedBody, i: int, j: int)
    requires
        0 <= i < body.scopes@.len(),
        0 <= j,
        first_handler_problem(body, i, j) is None,
    ensures
        forall|c: int|
            j <= c < body.scopes@[i].cleanup@.len() ==> (#[trigger] body.scopes@[i].cleanup@[c] matches ScopeCleanup::ExplicitDispose {
                resource,
                ..
            } ==> resource.0 < body.locals@.len()),
    decreases body.scopes@[i].cleanup@.len() - j,
{
    if j < body.scopes@[i].cleanup@.len() {
        lemma_handlers_sound(body, i, j + 1);
    }
}

proof fn lemma_scopes_sound(body: TypedBody, k: int)
    requires
        0 <= k,
        scopes_failure(body, k) is None,
    ensures
        forall|i: int| k <= i < body.scopes@.len() ==> #[trigger] scope_failure(body, i) is None,
    decreases body.scopes@.len() - k,
{
    if k < body.scopes@.len() {
        lemma_scopes_sound(body, k + 1);
    }
}

/// A body that passes structural verification meets everything ownership
/// analysis relies on: every local and scope that a scope, a handler, a
/// statement or an expression names belongs to the body.
pub proof fn lemma_verified_body_is_analysable(body: TypedBody)
    requires
        verify_body_spec(body) is Ok,
    ensures
        body_ok(body),
{
    lemma_scopes_sound(body, 0);
    assert forall|i: int, j: int|
        0 <= i < body.scopes@.len() && 0 <= j < body.scopes@[i].locals@.len() implies #[trigger] body.scopes@[i].locals@[j].0
        < body.locals@.len() by {
        assert(scope_failure(body, i) is None);
        assert(!misregistered(body, i, j));
    }
    assert forall|i: int, j: int|
        0 <= i < body.scopes@.len() && 0 <= j < body.scopes@[i].cleanup@.len() implies (#[trigger] body.scopes@[i].cleanup@[j] matches ScopeCleanup::ExplicitDispose {
        resource,
        ..
    } ==> resource.0 < body.locals@.len()) by {
        assert(scope_failure(body, i) is None);
        lemma_handlers_sound(body, i, 0);
    }
    assert(scopes_ok(body));
    assert(rooted(body.scopes@, body.root_scope, 0));
    lemma_stmts_ok(body, body.statements@, 0, body.root_scope, Seq::empty(), root_only(body.scopes@.len()), 0);
}

} // verus!
