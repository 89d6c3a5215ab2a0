//! Choosing which accessor of a property an access goes to, when the
//! property has several: by the types of the indices, and for a write, of
//! the value written.
use vstd::prelude::*;

use crate::diagnostics::{Diagnostic, DiagnosticCode, Span};
use crate::member_rules::shape_of;
use crate::overloads::{
    fits_spec, lemma_fits_respect_shapes, lemma_indices_where, lemma_resolution_respects_fits, outcome, resolve,
    same_arg, same_args, same_fits, same_shape, same_shapes, unbeaten_indices, viable_indices, Outcome,
    ParamShape, Resolution,
};
use crate::symbols::ParamSig;
use crate::text::push_str;
use crate::type_model::{lemma_ty_eq_reflexive, TypeName};
use crate::types::PropertyAccessorSig;

verus! {

/// Whether `shapes` lists, for each accessor in order, the shapes of its
/// parameters in order.
pub open spec fn mirrors(shapes: Seq<Vec<ParamShape>>, accessors: Seq<PropertyAccessorSig>) -> bool {
    &&& shapes.len() == accessors.len()
    &&& forall|k: int| 0 <= k < shapes.len() ==> (#[trigger] shapes[k])@.len() == accessors[k].params@.len()
    &&& forall|k: int, i: int|
        0 <= k < shapes.len() && 0 <= i < shapes[k]@.len() ==> shape_of(
            #[trigger] shapes[k]@[i],
            accessors[k].params@[i],
        )
}

/// Whether a diagnostic says `head`, the property's name, then `tail`, at
/// the access.
pub open spec fn reports_accessor(d: Diagnostic, code: DiagnosticCode, head: Seq<char>, name: Seq<char>, tail: Seq<char>, span: Span) -> bool {
    &&& d.code == code
    &&& d.message@ == head + name + tail
    &&& d.span == Some(span)
    &&& d.help is None
}

/// Any two listings of the accessors' shapes give every accessor the same
/// fits, for argument lists written alike.
proof fn lemma_mirrors_same_fits(
    s1: Seq<Vec<ParamShape>>,
    a1: Seq<Option<TypeName>>,
    s2: Seq<Vec<ParamShape>>,
    a2: Seq<Option<TypeName>>,
    accessors: Seq<PropertyAccessorSig>,
)
    requires
        mirrors(s1, accessors),
        mirrors(s2, accessors),
        same_args(a1, a2),
    ensures
        same_fits(s1, a1, s2, a2),
{
    assert forall|i: int| 0 <= i < a2.len() implies same_arg(#[trigger] a2[i], a2[i]) by {
        if let Some(t) = a2[i] {
            lemma_ty_eq_reflexive(t);
        }
    }
    assert forall|k: int| 0 <= k < s1.len() implies #[trigger] fits_spec(s1[k]@, a1) == fits_spec(s2[k]@, a2) by {
        let params = accessors[k].params@;
        let mid = Seq::new(
            params.len(),
            |i: int| ParamShape { ty: params[i].ty, is_optional: params[i].is_optional, is_param_array: params[i].is_param_array },
        );
        assert(s1[k]@.len() == params.len());
        assert(s2[k]@.len() == params.len());
        assert forall|i: int| 0 <= i < s1[k]@.len() implies same_shape(#[trigger] s1[k]@[i], mid[i]) by {
            assert(shape_of(s1[k]@[i], params[i]));
        }
        assert forall|i: int| 0 <= i < s2[k]@.len() implies same_shape(#[trigger] s2[k]@[i], mid[i]) by {
            assert(shape_of(s2[k]@[i], params[i]));
        }
        assert(same_shapes(s1[k]@, mid));
        assert(same_shapes(s2[k]@, mid));
        lemma_fits_respect_shapes(s1[k]@, mid, a1, a2);
        lemma_fits_respect_shapes(s2[k]@, mid, a2, a2);
    }
}

/// The shapes of a list of parameters, in order.
fn params_shapes(params: &Vec<ParamSig>) -> (r: Vec<ParamShape>)
    ensures
        r@.len() == params@.len(),
        forall|i: int| 0 <= i < r@.len() ==> shape_of(#[trigger] r@[i], params@[i]),
{
    let mut out: Vec<ParamShape> = Vec::new();
    let mut i: usize = 0;
    while i < params.len()
        invariant
            i <= params@.len(),
            out@.len() == i,
            forall|j: int| 0 <= j < i ==> shape_of(#[trigger] out@[j], params@[j]),
        decreases params@.len() - i,
    {
        let param = &params[i];
        out.push(
            ParamShape { ty: param.ty.duplicate(), is_optional: param.is_optional, is_param_array: param.is_param_array },
        );
        i = i + 1;
    }
    out
}

/// The parameter shapes of each accessor, in order.
fn accessor_shapes(candidates: &[PropertyAccessorSig]) -> (r: Vec<Vec<ParamShape>>)
    ensures
        mirrors(r@, candidates@),
{
    let mut out: Vec<Vec<ParamShape>> = Vec::new();
    let mut k: usize = 0;
    while k < candidates.len()
        invariant
            k <= candidates@.len(),
            out@.len() == k,
            forall|j: int| 0 <= j < k ==> (#[trigger] out@[j])@.len() == candidates@[j].params@.len(),
            forall|j: int, i: int|
                0 <= j < k && 0 <= i < out@[j]@.len() ==> shape_of(#[trigger] out@[j]@[i], candidates@[j].params@[i]),
        decreases candidates@.len() - k,
    {
        let shapes = params_shapes(&candidates[k].params);
        out.push(shapes);
        k = k + 1;
    }
    out
}

/// A copy of a list of argument types, each written as before.
fn copy_args(args: &[Option<TypeName>]) -> (r: Vec<Option<TypeName>>)
    ensures
        same_args(r@, args@),
{
    let mut out: Vec<Option<TypeName>> = Vec::new();
    let mut i: usize = 0;
    while i < args.len()
        invariant
            i <= args@.len(),
            out@.len() == i,
            forall|j: int| 0 <= j < i ==> same_arg(#[trigger] out@[j], args@[j]),
        decreases args@.len() - i,
    {
        let copy = match &args[i] {
            Some(t) => Some(t.duplicate()),
            None => None,
        };
        out.push(copy);
        i = i + 1;
    }
    out
}

/// The diagnostic for an access no accessor or several accessors take.
fn accessor_error(code: DiagnosticCode, head: &str, name: &str, tail: &str, span: Span) -> (d: Diagnostic)
    ensures
        reports_accessor(d, code, head@, name@, tail@, span),
{
    let mut message = String::new();
    push_str(&mut message, head);
    push_str(&mut message, name);
    push_str(&mut message, tail);
    Diagnostic::new(code, message, Some(span))
}

/// Runs overload resolution over the accessors' shapes, and shows that what
/// it decides is what every listing of those shapes decides.
fn resolve_among(candidates: &[PropertyAccessorSig], args: &[Option<TypeName>], Ghost(spec_args): Ghost<Seq<Option<TypeName>>>) -> (r: Resolution)
    requires
        candidates@.len() > 1,
        same_args(args@, spec_args),
    ensures
        r matches Resolution::Single(i) ==> i < candidates@.len(),
        forall|shapes: Seq<Vec<ParamShape>>|
            #[trigger] mirrors(shapes, candidates@) ==> match outcome(shapes, spec_args) {
                Outcome::Single(i) => r == Resolution::Single(i as usize) && 0 <= i < candidates@.len(),
                Outcome::NoMatch => r is NoMatch,
                Outcome::Ambiguous => r is Ambiguous,
            },
{
    let shapes = accessor_shapes(candidates);
    let res = resolve(shapes.as_slice(), args);
    let ghost ours = shapes@;
    let ghost n = ours.len();
    proof {
        lemma_indices_where(n, |i: int| crate::overloads::viable(ours, args@, i));
        lemma_indices_where(n, |i: int| crate::overloads::unbeaten(ours, args@, i));
        assert forall|theirs: Seq<Vec<ParamShape>>| #[trigger] mirrors(theirs, candidates@) implies match outcome(
            theirs,
            spec_args,
        ) {
            Outcome::Single(i) => res == Resolution::Single(i as usize) && 0 <= i < candidates@.len(),
            Outcome::NoMatch => res is NoMatch,
            Outcome::Ambiguous => res is Ambiguous,
        } by {
            lemma_mirrors_same_fits(ours, args@, theirs, spec_args, candidates@);
            lemma_resolution_respects_fits(ours, args@, theirs, spec_args);
            let v = viable_indices(ours, args@, n);
            let b = unbeaten_indices(ours, args@, n);
            if v.len() > 0 {
                assert(0 <= v[0] < n);
            }
            if b.len() > 0 {
                assert(0 <= b[0] < n);
            }
        }
        assert(mirrors(ours, candidates@));
    }
    res
}

/// Picks the accessor a write to a property goes to: the one whose
/// parameters take the indices followed by the value written. No accessor
/// is no choice; a lone accessor is taken as it is.
pub fn pick_writer<'a>(
    candidates: &'a [PropertyAccessorSig],
    index_types: &[Option<TypeName>],
    value_type: &TypeName,
    member: &str,
    span: Span,
) -> (r: Result<Option<&'a PropertyAccessorSig>, Diagnostic>)
    ensures
        candidates@.len() == 0 ==> r matches Ok(None),
        candidates@.len() == 1 ==> (r matches Ok(Some(acc)) && *acc == candidates@[0]),
        candidates@.len() > 1 ==> forall|shapes: Seq<Vec<ParamShape>>|
            #[trigger] mirrors(shapes, candidates@) ==> match outcome(shapes, index_types@.push(Some(*value_type))) {
                Outcome::Single(i) => r matches Ok(Some(acc)) && *acc == candidates@[i],
                Outcome::NoMatch => r matches Err(d) && reports_accessor(
                    d,
                    DiagnosticCode::ArgumentCount,
                    "No accessor of property '"@,
                    member@,
                    "' accepts a write of this shape"@,
                    span,
                ),
                Outcome::Ambiguous => r matches Err(d) && reports_accessor(
                    d,
                    DiagnosticCode::AmbiguousOverload,
                    "Which accessor of property '"@,
                    member@,
                    "' is written to is ambiguous"@,
                    span,
                ),
            },
{
    if candidates.len() == 0 {
        return Ok(None);
    }
    if candidates.len() == 1 {
        return Ok(Some(&candidates[0]));
    }
    let mut supplied = copy_args(index_types);
    let ghost before = supplied@;
    supplied.push(Some(value_type.duplicate()));
    let ghost spec_args = index_types@.push(Some(*value_type));
    assert(same_args(supplied@, spec_args)) by {
        assert forall|i: int| 0 <= i < supplied@.len() implies same_arg(#[trigger] supplied@[i], spec_args[i]) by {
            if i < before.len() {
                assert(supplied@[i] == before[i]);
                assert(same_arg(before[i], index_types@[i]));
            }
        }
    }
    match resolve_among(candidates, supplied.as_slice(), Ghost(spec_args)) {
        Resolution::Single(chosen) => Ok(Some(&candidates[chosen])),
        Resolution::NoMatch => Err(
            accessor_error(
                DiagnosticCode::ArgumentCount,
                "No accessor of property '",
                member,
                "' accepts a write of this shape",
                span,
            ),
        ),
        Resolution::Ambiguous(_) => Err(
            accessor_error(
                DiagnosticCode::AmbiguousOverload,
                "Which accessor of property '",
                member,
                "' is written to is ambiguous",
                span,
            ),
        ),
    }
}

/// Picks the accessor a read or call of a property with arguments goes to:
/// the one whose parameters take arguments of these types. `argument_types`
/// holds `None` where an argument's type could not be worked out. No
/// accessor is no choice; a lone accessor is taken as it is.
pub fn resolve_accessor<'a>(
    name: &str,
    candidates: &'a [PropertyAccessorSig],
    argument_types: &[Option<TypeName>],
    span: Span,
) -> (r: Result<Option<&'a PropertyAccessorSig>, Diagnostic>)
    ensures
        candidates@.len() == 0 ==> r matches Ok(None),
        candidates@.len() == 1 ==> (r matches Ok(Some(acc)) && *acc == candidates@[0]),
        candidates@.len() > 1 ==> forall|shapes: Seq<Vec<ParamShape>>|
            #[trigger] mirrors(shapes, candidates@) ==> match outcome(shapes, argument_types@) {
                Outcome::Single(i) => r matches Ok(Some(acc)) && *acc == candidates@[i],
                Outcome::NoMatch => r matches Err(d) && reports_accessor(
                    d,
                    DiagnosticCode::ArgumentCount,
                    "No accessor of property '"@,
                    name@,
                    "' accepts these arguments"@,
                    span,
                ),
                Outcome::Ambiguous => r matches Err(d) && reports_accessor(
                    d,
                    DiagnosticCode::AmbiguousOverload,
                    "Which accessor of property '"@,
                    name@,
                    "' is meant is ambiguous"@,
                    span,
                ),
            },
{
    if candidates.len() == 0 {
        return Ok(None);
    }
    if candidates.len() == 1 {
        return Ok(Some(&candidates[0]));
    }
    assert(same_args(argument_types@, argument_types@)) by {
        assert forall|i: int| 0 <= i < argument_types@.len() implies same_arg(
            #[trigger] argument_types@[i],
            argument_types@[i],
        ) by {
            if let Some(t) = argument_types@[i] {
                lemma_ty_eq_reflexive(t);
            }
        }
    }
    match resolve_among(candidates, argument_types, Ghost(argument_types@)) {
        Resolution::Single(chosen) => Ok(Some(&candidates[chosen])),
        Resolution::NoMatch => Err(
            accessor_error(DiagnosticCode::ArgumentCount, "No accessor of property '", name, "' accepts these arguments", span),
        ),
        Resolution::Ambiguous(_) => Err(
            accessor_error(
                DiagnosticCode::AmbiguousOverload,
                "Which accessor of property '",
                name,
                "' is meant is ambiguous",
                span,
            ),
        ),
    }
}

} // verus!
