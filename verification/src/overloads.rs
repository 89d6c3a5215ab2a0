//! Picking which procedure a call means, out of the ones sharing its name.
//!
//! A name usually names one procedure. When it names several, the call site
//! decides between them by the shape and types of its arguments.
//!
//! A candidate wins if it is at least as good as every rival for every
//! argument, and strictly better for at least one. A candidate much better for
//! one argument and slightly worse for another is not comparable, and the call
//! is then ambiguous.
use vstd::prelude::*;

use crate::type_model::{lemma_same_type_respects_ty_eq_both, lemma_ty_eq_tag, same_type, ty_eq, TypeName};

verus! {

/// What a call resolved to, as an index into the candidates given.
#[derive(Debug, PartialEq, Eq)]
pub enum Resolution {
    /// Exactly one candidate fits.
    Single(usize),
    /// No candidate accepts a call of this shape.
    NoMatch,
    /// Several fit equally well, and none is better than the rest.
    Ambiguous(Vec<usize>),
}

/// What overload resolution needs to know about one parameter.
#[derive(Debug)]
pub struct ParamShape {
    pub ty: TypeName,
    pub is_optional: bool,
    pub is_param_array: bool,
}

/// How well an argument fits a parameter, best first.
///
/// The two that carry a distance use it as a tie-break: an `Integer` argument
/// chooses a `Long` parameter over a `Double` one because both widen, but one
/// widens less.
#[derive(Debug, Clone, Copy, PartialEq, Eq)]
pub enum Fit {
    /// The same type. Nothing to convert.
    Exact,
    /// A conversion that cannot lose anything, and how far it reaches.
    Widening(u8),
    /// One side is `Variant`, so the fit is only known when the call is made.
    Variant,
    /// A conversion that can lose something, and how far it reaches.
    Narrowing(u8),
}

/// The rank of a fit's kind: exact, widening, variant, narrowing.
pub open spec fn fit_kind(f: Fit) -> int {
    match f {
        Fit::Exact => 0,
        Fit::Widening(_) => 1,
        Fit::Variant => 2,
        Fit::Narrowing(_) => 3,
    }
}

/// The distance a fit carries, zero for the kinds without one.
pub open spec fn fit_distance(f: Fit) -> int {
    match f {
        Fit::Widening(d) => d as int,
        Fit::Narrowing(d) => d as int,
        _ => 0,
    }
}

/// Whether fit `a` is at least as good as fit `b`: a better kind, or the same
/// kind and no greater distance.
pub open spec fn fit_le(a: Fit, b: Fit) -> bool {
    fit_kind(a) < fit_kind(b) || (fit_kind(a) == fit_kind(b) && fit_distance(a) <= fit_distance(b))
}

/// Whether fit `a` is strictly better than fit `b`.
pub open spec fn fit_lt(a: Fit, b: Fit) -> bool {
    fit_kind(a) < fit_kind(b) || (fit_kind(a) == fit_kind(b) && fit_distance(a) < fit_distance(b))
}

/// Where a type sits on the numeric ladder, if it is on it at all. Moving up
/// the ladder cannot lose anything; moving down can.
pub open spec fn rank_of(t: TypeName) -> Option<int> {
    match t {
        TypeName::Byte => Some(0),
        TypeName::Int16 => Some(1),
        TypeName::Int32 => Some(2),
        TypeName::Int64 => Some(3),
        TypeName::Decimal => Some(4),
        TypeName::Single => Some(5),
        TypeName::Double => Some(6),
        _ => None,
    }
}

/// The type an argument is measured against: a ParamArray's element type,
/// otherwise the parameter's own type.
pub open spec fn declared_type(param: ParamShape) -> TypeName {
    if param.is_param_array && param.ty is Array {
        *param.ty->Array_0
    } else {
        param.ty
    }
}

/// How well an argument of the given type fits a parameter. An argument of
/// unknown type fits as `Variant` does.
pub open spec fn fit_of_spec(argument: Option<TypeName>, param: ParamShape) -> Fit {
    match argument {
        None => Fit::Variant,
        Some(arg) => {
            let declared = declared_type(param);
            if same_type(arg, declared) {
                Fit::Exact
            } else if arg is Variant || declared is Variant {
                Fit::Variant
            } else {
                match (rank_of(arg), rank_of(declared)) {
                    (Some(from), Some(to)) => if from <= to {
                        Fit::Widening((to - from) as u8)
                    } else {
                        Fit::Narrowing((from - to) as u8)
                    },
                    _ => Fit::Narrowing(255),
                }
            }
        },
    }
}

/// How many parameters must be supplied: those neither optional nor a
/// ParamArray.
pub open spec fn required_count(params: Seq<ParamShape>) -> nat
    decreases params.len(),
{
    if params.len() == 0 {
        0
    } else {
        required_count(params.drop_last()) + if !params.last().is_optional
            && !params.last().is_param_array {
            1nat
        } else {
            0nat
        }
    }
}

/// Whether the last parameter is a ParamArray, which takes every argument
/// past the declared ones.
pub open spec fn takes_rest(params: Seq<ParamShape>) -> bool {
    params.len() > 0 && params.last().is_param_array
}

/// The parameter an argument at position `i` is passed to.
pub open spec fn param_for(params: Seq<ParamShape>, i: int) -> ParamShape {
    if i < params.len() {
        params[i]
    } else {
        params.last()
    }
}

/// How each argument fits a candidate, or `None` if the call cannot be made:
/// too few arguments for the required parameters, or too many with no
/// ParamArray to take them.
pub open spec fn fits_spec(params: Seq<ParamShape>, args: Seq<Option<TypeName>>) -> Option<Seq<Fit>> {
    if args.len() < required_count(params) {
        None
    } else if !takes_rest(params) && args.len() > params.len() {
        None
    } else {
        Some(Seq::new(args.len(), |i: int| fit_of_spec(args[i], param_for(params, i))))
    }
}

/// Whether `left` beats `right`: no worse anywhere, and better somewhere.
pub open spec fn is_better_spec(left: Seq<Fit>, right: Seq<Fit>) -> bool {
    &&& left.len() == right.len()
    &&& forall|i: int| 0 <= i < left.len() ==> fit_le(#[trigger] left[i], right[i])
    &&& exists|i: int| 0 <= i < left.len() && fit_lt(#[trigger] left[i], right[i])
}

/// Whether candidate `i` can take a call with these arguments.
pub open spec fn viable(candidates: Seq<Vec<ParamShape>>, args: Seq<Option<TypeName>>, i: int) -> bool {
    fits_spec(candidates[i]@, args) is Some
}

/// How the arguments fit candidate `i`, when it is viable.
pub open spec fn fits_of(candidates: Seq<Vec<ParamShape>>, args: Seq<Option<TypeName>>, i: int) -> Seq<Fit> {
    fits_spec(candidates[i]@, args)->Some_0
}

/// Whether viable candidate `j` beats viable candidate `i`.
pub open spec fn beats(candidates: Seq<Vec<ParamShape>>, args: Seq<Option<TypeName>>, j: int, i: int) -> bool {
    &&& viable(candidates, args, j)
    &&& viable(candidates, args, i)
    &&& is_better_spec(fits_of(candidates, args, j), fits_of(candidates, args, i))
}

/// Whether candidate `i` is viable and no candidate beats it.
pub open spec fn unbeaten(candidates: Seq<Vec<ParamShape>>, args: Seq<Option<TypeName>>, i: int) -> bool {
    &&& viable(candidates, args, i)
    &&& forall|j: int| 0 <= j < candidates.len() ==> !#[trigger] beats(candidates, args, j, i)
}

/// The indices below `n` that satisfy `p`, ascending.
pub open spec fn indices_where(n: nat, p: spec_fn(int) -> bool) -> Seq<usize>
    decreases n,
{
    if n == 0 {
        Seq::empty()
    } else if p(n - 1) {
        indices_where((n - 1) as nat, p).push((n - 1) as usize)
    } else {
        indices_where((n - 1) as nat, p)
    }
}

/// The indices below `n` of the viable candidates, ascending.
pub open spec fn viable_indices(candidates: Seq<Vec<ParamShape>>, args: Seq<Option<TypeName>>, n: nat) -> Seq<usize> {
    indices_where(n, |i: int| viable(candidates, args, i))
}

/// The indices below `n` of the unbeaten candidates, ascending.
pub open spec fn unbeaten_indices(candidates: Seq<Vec<ParamShape>>, args: Seq<Option<TypeName>>, n: nat) -> Seq<usize> {
    indices_where(n, |i: int| unbeaten(candidates, args, i))
}

fn numeric_rank(ty: &TypeName) -> (r: Option<u8>)
    ensures
        match r {
            Some(x) => rank_of(*ty) == Some(x as int),
            None => rank_of(*ty) is None,
        },
{
    match ty {
        TypeName::Byte => Some(0),
        TypeName::Int16 => Some(1),
        TypeName::Int32 => Some(2),
        TypeName::Int64 => Some(3),
        TypeName::Decimal => Some(4),
        TypeName::Single => Some(5),
        TypeName::Double => Some(6),
        _ => None,
    }
}

fn fit_of(argument: &Option<TypeName>, param: &ParamShape) -> (f: Fit)
    ensures
        f == fit_of_spec(*argument, *param),
{
    let argument = match argument {
        Some(argument) => argument,
        None => return Fit::Variant,
    };
    let declared: &TypeName = match &param.ty {
        TypeName::Array(element) if param.is_param_array => &**element,
        ty => ty,
    };
    if argument.same_type(declared) {
        return Fit::Exact;
    }
    if argument.is_variant() || declared.is_variant() {
        return Fit::Variant;
    }
    match (numeric_rank(argument), numeric_rank(declared)) {
        (Some(from), Some(to)) => if from <= to {
            Fit::Widening(to - from)
        } else {
            Fit::Narrowing(from - to)
        },
        _ => Fit::Narrowing(u8::MAX),
    }
}

fn fit_kind_of(f: Fit) -> (k: u8)
    ensures
        k as int == fit_kind(f),
{
    match f {
        Fit::Exact => 0,
        Fit::Widening(_) => 1,
        Fit::Variant => 2,
        Fit::Narrowing(_) => 3,
    }
}

fn fit_distance_of(f: Fit) -> (d: u8)
    ensures
        d as int == fit_distance(f),
{
    match f {
        Fit::Widening(d) => d,
        Fit::Narrowing(d) => d,
        _ => 0,
    }
}

/// Whether `left` beats `right`: no worse anywhere, and better somewhere.
fn is_better(left: &[Fit], right: &[Fit]) -> (r: bool)
    ensures
        r == is_better_spec(left@, right@),
{
    if left.len() != right.len() {
        return false;
    }
    let mut some_better = false;
    let mut i: usize = 0;
    while i < left.len()
        invariant
            left@.len() == right@.len(),
            i <= left@.len(),
            forall|j: int| 0 <= j < i ==> fit_le(#[trigger] left@[j], right@[j]),
            some_better == exists|j: int| 0 <= j < i && fit_lt(#[trigger] left@[j], right@[j]),
        decreases left@.len() - i,
    {
        let (lk, rk) = (fit_kind_of(left[i]), fit_kind_of(right[i]));
        let (ld, rd) = (fit_distance_of(left[i]), fit_distance_of(right[i]));
        if lk > rk || (lk == rk && ld > rd) {
            assert(!fit_le(left@[i as int], right@[i as int]));
            return false;
        }
        if lk < rk || ld < rd {
            some_better = true;
        }
        i = i + 1;
    }
    some_better
}

fn count_required(params: &[ParamShape]) -> (n: usize)
    ensures
        n == required_count(params@),
{
    let mut n: usize = 0;
    let mut i: usize = 0;
    while i < params.len()
        invariant
            i <= params@.len(),
            n == required_count(params@.subrange(0, i as int)),
            n <= i,
        decreases params@.len() - i,
    {
        assert(params@.subrange(0, i + 1).drop_last() =~= params@.subrange(0, i as int));
        if !params[i].is_optional && !params[i].is_param_array {
            n = n + 1;
        }
        i = i + 1;
    }
    assert(params@.subrange(0, params@.len() as int) =~= params@);
    n
}

/// How each argument fits this candidate, or `None` if the call cannot be made.
fn fits(params: &[ParamShape], argument_types: &[Option<TypeName>]) -> (r: Option<Vec<Fit>>)
    ensures
        match r {
            Some(v) => fits_spec(params@, argument_types@) == Some(v@),
            None => fits_spec(params@, argument_types@) is None,
        },
{
    let takes_rest = params.len() > 0 && params[params.len() - 1].is_param_array;
    let required = count_required(params);
    if argument_types.len() < required {
        return None;
    }
    if !takes_rest && argument_types.len() > params.len() {
        return None;
    }
    let ghost spec_fits = Seq::new(argument_types@.len(), |i: int| fit_of_spec(argument_types@[i], param_for(params@, i)));
    let mut result: Vec<Fit> = Vec::new();
    let mut index: usize = 0;
    while index < argument_types.len()
        invariant
            index <= argument_types@.len(),
            params@.len() > 0 || argument_types@.len() == 0,
            spec_fits == Seq::new(argument_types@.len(), |i: int| fit_of_spec(argument_types@[i], param_for(params@, i))),
            result@ == spec_fits.subrange(0, index as int),
        decreases argument_types@.len() - index,
    {
        let param = if index < params.len() {
            &params[index]
        } else {
            &params[params.len() - 1]
        };
        result.push(fit_of(&argument_types[index], param));
        index = index + 1;
        assert(result@ =~= spec_fits.subrange(0, index as int));
    }
    assert(spec_fits.subrange(0, index as int) =~= spec_fits);
    Some(result)
}

/// The fits of every candidate, by candidate index.
fn all_fits(candidates: &[Vec<ParamShape>], argument_types: &[Option<TypeName>]) -> (r: Vec<Option<Vec<Fit>>>)
    ensures
        r@.len() == candidates@.len(),
        forall|i: int| 0 <= i < candidates@.len() ==> match #[trigger] r@[i] {
            Some(v) => fits_spec(candidates@[i]@, argument_types@) == Some(v@),
            None => fits_spec(candidates@[i]@, argument_types@) is None,
        },
{
    let mut out: Vec<Option<Vec<Fit>>> = Vec::new();
    let mut i: usize = 0;
    while i < candidates.len()
        invariant
            i <= candidates@.len(),
            out@.len() == i,
            forall|j: int| 0 <= j < i ==> match #[trigger] out@[j] {
                Some(v) => fits_spec(candidates@[j]@, argument_types@) == Some(v@),
                None => fits_spec(candidates@[j]@, argument_types@) is None,
            },
        decreases candidates@.len() - i,
    {
        out.push(fits(candidates[i].as_slice(), argument_types));
        i = i + 1;
    }
    out
}

/// Picks the procedure a call means.
///
/// `argument_types` carries `None` where the caller could not work out an
/// argument's type. An unknown argument fits everything equally, so it narrows
/// the field by arity alone.
pub fn resolve(candidates: &[Vec<ParamShape>], argument_types: &[Option<TypeName>]) -> (r: Resolution)
    ensures
        ({
            let c = candidates@;
            let a = argument_types@;
            let viable_list = viable_indices(c, a, c.len());
            let best = unbeaten_indices(c, a, c.len());
            if c.len() == 1 {
                r == Resolution::Single(0)
            } else if viable_list.len() == 0 {
                r == Resolution::NoMatch
            } else if viable_list.len() == 1 {
                r == Resolution::Single(viable_list[0])
            } else if best.len() == 1 {
                r == Resolution::Single(best[0])
            } else if best.len() == 0 {
                r matches Resolution::Ambiguous(v) && v@ == viable_list
            } else {
                r matches Resolution::Ambiguous(v) && v@ == best
            }
        }),
{
    // The overwhelmingly common case: one procedure with that name. Reporting
    // it as unmatched here would replace a precise "wrong argument type" from
    // the caller's own checking with a vague "nothing fits".
    if candidates.len() == 1 {
        return Resolution::Single(0);
    }
    let ghost c = candidates@;
    let ghost a = argument_types@;
    let fits = all_fits(candidates, argument_types);
    let mut viable_found: Vec<usize> = Vec::new();
    let mut i: usize = 0;
    while i < candidates.len()
        invariant
            i <= c.len(),
            c == candidates@,
            a == argument_types@,
            fits@.len() == c.len(),
            forall|j: int| 0 <= j < c.len() ==> match #[trigger] fits@[j] {
                Some(v) => fits_spec(c[j]@, a) == Some(v@),
                None => fits_spec(c[j]@, a) is None,
            },
            viable_found@ == viable_indices(c, a, i as nat),
        decreases c.len() - i,
    {
        assert(fits@[i as int] is Some <==> viable(c, a, i as int));
        assert(viable_indices(c, a, (i + 1) as nat) == if viable(c, a, i as int) {
            viable_indices(c, a, i as nat).push(i)
        } else {
            viable_indices(c, a, i as nat)
        });
        if fits[i].is_some() {
            viable_found.push(i);
        }
        i = i + 1;
    }
    if viable_found.len() == 0 {
        return Resolution::NoMatch;
    }
    if viable_found.len() == 1 {
        return Resolution::Single(viable_found[0]);
    }
    let mut best: Vec<usize> = Vec::new();
    let mut i: usize = 0;
    while i < candidates.len()
        invariant
            i <= c.len(),
            c == candidates@,
            a == argument_types@,
            fits@.len() == c.len(),
            forall|j: int| 0 <= j < c.len() ==> match #[trigger] fits@[j] {
                Some(v) => fits_spec(c[j]@, a) == Some(v@),
                None => fits_spec(c[j]@, a) is None,
            },
            best@ == unbeaten_indices(c, a, i as nat),
        decreases c.len() - i,
    {
        if let Some(fi) = &fits[i] {
            let mut beaten = false;
            let mut j: usize = 0;
            while j < candidates.len()
                invariant
                    j <= c.len(),
                    i < c.len(),
                    c == candidates@,
                    a == argument_types@,
                    fits@.len() == c.len(),
                    forall|k: int| 0 <= k < c.len() ==> match #[trigger] fits@[k] {
                        Some(v) => fits_spec(c[k]@, a) == Some(v@),
                        None => fits_spec(c[k]@, a) is None,
                    },
                    fits@[i as int] == Some(*fi),
                    beaten == exists|k: int| 0 <= k < j && #[trigger] beats(c, a, k, i as int),
                decreases c.len() - j,
            {
                if let Some(fj) = &fits[j] {
                    if is_better(fj.as_slice(), fi.as_slice()) {
                        assert(beats(c, a, j as int, i as int));
                        beaten = true;
                    }
                } else {
                    assert(!beats(c, a, j as int, i as int));
                }
                j = j + 1;
            }
            assert(unbeaten(c, a, i as int) == !beaten);
            if !beaten {
                best.push(i);
            }
        } else {
            assert(!unbeaten(c, a, i as int));
        }
        assert(unbeaten_indices(c, a, (i + 1) as nat) == if unbeaten(c, a, i as int) {
            unbeaten_indices(c, a, i as nat).push(i)
        } else {
            unbeaten_indices(c, a, i as nat)
        });
        i = i + 1;
    }
    if best.len() == 1 {
        Resolution::Single(best[0])
    } else if best.len() == 0 {
        Resolution::Ambiguous(viable_found)
    } else {
        Resolution::Ambiguous(best)
    }
}

/// Which indices `indices_where` lists: exactly those below `n` that satisfy
/// `p`, each once, in ascending order.
pub proof fn lemma_indices_where(n: nat, p: spec_fn(int) -> bool)
    requires
        n <= usize::MAX,
    ensures
        forall|k: int| 0 <= k < indices_where(n, p).len() ==> {
            let i = #[trigger] indices_where(n, p)[k] as int;
            0 <= i < n && p(i)
        },
        forall|i: int| 0 <= i < n && p(i) ==> #[trigger] indices_where(n, p).contains(i as usize),
        forall|k1: int, k2: int|
            0 <= k1 < k2 < indices_where(n, p).len() ==> #[trigger] indices_where(n, p)[k1] < #[trigger] indices_where(n, p)[k2],
    decreases n,
{
    if n > 0 {
        lemma_indices_where((n - 1) as nat, p);
        let prev = indices_where((n - 1) as nat, p);
        if p(n - 1) {
            let cur = prev.push((n - 1) as usize);
            assert forall|i: int| 0 <= i < n && p(i) implies #[trigger] cur.contains(i as usize) by {
                if i < n - 1 {
                    assert(prev.contains(i as usize));
                    let k = choose|k: int| 0 <= k < prev.len() && prev[k] == i as usize;
                    assert(cur[k] == i as usize);
                } else {
                    assert(cur[prev.len() as int] == i as usize);
                }
            }
        }
    }
}

/// A fit is never strictly better than itself.
pub proof fn lemma_fit_lt_irreflexive(f: Fit)
    ensures
        !fit_lt(f, f),
{
}

/// No candidate beats itself.
pub proof fn lemma_is_better_irreflexive(fits: Seq<Fit>)
    ensures
        !is_better_spec(fits, fits),
{
}

/// If `l` beats `m` and `m` beats `r`, then `l` beats `r`.
pub proof fn lemma_is_better_transitive(l: Seq<Fit>, m: Seq<Fit>, r: Seq<Fit>)
    requires
        is_better_spec(l, m),
        is_better_spec(m, r),
    ensures
        is_better_spec(l, r),
{
    let i = choose|i: int| 0 <= i < l.len() && fit_lt(#[trigger] l[i], m[i]);
    assert(fit_le(m[i], r[i]));
    assert(fit_lt(l[i], r[i]));
    assert forall|j: int| 0 <= j < l.len() implies fit_le(#[trigger] l[j], r[j]) by {
        assert(fit_le(l[j], m[j]));
        assert(fit_le(m[j], r[j]));
    }
}

/// Two candidates never beat each other.
pub proof fn lemma_is_better_asymmetric(l: Seq<Fit>, r: Seq<Fit>)
    requires
        is_better_spec(l, r),
    ensures
        !is_better_spec(r, l),
{
    if is_better_spec(r, l) {
        lemma_is_better_transitive(l, r, l);
    }
}

/// How many of the first `n` candidates beat candidate `j`.
pub open spec fn beater_count(candidates: Seq<Vec<ParamShape>>, args: Seq<Option<TypeName>>, j: int, n: nat) -> nat
    decreases n,
{
    if n == 0 {
        0
    } else {
        beater_count(candidates, args, j, (n - 1) as nat) + if beats(candidates, args, n - 1, j) {
            1nat
        } else {
            0nat
        }
    }
}

proof fn lemma_fewer_beaters(candidates: Seq<Vec<ParamShape>>, args: Seq<Option<TypeName>>, x: int, y: int, n: nat, w: int)
    requires
        forall|k: int| 0 <= k < n && #[trigger] beats(candidates, args, k, x) ==> beats(candidates, args, k, y),
        0 <= w < n,
        beats(candidates, args, w, y),
        !beats(candidates, args, w, x),
    ensures
        beater_count(candidates, args, x, n) < beater_count(candidates, args, y, n),
    decreases n,
{
    if n - 1 != w {
        lemma_fewer_beaters(candidates, args, x, y, (n - 1) as nat, w);
        assert(beats(candidates, args, n - 1, x) ==> beats(candidates, args, n - 1, y));
    } else {
        lemma_no_more_beaters(candidates, args, x, y, (n - 1) as nat);
    }
}

proof fn lemma_no_more_beaters(candidates: Seq<Vec<ParamShape>>, args: Seq<Option<TypeName>>, x: int, y: int, n: nat)
    requires
        forall|k: int| 0 <= k < n && #[trigger] beats(candidates, args, k, x) ==> beats(candidates, args, k, y),
    ensures
        beater_count(candidates, args, x, n) <= beater_count(candidates, args, y, n),
    decreases n,
{
    if n > 0 {
        lemma_no_more_beaters(candidates, args, x, y, (n - 1) as nat);
        assert(beats(candidates, args, n - 1, x) ==> beats(candidates, args, n - 1, y));
    }
}

proof fn lemma_beats_transitive(candidates: Seq<Vec<ParamShape>>, args: Seq<Option<TypeName>>, i: int, j: int, k: int)
    requires
        beats(candidates, args, i, j),
        beats(candidates, args, j, k),
    ensures
        beats(candidates, args, i, k),
{
    lemma_is_better_transitive(fits_of(candidates, args, i), fits_of(candidates, args, j), fits_of(candidates, args, k));
}

/// Every candidate that can take the call is either unbeaten or beaten by an
/// unbeaten one.
pub proof fn lemma_dominated_by_unbeaten(candidates: Seq<Vec<ParamShape>>, args: Seq<Option<TypeName>>, j: int)
    requires
        0 <= j < candidates.len(),
        viable(candidates, args, j),
    ensures
        unbeaten(candidates, args, j) || exists|k: int|
            0 <= k < candidates.len() && #[trigger] unbeaten(candidates, args, k) && beats(candidates, args, k, j),
    decreases beater_count(candidates, args, j, candidates.len()),
{
    let n = candidates.len();
    if !unbeaten(candidates, args, j) {
        let k = choose|k: int| 0 <= k < n && #[trigger] beats(candidates, args, k, j);
        lemma_is_better_irreflexive(fits_of(candidates, args, k));
        assert forall|m: int| 0 <= m < n && #[trigger] beats(candidates, args, m, k) implies beats(candidates, args, m, j) by {
            lemma_beats_transitive(candidates, args, m, k, j);
        }
        lemma_fewer_beaters(candidates, args, k, j, n, k);
        lemma_dominated_by_unbeaten(candidates, args, k);
        if !unbeaten(candidates, args, k) {
            let k2 = choose|k2: int| 0 <= k2 < n && #[trigger] unbeaten(candidates, args, k2) && beats(candidates, args, k2, k);
            lemma_beats_transitive(candidates, args, k2, k, j);
        }
    }
}

/// When a call names several candidates and resolves to one of them, that one
/// can take the call and beats every other candidate that can: it is at least
/// as good for every argument and strictly better for at least one.
pub proof fn lemma_winner_beats_every_rival(candidates: Seq<Vec<ParamShape>>, args: Seq<Option<TypeName>>, w: usize)
    requires
        candidates.len() != 1,
        candidates.len() <= usize::MAX,
        ({
            let viable_list = viable_indices(candidates, args, candidates.len());
            let best = unbeaten_indices(candidates, args, candidates.len());
            (viable_list.len() == 1 && w == viable_list[0]) || (viable_list.len() > 1 && best.len() == 1 && w == best[0])
        }),
    ensures
        w < candidates.len(),
        viable(candidates, args, w as int),
        forall|j: int| 0 <= j < candidates.len() && j != w && viable(candidates, args, j) ==> #[trigger] beats(candidates, args, w as int, j),
{
    let n = candidates.len();
    let vp = |i: int| viable(candidates, args, i);
    let bp = |i: int| unbeaten(candidates, args, i);
    lemma_indices_where(n, vp);
    lemma_indices_where(n, bp);
    let viable_list = viable_indices(candidates, args, n);
    let best = unbeaten_indices(candidates, args, n);
    assert(viable_list == indices_where(n, vp));
    assert(best == indices_where(n, bp));
    if viable_list.len() == 1 {
        assert(vp(viable_list[0] as int));
        assert forall|j: int| 0 <= j < n && j != w && viable(candidates, args, j) implies #[trigger] beats(candidates, args, w as int, j) by {
            assert(vp(j));
            assert(viable_list.contains(j as usize));
        }
    } else {
        assert(bp(best[0] as int));
        assert forall|j: int| 0 <= j < n && j != w && viable(candidates, args, j) implies #[trigger] beats(candidates, args, w as int, j) by {
            lemma_dominated_by_unbeaten(candidates, args, j);
            if bp(j) {
                assert(best.contains(j as usize));
            } else {
                let k = choose|k: int| 0 <= k < n && #[trigger] unbeaten(candidates, args, k) && beats(candidates, args, k, j);
                assert(bp(k));
                assert(best.contains(k as usize));
            }
        }
    }
}

/// A call is reported as matching nothing exactly when it names several
/// candidates and none of them can take it.
pub proof fn lemma_no_match_means_nothing_fits(candidates: Seq<Vec<ParamShape>>, args: Seq<Option<TypeName>>)
    requires
        candidates.len() <= usize::MAX,
    ensures
        viable_indices(candidates, args, candidates.len()).len() == 0 <==> forall|j: int| 0 <= j < candidates.len() ==> !#[trigger] viable(candidates, args, j),
{
    let n = candidates.len();
    let vp = |i: int| viable(candidates, args, i);
    lemma_indices_where(n, vp);
    assert(viable_indices(candidates, args, n) == indices_where(n, vp));
    if exists|j: int| 0 <= j < n && #[trigger] viable(candidates, args, j) {
        let j = choose|j: int| 0 <= j < n && #[trigger] viable(candidates, args, j);
        assert(vp(j));
        assert(indices_where(n, vp).contains(j as usize));
    }
    if viable_indices(candidates, args, n).len() > 0 {
        assert(vp(indices_where(n, vp)[0] as int));
    }
}

/// An ambiguous call lists at least two candidates, each of which can take the
/// call and none of which beats another: when several candidates can take a
/// call, some are always unbeaten, so the list is never the fallback.
pub proof fn lemma_ambiguity_lists_incomparable_candidates(candidates: Seq<Vec<ParamShape>>, args: Seq<Option<TypeName>>)
    requires
        candidates.len() <= usize::MAX,
        viable_indices(candidates, args, candidates.len()).len() > 1,
        unbeaten_indices(candidates, args, candidates.len()).len() != 1,
    ensures
        ({
            let best = unbeaten_indices(candidates, args, candidates.len());
            &&& best.len() >= 2
            &&& forall|k: int| 0 <= k < best.len() ==> #[trigger] viable(candidates, args, best[k] as int)
            &&& forall|k1: int, k2: int| 0 <= k1 < best.len() && 0 <= k2 < best.len() ==> !#[trigger] beats(candidates, args, best[k1] as int, #[trigger] best[k2] as int)
        }),
{
    let n = candidates.len();
    let vp = |i: int| viable(candidates, args, i);
    let bp = |i: int| unbeaten(candidates, args, i);
    lemma_indices_where(n, vp);
    lemma_indices_where(n, bp);
    let viable_list = viable_indices(candidates, args, n);
    let best = unbeaten_indices(candidates, args, n);
    assert(viable_list == indices_where(n, vp));
    assert(best == indices_where(n, bp));
    let j = viable_list[0] as int;
    assert(vp(j));
    lemma_dominated_by_unbeaten(candidates, args, j);
    if bp(j) {
        assert(best.contains(j as usize));
    } else {
        let k = choose|k: int| 0 <= k < n && #[trigger] unbeaten(candidates, args, k) && beats(candidates, args, k, j);
        assert(bp(k));
        assert(best.contains(k as usize));
    }
    assert forall|k: int| 0 <= k < best.len() implies #[trigger] viable(candidates, args, best[k] as int) by {
        assert(bp(best[k] as int));
    }
    assert forall|k1: int, k2: int| 0 <= k1 < best.len() && 0 <= k2 < best.len() implies !#[trigger] beats(candidates, args, best[k1] as int, #[trigger] best[k2] as int) by {
        assert(bp(best[k2] as int));
        assert(0 <= best[k1] < n);
    }
}

/// Whether two argument types are both unknown, or both known and written
/// identically.
pub open spec fn same_arg(x: Option<TypeName>, y: Option<TypeName>) -> bool {
    match (x, y) {
        (Some(a), Some(b)) => ty_eq(a, b),
        (None, None) => true,
        _ => false,
    }
}

/// Whether two lists of argument types agree one for one.
pub open spec fn same_args(xs: Seq<Option<TypeName>>, ys: Seq<Option<TypeName>>) -> bool {
    xs.len() == ys.len() && forall|i: int| 0 <= i < xs.len() ==> same_arg(#[trigger] xs[i], ys[i])
}

/// Whether two parameter shapes are written identically.
pub open spec fn same_shape(p: ParamShape, q: ParamShape) -> bool {
    ty_eq(p.ty, q.ty) && p.is_optional == q.is_optional && p.is_param_array == q.is_param_array
}

/// Whether two parameter lists agree shape for shape.
pub open spec fn same_shapes(ps: Seq<ParamShape>, qs: Seq<ParamShape>) -> bool {
    ps.len() == qs.len() && forall|i: int| 0 <= i < ps.len() ==> same_shape(#[trigger] ps[i], qs[i])
}

/// How well an argument fits a parameter depends on what the two are
/// written as, not on which copies they are.
pub proof fn lemma_fit_respects_shapes(x: Option<TypeName>, y: Option<TypeName>, p: ParamShape, q: ParamShape)
    requires
        same_arg(x, y),
        same_shape(p, q),
    ensures
        fit_of_spec(x, p) == fit_of_spec(y, q),
{
    lemma_ty_eq_tag(p.ty, q.ty);
    let dp = declared_type(p);
    let dq = declared_type(q);
    assert(ty_eq(dp, dq));
    lemma_ty_eq_tag(dp, dq);
    if let (Some(a), Some(b)) = (x, y) {
        lemma_ty_eq_tag(a, b);
        lemma_same_type_respects_ty_eq_both(a, b, dp, dq);
    }
}

proof fn lemma_required_count_respects_shapes(ps: Seq<ParamShape>, qs: Seq<ParamShape>)
    requires
        same_shapes(ps, qs),
    ensures
        required_count(ps) == required_count(qs),
    decreases ps.len(),
{
    if ps.len() > 0 {
        assert(same_shape(ps[ps.len() - 1], qs[qs.len() - 1]));
        assert(same_shapes(ps.drop_last(), qs.drop_last())) by {
            assert forall|i: int| 0 <= i < ps.drop_last().len() implies same_shape(
                #[trigger] ps.drop_last()[i],
                qs.drop_last()[i],
            ) by {
                assert(same_shape(ps[i], qs[i]));
            }
        }
        lemma_required_count_respects_shapes(ps.drop_last(), qs.drop_last());
    }
}

/// How a call's arguments fit a candidate depends only on what the
/// arguments and parameters are written as.
pub proof fn lemma_fits_respect_shapes(
    ps: Seq<ParamShape>,
    qs: Seq<ParamShape>,
    xs: Seq<Option<TypeName>>,
    ys: Seq<Option<TypeName>>,
)
    requires
        same_shapes(ps, qs),
        same_args(xs, ys),
    ensures
        fits_spec(ps, xs) == fits_spec(qs, ys),
{
    lemma_required_count_respects_shapes(ps, qs);
    if ps.len() > 0 {
        assert(same_shape(ps[ps.len() - 1], qs[qs.len() - 1]));
    }
    if fits_spec(ps, xs) is Some {
        let l = Seq::new(xs.len(), |i: int| fit_of_spec(xs[i], param_for(ps, i)));
        let r = Seq::new(ys.len(), |i: int| fit_of_spec(ys[i], param_for(qs, i)));
        assert forall|i: int| 0 <= i < xs.len() implies l[i] == r[i] by {
            assert(same_arg(xs[i], ys[i]));
            if i < ps.len() {
                assert(same_shape(ps[i], qs[i]));
            }
            lemma_fit_respects_shapes(xs[i], ys[i], param_for(ps, i), param_for(qs, i));
        }
        assert(l =~= r);
    }
}

/// Whether two candidate lists give every candidate the same fits: the
/// lists are then alike for overload resolution.
pub open spec fn same_fits(
    c1: Seq<Vec<ParamShape>>,
    a1: Seq<Option<TypeName>>,
    c2: Seq<Vec<ParamShape>>,
    a2: Seq<Option<TypeName>>,
) -> bool {
    c1.len() == c2.len() && forall|k: int| 0 <= k < c1.len() ==> #[trigger] fits_spec(c1[k]@, a1) == fits_spec(c2[k]@, a2)
}

proof fn lemma_indices_where_agree(n: nat, p: spec_fn(int) -> bool, q: spec_fn(int) -> bool)
    requires
        forall|i: int| 0 <= i < n ==> #[trigger] p(i) == q(i),
    ensures
        indices_where(n, p) == indices_where(n, q),
    decreases n,
{
    if n > 0 {
        assert(p(n - 1) == q(n - 1));
        lemma_indices_where_agree((n - 1) as nat, p, q);
    }
}

/// Candidate lists with the same fits resolve alike: the same viable
/// candidates and the same unbeaten ones.
pub proof fn lemma_resolution_respects_fits(
    c1: Seq<Vec<ParamShape>>,
    a1: Seq<Option<TypeName>>,
    c2: Seq<Vec<ParamShape>>,
    a2: Seq<Option<TypeName>>,
)
    requires
        same_fits(c1, a1, c2, a2),
    ensures
        viable_indices(c1, a1, c1.len()) == viable_indices(c2, a2, c2.len()),
        unbeaten_indices(c1, a1, c1.len()) == unbeaten_indices(c2, a2, c2.len()),
{
    let n = c1.len();
    let pv1 = |i: int| viable(c1, a1, i);
    let pv2 = |i: int| viable(c2, a2, i);
    assert forall|i: int| 0 <= i < n implies #[trigger] pv1(i) == pv2(i) by {
        assert(fits_spec(c1[i]@, a1) == fits_spec(c2[i]@, a2));
    }
    lemma_indices_where_agree(n, pv1, pv2);
    let pu1 = |i: int| unbeaten(c1, a1, i);
    let pu2 = |i: int| unbeaten(c2, a2, i);
    assert forall|i: int| 0 <= i < n implies #[trigger] pu1(i) == pu2(i) by {
        assert(fits_spec(c1[i]@, a1) == fits_spec(c2[i]@, a2));
        assert forall|j: int| 0 <= j < n implies beats(c1, a1, j, i) == beats(c2, a2, j, i) by {
            assert(fits_spec(c1[j]@, a1) == fits_spec(c2[j]@, a2));
        }
        if pu1(i) != pu2(i) {
            if pu1(i) {
                let j = choose|j: int| 0 <= j < n && #[trigger] beats(c2, a2, j, i);
                assert(!beats(c1, a1, j, i));
            } else {
                let j = choose|j: int| 0 <= j < n && #[trigger] beats(c1, a1, j, i);
                assert(!beats(c2, a2, j, i));
            }
        }
    }
    lemma_indices_where_agree(n, pu1, pu2);
}

/// The outcome of overload resolution, without the list of tied candidates.
pub enum Outcome {
    Single(int),
    NoMatch,
    Ambiguous,
}

/// What `resolve` decides for these candidates and arguments.
pub open spec fn outcome(c: Seq<Vec<ParamShape>>, a: Seq<Option<TypeName>>) -> Outcome {
    let viable_list = viable_indices(c, a, c.len());
    let best = unbeaten_indices(c, a, c.len());
    if c.len() == 1 {
        Outcome::Single(0)
    } else if viable_list.len() == 0 {
        Outcome::NoMatch
    } else if viable_list.len() == 1 {
        Outcome::Single(viable_list[0] as int)
    } else if best.len() == 1 {
        Outcome::Single(best[0] as int)
    } else {
        Outcome::Ambiguous
    }
}

/// The numeric types from narrowest to widest: each converts to every type
/// after it without loss.
pub open spec fn numeric_ladder() -> Seq<TypeName> {
    seq![
        TypeName::Byte,
        TypeName::Int16,
        TypeName::Int32,
        TypeName::Int64,
        TypeName::Decimal,
        TypeName::Single,
        TypeName::Double,
    ]
}

/// A plain parameter of type `t`: neither optional nor a ParamArray.
pub open spec fn plain_param(t: TypeName) -> ParamShape {
    ParamShape { ty: t, is_optional: false, is_param_array: false }
}

proof fn lemma_ladder_fit(i: int, j: int)
    requires
        0 <= i < 7,
        0 <= j < 7,
    ensures
        i == j ==> fit_of_spec(Some(numeric_ladder()[i]), plain_param(numeric_ladder()[j])) == Fit::Exact,
        i < j ==> fit_of_spec(Some(numeric_ladder()[i]), plain_param(numeric_ladder()[j])) == Fit::Widening(
            (j - i) as u8,
        ),
        j < i ==> fit_of_spec(Some(numeric_ladder()[i]), plain_param(numeric_ladder()[j])) == Fit::Narrowing(
            (i - j) as u8,
        ),
{
    let l = numeric_ladder();
    assert(l[0] == TypeName::Byte);
    assert(l[1] == TypeName::Int16);
    assert(l[2] == TypeName::Int32);
    assert(l[3] == TypeName::Int64);
    assert(l[4] == TypeName::Decimal);
    assert(l[5] == TypeName::Single);
    assert(l[6] == TypeName::Double);
    assert(declared_type(plain_param(l[j])) == l[j]);
}

/// Whether, for an argument at ladder position `i`, a parameter at position
/// `j` is preferred to one at position `k`: a parameter the argument
/// converts to without loss (at or above `i`) is preferred to one it must be
/// narrowed to, and among two of the same kind the nearer one is.
pub open spec fn ladder_prefers(i: int, j: int, k: int) -> bool {
    if j >= i {
        k < i || j < k
    } else {
        k < i && j > k
    }
}

/// For one argument of a numeric type, between two one-parameter candidates
/// of different numeric types, the preferred one (see `ladder_prefers`)
/// wins: it beats the other, the other does not beat it, and it is the only
/// unbeaten candidate, so the call resolves to it. An `Integer` argument
/// picks `Long` over `Double`, `Double` over `Byte`, and `Short` over
/// `Byte`.
pub proof fn lemma_ladder_preference_decides(
    candidates: Seq<Vec<ParamShape>>,
    args: Seq<Option<TypeName>>,
    i: int,
    j: int,
    k: int,
)
    requires
        0 <= i < 7,
        0 <= j < 7,
        0 <= k < 7,
        j != k,
        candidates.len() == 2,
        candidates[0]@ == seq![plain_param(numeric_ladder()[j])],
        candidates[1]@ == seq![plain_param(numeric_ladder()[k])],
        args == seq![Some(numeric_ladder()[i])],
    ensures
        viable_indices(candidates, args, 2).len() == 2,
        beats(candidates, args, 0, 1) <==> ladder_prefers(i, j, k),
        beats(candidates, args, 1, 0) <==> ladder_prefers(i, k, j),
        ladder_prefers(i, j, k) <==> !ladder_prefers(i, k, j),
        unbeaten_indices(candidates, args, 2) == seq![if ladder_prefers(i, j, k) { 0usize } else { 1usize }],
{
    let l = numeric_ladder();
    lemma_ladder_fit(i, j);
    lemma_ladder_fit(i, k);
    let f0 = fit_of_spec(Some(l[i]), plain_param(l[j]));
    let f1 = fit_of_spec(Some(l[i]), plain_param(l[k]));
    assert(required_count(candidates[0]@.drop_last()) == 0);
    assert(required_count(candidates[1]@.drop_last()) == 0);
    assert(required_count(candidates[0]@) == 1);
    assert(required_count(candidates[1]@) == 1);
    assert(param_for(candidates[0]@, 0) == plain_param(l[j]));
    assert(param_for(candidates[1]@, 0) == plain_param(l[k]));
    assert(fits_spec(candidates[0]@, args) == Some(seq![f0])) by {
        assert(Seq::new(1, |x: int| fit_of_spec(args[x], param_for(candidates[0]@, x))) =~= seq![f0]);
    }
    assert(fits_spec(candidates[1]@, args) == Some(seq![f1])) by {
        assert(Seq::new(1, |x: int| fit_of_spec(args[x], param_for(candidates[1]@, x))) =~= seq![f1]);
    }
    assert(viable(candidates, args, 0));
    assert(viable(candidates, args, 1));
    assert(fits_of(candidates, args, 0) == seq![f0]);
    assert(fits_of(candidates, args, 1) == seq![f1]);
    assert(seq![f0][0] == f0);
    assert(seq![f1][0] == f1);
    if ladder_prefers(i, j, k) {
        assert(fit_lt(f0, f1));
        assert(fit_lt(seq![f0][0], seq![f1][0]));
        assert(is_better_spec(seq![f0], seq![f1]));
        assert(!is_better_spec(seq![f1], seq![f0]));
    } else {
        assert(fit_lt(f1, f0));
        assert(fit_lt(seq![f1][0], seq![f0][0]));
        assert(is_better_spec(seq![f1], seq![f0]));
        assert(!is_better_spec(seq![f0], seq![f1]));
    }
    lemma_is_better_irreflexive(seq![f0]);
    lemma_is_better_irreflexive(seq![f1]);
    let vp = |x: int| viable(candidates, args, x);
    let bp = |x: int| unbeaten(candidates, args, x);
    assert(viable_indices(candidates, args, 2) == indices_where(2, vp));
    assert(unbeaten_indices(candidates, args, 2) == indices_where(2, bp));
    assert(indices_where(1, vp) == indices_where(0, vp).push(0usize));
    assert(indices_where(2, vp) == indices_where(1, vp).push(1usize));
    if ladder_prefers(i, j, k) {
        assert(beats(candidates, args, 0, 1));
        assert(bp(0));
        assert(!bp(1));
        assert(indices_where(1, bp) == indices_where(0, bp).push(0usize));
        assert(indices_where(2, bp) == indices_where(1, bp));
        assert(indices_where(2, bp) =~= seq![0usize]);
    } else {
        assert(beats(candidates, args, 1, 0));
        assert(!bp(0));
        assert(bp(1));
        assert(indices_where(1, bp) == indices_where(0, bp));
        assert(indices_where(2, bp) == indices_where(1, bp).push(1usize));
        assert(indices_where(2, bp) =~= seq![1usize]);
    }
}

/// Whether every argument has a known type that is the very type its
/// parameter in candidate `w` declares.
pub open spec fn exact_match(candidates: Seq<Vec<ParamShape>>, args: Seq<Option<TypeName>>, w: int) -> bool {
    forall|x: int|
        0 <= x < args.len() ==> (#[trigger] args[x] matches Some(t) && same_type(
            t,
            declared_type(param_for(candidates[w]@, x)),
        ))
}

/// A candidate that takes the call with every argument of exactly its
/// parameter's type beats every other candidate that takes the call but
/// needs a conversion, or a run-time check, for some argument.
pub proof fn lemma_exact_match_beats_conversions(
    candidates: Seq<Vec<ParamShape>>,
    args: Seq<Option<TypeName>>,
    w: int,
    j: int,
)
    requires
        0 <= w < candidates.len(),
        0 <= j < candidates.len(),
        viable(candidates, args, w),
        viable(candidates, args, j),
        exact_match(candidates, args, w),
        !exact_match(candidates, args, j),
    ensures
        beats(candidates, args, w, j),
        !beats(candidates, args, j, w),
{
    let fw = fits_of(candidates, args, w);
    let fj = fits_of(candidates, args, j);
    assert forall|x: int| 0 <= x < args.len() implies #[trigger] fw[x] == Fit::Exact by {
        assert(args[x] matches Some(t) && same_type(t, declared_type(param_for(candidates[w]@, x))));
    }
    let x = choose|x: int|
        0 <= x < args.len() && !(#[trigger] args[x] matches Some(t) && same_type(
            t,
            declared_type(param_for(candidates[j]@, x)),
        ));
    assert(fj[x] != Fit::Exact);
    assert(fw[x] == Fit::Exact);
    assert(fit_lt(fw[x], fj[x]));
    assert forall|y: int| 0 <= y < fw.len() implies fit_le(#[trigger] fw[y], fj[y]) by {
        assert(fw[y] == Fit::Exact);
    }
    assert(is_better_spec(fw, fj));
    lemma_is_better_asymmetric(fw, fj);
}

} // verus!
