//! What the checker asks of signatures and members: the shapes overload
//! resolution compares, whether an implementation matches what it
//! implements, and the member names a suggestion can offer.
use vstd::prelude::*;

use crate::overloads::ParamShape;
use crate::symbols::{CallableSig, ParamSig};
use crate::type_model::{same_type, ty_eq, TypeName};
use crate::types::{ClassPropertySig, ClassSig, TypeSig};

verus! {

/// Whether a parameter shape has a parameter's type and kind.
pub open spec fn shape_of(shape: ParamShape, param: ParamSig) -> bool {
    ty_eq(shape.ty, param.ty) && shape.is_optional == param.is_optional && shape.is_param_array == param.is_param_array
}

/// The shapes of a signature's parameters, in order, for overload resolution.
pub fn param_shapes(sig: &CallableSig) -> (r: Vec<ParamShape>)
    ensures
        r@.len() == sig.params@.len(),
        forall|i: int| 0 <= i < r@.len() ==> shape_of(#[trigger] r@[i], sig.params@[i]),
{
    let mut out: Vec<ParamShape> = Vec::new();
    let mut i: usize = 0;
    while i < sig.params.len()
        invariant
            i <= sig.params@.len(),
            out@.len() == i,
            forall|j: int| 0 <= j < i ==> shape_of(#[trigger] out@[j], sig.params@[j]),
        decreases sig.params@.len() - i,
    {
        let param = &sig.params[i];
        out.push(ParamShape { ty: param.ty.duplicate(), is_optional: param.is_optional, is_param_array: param.is_param_array });
        i = i + 1;
    }
    out
}

/// Whether two optional return types agree: both absent, or both present
/// and the same type.
pub open spec fn returns_match(actual: Option<TypeName>, expected: Option<TypeName>) -> bool {
    match (actual, expected) {
        (Some(a), Some(e)) => same_type(a, e),
        (None, None) => true,
        _ => false,
    }
}

/// Whether two parameter lists agree one for one: passing mode, type, and
/// whether each is optional or a parameter array.
pub open spec fn params_match(actual: Seq<ParamSig>, expected: Seq<ParamSig>) -> bool {
    &&& actual.len() == expected.len()
    &&& forall|i: int|
        0 <= i < actual.len() ==> (#[trigger] actual[i]).mode == expected[i].mode && same_type(actual[i].ty, expected[i].ty)
            && actual[i].is_optional == expected[i].is_optional && actual[i].is_param_array == expected[i].is_param_array
}

/// Whether an implementation's signature matches the one it implements.
pub fn signature_matches(
    actual_params: &[ParamSig],
    actual_return: Option<&TypeName>,
    expected_params: &[ParamSig],
    expected_return: Option<&TypeName>,
) -> (r: bool)
    ensures
        r == (returns_match(
            match actual_return {
                Some(t) => Some(*t),
                None => None,
            },
            match expected_return {
                Some(t) => Some(*t),
                None => None,
            },
        ) && params_match(actual_params@, expected_params@)),
{
    let returns_agree = match (actual_return, expected_return) {
        (Some(left), Some(right)) => left.same_type(right),
        (None, None) => true,
        _ => false,
    };
    if !returns_agree || actual_params.len() != expected_params.len() {
        return false;
    }
    let mut i: usize = 0;
    while i < actual_params.len()
        invariant
            i <= actual_params@.len(),
            actual_params@.len() == expected_params@.len(),
            forall|j: int|
                0 <= j < i ==> (#[trigger] actual_params@[j]).mode == expected_params@[j].mode && same_type(
                    actual_params@[j].ty,
                    expected_params@[j].ty,
                ) && actual_params@[j].is_optional == expected_params@[j].is_optional && actual_params@[j].is_param_array
                    == expected_params@[j].is_param_array,
        decreases actual_params@.len() - i,
    {
        let left = &actual_params[i];
        let right = &expected_params[i];
        if left.mode != right.mode || !left.ty.same_type(&right.ty) || left.is_optional != right.is_optional
            || left.is_param_array != right.is_param_array {
            return false;
        }
        i = i + 1;
    }
    true
}

/// The names of the overloads in a table of overload lists, table order
/// first, then declaration order.
pub open spec fn overload_names(entries: Seq<(String, Vec<CallableSig>)>) -> Seq<Seq<char>>
    decreases entries.len(),
{
    if entries.len() == 0 {
        Seq::empty()
    } else {
        overload_names(entries.drop_last()) + entries.last().1@.map_values(|c: CallableSig| c.name@)
    }
}

/// The names of the properties of a table, in table order.
pub open spec fn property_names(entries: Seq<(String, ClassPropertySig)>) -> Seq<Seq<char>> {
    entries.map_values(|e: (String, ClassPropertySig)| e.1.name@)
}

/// The names of the callables of a table, in table order.
pub open spec fn callable_names(entries: Seq<(String, CallableSig)>) -> Seq<Seq<char>> {
    entries.map_values(|e: (String, CallableSig)| e.1.name@)
}

/// The names of a class's members: its subs, functions, properties and
/// events.
pub open spec fn class_member_names_spec(c: ClassSig) -> Seq<Seq<char>> {
    overload_names(c.subs.entries()) + overload_names(c.functions.entries()) + property_names(c.properties.entries())
        + callable_names(c.events.entries())
}

/// The names of a `Type`'s members: its subs, functions and properties.
pub open spec fn structure_member_names_spec(t: TypeSig) -> Seq<Seq<char>> {
    overload_names(t.subs.entries()) + overload_names(t.functions.entries()) + property_names(t.properties.entries())
}

/// The names as characters.
pub open spec fn texts(names: Seq<String>) -> Seq<Seq<char>> {
    names.map_values(|s: String| s@)
}

/// Appends the names of every overload of a table.
fn push_overload_names(out: &mut Vec<String>, table: &crate::name_map::NameMap<Vec<CallableSig>>)
    ensures
        texts(final(out)@) == texts(old(out)@) + overload_names(table.entries()),
{
    let ghost base = texts(out@);
    let mut i: usize = 0;
    while i < table.len()
        invariant
            i <= table.entries().len(),
            texts(out@) == base + overload_names(table.entries().subrange(0, i as int)),
        decreases table.entries().len() - i,
    {
        let overloads = &table.entry(i).1;
        let ghost before = texts(out@);
        let mut j: usize = 0;
        while j < overloads.len()
            invariant
                j <= overloads@.len(),
                texts(out@) == before + overloads@.subrange(0, j as int).map_values(|c: CallableSig| c.name@),
            decreases overloads@.len() - j,
        {
            let ghost prev = out@;
            out.push(overloads[j].name.clone());
            assert(texts(out@) =~= texts(prev).push(overloads@[j as int].name@));
            assert(overloads@.subrange(0, j + 1).map_values(|c: CallableSig| c.name@) =~= overloads@.subrange(0, j as int).map_values(
                |c: CallableSig| c.name@,
            ).push(overloads@[j as int].name@));
            j = j + 1;
            assert(texts(out@) =~= before + overloads@.subrange(0, j as int).map_values(|c: CallableSig| c.name@));
        }
        assert(overloads@.subrange(0, overloads@.len() as int) =~= overloads@);
        assert(table.entries().subrange(0, i + 1).drop_last() =~= table.entries().subrange(0, i as int));
        i = i + 1;
        assert(texts(out@) =~= base + overload_names(table.entries().subrange(0, i as int)));
    }
    assert(table.entries().subrange(0, table.entries().len() as int) =~= table.entries());
}

/// Appends the names of the properties of a table.
fn push_property_names(out: &mut Vec<String>, table: &crate::name_map::NameMap<ClassPropertySig>)
    ensures
        texts(final(out)@) == texts(old(out)@) + property_names(table.entries()),
{
    let ghost base = texts(out@);
    let mut i: usize = 0;
    while i < table.len()
        invariant
            i <= table.entries().len(),
            texts(out@) == base + property_names(table.entries().subrange(0, i as int)),
        decreases table.entries().len() - i,
    {
        let ghost prev = out@;
        let entry = table.entry(i);
        out.push(entry.1.name.clone());
        assert(texts(out@) =~= texts(prev).push(table.entries()[i as int].1.name@));
        assert(property_names(table.entries().subrange(0, i + 1)) =~= property_names(table.entries().subrange(0, i as int)).push(
            table.entries()[i as int].1.name@,
        ));
        i = i + 1;
        assert(texts(out@) =~= base + property_names(table.entries().subrange(0, i as int)));
    }
    assert(table.entries().subrange(0, table.entries().len() as int) =~= table.entries());
}

/// Appends the names of the callables of a table.
fn push_callable_names(out: &mut Vec<String>, table: &crate::name_map::NameMap<CallableSig>)
    ensures
        texts(final(out)@) == texts(old(out)@) + callable_names(table.entries()),
{
    let ghost base = texts(out@);
    let mut i: usize = 0;
    while i < table.len()
        invariant
            i <= table.entries().len(),
            texts(out@) == base + callable_names(table.entries().subrange(0, i as int)),
        decreases table.entries().len() - i,
    {
        let ghost prev = out@;
        let entry = table.entry(i);
        out.push(entry.1.name.clone());
        assert(texts(out@) =~= texts(prev).push(table.entries()[i as int].1.name@));
        assert(callable_names(table.entries().subrange(0, i + 1)) =~= callable_names(table.entries().subrange(0, i as int)).push(
            table.entries()[i as int].1.name@,
        ));
        i = i + 1;
        assert(texts(out@) =~= base + callable_names(table.entries().subrange(0, i as int)));
    }
    assert(table.entries().subrange(0, table.entries().len() as int) =~= table.entries());
}

/// The names of a class's members, for suggesting what an unknown member
/// name may have meant.
pub fn class_member_names(class_sig: &ClassSig) -> (r: Vec<String>)
    ensures
        texts(r@) == class_member_names_spec(*class_sig),
{
    let mut names: Vec<String> = Vec::new();
    assert(texts(names@) =~= Seq::<Seq<char>>::empty());
    push_overload_names(&mut names, &class_sig.subs);
    push_overload_names(&mut names, &class_sig.functions);
    push_property_names(&mut names, &class_sig.properties);
    push_callable_names(&mut names, &class_sig.events);
    assert(texts(names@) =~= class_member_names_spec(*class_sig));
    names
}

/// The names of a `Type`'s members, for suggesting what an unknown member
/// name may have meant.
pub fn structure_member_names(type_sig: &TypeSig) -> (r: Vec<String>)
    ensures
        texts(r@) == structure_member_names_spec(*type_sig),
{
    let mut names: Vec<String> = Vec::new();
    assert(texts(names@) =~= Seq::<Seq<char>>::empty());
    push_overload_names(&mut names, &type_sig.subs);
    push_overload_names(&mut names, &type_sig.functions);
    push_property_names(&mut names, &type_sig.properties);
    assert(texts(names@) =~= structure_member_names_spec(*type_sig));
    names
}

} // verus!
