//! Conservative native ownership properties for resolved source types.
//! Unknown is never silently treated as Copy or as requiring no cleanup.
use vstd::prelude::*;

use crate::ast::{FieldDecl, Program, TypeDecl, TypeKind};
use crate::text::{eq_ignore_ascii_case, same_ignoring_ascii_case};
use crate::type_model::TypeName;

verus! {

/// Whether a property is known to hold, known not to, or not known.
#[derive(Debug, Clone, Copy, PartialEq, Eq, Structural)]
pub enum KnownProperty {
    Yes,
    No,
    Unknown,
}

/// Whether values of a type may be copied, and whether they need cleanup.
#[derive(Debug, Clone, Copy, PartialEq, Eq, Structural)]
pub struct TypeProperties {
    pub copy: KnownProperty,
    pub requires_drop: KnownProperty,
}

/// The properties of a plain scalar: copyable, nothing to clean up.
pub open spec fn plain_spec() -> TypeProperties {
    TypeProperties { copy: KnownProperty::Yes, requires_drop: KnownProperty::No }
}

/// Nothing known.
pub open spec fn unknown_spec() -> TypeProperties {
    TypeProperties { copy: KnownProperty::Unknown, requires_drop: KnownProperty::Unknown }
}

/// An aggregate is copyable only if every part is: one part known not to be
/// decides it, and otherwise any unknown part leaves it unknown.
pub open spec fn combine_copy_spec(left: KnownProperty, right: KnownProperty) -> KnownProperty {
    if left is No || right is No {
        KnownProperty::No
    } else if left is Unknown || right is Unknown {
        KnownProperty::Unknown
    } else {
        KnownProperty::Yes
    }
}

/// An aggregate needs cleanup if any part does: one part known to decides it,
/// and otherwise any unknown part leaves it unknown.
pub open spec fn combine_drop_spec(left: KnownProperty, right: KnownProperty) -> KnownProperty {
    if left is Yes || right is Yes {
        KnownProperty::Yes
    } else if left is Unknown || right is Unknown {
        KnownProperty::Unknown
    } else {
        KnownProperty::No
    }
}

/// The properties of an aggregate with parts `acc` so far and one more part `v`.
pub open spec fn combine_props(acc: TypeProperties, v: TypeProperties) -> TypeProperties {
    TypeProperties {
        copy: combine_copy_spec(acc.copy, v.copy),
        requires_drop: combine_drop_spec(acc.requires_drop, v.requires_drop),
    }
}

/// How many declarations are not being visited.
pub open spec fn unvisited(flags: Seq<bool>) -> nat
    decreases flags.len(),
{
    if flags.len() == 0 {
        0
    } else {
        unvisited(flags.drop_last()) + if !flags.last() {
            1nat
        } else {
            0nat
        }
    }
}

/// Marking an unvisited declaration leaves one fewer unvisited.
pub proof fn lemma_unvisited_mark(flags: Seq<bool>, d: int)
    requires
        0 <= d < flags.len(),
        !flags[d],
    ensures
        unvisited(flags.update(d, true)) + 1 == unvisited(flags),
    decreases flags.len(),
{
    let marked = flags.update(d, true);
    if d < flags.len() - 1 {
        lemma_unvisited_mark(flags.drop_last(), d);
        assert(marked.drop_last() =~= flags.drop_last().update(d, true));
    } else {
        assert(marked.drop_last() =~= flags.drop_last());
    }
}

/// The index of the first declaration whose name matches `name` without ASCII
/// case, if any.
pub open spec fn first_named(types: Seq<TypeDecl>, name: Seq<char>) -> Option<int>
    decreases types.len(),
{
    if types.len() == 0 {
        None
    } else {
        match first_named(types.drop_last(), name) {
            Some(i) => Some(i),
            None => if same_ignoring_ascii_case(types.last().name@, name) {
                Some(types.len() - 1)
            } else {
                None
            },
        }
    }
}

/// The properties of a type, with `visiting` marking the Structures whose
/// properties are being worked out further up: reaching one of them again is
/// a cycle, which is unknown.
pub open spec fn resolve_spec(types: Seq<TypeDecl>, ty: TypeName, visiting: Seq<bool>) -> TypeProperties
    decreases unvisited(visiting), ty,
{
    match ty {
        TypeName::Byte | TypeName::Int16 | TypeName::Int32 | TypeName::Int64 | TypeName::UInt32
        | TypeName::UInt64 | TypeName::Single | TypeName::Double | TypeName::Boolean
        | TypeName::Ptr | TypeName::FuncPtr | TypeName::Enum(_) => plain_spec(),
        TypeName::String => TypeProperties { copy: KnownProperty::Yes, requires_drop: KnownProperty::Yes },
        TypeName::Nullable(inner) => resolve_spec(types, *inner, visiting),
        TypeName::Tuple(elements) => {
            proof {
                vstd::std_specs::vec::axiom_vec_decreases_to_view(elements);
            }
            tuple_props(types, elements@, visiting)
        },
        TypeName::User(name) => match first_named(types, name@) {
            None => unknown_spec(),
            Some(d) => if d < 0 || !(types[d].kind is Structure) || d >= visiting.len() || visiting[d] {
                unknown_spec()
            } else {
                proof {
                    lemma_unvisited_mark(visiting, d);
                }
                fields_props(types, field_shapes(types[d].fields@), visiting.update(d, true))
            },
        },
        _ => unknown_spec(),
    }
}

/// The properties of a tuple with these elements.
pub open spec fn tuple_props(types: Seq<TypeDecl>, elements: Seq<(Option<String>, TypeName)>, visiting: Seq<bool>) -> TypeProperties
    decreases unvisited(visiting), elements,
{
    if elements.len() == 0 {
        plain_spec()
    } else {
        proof {
            assert(decreases_to!(elements => elements[elements.len() - 1]));
        }
        combine_props(
            tuple_props(types, elements.drop_last(), visiting),
            resolve_spec(types, elements.last().1, visiting),
        )
    }
}

/// What the properties of a Structure depend on for each field: whether it
/// is an array, and its type.
pub open spec fn field_shapes(fields: Seq<FieldDecl>) -> Seq<(bool, TypeName)> {
    fields.map_values(|f: FieldDecl| (f.array is Some, f.ty))
}

/// The properties of a Structure whose fields have these shapes. An array
/// field is unknown.
pub open spec fn fields_props(types: Seq<TypeDecl>, fields: Seq<(bool, TypeName)>, visiting: Seq<bool>) -> TypeProperties
    decreases unvisited(visiting), fields,
{
    if fields.len() == 0 {
        plain_spec()
    } else {
        proof {
            assert(decreases_to!(fields => fields[fields.len() - 1]));
        }
        combine_props(
            fields_props(types, fields.drop_last(), visiting),
            if fields.last().0 {
                unknown_spec()
            } else {
                resolve_spec(types, fields.last().1, visiting)
            },
        )
    }
}

/// The copy and cleanup properties of a type in a program.
pub open spec fn properties_spec(types: Seq<TypeDecl>, ty: TypeName) -> TypeProperties {
    resolve_spec(types, ty, Seq::new(types.len(), |i: int| false))
}

fn plain() -> (r: TypeProperties)
    ensures
        r == plain_spec(),
{
    TypeProperties { copy: KnownProperty::Yes, requires_drop: KnownProperty::No }
}

fn unknown() -> (r: TypeProperties)
    ensures
        r == unknown_spec(),
{
    TypeProperties { copy: KnownProperty::Unknown, requires_drop: KnownProperty::Unknown }
}

/// The copy and cleanup properties of `ty`, as far as they are known.
pub fn properties(program: &Program, ty: &TypeName) -> (r: TypeProperties)
    ensures
        r == properties_spec(program.types@, *ty),
{
    let mut visiting: Vec<bool> = Vec::new();
    let mut i: usize = 0;
    while i < program.types.len()
        invariant
            i <= program.types@.len(),
            visiting@ == Seq::new(i as nat, |j: int| false),
        decreases program.types@.len() - i,
    {
        visiting.push(false);
        i = i + 1;
        assert(visiting@ =~= Seq::new(i as nat, |j: int| false));
    }
    resolve(program, ty, &mut visiting)
}

fn find_type(types: &Vec<TypeDecl>, name: &str) -> (r: Option<usize>)
    ensures
        match r {
            Some(d) => first_named(types@, name@) == Some(d as int) && d < types@.len(),
            None => first_named(types@, name@) is None,
        },
{
    let mut i: usize = 0;
    while i < types.len()
        invariant
            i <= types@.len(),
            first_named(types@.subrange(0, i as int), name@) is None,
        decreases types@.len() - i,
    {
        assert(types@.subrange(0, i + 1).drop_last() =~= types@.subrange(0, i as int));
        if eq_ignore_ascii_case(types[i].name.as_str(), name) {
            proof {
                lemma_first_named_prefix(types@, name@, (i + 1) as nat);
            }
            return Some(i);
        }
        i = i + 1;
    }
    assert(types@.subrange(0, types@.len() as int) =~= types@);
    None
}

proof fn lemma_first_named_prefix(types: Seq<TypeDecl>, name: Seq<char>, n: nat)
    requires
        n <= types.len(),
        first_named(types.subrange(0, n as int), name) is Some,
    ensures
        first_named(types, name) == first_named(types.subrange(0, n as int), name),
    decreases types.len() - n,
{
    if n < types.len() {
        assert(types.subrange(0, (n + 1) as int).drop_last() =~= types.subrange(0, n as int));
        lemma_first_named_prefix(types, name, n + 1);
    } else {
        assert(types.subrange(0, n as int) =~= types);
    }
}

fn combine_copy(left: KnownProperty, right: KnownProperty) -> (r: KnownProperty)
    ensures
        r == combine_copy_spec(left, right),
{
    match (left, right) {
        (KnownProperty::No, _) | (_, KnownProperty::No) => KnownProperty::No,
        (KnownProperty::Unknown, _) | (_, KnownProperty::Unknown) => KnownProperty::Unknown,
        _ => KnownProperty::Yes,
    }
}

fn combine_drop(left: KnownProperty, right: KnownProperty) -> (r: KnownProperty)
    ensures
        r == combine_drop_spec(left, right),
{
    match (left, right) {
        (KnownProperty::Yes, _) | (_, KnownProperty::Yes) => KnownProperty::Yes,
        (KnownProperty::Unknown, _) | (_, KnownProperty::Unknown) => KnownProperty::Unknown,
        _ => KnownProperty::No,
    }
}

fn combine(result: TypeProperties, value: TypeProperties) -> (r: TypeProperties)
    ensures
        r == combine_props(result, value),
{
    TypeProperties {
        copy: combine_copy(result.copy, value.copy),
        requires_drop: combine_drop(result.requires_drop, value.requires_drop),
    }
}

fn resolve(program: &Program, ty: &TypeName, visiting: &mut Vec<bool>) -> (r: TypeProperties)
    requires
        old(visiting)@.len() == program.types@.len(),
    ensures
        final(visiting)@ == old(visiting)@,
        r == resolve_spec(program.types@, *ty, old(visiting)@),
    decreases unvisited(old(visiting)@), ty,
{
    let ghost types = program.types@;
    let ghost entry = visiting@;
    match ty {
        TypeName::Byte | TypeName::Int16 | TypeName::Int32 | TypeName::Int64 | TypeName::UInt32
        | TypeName::UInt64 | TypeName::Single | TypeName::Double | TypeName::Boolean
        | TypeName::Ptr | TypeName::FuncPtr | TypeName::Enum(_) => plain(),
        // String is semantically copyable; native copies retain immutable
        // shared storage and every owned reference requires release.
        TypeName::String => TypeProperties { copy: KnownProperty::Yes, requires_drop: KnownProperty::Yes },
        TypeName::Nullable(inner) => resolve(program, &**inner, visiting),
        TypeName::Tuple(elements) => {
            let ghost start = visiting@;
            let mut result = plain();
            let mut i: usize = 0;
            while i < elements.len()
                invariant
                    *ty == TypeName::Tuple(*elements),
                    i <= elements@.len(),
                    visiting@ == start,
                    start == entry,
                    entry == old(visiting)@,
                    start.len() == types.len(),
                    types == program.types@,
                    result == tuple_props(types, elements@.subrange(0, i as int), start),
                decreases elements@.len() - i,
            {
                proof {
                    assert(decreases_to!(*ty => (*ty)->Tuple_0));
                    vstd::std_specs::vec::axiom_vec_index_decreases(*elements, i as int);
                    assert(decreases_to!(elements[i as int] => elements[i as int].1));
                    assert(elements@.subrange(0, i + 1).drop_last() =~= elements@.subrange(0, i as int));
                    assert(elements@.subrange(0, i + 1).last() == elements@[i as int]);
                }
                let value = resolve(program, &elements[i].1, visiting);
                result = combine(result, value);
                i = i + 1;
            }
            assert(elements@.subrange(0, elements@.len() as int) =~= elements@);
            result
        },
        TypeName::User(name) => {
            let found = find_type(&program.types, name.as_str());
            let d = match found {
                Some(d) => d,
                None => return unknown(),
            };
            let decl = &program.types[d];
            if decl.kind != TypeKind::Structure || visiting[d] {
                return unknown();
            }
            let ghost start = visiting@;
            let ghost marked = start.update(d as int, true);
            proof {
                lemma_unvisited_mark(start, d as int);
            }
            visiting.set(d, true);
            let mut result = plain();
            let mut i: usize = 0;
            while i < decl.fields.len()
                invariant
                    i <= decl.fields@.len(),
                    visiting@ == marked,
                    marked.len() == types.len(),
                    types == program.types@,
                    unvisited(marked) < unvisited(start),
                    start == entry,
                    entry == old(visiting)@,
                    result == fields_props(types, field_shapes(decl.fields@).subrange(0, i as int), marked),
                decreases decl.fields@.len() - i,
            {
                proof {
                    let shapes = field_shapes(decl.fields@);
                    assert(shapes.subrange(0, i + 1).drop_last() =~= shapes.subrange(0, i as int));
                    assert(shapes.subrange(0, i + 1).last() == (decl.fields@[i as int].array is Some, decl.fields@[i as int].ty));
                }
                let field = &decl.fields[i];
                let value = if field.array.is_some() {
                    unknown()
                } else {
                    resolve(program, &field.ty, visiting)
                };
                result = combine(result, value);
                i = i + 1;
            }
            assert(field_shapes(decl.fields@).subrange(0, decl.fields@.len() as int) =~= field_shapes(decl.fields@));
            visiting.set(d, false);
            assert(visiting@ =~= start);
            result
        },
        // Class ownership, arrays, dynamic values, generics and
        // runtime-specific scalars need explicit native layout/drop contracts.
        _ => unknown(),
    }
}

/// Combining parts never upgrades what is not known: an aggregate is Copy
/// exactly when both parts are, and needs no cleanup exactly when neither
/// part does; the order of the parts does not matter.
pub proof fn lemma_combine_conservative(a: TypeProperties, b: TypeProperties)
    ensures
        combine_props(a, b).copy is Yes <==> (a.copy is Yes && b.copy is Yes),
        combine_props(a, b).requires_drop is No <==> (a.requires_drop is No && b.requires_drop is No),
        combine_props(a, b) == combine_props(b, a),
        combine_props(plain_spec(), a) == a,
{
}

/// A tuple is Copy exactly when every element is, and needs no cleanup
/// exactly when no element does; an unknown element therefore never makes it
/// Copy or free of cleanup.
pub proof fn lemma_tuple_conservative(types: Seq<TypeDecl>, elements: Seq<(Option<String>, TypeName)>, visiting: Seq<bool>)
    ensures
        tuple_props(types, elements, visiting).copy is Yes <==> forall|i: int|
            0 <= i < elements.len() ==> (#[trigger] resolve_spec(types, elements[i].1, visiting)).copy is Yes,
        tuple_props(types, elements, visiting).requires_drop is No <==> forall|i: int|
            0 <= i < elements.len() ==> (#[trigger] resolve_spec(types, elements[i].1, visiting)).requires_drop is No,
    decreases elements.len(),
{
    if elements.len() > 0 {
        let init = elements.drop_last();
        lemma_tuple_conservative(types, init, visiting);
        assert forall|i: int| 0 <= i < init.len() implies #[trigger] init[i] == elements[i] by {}
        let last = resolve_spec(types, elements.last().1, visiting);
        if forall|i: int| 0 <= i < elements.len() ==> (#[trigger] resolve_spec(types, elements[i].1, visiting)).copy is Yes {
            assert forall|i: int| 0 <= i < init.len() implies (#[trigger] resolve_spec(types, init[i].1, visiting)).copy is Yes by {
                assert(resolve_spec(types, elements[i].1, visiting).copy is Yes);
            }
            assert(resolve_spec(types, elements[elements.len() - 1].1, visiting).copy is Yes);
        }
        if forall|i: int| 0 <= i < elements.len() ==> (#[trigger] resolve_spec(types, elements[i].1, visiting)).requires_drop is No {
            assert forall|i: int| 0 <= i < init.len() implies (#[trigger] resolve_spec(types, init[i].1, visiting)).requires_drop is No by {
                assert(resolve_spec(types, elements[i].1, visiting).requires_drop is No);
            }
            assert(resolve_spec(types, elements[elements.len() - 1].1, visiting).requires_drop is No);
        }
        if tuple_props(types, elements, visiting).copy is Yes {
            assert forall|i: int| 0 <= i < elements.len() implies (#[trigger] resolve_spec(types, elements[i].1, visiting)).copy is Yes by {
                if i < init.len() {
                    assert(resolve_spec(types, init[i].1, visiting).copy is Yes);
                }
            }
        }
        if tuple_props(types, elements, visiting).requires_drop is No {
            assert forall|i: int| 0 <= i < elements.len() implies (#[trigger] resolve_spec(types, elements[i].1, visiting)).requires_drop is No by {
                if i < init.len() {
                    assert(resolve_spec(types, init[i].1, visiting).requires_drop is No);
                }
            }
        }
    }
}

/// A user type that names no type declaration of the program is never
/// reported Copy or free of cleanup: both properties are unknown.
pub proof fn lemma_unresolved_is_unknown(types: Seq<TypeDecl>, name: String)
    requires
        first_named(types, name@) is None,
    ensures
        properties_spec(types, TypeName::User(name)) == unknown_spec(),
{
}

/// A nullable type has exactly the properties of the type it wraps.
pub proof fn lemma_nullable_transparent(types: Seq<TypeDecl>, inner: TypeName)
    ensures
        properties_spec(types, TypeName::Nullable(Box::new(inner))) == properties_spec(types, inner),
{
}

/// A Structure is Copy exactly when no field is an array and every field's
/// type is Copy, and needs no cleanup exactly when no field is an array and
/// no field's type needs cleanup; a field-less Structure is plain.
pub proof fn lemma_fields_conservative(types: Seq<TypeDecl>, fields: Seq<(bool, TypeName)>, visiting: Seq<bool>)
    ensures
        fields_props(types, fields, visiting).copy is Yes <==> forall|i: int|
            0 <= i < fields.len() ==> !fields[i].0 && (#[trigger] resolve_spec(types, fields[i].1, visiting)).copy is Yes,
        fields_props(types, fields, visiting).requires_drop is No <==> forall|i: int|
            0 <= i < fields.len() ==> !fields[i].0 && (#[trigger] resolve_spec(types, fields[i].1, visiting)).requires_drop
                is No,
        fields.len() == 0 ==> fields_props(types, fields, visiting) == plain_spec(),
    decreases fields.len(),
{
    if fields.len() > 0 {
        let init = fields.drop_last();
        let n = fields.len() - 1;
        lemma_fields_conservative(types, init, visiting);
        assert forall|i: int| 0 <= i < init.len() implies #[trigger] init[i] == fields[i] by {}
        let a = forall|i: int|
            0 <= i < fields.len() ==> !fields[i].0 && (#[trigger] resolve_spec(types, fields[i].1, visiting)).copy is Yes;
        if a {
            assert forall|i: int| 0 <= i < init.len() implies !init[i].0 && (#[trigger] resolve_spec(types, init[i].1, visiting)).copy
                is Yes by {
                assert(resolve_spec(types, fields[i].1, visiting).copy is Yes);
            }
            assert(!fields[n].0 && resolve_spec(types, fields[n].1, visiting).copy is Yes);
        }
        if fields_props(types, fields, visiting).copy is Yes {
            assert forall|i: int| 0 <= i < fields.len() implies !fields[i].0 && (#[trigger] resolve_spec(
                types,
                fields[i].1,
                visiting,
            )).copy is Yes by {
                if i < init.len() {
                    assert(resolve_spec(types, init[i].1, visiting).copy is Yes);
                }
            }
        }
        let b = forall|i: int|
            0 <= i < fields.len() ==> !fields[i].0 && (#[trigger] resolve_spec(types, fields[i].1, visiting)).requires_drop
                is No;
        if b {
            assert forall|i: int| 0 <= i < init.len() implies !init[i].0 && (#[trigger] resolve_spec(types, init[i].1, visiting)).requires_drop
                is No by {
                assert(resolve_spec(types, fields[i].1, visiting).requires_drop is No);
            }
            assert(!fields[n].0 && resolve_spec(types, fields[n].1, visiting).requires_drop is No);
        }
        if fields_props(types, fields, visiting).requires_drop is No {
            assert forall|i: int| 0 <= i < fields.len() implies !fields[i].0 && (#[trigger] resolve_spec(
                types,
                fields[i].1,
                visiting,
            )).requires_drop is No by {
                if i < init.len() {
                    assert(resolve_spec(types, init[i].1, visiting).requires_drop is No);
                }
            }
        }
    }
}

/// No type is ever known not to be Copy: every type is Copy or unknown.
pub proof fn lemma_copy_never_no(types: Seq<TypeDecl>, ty: TypeName, visiting: Seq<bool>)
    ensures
        !(resolve_spec(types, ty, visiting).copy is No),
    decreases unvisited(visiting), ty, 0nat,
{
    match ty {
        TypeName::Nullable(inner) => lemma_copy_never_no(types, *inner, visiting),
        TypeName::Tuple(elements) => {
            vstd::std_specs::vec::axiom_vec_decreases_to_view(elements);
            lemma_tuple_copy_never_no(types, elements@, visiting);
        },
        TypeName::User(name) => match first_named(types, name@) {
            None => {},
            Some(d) => if d < 0 || !(types[d].kind is Structure) || d >= visiting.len() || visiting[d] {
            } else {
                lemma_unvisited_mark(visiting, d);
                lemma_fields_copy_never_no(types, field_shapes(types[d].fields@), visiting.update(d, true));
            },
        },
        _ => {},
    }
}

proof fn lemma_tuple_copy_never_no(types: Seq<TypeDecl>, elements: Seq<(Option<String>, TypeName)>, visiting: Seq<bool>)
    ensures
        !(tuple_props(types, elements, visiting).copy is No),
    decreases unvisited(visiting), elements, 0nat,
{
    if elements.len() > 0 {
        assert(decreases_to!(elements => elements[elements.len() - 1]));
        lemma_tuple_copy_never_no(types, elements.drop_last(), visiting);
        lemma_copy_never_no(types, elements.last().1, visiting);
    }
}

proof fn lemma_fields_copy_never_no(types: Seq<TypeDecl>, fields: Seq<(bool, TypeName)>, visiting: Seq<bool>)
    ensures
        !(fields_props(types, fields, visiting).copy is No),
    decreases unvisited(visiting), fields, 0nat,
{
    if fields.len() > 0 {
        assert(decreases_to!(fields => fields[fields.len() - 1]));
        lemma_fields_copy_never_no(types, fields.drop_last(), visiting);
        if !fields.last().0 {
            lemma_copy_never_no(types, fields.last().1, visiting);
        }
    }
}

/// The properties a component of a Structure contributes: an array field
/// is unknown, any other field has its type's properties.
pub open spec fn field_part(types: Seq<TypeDecl>, field: (bool, TypeName), visiting: Seq<bool>) -> TypeProperties {
    if field.0 {
        unknown_spec()
    } else {
        resolve_spec(types, field.1, visiting)
    }
}

/// A tuple needs cleanup if some element does; otherwise its need is
/// unknown if some element's is, and it needs none if no element does.
pub proof fn lemma_tuple_drop_rule(types: Seq<TypeDecl>, elements: Seq<(Option<String>, TypeName)>, visiting: Seq<bool>)
    ensures
        tuple_props(types, elements, visiting).requires_drop is Yes <==> exists|i: int|
            0 <= i < elements.len() && (#[trigger] resolve_spec(types, elements[i].1, visiting)).requires_drop is Yes,
        tuple_props(types, elements, visiting).requires_drop is Unknown <==> (!(exists|i: int|
            0 <= i < elements.len() && (#[trigger] resolve_spec(types, elements[i].1, visiting)).requires_drop is Yes)
            && exists|i: int|
            0 <= i < elements.len() && (#[trigger] resolve_spec(types, elements[i].1, visiting)).requires_drop is Unknown),
    decreases elements.len(),
{
    if elements.len() > 0 {
        let init = elements.drop_last();
        let n = elements.len() - 1;
        lemma_tuple_drop_rule(types, init, visiting);
        assert forall|i: int| 0 <= i < init.len() implies #[trigger] init[i] == elements[i] by {}
        let last = resolve_spec(types, elements[n].1, visiting);
        assert(elements.last() == elements[n]);
        if exists|i: int| 0 <= i < elements.len() && (#[trigger] resolve_spec(types, elements[i].1, visiting)).requires_drop is Yes {
            let i = choose|i: int| 0 <= i < elements.len() && (#[trigger] resolve_spec(types, elements[i].1, visiting)).requires_drop is Yes;
            if i < n {
                assert(resolve_spec(types, init[i].1, visiting).requires_drop is Yes);
            }
        }
        if exists|i: int| 0 <= i < init.len() && (#[trigger] resolve_spec(types, init[i].1, visiting)).requires_drop is Yes {
            let i = choose|i: int| 0 <= i < init.len() && (#[trigger] resolve_spec(types, init[i].1, visiting)).requires_drop is Yes;
            assert(resolve_spec(types, elements[i].1, visiting).requires_drop is Yes);
        }
        if exists|i: int| 0 <= i < elements.len() && (#[trigger] resolve_spec(types, elements[i].1, visiting)).requires_drop is Unknown {
            let i = choose|i: int| 0 <= i < elements.len() && (#[trigger] resolve_spec(types, elements[i].1, visiting)).requires_drop is Unknown;
            if i < n {
                assert(resolve_spec(types, init[i].1, visiting).requires_drop is Unknown);
            }
        }
        if exists|i: int| 0 <= i < init.len() && (#[trigger] resolve_spec(types, init[i].1, visiting)).requires_drop is Unknown {
            let i = choose|i: int| 0 <= i < init.len() && (#[trigger] resolve_spec(types, init[i].1, visiting)).requires_drop is Unknown;
            assert(resolve_spec(types, elements[i].1, visiting).requires_drop is Unknown);
        }
    }
}

/// A Structure needs cleanup if some field does; otherwise its need is
/// unknown if some field's is (an array field's always is), and it needs
/// none if no field does.
pub proof fn lemma_fields_drop_rule(types: Seq<TypeDecl>, fields: Seq<(bool, TypeName)>, visiting: Seq<bool>)
    ensures
        fields_props(types, fields, visiting).requires_drop is Yes <==> exists|i: int|
            0 <= i < fields.len() && (#[trigger] field_part(types, fields[i], visiting)).requires_drop is Yes,
        fields_props(types, fields, visiting).requires_drop is Unknown <==> (!(exists|i: int|
            0 <= i < fields.len() && (#[trigger] field_part(types, fields[i], visiting)).requires_drop is Yes) && exists|
            i: int,
        | 0 <= i < fields.len() && (#[trigger] field_part(types, fields[i], visiting)).requires_drop is Unknown),
    decreases fields.len(),
{
    if fields.len() > 0 {
        let init = fields.drop_last();
        let n = fields.len() - 1;
        lemma_fields_drop_rule(types, init, visiting);
        assert forall|i: int| 0 <= i < init.len() implies #[trigger] init[i] == fields[i] by {}
        assert(fields.last() == fields[n]);
        assert(field_part(types, fields[n], visiting) == (if fields.last().0 {
            unknown_spec()
        } else {
            resolve_spec(types, fields.last().1, visiting)
        }));
        if exists|i: int| 0 <= i < fields.len() && (#[trigger] field_part(types, fields[i], visiting)).requires_drop is Yes {
            let i = choose|i: int| 0 <= i < fields.len() && (#[trigger] field_part(types, fields[i], visiting)).requires_drop is Yes;
            if i < n {
                assert(field_part(types, init[i], visiting).requires_drop is Yes);
            }
        }
        if exists|i: int| 0 <= i < init.len() && (#[trigger] field_part(types, init[i], visiting)).requires_drop is Yes {
            let i = choose|i: int| 0 <= i < init.len() && (#[trigger] field_part(types, init[i], visiting)).requires_drop is Yes;
            assert(field_part(types, fields[i], visiting).requires_drop is Yes);
        }
        if exists|i: int| 0 <= i < fields.len() && (#[trigger] field_part(types, fields[i], visiting)).requires_drop is Unknown {
            let i = choose|i: int| 0 <= i < fields.len() && (#[trigger] field_part(types, fields[i], visiting)).requires_drop is Unknown;
            if i < n {
                assert(field_part(types, init[i], visiting).requires_drop is Unknown);
            }
        }
        if exists|i: int| 0 <= i < init.len() && (#[trigger] field_part(types, init[i], visiting)).requires_drop is Unknown {
            let i = choose|i: int| 0 <= i < init.len() && (#[trigger] field_part(types, init[i], visiting)).requires_drop is Unknown;
            assert(field_part(types, fields[i], visiting).requires_drop is Unknown);
        }
    }
}

proof fn lemma_first_named_in_range(types: Seq<TypeDecl>, name: Seq<char>)
    ensures
        match first_named(types, name) {
            Some(d) => 0 <= d < types.len(),
            None => true,
        },
    decreases types.len(),
{
    if types.len() > 0 {
        lemma_first_named_in_range(types.drop_last(), name);
    }
}

/// A user type naming a Structure that is not already being worked out
/// has the properties of its fields combined, each field's type taken with
/// that Structure marked: reaching it again through a field is a cycle.
pub proof fn lemma_structure_is_its_fields(types: Seq<TypeDecl>, name: String, d: int)
    requires
        first_named(types, name@) == Some(d),
        types[d].kind is Structure,
    ensures
        properties_spec(types, TypeName::User(name)) == fields_props(
            types,
            field_shapes(types[d].fields@),
            Seq::new(types.len(), |i: int| false).update(d, true),
        ),
{
    lemma_first_named_in_range(types, name@);
}

/// The scalar types: numbers, booleans, pointers and enums.
pub open spec fn is_scalar(t: TypeName) -> bool {
    t is Byte || t is Int16 || t is Int32 || t is Int64 || t is UInt32 || t is UInt64 || t is Single || t is Double
        || t is Boolean || t is Ptr || t is FuncPtr || t is Enum
}

/// Every scalar type, in any program, is copied freely and needs no
/// cleanup; of the types that are not built from other types, `String` is
/// the only one whose values must be released, and it is still copied.
pub proof fn lemma_scalars_are_plain(types: Seq<TypeDecl>, t: TypeName)
    ensures
        is_scalar(t) ==> properties_spec(types, t) == (TypeProperties {
            copy: KnownProperty::Yes,
            requires_drop: KnownProperty::No,
        }),
        t is String ==> properties_spec(types, t) == (TypeProperties {
            copy: KnownProperty::Yes,
            requires_drop: KnownProperty::Yes,
        }),
        !(t is Nullable || t is Tuple || t is User) ==> (properties_spec(types, t).requires_drop == KnownProperty::Yes
            <==> t is String),
{
}

} // verus!
