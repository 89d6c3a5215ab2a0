//! The types a program can name, as semantic analysis sees them.
use vstd::prelude::*;

use crate::text::{eq_ignore_ascii_case, same_ignoring_ascii_case};

verus! {

/// A resolved source type.
#[derive(Debug)]
pub enum TypeName {
    Byte,
    Int16,
    Int32,
    Int64,
    UInt32,
    UInt64,
    Single,
    Double,
    Decimal,
    Currency,
    Date,
    Boolean,
    String,
    Variant,
    Void,
    Ptr,
    FuncPtr,
    Enum(String),
    Nullable(Box<TypeName>),
    /// The elements of a tuple type, each an optional name and a type.
    Tuple(Vec<(Option<String>, TypeName)>),
    User(String),
    GenericInstance { name: String, args: Vec<TypeName> },
    Array(Box<TypeName>),
}

/// Whether two types denote the same type: the same shape, with declared
/// names compared without ASCII case and tuple element names disregarded.
pub open spec fn same_type(a: TypeName, b: TypeName) -> bool
    decreases a,
{
    match a {
        TypeName::Enum(x) => b matches TypeName::Enum(y) && same_ignoring_ascii_case(x@, y@),
        TypeName::User(x) => b matches TypeName::User(y) && same_ignoring_ascii_case(x@, y@),
        TypeName::Nullable(x) => b matches TypeName::Nullable(y) && same_type(*x, *y),
        TypeName::Array(x) => b matches TypeName::Array(y) && same_type(*x, *y),
        TypeName::Tuple(xs) => b matches TypeName::Tuple(ys) && xs@.len() == ys@.len() && (
        forall|i: int| 0 <= i < xs@.len() ==> same_type(#[trigger] xs@[i].1, ys@[i].1)),
        TypeName::GenericInstance { name: n1, args: a1 } => b matches TypeName::GenericInstance {
            name: n2,
            args: a2,
        } && same_ignoring_ascii_case(n1@, n2@) && a1@.len() == a2@.len() && (forall|i: int|
            0 <= i < a1@.len() ==> same_type(#[trigger] a1@[i], a2@[i])),
        _ => tag(a) == tag(b),
    }
}

/// Whether two types are written identically: the same shape and the same
/// names, character for character.
pub open spec fn ty_eq(a: TypeName, b: TypeName) -> bool
    decreases a,
{
    match a {
        TypeName::Enum(x) => b matches TypeName::Enum(y) && x@ == y@,
        TypeName::User(x) => b matches TypeName::User(y) && x@ == y@,
        TypeName::Nullable(x) => b matches TypeName::Nullable(y) && ty_eq(*x, *y),
        TypeName::Array(x) => b matches TypeName::Array(y) && ty_eq(*x, *y),
        TypeName::Tuple(xs) => b matches TypeName::Tuple(ys) && xs@.len() == ys@.len() && (
        forall|i: int| 0 <= i < xs@.len() ==> opt_str_eq(#[trigger] xs@[i].0, ys@[i].0) && ty_eq(xs@[i].1, ys@[i].1)),
        TypeName::GenericInstance { name: n1, args: a1 } => b matches TypeName::GenericInstance {
            name: n2,
            args: a2,
        } && n1@ == n2@ && a1@.len() == a2@.len() && (forall|i: int|
            0 <= i < a1@.len() ==> ty_eq(#[trigger] a1@[i], a2@[i])),
        _ => tag(a) == tag(b),
    }
}

/// Whether two optional names are both absent or both present and equal.
pub open spec fn opt_str_eq(a: Option<String>, b: Option<String>) -> bool {
    match (a, b) {
        (Some(x), Some(y)) => x@ == y@,
        (None, None) => true,
        _ => false,
    }
}

/// The variant of a type, by number, used to compare payload-free types.
pub open spec fn tag(t: TypeName) -> int {
    match t {
        TypeName::Byte => 0,
        TypeName::Int16 => 1,
        TypeName::Int32 => 2,
        TypeName::Int64 => 3,
        TypeName::UInt32 => 4,
        TypeName::UInt64 => 5,
        TypeName::Single => 6,
        TypeName::Double => 7,
        TypeName::Decimal => 8,
        TypeName::Currency => 9,
        TypeName::Date => 10,
        TypeName::Boolean => 11,
        TypeName::String => 12,
        TypeName::Variant => 13,
        TypeName::Void => 14,
        TypeName::Ptr => 15,
        TypeName::FuncPtr => 16,
        TypeName::Enum(_) => 17,
        TypeName::Nullable(_) => 18,
        TypeName::Tuple(_) => 19,
        TypeName::User(_) => 20,
        TypeName::GenericInstance { .. } => 21,
        TypeName::Array(_) => 22,
    }
}

/// Whether a type is one of the integer types.
pub open spec fn integral(t: TypeName) -> bool {
    t is Byte || t is Int16 || t is Int32 || t is Int64 || t is UInt32 || t is UInt64
}

/// Where a generic parameter named `n` is bound, looking from position `i`
/// on: the first binding whose name is `n` without regard to ASCII case.
pub open spec fn binding_from(bindings: Seq<(String, TypeName)>, n: Seq<char>, i: int) -> Option<int>
    decreases bindings.len() - i,
{
    if i < 0 || i >= bindings.len() {
        None
    } else if same_ignoring_ascii_case(bindings[i].0@, n) {
        Some(i)
    } else {
        binding_from(bindings, n, i + 1)
    }
}

/// Whether `r` is `t` with each generic parameter that `bindings` names
/// replaced by the type bound to it. A parameter is a plain user type name;
/// the replacement reaches into nullable, array and tuple types and into the
/// arguments of generic instances.
pub open spec fn substituted(t: TypeName, bindings: Seq<(String, TypeName)>, r: TypeName) -> bool
    decreases t,
{
    match t {
        TypeName::User(n) => match binding_from(bindings, n@, 0) {
            Some(i) => ty_eq(r, bindings[i].1),
            None => r matches TypeName::User(m) && m@ == n@,
        },
        TypeName::Enum(n) => r matches TypeName::Enum(m) && m@ == n@,
        TypeName::Nullable(x) => r matches TypeName::Nullable(y) && substituted(*x, bindings, *y),
        TypeName::Array(x) => r matches TypeName::Array(y) && substituted(*x, bindings, *y),
        TypeName::Tuple(xs) => r matches TypeName::Tuple(ys) && ys@.len() == xs@.len() && (forall|i: int|
            0 <= i < xs@.len() ==> opt_str_eq(#[trigger] ys@[i].0, xs@[i].0) && substituted(xs@[i].1, bindings, ys@[i].1)),
        TypeName::GenericInstance { name, args } => r matches TypeName::GenericInstance { name: n2, args: a2 } && n2@
            == name@ && a2@.len() == args@.len() && (forall|i: int|
            0 <= i < args@.len() ==> substituted(#[trigger] args@[i], bindings, a2@[i])),
        _ => tag(r) == tag(t),
    }
}

/// The position of the binding for a generic parameter, if one binds it.
fn find_binding(bindings: &[(String, TypeName)], name: &str) -> (r: Option<usize>)
    ensures
        match r {
            Some(i) => i < bindings@.len() && binding_from(bindings@, name@, 0) == Some(i as int),
            None => binding_from(bindings@, name@, 0) is None,
        },
{
    let mut i: usize = 0;
    while i < bindings.len()
        invariant
            i <= bindings@.len(),
            binding_from(bindings@, name@, 0) == binding_from(bindings@, name@, i as int),
        decreases bindings@.len() - i,
    {
        if eq_ignore_ascii_case(bindings[i].0.as_str(), name) {
            return Some(i);
        }
        i = i + 1;
    }
    None
}

impl TypeName {
    fn tag_of(&self) -> (r: u8)
        ensures
            r as int == tag(*self),
    {
        match self {
            TypeName::Byte => 0,
            TypeName::Int16 => 1,
            TypeName::Int32 => 2,
            TypeName::Int64 => 3,
            TypeName::UInt32 => 4,
            TypeName::UInt64 => 5,
            TypeName::Single => 6,
            TypeName::Double => 7,
            TypeName::Decimal => 8,
            TypeName::Currency => 9,
            TypeName::Date => 10,
            TypeName::Boolean => 11,
            TypeName::String => 12,
            TypeName::Variant => 13,
            TypeName::Void => 14,
            TypeName::Ptr => 15,
            TypeName::FuncPtr => 16,
            TypeName::Enum(_) => 17,
            TypeName::Nullable(_) => 18,
            TypeName::Tuple(_) => 19,
            TypeName::User(_) => 20,
            TypeName::GenericInstance { .. } => 21,
            TypeName::Array(_) => 22,
        }
    }

    /// Whether `self` and `other` denote the same type.
    pub fn same_type(&self, other: &TypeName) -> (r: bool)
        ensures
            r == same_type(*self, *other),
        decreases self,
    {
        match self {
            TypeName::Enum(x) => match other {
                TypeName::Enum(y) => eq_ignore_ascii_case(x.as_str(), y.as_str()),
                _ => false,
            },
            TypeName::User(x) => match other {
                TypeName::User(y) => eq_ignore_ascii_case(x.as_str(), y.as_str()),
                _ => false,
            },
            TypeName::Nullable(x) => match other {
                TypeName::Nullable(y) => (&**x).same_type(&**y),
                _ => false,
            },
            TypeName::Array(x) => match other {
                TypeName::Array(y) => (&**x).same_type(&**y),
                _ => false,
            },
            TypeName::Tuple(xs) => match other {
                TypeName::Tuple(ys) => {
                    if xs.len() != ys.len() {
                        return false;
                    }
                    let mut i: usize = 0;
                    while i < xs.len()
                        invariant
                            *self == TypeName::Tuple(*xs),
                            *other == TypeName::Tuple(*ys),
                            xs@.len() == ys@.len(),
                            i <= xs@.len(),
                            forall|j: int| 0 <= j < i ==> same_type(#[trigger] xs@[j].1, ys@[j].1),
                        decreases xs@.len() - i,
                    {
                        proof {
                            assert(decreases_to!(*self => (*self)->Tuple_0));
                            vstd::std_specs::vec::axiom_vec_index_decreases(*xs, i as int);
                            assert(decreases_to!(xs[i as int] => xs[i as int].1));
                        }
                        if !xs[i].1.same_type(&ys[i].1) {
                            return false;
                        }
                        i = i + 1;
                    }
                    true
                },
                _ => false,
            },
            TypeName::GenericInstance { name: n1, args: a1 } => match other {
                TypeName::GenericInstance { name: n2, args: a2 } => {
                    if !eq_ignore_ascii_case(n1.as_str(), n2.as_str()) || a1.len() != a2.len() {
                        return false;
                    }
                    let mut i: usize = 0;
                    while i < a1.len()
                        invariant
                            *self == (TypeName::GenericInstance { name: *n1, args: *a1 }),
                            *other == (TypeName::GenericInstance { name: *n2, args: *a2 }),
                            same_ignoring_ascii_case(n1@, n2@),
                            a1@.len() == a2@.len(),
                            i <= a1@.len(),
                            forall|j: int| 0 <= j < i ==> same_type(#[trigger] a1@[j], a2@[j]),
                        decreases a1@.len() - i,
                    {
                        proof {
                            assert(decreases_to!(*self => (*self)->args));
                            vstd::std_specs::vec::axiom_vec_index_decreases(*a1, i as int);
                        }
                        if !a1[i].same_type(&a2[i]) {
                            return false;
                        }
                        i = i + 1;
                    }
                    true
                },
                _ => false,
            },
            _ => self.tag_of() == other.tag_of(),
        }
    }

    /// Whether this is one of the integer types.
    pub fn is_integral(&self) -> (r: bool)
        ensures
            r == integral(*self),
    {
        matches!(self, TypeName::Byte | TypeName::Int16 | TypeName::Int32 | TypeName::Int64 | TypeName::UInt32 | TypeName::UInt64)
    }

    /// Whether this is `Void`, the type of a procedure that returns nothing.
    pub fn is_void(&self) -> (r: bool)
        ensures
            r == (*self is Void),
    {
        matches!(self, TypeName::Void)
    }

    /// Whether this is `Variant`, the dynamically typed value.
    pub fn is_variant(&self) -> (r: bool)
        ensures
            r == (*self is Variant),
    {
        matches!(self, TypeName::Variant)
    }

    /// The type with each generic parameter that `bindings` names replaced
    /// by the type bound to it; the first binding of a name counts.
    pub fn substitute_generics(&self, bindings: &[(String, TypeName)]) -> (r: TypeName)
        ensures
            substituted(*self, bindings@, r),
        decreases self,
    {
        match self {
            TypeName::User(name) => match find_binding(bindings, name.as_str()) {
                Some(i) => bindings[i].1.duplicate(),
                None => TypeName::User(name.clone()),
            },
            TypeName::Enum(name) => TypeName::Enum(name.clone()),
            TypeName::Nullable(inner) => TypeName::Nullable(Box::new((&**inner).substitute_generics(bindings))),
            TypeName::Array(inner) => TypeName::Array(Box::new((&**inner).substitute_generics(bindings))),
            TypeName::Tuple(elements) => {
                let mut out: Vec<(Option<String>, TypeName)> = Vec::new();
                let mut i: usize = 0;
                while i < elements.len()
                    invariant
                        *self == TypeName::Tuple(*elements),
                        i <= elements@.len(),
                        out@.len() == i,
                        forall|j: int|
                            0 <= j < i ==> opt_str_eq(#[trigger] out@[j].0, elements@[j].0) && substituted(
                                elements@[j].1,
                                bindings@,
                                out@[j].1,
                            ),
                    decreases elements@.len() - i,
                {
                    proof {
                        assert(decreases_to!(*self => (*self)->Tuple_0));
                        vstd::std_specs::vec::axiom_vec_index_decreases(*elements, i as int);
                        assert(decreases_to!(elements[i as int] => elements[i as int].1));
                    }
                    let name = match &elements[i].0 {
                        Some(n) => Some(n.clone()),
                        None => None,
                    };
                    out.push((name, elements[i].1.substitute_generics(bindings)));
                    i = i + 1;
                }
                TypeName::Tuple(out)
            },
            TypeName::GenericInstance { name, args } => {
                let mut out: Vec<TypeName> = Vec::new();
                let mut i: usize = 0;
                while i < args.len()
                    invariant
                        *self == (TypeName::GenericInstance { name: *name, args: *args }),
                        i <= args@.len(),
                        out@.len() == i,
                        forall|j: int| 0 <= j < i ==> substituted(#[trigger] args@[j], bindings@, out@[j]),
                    decreases args@.len() - i,
                {
                    proof {
                        assert(decreases_to!(*self => (*self)->args));
                        vstd::std_specs::vec::axiom_vec_index_decreases(*args, i as int);
                    }
                    out.push(args[i].substitute_generics(bindings));
                    i = i + 1;
                }
                TypeName::GenericInstance { name: name.clone(), args: out }
            },
            _ => {
                let r = self.duplicate();
                proof {
                    lemma_ty_eq_tag(r, *self);
                }
                r
            },
        }
    }

    /// A copy of `self`, written identically.
    pub fn duplicate(&self) -> (r: TypeName)
        ensures
            ty_eq(r, *self),
        decreases self,
    {
        match self {
            TypeName::Byte => TypeName::Byte,
            TypeName::Int16 => TypeName::Int16,
            TypeName::Int32 => TypeName::Int32,
            TypeName::Int64 => TypeName::Int64,
            TypeName::UInt32 => TypeName::UInt32,
            TypeName::UInt64 => TypeName::UInt64,
            TypeName::Single => TypeName::Single,
            TypeName::Double => TypeName::Double,
            TypeName::Decimal => TypeName::Decimal,
            TypeName::Currency => TypeName::Currency,
            TypeName::Date => TypeName::Date,
            TypeName::Boolean => TypeName::Boolean,
            TypeName::String => TypeName::String,
            TypeName::Variant => TypeName::Variant,
            TypeName::Void => TypeName::Void,
            TypeName::Ptr => TypeName::Ptr,
            TypeName::FuncPtr => TypeName::FuncPtr,
            TypeName::Enum(name) => TypeName::Enum(name.clone()),
            TypeName::User(name) => TypeName::User(name.clone()),
            TypeName::Nullable(inner) => TypeName::Nullable(Box::new((&**inner).duplicate())),
            TypeName::Array(inner) => TypeName::Array(Box::new((&**inner).duplicate())),
            TypeName::Tuple(elements) => {
                let mut out: Vec<(Option<String>, TypeName)> = Vec::new();
                let mut i: usize = 0;
                while i < elements.len()
                    invariant
                        *self == TypeName::Tuple(*elements),
                        i <= elements@.len(),
                        out@.len() == i,
                        forall|j: int| 0 <= j < i ==> opt_str_eq(#[trigger] out@[j].0, elements@[j].0) && ty_eq(out@[j].1, elements@[j].1),
                    decreases elements@.len() - i,
                {
                    proof {
                        assert(decreases_to!(*self => (*self)->Tuple_0));
                        vstd::std_specs::vec::axiom_vec_index_decreases(*elements, i as int);
                        assert(decreases_to!(elements[i as int] => elements[i as int].1));
                    }
                    let name = match &elements[i].0 {
                        Some(n) => Some(n.clone()),
                        None => None,
                    };
                    out.push((name, elements[i].1.duplicate()));
                    i = i + 1;
                }
                TypeName::Tuple(out)
            },
            TypeName::GenericInstance { name, args } => {
                let mut out: Vec<TypeName> = Vec::new();
                let mut i: usize = 0;
                while i < args.len()
                    invariant
                        *self == (TypeName::GenericInstance { name: *name, args: *args }),
                        i <= args@.len(),
                        out@.len() == i,
                        forall|j: int| 0 <= j < i ==> ty_eq(#[trigger] out@[j], args@[j]),
                    decreases args@.len() - i,
                {
                    proof {
                        assert(decreases_to!(*self => (*self)->args));
                        vstd::std_specs::vec::axiom_vec_index_decreases(*args, i as int);
                    }
                    out.push(args[i].duplicate());
                    i = i + 1;
                }
                TypeName::GenericInstance { name: name.clone(), args: out }
            },
        }
    }
}

/// Every type denotes the same type as itself.
pub proof fn lemma_same_type_reflexive(t: TypeName)
    ensures
        same_type(t, t),
    decreases t,
{
    match t {
        TypeName::Nullable(x) | TypeName::Array(x) => lemma_same_type_reflexive(*x),
        TypeName::Tuple(xs) => {
            assert forall|i: int| 0 <= i < xs@.len() implies same_type(#[trigger] xs@[i].1, xs@[i].1) by {
                vstd::std_specs::vec::axiom_vec_index_decreases(xs, i);
                lemma_same_type_reflexive(xs@[i].1);
            }
        },
        TypeName::GenericInstance { name, args } => {
            assert forall|i: int| 0 <= i < args@.len() implies same_type(#[trigger] args@[i], args@[i]) by {
                vstd::std_specs::vec::axiom_vec_index_decreases(args, i);
                lemma_same_type_reflexive(args@[i]);
            }
        },
        _ => {},
    }
}

/// Whether two types denote the same type does not depend on which is asked
/// about first.
pub proof fn lemma_same_type_symmetric(a: TypeName, b: TypeName)
    ensures
        same_type(a, b) == same_type(b, a),
    decreases a,
{
    match (a, b) {
        (TypeName::Nullable(x), TypeName::Nullable(y)) | (TypeName::Array(x), TypeName::Array(y)) => {
            lemma_same_type_symmetric(*x, *y);
        },
        (TypeName::Tuple(xs), TypeName::Tuple(ys)) => {
            if xs@.len() == ys@.len() {
                assert forall|i: int| 0 <= i < xs@.len() implies same_type(#[trigger] xs@[i].1, ys@[i].1) == same_type(
                    ys@[i].1,
                    xs@[i].1,
                ) by {
                    vstd::std_specs::vec::axiom_vec_index_decreases(xs, i);
                    lemma_same_type_symmetric(xs@[i].1, ys@[i].1);
                }
            }
        },
        (TypeName::GenericInstance { name: n1, args: a1 }, TypeName::GenericInstance { name: n2, args: a2 }) => {
            if a1@.len() == a2@.len() {
                assert forall|i: int| 0 <= i < a1@.len() implies same_type(#[trigger] a1@[i], a2@[i]) == same_type(
                    a2@[i],
                    a1@[i],
                ) by {
                    vstd::std_specs::vec::axiom_vec_index_decreases(a1, i);
                    lemma_same_type_symmetric(a1@[i], a2@[i]);
                }
            }
        },
        _ => {},
    }
}

/// Types written identically are of the same variant.
pub proof fn lemma_ty_eq_tag(a: TypeName, b: TypeName)
    requires
        ty_eq(a, b),
    ensures
        tag(a) == tag(b),
{
}

/// Whether a type denotes the same type as another does not change when the
/// other is replaced by one written identically.
pub proof fn lemma_same_type_respects_ty_eq(x: TypeName, a: TypeName, b: TypeName)
    requires
        ty_eq(a, b),
    ensures
        same_type(x, a) == same_type(x, b),
    decreases x,
{
    lemma_ty_eq_tag(a, b);
    match (x, a, b) {
        (TypeName::Nullable(x1), TypeName::Nullable(a1), TypeName::Nullable(b1))
        | (TypeName::Array(x1), TypeName::Array(a1), TypeName::Array(b1)) => {
            lemma_same_type_respects_ty_eq(*x1, *a1, *b1);
        },
        (TypeName::Tuple(xs), TypeName::Tuple(as_), TypeName::Tuple(bs)) => {
            assert(as_@.len() == bs@.len());
            assert(forall|i: int| 0 <= i < as_@.len() ==> opt_str_eq(#[trigger] as_@[i].0, bs@[i].0) && ty_eq(as_@[i].1, bs@[i].1));
            if xs@.len() == as_@.len() {
                assert forall|i: int| 0 <= i < xs@.len() implies same_type(#[trigger] xs@[i].1, as_@[i].1) == same_type(
                    xs@[i].1,
                    bs@[i].1,
                ) by {
                    vstd::std_specs::vec::axiom_vec_index_decreases(xs, i);
                    assert(0 <= i < as_@.len());
                    assert(as_@.len() == bs@.len());
                    assert(opt_str_eq(as_@[i].0, bs@[i].0));
                    assert(ty_eq(as_@[i].1, bs@[i].1));
                    lemma_same_type_respects_ty_eq(xs@[i].1, as_@[i].1, bs@[i].1);
                }
            }
        },
        (
            TypeName::GenericInstance { name: xn, args: xa },
            TypeName::GenericInstance { name: an, args: aa },
            TypeName::GenericInstance { name: bn, args: ba },
        ) => {
            if xa@.len() == aa@.len() {
                assert forall|i: int| 0 <= i < xa@.len() implies same_type(#[trigger] xa@[i], aa@[i]) == same_type(
                    xa@[i],
                    ba@[i],
                ) by {
                    vstd::std_specs::vec::axiom_vec_index_decreases(xa, i);
                    assert(ty_eq(aa@[i], ba@[i]));
                    lemma_same_type_respects_ty_eq(xa@[i], aa@[i], ba@[i]);
                }
            }
        },
        _ => {},
    }
}

/// Whether a type denotes the same type as another does not change when
/// either is replaced by one written identically.
pub proof fn lemma_same_type_respects_ty_eq_both(x: TypeName, y: TypeName, a: TypeName, b: TypeName)
    requires
        ty_eq(x, y),
        ty_eq(a, b),
    ensures
        same_type(x, a) == same_type(y, b),
{
    lemma_same_type_respects_ty_eq(x, a, b);
    lemma_same_type_symmetric(x, b);
    lemma_same_type_respects_ty_eq(b, x, y);
    lemma_same_type_symmetric(b, y);
}

/// Every type is written identically to itself.
pub proof fn lemma_ty_eq_reflexive(t: TypeName)
    ensures
        ty_eq(t, t),
    decreases t,
{
    match t {
        TypeName::Nullable(x) | TypeName::Array(x) => lemma_ty_eq_reflexive(*x),
        TypeName::Tuple(xs) => {
            assert forall|i: int| 0 <= i < xs@.len() implies opt_str_eq(#[trigger] xs@[i].0, xs@[i].0) && ty_eq(
                xs@[i].1,
                xs@[i].1,
            ) by {
                vstd::std_specs::vec::axiom_vec_index_decreases(xs, i);
                lemma_ty_eq_reflexive(xs@[i].1);
            }
        },
        TypeName::GenericInstance { name, args } => {
            assert forall|i: int| 0 <= i < args@.len() implies ty_eq(#[trigger] args@[i], args@[i]) by {
                vstd::std_specs::vec::axiom_vec_index_decreases(args, i);
                lemma_ty_eq_reflexive(args@[i]);
            }
        },
        _ => {},
    }
}

/// Types written identically to one type are written identically to each
/// other.
pub proof fn lemma_ty_eq_transitive(a: TypeName, b: TypeName, c: TypeName)
    requires
        ty_eq(a, b),
        ty_eq(b, c),
    ensures
        ty_eq(a, c),
    decreases a,
{
    lemma_ty_eq_tag(a, b);
    lemma_ty_eq_tag(b, c);
    match (a, b, c) {
        (TypeName::Nullable(x), TypeName::Nullable(y), TypeName::Nullable(z))
        | (TypeName::Array(x), TypeName::Array(y), TypeName::Array(z)) => lemma_ty_eq_transitive(*x, *y, *z),
        (TypeName::Tuple(xs), TypeName::Tuple(ys), TypeName::Tuple(zs)) => {
            assert forall|i: int| 0 <= i < xs@.len() implies opt_str_eq(#[trigger] xs@[i].0, zs@[i].0) && ty_eq(
                xs@[i].1,
                zs@[i].1,
            ) by {
                assert(opt_str_eq(xs@[i].0, ys@[i].0) && ty_eq(xs@[i].1, ys@[i].1));
                assert(opt_str_eq(ys@[i].0, zs@[i].0) && ty_eq(ys@[i].1, zs@[i].1));
                vstd::std_specs::vec::axiom_vec_index_decreases(xs, i);
                lemma_ty_eq_transitive(xs@[i].1, ys@[i].1, zs@[i].1);
            }
        },
        (
            TypeName::GenericInstance { args: xs, .. },
            TypeName::GenericInstance { args: ys, .. },
            TypeName::GenericInstance { args: zs, .. },
        ) => {
            assert forall|i: int| 0 <= i < xs@.len() implies ty_eq(#[trigger] xs@[i], zs@[i]) by {
                assert(ty_eq(xs@[i], ys@[i]));
                assert(ty_eq(ys@[i], zs@[i]));
                vstd::std_specs::vec::axiom_vec_index_decreases(xs, i);
                lemma_ty_eq_transitive(xs@[i], ys@[i], zs@[i]);
            }
        },
        _ => {},
    }
}

/// Replacing generic parameters with no bindings changes nothing: the
/// result is written as the type was.
pub proof fn lemma_no_bindings_no_change(t: TypeName, r: TypeName)
    requires
        substituted(t, Seq::empty(), r),
    ensures
        ty_eq(r, t),
    decreases t,
{
    match t {
        TypeName::Nullable(x) => {
            let y = r->Nullable_0;
            lemma_no_bindings_no_change(*x, *y);
        },
        TypeName::Array(x) => {
            let y = r->Array_0;
            lemma_no_bindings_no_change(*x, *y);
        },
        TypeName::Tuple(xs) => {
            let ys = r->Tuple_0;
            assert forall|i: int| 0 <= i < ys@.len() implies opt_str_eq(#[trigger] ys@[i].0, xs@[i].0) && ty_eq(
                ys@[i].1,
                xs@[i].1,
            ) by {
                vstd::std_specs::vec::axiom_vec_index_decreases(xs, i);
                assert(opt_str_eq(ys@[i].0, xs@[i].0));
                assert(substituted(xs@[i].1, Seq::empty(), ys@[i].1));
                lemma_no_bindings_no_change(xs@[i].1, ys@[i].1);
            }
        },
        TypeName::GenericInstance { name, args } => {
            let a2 = r->args;
            assert forall|i: int| 0 <= i < a2@.len() implies ty_eq(#[trigger] a2@[i], args@[i]) by {
                vstd::std_specs::vec::axiom_vec_index_decreases(args, i);
                assert(substituted(args@[i], Seq::empty(), a2@[i]));
                lemma_no_bindings_no_change(args@[i], a2@[i]);
            }
        },
        _ => {},
    }
}

} // verus!
