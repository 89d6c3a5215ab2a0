//! What the checker asks of a type when it validates expressions: whether it
//! is numeric, a value or a reference, whether a conversion can lose
//! something, and what a bitwise operation yields.
use vstd::prelude::*;

use crate::diagnostics::{Diagnostic, DiagnosticCode, Span};
use crate::symbols::VarType;
use crate::text::{eq_ignore_ascii_case, key, lowercase, push_str, same_ignoring_ascii_case};
use crate::type_model::{integral, lemma_same_type_reflexive, same_type, ty_eq, TypeName};
use crate::types::{hidden, ClassPropertySig, EnumSig, TypeRegistry};

verus! {

/// Whether a type is numeric: an integer, floating, fixed-point or date
/// type, or a nullable one.
pub open spec fn numeric_type(t: TypeName) -> bool
    decreases t,
{
    match t {
        TypeName::Byte | TypeName::Int16 | TypeName::Int32 | TypeName::Int64 | TypeName::UInt32 | TypeName::UInt64
        | TypeName::Single | TypeName::Double | TypeName::Currency | TypeName::Decimal | TypeName::Date => true,
        TypeName::Nullable(inner) => numeric_type(*inner),
        _ => false,
    }
}

/// The place of a type on the ladder of lossless widenings, if it is on it.
pub open spec fn ladder_rank(t: TypeName) -> Option<nat> {
    match t {
        TypeName::Byte => Some(0),
        TypeName::Int16 => Some(1),
        TypeName::Int32 => Some(2),
        TypeName::Int64 => Some(3),
        TypeName::Decimal => Some(4),
        TypeName::Single => Some(5),
        TypeName::Double => Some(6),
        _ => None,
    }
}

/// Whether converting from one type to another can lose something: going
/// down the ladder does; between types off the ladder, or between one on it
/// and one off it, any change of type may.
pub open spec fn narrows_spec(from: TypeName, to: TypeName) -> bool {
    match (ladder_rank(from), ladder_rank(to)) {
        (Some(a), Some(b)) => a > b,
        _ => !same_type(from, to),
    }
}

/// The conversion function that asks for a type by name, if there is one.
pub open spec fn conversion_name(t: TypeName) -> Option<Seq<char>> {
    match t {
        TypeName::Byte => Some("CByte"@),
        TypeName::Int16 => Some("CInt"@),
        TypeName::Int32 => Some("CLng"@),
        TypeName::Int64 => Some("CLngLng"@),
        TypeName::Single => Some("CSng"@),
        TypeName::Double => Some("CDbl"@),
        TypeName::Currency => Some("CCur"@),
        TypeName::Decimal => Some("CDec"@),
        TypeName::Boolean => Some("CBool"@),
        TypeName::Date => Some("CDate"@),
        TypeName::String => Some("CStr"@),
        _ => None,
    }
}

/// How wide an operand of a bitwise operation is; a non-integer counts as an
/// `Integer`.
pub open spec fn bitwise_rank(t: TypeName) -> int {
    match t {
        TypeName::Byte => 0,
        TypeName::Int16 => 1,
        TypeName::Int32 | TypeName::UInt32 => 2,
        TypeName::Int64 | TypeName::UInt64 => 3,
        _ => 1,
    }
}

/// The type a bitwise operation yields: the wider integer operand, the left
/// one on a tie, or `Integer` when neither operand is an integer.
pub open spec fn bitwise_result(left: TypeName, right: TypeName) -> TypeName {
    if !integral(left) && !integral(right) {
        TypeName::Int16
    } else if !integral(right) || bitwise_rank(left) >= bitwise_rank(right) {
        if integral(left) {
            left
        } else {
            right
        }
    } else {
        right
    }
}

/// Whether a name denotes a class of the registry.
pub open spec fn names_class(reg: TypeRegistry, name: Seq<char>) -> bool {
    !hidden(reg, name) && reg.classes.table().contains_key(lowercase(name))
}

/// Whether a name denotes an interface of the registry.
pub open spec fn names_interface(reg: TypeRegistry, name: Seq<char>) -> bool {
    !hidden(reg, name) && reg.interfaces.table().contains_key(lowercase(name))
}

/// Whether a name denotes a `Structure` of the registry.
pub open spec fn names_structure(reg: TypeRegistry, name: Seq<char>) -> bool {
    !hidden(reg, name) && reg.types.table().contains_key(lowercase(name)) && reg.types.table()[lowercase(name)].is_structure
}

/// Whether a name denotes an enum of the registry.
pub open spec fn names_enum(reg: TypeRegistry, name: Seq<char>) -> bool {
    !hidden(reg, name) && reg.enums.table().contains_key(lowercase(name))
}

/// Whether a name is `Object` or `Collection`, without regard to case.
pub open spec fn is_builtin_class_name(name: Seq<char>) -> bool {
    same_ignoring_ascii_case(name, "Object"@) || same_ignoring_ascii_case(name, "Collection"@)
}

/// Whether values of a type are references: strings, arrays, `Object`,
/// `Collection`, and classes and interfaces, generic or not.
pub open spec fn reference_type(t: TypeName, reg: TypeRegistry) -> bool {
    match t {
        TypeName::String | TypeName::Array(_) => true,
        TypeName::User(name) => is_builtin_class_name(name@) || names_class(reg, name@) || names_interface(reg, name@),
        TypeName::GenericInstance { name, .. } => names_class(reg, name@) || names_interface(reg, name@),
        _ => false,
    }
}

/// Whether values of a type are copied on assignment: the scalar types,
/// enums, `Structure`s, tuples, and nullable value types.
pub open spec fn value_type(t: TypeName, reg: TypeRegistry) -> bool
    decreases t,
{
    match t {
        TypeName::Byte | TypeName::Int16 | TypeName::Int32 | TypeName::Int64 | TypeName::UInt32 | TypeName::UInt64
        | TypeName::Single | TypeName::Double | TypeName::Currency | TypeName::Decimal | TypeName::Boolean
        | TypeName::Date | TypeName::Ptr | TypeName::FuncPtr | TypeName::Enum(_) => true,
        TypeName::User(name) => names_structure(reg, name@) || names_enum(reg, name@),
        TypeName::GenericInstance { name, .. } => names_structure(reg, name@),
        TypeName::String | TypeName::Variant | TypeName::Array(_) | TypeName::Void => false,
        TypeName::Tuple(_) => true,
        TypeName::Nullable(inner) => value_type(*inner, reg),
    }
}

/// Whether a type is a class type: a class or interface of the registry, or
/// the built-in `Object` or `Collection`.
pub open spec fn class_type(t: TypeName, reg: TypeRegistry) -> bool {
    match t {
        TypeName::User(name) => names_class(reg, name@) || names_interface(reg, name@) || is_builtin_class_name(name@),
        TypeName::GenericInstance { name, .. } => names_class(reg, name@) || names_interface(reg, name@),
        _ => false,
    }
}

/// Whether what a name denotes can be indexed: an array, or a scalar,
/// optional or constant of a user, generic or `Variant` type.
pub open spec fn indexable(v: VarType) -> bool {
    match v {
        VarType::Array(..) => true,
        VarType::Scalar(_, ty) | VarType::Optional(_, ty) | VarType::Const(_, ty) => ty is User || ty is GenericInstance
            || ty is Variant,
        _ => false,
    }
}

/// The type a property has when used bare: what its first getter returns,
/// else the type of the last parameter of its first setter (the assigned
/// value).
pub open spec fn bare_type(p: ClassPropertySig) -> Option<TypeName> {
    if p.get@.len() > 0 && p.get@[0].return_type is Some {
        p.get@[0].return_type
    } else if p.set@.len() > 0 && p.set@[0].params@.len() > 0 {
        Some(p.set@[0].params@.last().ty)
    } else {
        None
    }
}

/// Whether a type is numeric.
pub fn is_numeric_type(ty: &TypeName) -> (r: bool)
    ensures
        r == numeric_type(*ty),
    decreases ty,
{
    match ty {
        TypeName::Byte | TypeName::Int16 | TypeName::Int32 | TypeName::Int64 | TypeName::UInt32 | TypeName::UInt64
        | TypeName::Single | TypeName::Double | TypeName::Currency | TypeName::Decimal | TypeName::Date => true,
        TypeName::Nullable(inner) => is_numeric_type(inner),
        _ => false,
    }
}

/// The place of a type on the ladder of lossless widenings.
fn rank(ty: &TypeName) -> (r: Option<u8>)
    ensures
        match ladder_rank(*ty) {
            Some(n) => r matches Some(x) && x == n,
            None => r is None,
        },
{
    match ty {
        TypeName::Byte => Some(0),
        TypeName::Int16 => Some(1),
        TypeName::Int32 => Some(2),
        TypeName::Int64 => Some(3),
        TypeName::Decimal => Some(4),
        TypeName::Single => Some(5),
        TypeName::Double => Some(6),
        _ => None,
    }
}

/// Whether reaching `to` from `from` can lose something.
pub fn narrows(from: &TypeName, to: &TypeName) -> (r: bool)
    ensures
        r == narrows_spec(*from, *to),
{
    match (rank(from), rank(to)) {
        (Some(a), Some(b)) => a > b,
        // Currency, Date and the unsigned widths sit off the ladder; a
        // conversion between one of those and anything else is not obviously
        // lossless.
        _ => !from.same_type(to),
    }
}

/// The conversion function that asks for this type by name.
pub fn conversion_function(ty: &TypeName) -> (r: Option<&'static str>)
    ensures
        match conversion_name(*ty) {
            Some(name) => r matches Some(s) && s@ == name,
            None => r is None,
        },
{
    match ty {
        TypeName::Byte => Some("CByte"),
        TypeName::Int16 => Some("CInt"),
        TypeName::Int32 => Some("CLng"),
        TypeName::Int64 => Some("CLngLng"),
        TypeName::Single => Some("CSng"),
        TypeName::Double => Some("CDbl"),
        TypeName::Currency => Some("CCur"),
        TypeName::Decimal => Some("CDec"),
        TypeName::Boolean => Some("CBool"),
        TypeName::Date => Some("CDate"),
        TypeName::String => Some("CStr"),
        _ => None,
    }
}

/// How wide an operand of a bitwise operation is.
fn bitwise_width(ty: &TypeName) -> (r: u8)
    ensures
        r == bitwise_rank(*ty),
{
    match ty {
        TypeName::Byte => 0,
        TypeName::Int16 => 1,
        TypeName::Int32 | TypeName::UInt32 => 2,
        TypeName::Int64 | TypeName::UInt64 => 3,
        _ => 1,
    }
}

/// The type a bitwise operation produces for the given operands.
pub fn wider_bitwise_result(left: &TypeName, right: &TypeName) -> (r: TypeName)
    ensures
        ty_eq(r, bitwise_result(*left, *right)),
{
    if !left.is_integral() && !right.is_integral() {
        return TypeName::Int16;
    }
    if !right.is_integral() || bitwise_width(left) >= bitwise_width(right) {
        if left.is_integral() {
            return left.duplicate();
        }
        return right.duplicate();
    }
    right.duplicate()
}

/// Whether a name is `Object` or `Collection`.
fn builtin_class_name(name: &str) -> (r: bool)
    ensures
        r == is_builtin_class_name(name@),
{
    eq_ignore_ascii_case(name, "Object") || eq_ignore_ascii_case(name, "Collection")
}

/// Whether values of a type are references.
pub fn is_reference_type(ty: &TypeName, types: &TypeRegistry) -> (r: bool)
    ensures
        r == reference_type(*ty, *types),
{
    match ty {
        TypeName::String | TypeName::Array(_) => true,
        TypeName::User(name) => builtin_class_name(name.as_str()) || types.get_class(name.as_str()).is_some()
            || types.get_interface(name.as_str()).is_some(),
        TypeName::GenericInstance { name, .. } => types.get_class(name.as_str()).is_some() || types.get_interface(
            name.as_str(),
        ).is_some(),
        _ => false,
    }
}

/// Whether values of a type are copied on assignment.
pub fn is_value_type(ty: &TypeName, types: &TypeRegistry) -> (r: bool)
    ensures
        r == value_type(*ty, *types),
    decreases ty,
{
    match ty {
        TypeName::Byte | TypeName::Int16 | TypeName::Int32 | TypeName::Int64 | TypeName::UInt32 | TypeName::UInt64
        | TypeName::Single | TypeName::Double | TypeName::Currency | TypeName::Decimal | TypeName::Boolean
        | TypeName::Date | TypeName::Ptr | TypeName::FuncPtr | TypeName::Enum(_) => true,
        TypeName::User(name) => {
            let structure = match types.get(name.as_str()) {
                Some(sig) => sig.is_structure,
                None => false,
            };
            structure || types.get_enum(name.as_str()).is_some()
        },
        TypeName::GenericInstance { name, .. } => match types.get(name.as_str()) {
            Some(sig) => sig.is_structure,
            None => false,
        },
        TypeName::String | TypeName::Variant | TypeName::Array(_) | TypeName::Void => false,
        // A tuple is copied when it is assigned, the way a Structure is.
        TypeName::Tuple(_) => true,
        TypeName::Nullable(inner) => is_value_type(inner, types),
    }
}

/// Accepts a class type; anything else is reported with the caller's
/// message at the given place.
pub fn ensure_class_type(ty: &TypeName, types: &TypeRegistry, span: Span, message: &str) -> (r: Result<(), Diagnostic>)
    ensures
        class_type(*ty, *types) ==> r is Ok,
        !class_type(*ty, *types) ==> (r matches Err(d) && d.code == DiagnosticCode::TypeMismatch && d.message@
            == message@ && d.span == Some(span) && d.help is None),
{
    if is_class_type(ty, types) {
        Ok(())
    } else {
        let mut text = String::new();
        push_str(&mut text, message);
        Err(Diagnostic::new(DiagnosticCode::TypeMismatch, text, Some(span)))
    }
}

/// Whether a type is a class type.
pub fn is_class_type(ty: &TypeName, types: &TypeRegistry) -> (r: bool)
    ensures
        r == class_type(*ty, *types),
{
    match ty {
        TypeName::User(name) => types.get_class(name.as_str()).is_some() || types.get_interface(name.as_str()).is_some()
            || builtin_class_name(name.as_str()),
        TypeName::GenericInstance { name, .. } => types.get_class(name.as_str()).is_some() || types.get_interface(
            name.as_str(),
        ).is_some(),
        _ => false,
    }
}

/// Whether what a name denotes can be indexed.
pub fn is_indexable_var_type(var_type: &VarType) -> (r: bool)
    ensures
        r == indexable(*var_type),
{
    match var_type {
        VarType::Array(..) => true,
        VarType::Scalar(_, ty) | VarType::Optional(_, ty) | VarType::Const(_, ty) => matches!(
            ty,
            TypeName::User(_) | TypeName::GenericInstance { .. } | TypeName::Variant
        ),
        _ => false,
    }
}

/// The type a property has when used bare.
pub fn bare_property_type(property: &ClassPropertySig) -> (r: Option<TypeName>)
    ensures
        match bare_type(*property) {
            Some(t) => r matches Some(x) && ty_eq(x, t),
            None => r is None,
        },
{
    if property.get.len() > 0 {
        if let Some(return_type) = &property.get[0].return_type {
            return Some(return_type.duplicate());
        }
    }
    match property.writer() {
        Some(accessor) => if accessor.params.len() > 0 {
            Some(accessor.params[accessor.params.len() - 1].ty.duplicate())
        } else {
            None
        },
        None => None,
    }
}

/// The names of the enums the runtime library declares, lower-cased.
pub open spec fn builtin_enum_names() -> Seq<Seq<char>> {
    seq![
        "vbvartype"@,
        "vbcomparemethod"@,
        "vbcalltype"@,
        "vbmsgboxstyle"@,
        "vbmsgboxresult"@,
        "vbfileattribute"@,
        "vbdatetimeformat"@,
        "vbdayofweek"@,
        "vbfirstweekofyear"@,
        "vbstrconv"@,
        "vbtristate"@,
        "vbappwinstyle"@,
    ]
}

/// Whether a name is one of the enums the runtime library declares, without
/// regard to ASCII case.
pub fn is_builtin_vba_enum_type(name: &str) -> (r: bool)
    ensures
        r == exists|i: int| 0 <= i < builtin_enum_names().len() && same_ignoring_ascii_case(name@, #[trigger] builtin_enum_names()[i]),
{
    let names: [&str; 12] = [
        "vbvartype",
        "vbcomparemethod",
        "vbcalltype",
        "vbmsgboxstyle",
        "vbmsgboxresult",
        "vbfileattribute",
        "vbdatetimeformat",
        "vbdayofweek",
        "vbfirstweekofyear",
        "vbstrconv",
        "vbtristate",
        "vbappwinstyle",
    ];
    assert(names@.map_values(|s: &str| s@) =~= builtin_enum_names());
    let mut i: usize = 0;
    while i < 12
        invariant
            i <= 12,
            names@.map_values(|s: &str| s@) == builtin_enum_names(),
            forall|j: int| 0 <= j < i ==> !same_ignoring_ascii_case(name@, #[trigger] builtin_enum_names()[j]),
        decreases 12 - i,
    {
        assert(names@[i as int]@ == builtin_enum_names()[i as int]);
        if eq_ignore_ascii_case(name, names[i]) {
            return true;
        }
        i = i + 1;
    }
    false
}

/// Converting a type to itself loses nothing.
pub proof fn lemma_narrows_irreflexive(t: TypeName)
    ensures
        !narrows_spec(t, t),
{
    lemma_same_type_reflexive(t);
}

/// Up the ladder of widenings nothing is lost, and down it something may be:
/// between two different types on the ladder, exactly one direction narrows.
pub proof fn lemma_ladder_one_way(a: TypeName, b: TypeName)
    requires
        ladder_rank(a) is Some,
        ladder_rank(b) is Some,
        ladder_rank(a) != ladder_rank(b),
    ensures
        narrows_spec(a, b) != narrows_spec(b, a),
{
}

/// Whether a type is an enum of the registry.
pub open spec fn enum_type(t: TypeName, reg: TypeRegistry) -> bool {
    t matches TypeName::User(name) && names_enum(reg, name@)
}

/// Whether a type can be an operand of a bitwise operation: an integer, a
/// `Variant`, or an enum.
pub open spec fn bitwise_operand(t: TypeName, reg: TypeRegistry) -> bool {
    integral(t) || t is Variant || enum_type(t, reg)
}

/// Whether some enum of the registry has a member of this name, without
/// regard to case.
pub open spec fn names_enum_member(reg: TypeRegistry, name: Seq<char>) -> bool {
    exists|i: int|
        0 <= i < reg.enums.entries().len() && (#[trigger] reg.enums.entries()[i]).1.members.table().contains_key(
            lowercase(name),
        )
}

/// Whether a value of type `source` fits a delegate-typed place of type
/// `target`: what flows into one is a lambda or the address of a procedure,
/// so the fit is decided by what the value is.
pub open spec fn fits_delegate_spec(target: TypeName, source: TypeName, reg: TypeRegistry) -> bool {
    target matches TypeName::User(name) && reg.delegates.table().contains_key(lowercase(name@)) && (source is FuncPtr
        || source is Variant)
}

/// Whether a type is an enum of the registry.
pub fn is_enum_type(ty: &TypeName, types: &TypeRegistry) -> (r: bool)
    ensures
        r == enum_type(*ty, *types),
{
    match ty {
        TypeName::User(name) => types.get_enum(name.as_str()).is_some(),
        _ => false,
    }
}

/// Whether a type can be an operand of a bitwise operation.
pub fn is_bitwise_operand(ty: &TypeName, types: &TypeRegistry) -> (r: bool)
    ensures
        r == bitwise_operand(*ty, *types),
{
    ty.is_integral() || matches!(ty, TypeName::Variant) || is_enum_type(ty, types)
}

/// The type of an enum member named without its enum: `Integer` if some enum
/// has a member of that name.
pub fn enum_member_value_type(name: &str, types: &TypeRegistry) -> (r: Option<TypeName>)
    ensures
        names_enum_member(*types, name@) ==> r == Some(TypeName::Int16),
        !names_enum_member(*types, name@) ==> r is None,
{
    let member_key = key(name);
    let mut i: usize = 0;
    while i < types.enums.len()
        invariant
            i <= types.enums.entries().len(),
            member_key@ == lowercase(name@),
            forall|j: int| 0 <= j < i ==> !(#[trigger] types.enums.entries()[j]).1.members.table().contains_key(lowercase(name@)),
        decreases types.enums.entries().len() - i,
    {
        let entry: &(String, EnumSig) = types.enums.entry(i);
        if entry.1.members.contains_key(member_key.as_str()) {
            return Some(TypeName::Int16);
        }
        i = i + 1;
    }
    None
}

/// Whether a value of type `source` fits a delegate-typed place.
pub fn fits_delegate(target: &TypeName, source: &TypeName, types: &TypeRegistry) -> (r: bool)
    ensures
        r == fits_delegate_spec(*target, *source, *types),
{
    match target {
        TypeName::User(name) => {
            let name_key = key(name.as_str());
            types.delegates.contains_key(name_key.as_str()) && matches!(source, TypeName::FuncPtr | TypeName::Variant)
        },
        _ => false,
    }
}

/// Whether one class type may be assigned to another, leaving the check of
/// the inheritance itself to run time: both must be user types.
pub fn is_inherited_class_assignable(target: &TypeName, source: &TypeName) -> (r: bool)
    ensures
        r == (*target is User && *source is User),
{
    matches!((target, source), (TypeName::User(_), TypeName::User(_)))
}

/// The name of the class a class inherits from directly, if it is a class of
/// the registry whose base is a named type.
pub open spec fn base_name(reg: TypeRegistry, class_name: Seq<char>) -> Option<Seq<char>> {
    if names_class(reg, class_name) {
        match reg.classes.table()[lowercase(class_name)].base_class {
            Some(TypeName::User(n)) => Some(n@),
            Some(TypeName::GenericInstance { name, .. }) => Some(name@),
            _ => None,
        }
    } else {
        None
    }
}

/// Whether following base classes from a class ends within `fuel` steps.
pub open spec fn base_chain_ends(reg: TypeRegistry, class_name: Seq<char>, fuel: nat) -> bool
    decreases fuel,
{
    match base_name(reg, class_name) {
        None => true,
        Some(b) => fuel > 0 && base_chain_ends(reg, b, (fuel - 1) as nat),
    }
}

/// Whether a class inherits, directly or through its bases, from a class of
/// the given name (compared without ASCII case), looking `fuel` bases up.
pub open spec fn inherits_spec(reg: TypeRegistry, class_name: Seq<char>, bound_name: Seq<char>, fuel: nat) -> bool
    decreases fuel,
{
    match base_name(reg, class_name) {
        None => false,
        Some(b) => same_ignoring_ascii_case(b, bound_name) || (fuel > 0 && inherits_spec(reg, b, bound_name, (fuel - 1) as nat)),
    }
}

/// Whether a class, or one of `fuel` bases up from it, lists an interface
/// among what it implements.
pub open spec fn implements_spec(reg: TypeRegistry, class_name: Seq<char>, interface: TypeName, fuel: nat) -> bool
    decreases fuel,
{
    if !names_class(reg, class_name) {
        false
    } else {
        let class = reg.classes.table()[lowercase(class_name)];
        if exists|i: int| 0 <= i < class.implements@.len() && same_type(#[trigger] class.implements@[i], interface) {
            true
        } else {
            match class.base_class {
                Some(TypeName::User(n)) => fuel > 0 && implements_spec(reg, n@, interface, (fuel - 1) as nat),
                Some(TypeName::GenericInstance { name, .. }) => fuel > 0 && implements_spec(
                    reg,
                    name@,
                    interface,
                    (fuel - 1) as nat,
                ),
                _ => false,
            }
        }
    }
}

/// Once the base chain ends, looking further up changes nothing.
pub proof fn lemma_inheritance_fuel(reg: TypeRegistry, c: Seq<char>, bound: Seq<char>, iface: TypeName, f1: nat, f2: nat)
    requires
        base_chain_ends(reg, c, f1),
        base_chain_ends(reg, c, f2),
    ensures
        inherits_spec(reg, c, bound, f1) == inherits_spec(reg, c, bound, f2),
        implements_spec(reg, c, iface, f1) == implements_spec(reg, c, iface, f2),
    decreases f1,
{
    if let Some(b) = base_name(reg, c) {
        lemma_inheritance_fuel(reg, b, bound, iface, (f1 - 1) as nat, (f2 - 1) as nat);
    }
}

/// Whether a class inherits, directly or through its bases, from a class of
/// the given name. The chain of bases must end: a class cannot be its own
/// base.
pub fn class_inherits_from<'a>(class_name: &'a str, bound_name: &str, types: &'a TypeRegistry) -> (r: bool)
    requires
        exists|f: nat| base_chain_ends(*types, class_name@, f),
    ensures
        forall|f: nat| base_chain_ends(*types, class_name@, f) ==> r == inherits_spec(*types, class_name@, bound_name@, f),
{
    let ghost fuel = choose|f: nat| base_chain_ends(*types, class_name@, f);
    let mut current: &str = class_name;
    let ghost mut g = fuel;
    loop
        invariant
            base_chain_ends(*types, current@, g),
            base_chain_ends(*types, class_name@, fuel),
            inherits_spec(*types, class_name@, bound_name@, fuel) == inherits_spec(*types, current@, bound_name@, g),
        decreases g,
    {
        let class = match types.get_class(current) {
            Some(class) => class,
            None => {
                proof {
                    assert forall|f: nat| base_chain_ends(*types, class_name@, f) implies !inherits_spec(
                        *types,
                        class_name@,
                        bound_name@,
                        f,
                    ) by {
                        lemma_inheritance_fuel(*types, class_name@, bound_name@, TypeName::Void, f, fuel);
                    }
                }
                return false;
            },
        };
        let base = match &class.base_class {
            Some(TypeName::User(n)) => n.as_str(),
            Some(TypeName::GenericInstance { name, .. }) => name.as_str(),
            _ => {
                proof {
                    assert forall|f: nat| base_chain_ends(*types, class_name@, f) implies !inherits_spec(
                        *types,
                        class_name@,
                        bound_name@,
                        f,
                    ) by {
                        lemma_inheritance_fuel(*types, class_name@, bound_name@, TypeName::Void, f, fuel);
                    }
                }
                return false;
            },
        };
        if eq_ignore_ascii_case(base, bound_name) {
            proof {
                assert forall|f: nat| base_chain_ends(*types, class_name@, f) implies inherits_spec(
                    *types,
                    class_name@,
                    bound_name@,
                    f,
                ) by {
                    lemma_inheritance_fuel(*types, class_name@, bound_name@, TypeName::Void, f, fuel);
                }
            }
            return true;
        }
        current = base;
        proof {
            g = (g - 1) as nat;
        }
    }
}

/// Whether a list of types holds one that denotes the same type as `t`.
fn lists_type(list: &Vec<TypeName>, t: &TypeName) -> (r: bool)
    ensures
        r == exists|i: int| 0 <= i < list@.len() && same_type(#[trigger] list@[i], *t),
{
    let mut i: usize = 0;
    while i < list.len()
        invariant
            i <= list@.len(),
            forall|j: int| 0 <= j < i ==> !same_type(#[trigger] list@[j], *t),
        decreases list@.len() - i,
    {
        if list[i].same_type(t) {
            return true;
        }
        i = i + 1;
    }
    false
}

/// Whether a class, or one of its bases, lists an interface among what it
/// implements. The chain of bases must end.
pub fn class_implements_interface<'a>(class_name: &'a str, interface_ty: &TypeName, types: &'a TypeRegistry) -> (r: bool)
    requires
        exists|f: nat| base_chain_ends(*types, class_name@, f),
    ensures
        forall|f: nat| base_chain_ends(*types, class_name@, f) ==> r == implements_spec(*types, class_name@, *interface_ty, f),
{
    let ghost fuel = choose|f: nat| base_chain_ends(*types, class_name@, f);
    let mut current: &str = class_name;
    let ghost mut g = fuel;
    loop
        invariant
            base_chain_ends(*types, current@, g),
            base_chain_ends(*types, class_name@, fuel),
            implements_spec(*types, class_name@, *interface_ty, fuel) == implements_spec(*types, current@, *interface_ty, g),
        decreases g,
    {
        let class = match types.get_class(current) {
            Some(class) => class,
            None => {
                proof {
                    assert forall|f: nat| base_chain_ends(*types, class_name@, f) implies !implements_spec(
                        *types,
                        class_name@,
                        *interface_ty,
                        f,
                    ) by {
                        lemma_inheritance_fuel(*types, class_name@, Seq::empty(), *interface_ty, f, fuel);
                    }
                }
                return false;
            },
        };
        if lists_type(&class.implements, interface_ty) {
            proof {
                assert forall|f: nat| base_chain_ends(*types, class_name@, f) implies implements_spec(
                    *types,
                    class_name@,
                    *interface_ty,
                    f,
                ) by {
                    lemma_inheritance_fuel(*types, class_name@, Seq::empty(), *interface_ty, f, fuel);
                }
            }
            return true;
        }
        let base = match &class.base_class {
            Some(TypeName::User(n)) => n.as_str(),
            Some(TypeName::GenericInstance { name, .. }) => name.as_str(),
            _ => {
                proof {
                    assert forall|f: nat| base_chain_ends(*types, class_name@, f) implies !implements_spec(
                        *types,
                        class_name@,
                        *interface_ty,
                        f,
                    ) by {
                        lemma_inheritance_fuel(*types, class_name@, Seq::empty(), *interface_ty, f, fuel);
                    }
                }
                return false;
            },
        };
        current = base;
        proof {
            g = (g - 1) as nat;
        }
    }
}

/// The name a class-like type is written with, if it is a named or generic
/// user type.
pub open spec fn class_like_name(t: TypeName) -> Option<Seq<char>> {
    match t {
        TypeName::User(n) => Some(n@),
        TypeName::GenericInstance { name, .. } => Some(name@),
        _ => None,
    }
}

/// Whether the base chain of a class-like type ends within `fuel` steps;
/// other types have none.
pub open spec fn type_chain_ends(reg: TypeRegistry, t: TypeName, fuel: nat) -> bool {
    match class_like_name(t) {
        Some(n) => base_chain_ends(reg, n, fuel),
        None => true,
    }
}

/// Whether a type argument meets a generic bound: it is the bound itself; a
/// bound of `Object` takes any reference type; a class-like argument meets a
/// named bound by inheriting from it or by implementing it.
pub open spec fn satisfies_bound_spec(arg: TypeName, bound: TypeName, reg: TypeRegistry, fuel: nat) -> bool {
    if same_type(arg, bound) {
        true
    } else if bound matches TypeName::User(name) && same_ignoring_ascii_case(name@, "Object"@) {
        reference_type(arg, reg)
    } else if let (Some(a), TypeName::User(b)) = (class_like_name(arg), bound) {
        inherits_spec(reg, a, b@, fuel) || implements_spec(reg, a, bound, fuel)
    } else {
        false
    }
}

/// Whether a type argument meets a generic bound. The base chain of a
/// class-like argument must end.
pub fn satisfies_type_bound(arg: &TypeName, bound: &TypeName, types: &TypeRegistry) -> (r: bool)
    requires
        exists|f: nat| type_chain_ends(*types, *arg, f),
    ensures
        forall|f: nat| type_chain_ends(*types, *arg, f) ==> r == satisfies_bound_spec(*arg, *bound, *types, f),
{
    if arg.same_type(bound) {
        return true;
    }
    if let TypeName::User(name) = bound {
        if eq_ignore_ascii_case(name.as_str(), "Object") {
            return is_reference_type(arg, types);
        }
    }
    let arg_name = match arg {
        TypeName::User(n) => n.as_str(),
        TypeName::GenericInstance { name, .. } => name.as_str(),
        _ => return false,
    };
    match bound {
        TypeName::User(bound_name) => {
            // A bound is satisfied by inheriting from it or by implementing it.
            class_inherits_from(arg_name, bound_name.as_str(), types) || class_implements_interface(arg_name, bound, types)
        },
        _ => false,
    }
}

} // verus!
