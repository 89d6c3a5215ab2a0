//! What a bare name denotes when a value is assigned to it: a local, a field
//! or property of the class whose member is checked, or a field of the type
//! whose member is checked.
use vstd::prelude::*;

use crate::context::{current_class_spec, Context};
use crate::diagnostics::{Diagnostic, DiagnosticCode, Span};
use crate::name_map::NameMap;
use crate::ast::{ArrayDecl, Expr, ExprKind, Visibility};
use crate::symbols::{scalar_type_of, var_type_eq, VarType};
use crate::text::{eq_ignore_ascii_case, key, lowercase, push_str};
use crate::type_model::{lemma_ty_eq_reflexive, lemma_ty_eq_tag, lemma_ty_eq_transitive, same_type, ty_eq, TypeName};
use crate::type_rules::{bare_property_type, bare_type, is_builtin_class_name};
use crate::types::{hidden, TypeRegistry};

verus! {

/// The options of the module whose body is checked.
#[derive(Debug, Clone, Copy, PartialEq, Eq, Structural)]
pub struct Options {
    /// `Option Explicit`: every variable must be declared.
    pub explicit: bool,
    /// `Option Strict`: no implicit narrowing or late binding.
    pub strict: bool,
}

/// Why a name cannot be assigned to.
#[derive(Debug, Clone, Copy, PartialEq, Eq, Structural)]
pub enum TargetFailure {
    /// Nothing of that name is in scope.
    Unknown,
    /// An instance field named from a `Shared` member.
    SharedInstanceField,
    /// The name is a constant.
    Constant,
    /// The name is an array (or a module), not one value.
    ArrayAsScalar,
    /// An indexed name that is not declared.
    UndeclaredArray,
    /// An instance array named from a `Shared` member.
    SharedInstanceArray,
    /// An indexed field that is neither an array nor a `Variant`.
    NotArray,
}

/// The key under which the current instance is in scope.
pub open spec fn self_key() -> Seq<char> {
    seq!['m', 'e']
}

/// Whether the registry has a class of this name that lookup may see.
pub open spec fn class_visible(types: TypeRegistry, name: Seq<char>) -> bool {
    !hidden(types, name) && types.classes.table().contains_key(lowercase(name))
}

/// Whether the registry has a `Type` or `Structure` of this name that lookup
/// may see.
pub open spec fn type_visible(types: TypeRegistry, name: Seq<char>) -> bool {
    !hidden(types, name) && types.types.table().contains_key(lowercase(name))
}

/// What assigning to a name found in scope gives: its value type, unless it
/// is a constant or holds more than one value.
pub open spec fn scalar_target(v: VarType) -> Result<TypeName, TargetFailure> {
    if v is Const {
        Err(TargetFailure::Constant)
    } else {
        match scalar_type_of(v) {
            Some(t) => Ok(t),
            None => Err(TargetFailure::ArrayAsScalar),
        }
    }
}

/// The type of the place a bare name denotes when a value is assigned to
/// it. A name in scope comes first; inside a class member, then a field of
/// the class (an instance field only where an instance is in scope), a
/// property of the class that has a type, and a field of a `Type` of that
/// name; outside any class an undeclared name is an implicit `Variant`
/// unless `Option Explicit` is on.
pub open spec fn variable_target(
    name: Seq<char>,
    symbols: Map<Seq<char>, VarType>,
    types: TypeRegistry,
    class: Option<Seq<char>>,
    explicit: bool,
) -> Result<TypeName, TargetFailure> {
    let k = lowercase(name);
    if symbols.contains_key(k) {
        scalar_target(symbols[k])
    } else {
        match class {
            None => if explicit {
                Err(TargetFailure::Unknown)
            } else {
                Ok(TypeName::Variant)
            },
            Some(owner) => {
                let cls = types.classes.table()[lowercase(owner)];
                let ts = types.types.table()[lowercase(owner)];
                if class_visible(types, owner) && cls.fields.table().contains_key(k) {
                    let f = cls.fields.table()[k];
                    if f.is_shared || symbols.contains_key(self_key()) {
                        Ok(f.ty)
                    } else {
                        Err(TargetFailure::SharedInstanceField)
                    }
                } else if class_visible(types, owner) && cls.properties.table().contains_key(k)
                    && bare_type(cls.properties.table()[k]) is Some {
                    Ok(bare_type(cls.properties.table()[k])->0)
                } else if type_visible(types, owner) && ts.fields.table().contains_key(k) {
                    Ok(ts.fields.table()[k].ty)
                } else {
                    Err(TargetFailure::Unknown)
                }
            },
        }
    }
}

/// Whether `d` is the diagnostic for failing to assign to `name` at `span`.
pub open spec fn reports_target_failure(f: TargetFailure, name: Seq<char>, span: Span, d: Diagnostic) -> bool {
    &&& d.span == Some(span)
    &&& match f {
        TargetFailure::Unknown => {
            &&& d.code == DiagnosticCode::UnknownName
            &&& d.message@ == "Variable '"@ + name + "' is not declared"@
            &&& d.label matches Some(l) && l@ == "unknown variable"@
            &&& d.help matches Some(h) && h@ == "declare the variable before using it"@
        },
        TargetFailure::SharedInstanceField => {
            &&& d.code == DiagnosticCode::MemberAccess
            &&& d.message@ == "Instance field '"@ + name + "' cannot be accessed from a Shared method"@
            &&& d.label is None && d.help is None
        },
        TargetFailure::Constant => {
            &&& d.code == DiagnosticCode::InvalidAssignment
            &&& d.message@ == "Constant '"@ + name + "' cannot be assigned"@
            &&& d.label is None && d.help is None
        },
        TargetFailure::ArrayAsScalar => {
            &&& d.code == DiagnosticCode::Array
            &&& d.message@ == "Array variable '"@ + name + "' cannot be used as a scalar"@
            &&& d.label is None && d.help is None
        },
        TargetFailure::UndeclaredArray => {
            &&& d.code == DiagnosticCode::UnknownName
            &&& d.message@ == "Variable '"@ + name + "' is not declared"@
            &&& d.label is None && d.help is None
        },
        TargetFailure::SharedInstanceArray => {
            &&& d.code == DiagnosticCode::MemberAccess
            &&& d.message@ == "Instance array '"@ + name + "' cannot be accessed from a Shared method"@
            &&& d.label is None && d.help is None
        },
        TargetFailure::NotArray => {
            &&& d.code == DiagnosticCode::Array
            &&& d.message@ == "Variable '"@ + name + "' is not an array"@
            &&& d.label is None && d.help is None
        },
    }
}

/// The diagnostic for a name that is not declared.
pub fn unknown_variable(name: &str, span: Span) -> (d: Diagnostic)
    ensures
        reports_target_failure(TargetFailure::Unknown, name@, span, d),
{
    let mut message = String::from_str("Variable '");
    push_str(&mut message, name);
    push_str(&mut message, "' is not declared");
    Diagnostic::new(DiagnosticCode::UnknownName, message, Some(span)).with_primary_label(
        String::from_str("unknown variable"),
    ).with_help(String::from_str("declare the variable before using it"))
}

/// The diagnostic for one of the failures other than an unknown name.
fn target_failure(f: TargetFailure, name: &str, span: Span) -> (d: Diagnostic)
    requires
        f != TargetFailure::Unknown,
    ensures
        reports_target_failure(f, name@, span, d),
{
    let (code, before, after) = match f {
        TargetFailure::SharedInstanceField => (
            DiagnosticCode::MemberAccess,
            "Instance field '",
            "' cannot be accessed from a Shared method",
        ),
        TargetFailure::Constant => (DiagnosticCode::InvalidAssignment, "Constant '", "' cannot be assigned"),
        TargetFailure::ArrayAsScalar => (DiagnosticCode::Array, "Array variable '", "' cannot be used as a scalar"),
        TargetFailure::UndeclaredArray => (DiagnosticCode::UnknownName, "Variable '", "' is not declared"),
        TargetFailure::SharedInstanceArray => (
            DiagnosticCode::MemberAccess,
            "Instance array '",
            "' cannot be accessed from a Shared method",
        ),
        _ => (DiagnosticCode::Array, "Variable '", "' is not an array"),
    };
    let mut message = String::from_str(before);
    push_str(&mut message, name);
    push_str(&mut message, after);
    Diagnostic::new(code, message, Some(span))
}

/// What assigning to a name found in scope gives.
fn assign_to_symbol(v: &VarType, name: &str, span: Span) -> (r: Result<TypeName, Diagnostic>)
    ensures
        match scalar_target(*v) {
            Ok(t) => r matches Ok(u) && ty_eq(u, t),
            Err(f) => r matches Err(d) && reports_target_failure(f, name@, span, d),
        },
{
    if v.is_const() {
        return Err(target_failure(TargetFailure::Constant, name, span));
    }
    match v.scalar_type() {
        Some(t) => Ok(t),
        None => Err(target_failure(TargetFailure::ArrayAsScalar, name, span)),
    }
}

/// The type of the place a bare name denotes when a value is assigned to it,
/// or why nothing can be assigned to it.
pub fn variable_target_type(
    name: &str,
    span: Span,
    symbols: &NameMap<VarType>,
    types: &TypeRegistry,
    context: &Context,
    options: Options,
) -> (r: Result<TypeName, Diagnostic>)
    ensures
        match variable_target(name@, symbols.table(), *types, current_class_spec(*context), options.explicit) {
            Ok(t) => r matches Ok(u) && ty_eq(u, t),
            Err(f) => r matches Err(d) && reports_target_failure(f, name@, span, d),
        },
{
    let name_key = key(name);
    if let Some(v) = symbols.get(name_key.as_str()) {
        return assign_to_symbol(v, name, span);
    }
    let owner = match context.current_class() {
        Some(owner) => owner,
        None => {
            if !options.explicit {
                return Ok(TypeName::Variant);
            }
            return Err(unknown_variable(name, span));
        },
    };
    let class_sig = types.get_class(owner);
    if let Some(class_sig) = class_sig {
        if let Some(field) = class_sig.fields.get(name_key.as_str()) {
            proof {
                reveal_strlit("me");
                assert("me"@ =~= self_key());
            }
            if field.is_shared || symbols.contains_key("me") {
                return Ok(field.ty.duplicate());
            }
            return Err(target_failure(TargetFailure::SharedInstanceField, name, span));
        }
        if let Some(property) = class_sig.properties.get(name_key.as_str()) {
            if let Some(t) = bare_property_type(property) {
                return Ok(t);
            }
        }
    }
    if let Some(type_sig) = types.get(owner) {
        if let Some(field) = type_sig.fields.get(name_key.as_str()) {
            return Ok(field.ty.duplicate());
        }
    }
    Err(unknown_variable(name, span))
}

/// What an indexed field of this type and shape denotes: the array it
/// declares, or a `Variant` that may hold one.
pub open spec fn field_array_binding(ty: TypeName, array: Option<ArrayDecl>) -> Result<VarType, TargetFailure> {
    match array {
        Some(d) => Ok(VarType::Array(Visibility::Public, ty, d is Dynamic)),
        None => if same_type(ty, TypeName::Variant) {
            Ok(VarType::Scalar(Visibility::Public, TypeName::Variant))
        } else {
            Err(TargetFailure::NotArray)
        },
    }
}

/// What a name denotes when an element of it is assigned: a name in scope;
/// inside a class member, then an array field of the class (an instance one
/// only where an instance is in scope), or of a `Type` of that name.
pub open spec fn array_target_binding(
    name: Seq<char>,
    symbols: Map<Seq<char>, VarType>,
    types: TypeRegistry,
    class: Option<Seq<char>>,
) -> Result<VarType, TargetFailure> {
    let k = lowercase(name);
    if symbols.contains_key(k) {
        Ok(symbols[k])
    } else {
        match class {
            None => Err(TargetFailure::UndeclaredArray),
            Some(owner) => {
                let cls = types.classes.table()[lowercase(owner)];
                let ts = types.types.table()[lowercase(owner)];
                if class_visible(types, owner) && cls.fields.table().contains_key(k) {
                    let f = cls.fields.table()[k];
                    if f.is_shared || symbols.contains_key(self_key()) {
                        field_array_binding(f.ty, f.array)
                    } else {
                        Err(TargetFailure::SharedInstanceArray)
                    }
                } else if type_visible(types, owner) && ts.fields.table().contains_key(k) {
                    field_array_binding(ts.fields.table()[k].ty, ts.fields.table()[k].array)
                } else {
                    Err(TargetFailure::UndeclaredArray)
                }
            },
        }
    }
}

/// What an indexed field denotes.
fn field_array(ty: &TypeName, array: &Option<ArrayDecl>, name: &str, span: Span) -> (r: Result<VarType, Diagnostic>)
    ensures
        match field_array_binding(*ty, *array) {
            Ok(v) => r matches Ok(u) && var_type_eq(u, v),
            Err(f) => r matches Err(d) && reports_target_failure(f, name@, span, d),
        },
{
    match array {
        Some(d) => {
            let dynamic = match d {
                ArrayDecl::Dynamic => true,
                ArrayDecl::Fixed(_) => false,
            };
            Ok(VarType::Array(Visibility::Public, ty.duplicate(), dynamic))
        },
        None => {
            if ty.same_type(&TypeName::Variant) {
                Ok(VarType::Scalar(Visibility::Public, TypeName::Variant))
            } else {
                Err(target_failure(TargetFailure::NotArray, name, span))
            }
        },
    }
}

/// What a name denotes when an element of it is assigned, or why it cannot
/// be indexed there.
pub fn array_target_var(
    name: &str,
    span: Span,
    symbols: &NameMap<VarType>,
    types: &TypeRegistry,
    context: &Context,
) -> (r: Result<VarType, Diagnostic>)
    ensures
        match array_target_binding(name@, symbols.table(), *types, current_class_spec(*context)) {
            Ok(v) => r matches Ok(u) && var_type_eq(u, v),
            Err(f) => r matches Err(d) && reports_target_failure(f, name@, span, d),
        },
{
    let name_key = key(name);
    if let Some(v) = symbols.get(name_key.as_str()) {
        return Ok(v.duplicate());
    }
    let owner = match context.current_class() {
        Some(owner) => owner,
        None => {
            return Err(target_failure(TargetFailure::UndeclaredArray, name, span));
        },
    };
    if let Some(class_sig) = types.get_class(owner) {
        if let Some(field) = class_sig.fields.get(name_key.as_str()) {
            proof {
                reveal_strlit("me");
                assert("me"@ =~= self_key());
            }
            if field.is_shared || symbols.contains_key("me") {
                return field_array(&field.ty, &field.array, name, span);
            }
            return Err(target_failure(TargetFailure::SharedInstanceArray, name, span));
        }
    }
    if let Some(type_sig) = types.get(owner) {
        if let Some(field) = type_sig.fields.get(name_key.as_str()) {
            return field_array(&field.ty, &field.array, name, span);
        }
    }
    Err(target_failure(TargetFailure::UndeclaredArray, name, span))
}

/// What assigning to an element of a name gives.
#[derive(Debug)]
pub enum IndexedTarget {
    /// An element of an array of this type; each index must be an integer.
    Element(TypeName),
    /// A late-bound element (through `Object`, `Collection`, a `Variant` or
    /// a default property), of this type; the indices are only checked.
    LateBound(TypeName),
}

/// Whether a class of this name has a default property.
pub open spec fn has_default_property(types: TypeRegistry, name: Seq<char>) -> bool {
    class_visible(types, name) && types.classes.table()[lowercase(name)].default_property is Some
}

/// What assigning `value_type` to an element of a name bound to `v` gives,
/// or `None` where the name cannot be indexed.
pub open spec fn indexed_target(v: VarType, value_type: TypeName, types: TypeRegistry) -> Option<IndexedTarget> {
    match v {
        VarType::Array(_, ty, _) => Some(IndexedTarget::Element(ty)),
        VarType::Scalar(_, t) | VarType::Optional(_, t) | VarType::Const(_, t) => match t {
            TypeName::User(c) => if is_builtin_class_name(c@) {
                Some(IndexedTarget::LateBound(TypeName::Variant))
            } else if has_default_property(types, c@) {
                Some(IndexedTarget::LateBound(value_type))
            } else {
                None
            },
            TypeName::Variant => Some(IndexedTarget::LateBound(TypeName::Variant)),
            _ => None,
        },
        _ => None,
    }
}

/// Whether two indexed targets agree, their types written identically.
pub open spec fn indexed_eq(a: IndexedTarget, b: IndexedTarget) -> bool {
    match (a, b) {
        (IndexedTarget::Element(l), IndexedTarget::Element(r)) => ty_eq(l, r),
        (IndexedTarget::LateBound(l), IndexedTarget::LateBound(r)) => ty_eq(l, r),
        _ => false,
    }
}

/// Whether `d` reports that `name`, bound to `v`, cannot be indexed.
pub open spec fn reports_not_indexable(v: VarType, name: Seq<char>, span: Span, d: Diagnostic) -> bool {
    match v {
        VarType::Module(alias) => {
            &&& d.code == DiagnosticCode::InvalidQualifiedAccess
            &&& d.message@ == "Module '"@ + alias@ + "' cannot be indexed"@
            &&& d.span == Some(span) && d.label is None && d.help is None
        },
        _ => reports_target_failure(TargetFailure::NotArray, name, span, d),
    }
}

/// What assigning a value of `value_type` to an element of `name`, bound to
/// `v`, gives, or why the name cannot be indexed.
pub fn indexed_target_of(
    v: &VarType,
    name: &str,
    span: Span,
    value_type: &TypeName,
    types: &TypeRegistry,
) -> (r: Result<IndexedTarget, Diagnostic>)
    ensures
        match indexed_target(*v, *value_type, *types) {
            Some(t) => r matches Ok(u) && indexed_eq(u, t),
            None => r matches Err(d) && reports_not_indexable(*v, name@, span, d),
        },
{
    match v {
        VarType::Array(_, ty, _) => Ok(IndexedTarget::Element(ty.duplicate())),
        VarType::Scalar(_, t) | VarType::Optional(_, t) | VarType::Const(_, t) => match t {
            TypeName::User(c) => {
                proof {
                    reveal_strlit("Object");
                    reveal_strlit("Collection");
                }
                if eq_ignore_ascii_case(c.as_str(), "Object") || eq_ignore_ascii_case(c.as_str(), "Collection") {
                    return Ok(IndexedTarget::LateBound(TypeName::Variant));
                }
                if let Some(class_sig) = types.get_class(c.as_str()) {
                    if class_sig.default_property.is_some() {
                        return Ok(IndexedTarget::LateBound(value_type.duplicate()));
                    }
                }
                Err(target_failure(TargetFailure::NotArray, name, span))
            },
            TypeName::Variant => Ok(IndexedTarget::LateBound(TypeName::Variant)),
            _ => Err(target_failure(TargetFailure::NotArray, name, span)),
        },
        VarType::Module(alias) => {
            let mut message = String::from_str("Module '");
            push_str(&mut message, alias.as_str());
            push_str(&mut message, "' cannot be indexed");
            Err(Diagnostic::new(DiagnosticCode::InvalidQualifiedAccess, message, Some(span)))
        },
        VarType::FunctionReturn(_) => Err(target_failure(TargetFailure::NotArray, name, span)),
    }
}

/// What assigning a value of `value_type` to an element of the name gives:
/// the binding found as `array_target_var` finds it, then its element as
/// `indexed_target_of` reads it. The indices themselves are not looked at.
pub fn array_element_target(
    name: &str,
    span: Span,
    value_type: &TypeName,
    symbols: &NameMap<VarType>,
    types: &TypeRegistry,
    context: &Context,
) -> (r: Result<IndexedTarget, Diagnostic>)
    ensures
        match array_target_binding(name@, symbols.table(), *types, current_class_spec(*context)) {
            Err(f) => r matches Err(d) && reports_target_failure(f, name@, span, d),
            Ok(v) => match indexed_target(v, *value_type, *types) {
                Some(t) => r matches Ok(u) && indexed_eq(u, t),
                None => r matches Err(d) && reports_not_indexable(v, name@, span, d),
            },
        },
{
    let v = match array_target_var(name, span, symbols, types, context) {
        Ok(v) => v,
        Err(d) => return Err(d),
    };
    let ghost bound = array_target_binding(name@, symbols.table(), *types, current_class_spec(*context))->Ok_0;
    proof {
        lemma_indexed_target_respects_eq(v, bound, *value_type, *types);
    }
    let r = indexed_target_of(&v, name, span, value_type, types);
    let ghost rg = r;
    proof {
        if let (Ok(u), Some(x), Some(y)) = (rg, indexed_target(v, *value_type, *types), indexed_target(bound, *value_type, *types)) {
            match (u, x, y) {
                (IndexedTarget::Element(p), IndexedTarget::Element(q), IndexedTarget::Element(w))
                | (IndexedTarget::LateBound(p), IndexedTarget::LateBound(q), IndexedTarget::LateBound(w)) => {
                    lemma_ty_eq_transitive(p, q, w);
                },
                _ => {},
            }
        }
    }
    r
}

/// Names bound identically index identically.
proof fn lemma_indexed_target_respects_eq(a: VarType, b: VarType, value_type: TypeName, types: TypeRegistry)
    requires
        var_type_eq(a, b),
    ensures
        match (indexed_target(a, value_type, types), indexed_target(b, value_type, types)) {
            (Some(x), Some(y)) => indexed_eq(x, y),
            (None, None) => true,
            _ => false,
        },
        a is Module <==> b is Module,
        a is Module ==> a->Module_0@ == b->Module_0@,
{
    lemma_ty_eq_reflexive(value_type);
    lemma_ty_eq_reflexive(TypeName::Variant);
    match (a, b) {
        (VarType::Scalar(_, x), VarType::Scalar(_, y)) | (VarType::Optional(_, x), VarType::Optional(_, y))
        | (VarType::Const(_, x), VarType::Const(_, y)) => {
            lemma_ty_eq_tag(x, y);
        },
        _ => {},
    }
}

/// The type a member assignment `Class.field = ...` gets without looking at
/// the object: where the object is a bare name that is not in scope but names
/// a class with a `Shared` field of that name, the field's type.
pub open spec fn shared_field_target(
    object: Expr,
    field: Seq<char>,
    symbols: Map<Seq<char>, VarType>,
    types: TypeRegistry,
) -> Option<TypeName> {
    match object.kind {
        ExprKind::Variable(class_name) => {
            let cls = types.classes.table()[lowercase(class_name@)];
            if !symbols.contains_key(lowercase(class_name@)) && class_visible(types, class_name@)
                && cls.fields.table().contains_key(lowercase(field)) && cls.fields.table()[lowercase(field)].is_shared {
                Some(cls.fields.table()[lowercase(field)].ty)
            } else {
                None
            }
        },
        _ => None,
    }
}

/// The type a member assignment gets when its object names a class with a
/// `Shared` field of that name, and `None` where the object must be checked
/// as an expression.
pub fn shared_field_target_type(object: &Expr, field: &str, symbols: &NameMap<VarType>, types: &TypeRegistry) -> (r:
    Option<TypeName>)
    ensures
        match shared_field_target(*object, field@, symbols.table(), *types) {
            Some(t) => r matches Some(u) && ty_eq(u, t),
            None => r is None,
        },
{
    if let ExprKind::Variable(class_name) = &object.kind {
        let class_key = key(class_name.as_str());
        if symbols.contains_key(class_key.as_str()) {
            return None;
        }
        if let Some(class_sig) = types.get_class(class_name.as_str()) {
            let field_key = key(field);
            if let Some(field_sig) = class_sig.fields.get(field_key.as_str()) {
                if field_sig.is_shared {
                    return Some(field_sig.ty.duplicate());
                }
            }
        }
    }
    None
}

} // verus!
