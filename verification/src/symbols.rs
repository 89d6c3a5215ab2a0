//! What a name in scope denotes, and the signatures of callables.
use vstd::prelude::*;

use crate::ast::{GenericParamConstraint, PassingMode, Visibility};
use crate::name_map::NameMap;
use crate::type_model::{lemma_same_type_symmetric, same_type, substituted, ty_eq, TypeName};
use crate::text::same_text;

verus! {

/// What a variable or other value name in scope denotes.
#[derive(Debug)]
pub enum VarType {
    Scalar(Visibility, TypeName),
    Optional(Visibility, TypeName),
    /// Visibility, element type, and whether the array is dynamic.
    Array(Visibility, TypeName, bool),
    Const(Visibility, TypeName),
    FunctionReturn(TypeName),
    Module(String),
}

/// Whether two names denote the same kind of value of the same type: a
/// scalar, an optional parameter and a function's return slot are
/// interchangeable; constants and arrays also agree on visibility (and arrays
/// on dynamism); modules agree on their name.
pub open spec fn same_var_type(a: VarType, b: VarType) -> bool {
    match (a, b) {
        (VarType::Scalar(_, l), VarType::Scalar(_, r)) => same_type(l, r),
        (VarType::Optional(_, l), VarType::Scalar(_, r)) => same_type(l, r),
        (VarType::Scalar(_, l), VarType::Optional(_, r)) => same_type(l, r),
        (VarType::Optional(_, l), VarType::Optional(_, r)) => same_type(l, r),
        (VarType::Const(lv, l), VarType::Const(rv, r)) => lv == rv && same_type(l, r),
        (VarType::Array(lv, l, ld), VarType::Array(rv, r, rd)) => lv == rv && ld == rd && same_type(l, r),
        (VarType::FunctionReturn(l), VarType::Scalar(_, r)) => same_type(l, r),
        (VarType::Scalar(_, l), VarType::FunctionReturn(r)) => same_type(l, r),
        (VarType::FunctionReturn(l), VarType::FunctionReturn(r)) => same_type(l, r),
        (VarType::Module(l), VarType::Module(r)) => l@ == r@,
        _ => false,
    }
}

/// The type of the value a name holds, if it holds one value.
pub open spec fn scalar_type_of(v: VarType) -> Option<TypeName> {
    match v {
        VarType::Scalar(_, ty) | VarType::Optional(_, ty) | VarType::Const(_, ty) | VarType::FunctionReturn(ty) => Some(ty),
        VarType::Array(..) | VarType::Module(_) => None,
    }
}

/// Who may see the name; a function's return slot and a module are public.
pub open spec fn visibility_of(v: VarType) -> Visibility {
    match v {
        VarType::Scalar(vis, _) | VarType::Optional(vis, _) | VarType::Array(vis, _, _) | VarType::Const(vis, _) => vis,
        VarType::FunctionReturn(_) | VarType::Module(_) => Visibility::Public,
    }
}

/// Whether two names denote the same thing, written identically.
pub open spec fn var_type_eq(a: VarType, b: VarType) -> bool {
    match (a, b) {
        (VarType::Scalar(v, l), VarType::Scalar(w, r)) => v == w && ty_eq(l, r),
        (VarType::Optional(v, l), VarType::Optional(w, r)) => v == w && ty_eq(l, r),
        (VarType::Array(v, l, d), VarType::Array(w, r, e)) => v == w && d == e && ty_eq(l, r),
        (VarType::Const(v, l), VarType::Const(w, r)) => v == w && ty_eq(l, r),
        (VarType::FunctionReturn(l), VarType::FunctionReturn(r)) => ty_eq(l, r),
        (VarType::Module(l), VarType::Module(r)) => l@ == r@,
        _ => false,
    }
}

impl VarType {
    /// A copy of `self`, written identically.
    pub fn duplicate(&self) -> (r: VarType)
        ensures
            var_type_eq(r, *self),
    {
        match self {
            VarType::Scalar(v, t) => VarType::Scalar(*v, t.duplicate()),
            VarType::Optional(v, t) => VarType::Optional(*v, t.duplicate()),
            VarType::Array(v, t, d) => VarType::Array(*v, t.duplicate(), *d),
            VarType::Const(v, t) => VarType::Const(*v, t.duplicate()),
            VarType::FunctionReturn(t) => VarType::FunctionReturn(t.duplicate()),
            VarType::Module(m) => VarType::Module(m.clone()),
        }
    }

    /// Whether two names denote the same kind of value of the same type.
    pub fn same_var_type(&self, other: &VarType) -> (r: bool)
        ensures
            r == same_var_type(*self, *other),
    {
        match (self, other) {
            (VarType::Scalar(_, left), VarType::Scalar(_, right))
            | (VarType::Optional(_, left), VarType::Scalar(_, right))
            | (VarType::Scalar(_, left), VarType::Optional(_, right))
            | (VarType::Optional(_, left), VarType::Optional(_, right)) => left.same_type(right),
            (VarType::Const(left_v, left), VarType::Const(right_v, right)) => *left_v == *right_v && left.same_type(right),
            (VarType::Array(left_v, left, left_d), VarType::Array(right_v, right, right_d)) => *left_v == *right_v
                && *left_d == *right_d && left.same_type(right),
            (VarType::FunctionReturn(left), VarType::Scalar(_, right))
            | (VarType::Scalar(_, left), VarType::FunctionReturn(right))
            | (VarType::FunctionReturn(left), VarType::FunctionReturn(right)) => left.same_type(right),
            (VarType::Module(left), VarType::Module(right)) => same_text(left.as_str(), right.as_str()),
            _ => false,
        }
    }

    /// The type of the value the name holds, if it holds one value.
    pub fn scalar_type(&self) -> (r: Option<TypeName>)
        ensures
            match scalar_type_of(*self) {
                Some(ty) => r matches Some(t) && ty_eq(t, ty),
                None => r is None,
            },
    {
        match self {
            VarType::Scalar(_, ty) | VarType::Optional(_, ty) | VarType::Const(_, ty) | VarType::FunctionReturn(ty) => Some(
                ty.duplicate(),
            ),
            VarType::Array(_, _, _) | VarType::Module(_) => None,
        }
    }

    /// Whether the name is a constant.
    pub fn is_const(&self) -> (r: bool)
        ensures
            r == (*self is Const),
    {
        matches!(self, VarType::Const(_, _))
    }

    /// Who may see the name.
    pub fn visibility(&self) -> (r: Visibility)
        ensures
            r == visibility_of(*self),
    {
        match self {
            VarType::Scalar(v, _) | VarType::Optional(v, _) | VarType::Array(v, _, _) | VarType::Const(v, _) => *v,
            VarType::FunctionReturn(_) | VarType::Module(_) => Visibility::Public,
        }
    }
}

/// A parameter of a callable.
#[derive(Debug)]
pub struct ParamSig {
    pub name: String,
    pub mode: PassingMode,
    pub ty: TypeName,
    pub is_optional: bool,
    pub is_param_array: bool,
}

/// A parameter, as values.
pub struct ParamView {
    pub name: Seq<char>,
    pub mode: PassingMode,
    pub ty: TypeName,
    pub is_optional: bool,
    pub is_param_array: bool,
}

impl View for ParamSig {
    type V = ParamView;

    open spec fn view(&self) -> ParamView {
        ParamView {
            name: self.name@,
            mode: self.mode,
            ty: self.ty,
            is_optional: self.is_optional,
            is_param_array: self.is_param_array,
        }
    }
}

/// The signature of a sub, function, method or delegate.
#[derive(Debug)]
pub struct CallableSig {
    pub visibility: Visibility,
    pub name: String,
    pub type_params: Vec<String>,
    pub generic_constraints: Vec<GenericParamConstraint>,
    pub is_shared: bool,
    pub is_iterator: bool,
    pub is_declare: bool,
    pub params: Vec<ParamSig>,
    /// `None` for a sub.
    pub return_type: Option<TypeName>,
}

/// A signature, as values.
pub struct CallableView {
    pub visibility: Visibility,
    pub name: Seq<char>,
    pub type_params: Seq<Seq<char>>,
    pub generic_constraints: Seq<GenericParamConstraint>,
    pub is_shared: bool,
    pub is_iterator: bool,
    pub is_declare: bool,
    pub params: Seq<ParamView>,
    pub return_type: Option<TypeName>,
}

impl View for CallableSig {
    type V = CallableView;

    open spec fn view(&self) -> CallableView {
        CallableView {
            visibility: self.visibility,
            name: self.name@,
            type_params: self.type_params@.map_values(|t: String| t@),
            generic_constraints: self.generic_constraints@,
            is_shared: self.is_shared,
            is_iterator: self.is_iterator,
            is_declare: self.is_declare,
            params: self.params@.map_values(|p: ParamSig| p@),
            return_type: self.return_type,
        }
    }
}

/// Whether two generic constraints say the same: the same parameter name,
/// bounds written identically, and the same `New` requirement.
pub open spec fn same_constraint(a: GenericParamConstraint, b: GenericParamConstraint) -> bool {
    &&& a.name@ == b.name@
    &&& a.require_new == b.require_new
    &&& a.bounds@.len() == b.bounds@.len()
    &&& forall|i: int| 0 <= i < a.bounds@.len() ==> ty_eq(#[trigger] a.bounds@[i], b.bounds@[i])
}

/// Whether two lists of generic constraints agree one for one.
pub open spec fn same_constraints(a: Seq<GenericParamConstraint>, b: Seq<GenericParamConstraint>) -> bool {
    a.len() == b.len() && forall|i: int| 0 <= i < a.len() ==> same_constraint(#[trigger] a[i], b[i])
}

/// Whether `r` is parameter `p` with its type's generic parameters replaced
/// as `bindings` says, and otherwise the same.
pub open spec fn param_substituted(p: ParamSig, bindings: Seq<(String, TypeName)>, r: ParamSig) -> bool {
    &&& r.name@ == p.name@
    &&& r.mode == p.mode
    &&& r.is_optional == p.is_optional
    &&& r.is_param_array == p.is_param_array
    &&& substituted(p.ty, bindings, r.ty)
}

/// Whether each parameter of `r` is the matching parameter of `p` with its
/// generic parameters replaced.
pub open spec fn params_substituted(p: Seq<ParamSig>, bindings: Seq<(String, TypeName)>, r: Seq<ParamSig>) -> bool {
    r.len() == p.len() && forall|i: int| 0 <= i < p.len() ==> param_substituted(#[trigger] p[i], bindings, r[i])
}

/// Whether an optional type has its generic parameters replaced.
pub open spec fn return_substituted(t: Option<TypeName>, bindings: Seq<(String, TypeName)>, r: Option<TypeName>) -> bool {
    match (t, r) {
        (Some(a), Some(b)) => substituted(a, bindings, b),
        (None, None) => true,
        _ => false,
    }
}

/// A copy of a list of names.
pub fn copy_names(names: &Vec<String>) -> (r: Vec<String>)
    ensures
        r@ == names@,
{
    let mut out: Vec<String> = Vec::new();
    let mut i: usize = 0;
    while i < names.len()
        invariant
            i <= names@.len(),
            out@ == names@.subrange(0, i as int),
        decreases names@.len() - i,
    {
        out.push(names[i].clone());
        assert(out@ =~= names@.subrange(0, i + 1));
        i = i + 1;
    }
    assert(names@.subrange(0, i as int) =~= names@);
    out
}

/// A copy of a list of generic constraints.
pub fn copy_constraints(constraints: &Vec<GenericParamConstraint>) -> (r: Vec<GenericParamConstraint>)
    ensures
        same_constraints(r@, constraints@),
{
    let mut out: Vec<GenericParamConstraint> = Vec::new();
    let mut i: usize = 0;
    while i < constraints.len()
        invariant
            i <= constraints@.len(),
            out@.len() == i,
            forall|j: int| 0 <= j < i ==> same_constraint(#[trigger] out@[j], constraints@[j]),
        decreases constraints@.len() - i,
    {
        let c = &constraints[i];
        let mut bounds: Vec<TypeName> = Vec::new();
        let mut k: usize = 0;
        while k < c.bounds.len()
            invariant
                k <= c.bounds@.len(),
                bounds@.len() == k,
                forall|j: int| 0 <= j < k ==> ty_eq(#[trigger] bounds@[j], c.bounds@[j]),
            decreases c.bounds@.len() - k,
        {
            bounds.push(c.bounds[k].duplicate());
            k = k + 1;
        }
        out.push(GenericParamConstraint { name: c.name.clone(), bounds, require_new: c.require_new });
        i = i + 1;
    }
    out
}

impl ParamSig {
    /// The parameter with its type's generic parameters replaced as
    /// `bindings` says.
    pub fn substitute_generics(&self, bindings: &[(String, TypeName)]) -> (r: ParamSig)
        ensures
            param_substituted(*self, bindings@, r),
    {
        ParamSig {
            name: self.name.clone(),
            mode: self.mode,
            ty: self.ty.substitute_generics(bindings),
            is_optional: self.is_optional,
            is_param_array: self.is_param_array,
        }
    }
}

/// Each parameter with its generic parameters replaced.
pub fn substitute_params(params: &Vec<ParamSig>, bindings: &[(String, TypeName)]) -> (r: Vec<ParamSig>)
    ensures
        params_substituted(params@, bindings@, r@),
{
    let mut out: Vec<ParamSig> = Vec::new();
    let mut i: usize = 0;
    while i < params.len()
        invariant
            i <= params@.len(),
            out@.len() == i,
            forall|j: int| 0 <= j < i ==> param_substituted(#[trigger] params@[j], bindings@, out@[j]),
        decreases params@.len() - i,
    {
        out.push(params[i].substitute_generics(bindings));
        i = i + 1;
    }
    out
}

/// An optional type with its generic parameters replaced.
pub fn substitute_return(t: &Option<TypeName>, bindings: &[(String, TypeName)]) -> (r: Option<TypeName>)
    ensures
        return_substituted(*t, bindings@, r),
{
    match t {
        Some(ty) => Some(ty.substitute_generics(bindings)),
        None => None,
    }
}

impl CallableSig {
    /// The signature with the generic parameters in its parameter and
    /// return types replaced as `bindings` says; its own type parameters and
    /// constraints are kept as they are.
    pub fn substitute_generics(&self, bindings: &[(String, TypeName)]) -> (r: CallableSig)
        ensures
            r.visibility == self.visibility,
            r.name@ == self.name@,
            r.type_params@ == self.type_params@,
            same_constraints(r.generic_constraints@, self.generic_constraints@),
            r.is_shared == self.is_shared,
            r.is_iterator == self.is_iterator,
            r.is_declare == self.is_declare,
            params_substituted(self.params@, bindings@, r.params@),
            return_substituted(self.return_type, bindings@, r.return_type),
    {
        CallableSig {
            visibility: self.visibility,
            name: self.name.clone(),
            type_params: copy_names(&self.type_params),
            generic_constraints: copy_constraints(&self.generic_constraints),
            is_shared: self.is_shared,
            is_iterator: self.is_iterator,
            is_declare: self.is_declare,
            params: substitute_params(&self.params, bindings),
            return_type: substitute_return(&self.return_type, bindings),
        }
    }
}

/// The module-level subs and functions of a program, by lower-cased name.
#[derive(Debug)]
pub struct Signatures {
    pub subs: NameMap<CallableSig>,
    pub functions: NameMap<CallableSig>,
}

/// Whether two names denote the same kind of value of the same type does not
/// depend on which is asked about first.
pub proof fn lemma_same_var_type_symmetric(a: VarType, b: VarType)
    ensures
        same_var_type(a, b) == same_var_type(b, a),
{
    match (a, b) {
        (VarType::Scalar(_, l), VarType::Scalar(_, r)) | (VarType::Optional(_, l), VarType::Scalar(_, r))
        | (VarType::Scalar(_, l), VarType::Optional(_, r)) | (VarType::Optional(_, l), VarType::Optional(_, r))
        | (VarType::Const(_, l), VarType::Const(_, r)) | (VarType::Array(_, l, _), VarType::Array(_, r, _))
        | (VarType::FunctionReturn(l), VarType::Scalar(_, r)) | (VarType::Scalar(_, l), VarType::FunctionReturn(r))
        | (VarType::FunctionReturn(l), VarType::FunctionReturn(r)) => lemma_same_type_symmetric(l, r),
        _ => {},
    }
}

} // verus!
