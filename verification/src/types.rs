//! The signatures of the types a program can name, and the registry that
//! resolves a written type name to its declaration.
use vstd::prelude::*;

use crate::ast::{ArrayDecl, ClassInheritance, GenericParamConstraint, Visibility};
use crate::name_map::NameMap;
use crate::symbols::{
    params_substituted, return_substituted, substitute_params, substitute_return, CallableSig, ParamSig, ParamView,
};
use crate::text::{contains_char, eq_ignore_ascii_case, key, lowercase, same_ignoring_ascii_case, same_text};
use crate::type_model::{ty_eq, TypeName};
use vstd::string::StrSliceExecFns;

verus! {

/// A field of a `Type` or `Structure`.
#[derive(Debug)]
pub struct FieldSig {
    pub visibility: Visibility,
    pub ty: TypeName,
    pub array: Option<ArrayDecl>,
}

/// The methods of one type sharing a name, in declaration order.
pub type MethodOverloads = Vec<CallableSig>;

/// A `Type` or `Structure` declaration.
#[derive(Debug)]
pub struct TypeSig {
    pub visibility: Visibility,
    pub name: String,
    pub type_params: Vec<String>,
    pub generic_constraints: Vec<GenericParamConstraint>,
    pub implements: Vec<TypeName>,
    pub is_structure: bool,
    pub fields: NameMap<FieldSig>,
    pub subs: NameMap<MethodOverloads>,
    pub functions: NameMap<MethodOverloads>,
    pub properties: NameMap<ClassPropertySig>,
    pub default_property: Option<String>,
}

/// An `Enum` declaration and the value of each member.
#[derive(Debug)]
pub struct EnumSig {
    pub visibility: Visibility,
    pub name: String,
    pub members: NameMap<i64>,
}

/// An `Interface` declaration.
#[derive(Debug)]
pub struct InterfaceSig {
    pub visibility: Visibility,
    pub name: String,
    pub type_params: Vec<String>,
    pub generic_constraints: Vec<GenericParamConstraint>,
    pub subs: NameMap<MethodOverloads>,
    pub functions: NameMap<MethodOverloads>,
    pub events: NameMap<CallableSig>,
    pub properties: NameMap<ClassPropertySig>,
}

/// A field of a class.
#[derive(Debug)]
pub struct ClassFieldSig {
    pub visibility: Visibility,
    pub is_shared: bool,
    pub with_events: bool,
    pub ty: TypeName,
    pub array: Option<ArrayDecl>,
}

/// A `Class` declaration.
#[derive(Debug)]
pub struct ClassSig {
    pub visibility: Visibility,
    pub inheritance: ClassInheritance,
    pub name: String,
    pub type_params: Vec<String>,
    pub generic_constraints: Vec<GenericParamConstraint>,
    pub base_class: Option<TypeName>,
    pub implements: Vec<TypeName>,
    pub fields: NameMap<ClassFieldSig>,
    pub events: NameMap<CallableSig>,
    pub subs: NameMap<MethodOverloads>,
    pub functions: NameMap<MethodOverloads>,
    pub iterator: Option<CallableSig>,
    pub properties: NameMap<ClassPropertySig>,
    pub default_property: Option<String>,
}

/// One `Get`, `Let` or `Set` accessor of a property.
#[derive(Debug)]
pub struct PropertyAccessorSig {
    pub visibility: Visibility,
    pub is_iterator: bool,
    pub params: Vec<ParamSig>,
    pub return_type: Option<TypeName>,
}

/// An accessor, as values.
pub struct AccessorView {
    pub visibility: Visibility,
    pub is_iterator: bool,
    pub params: Seq<ParamView>,
    pub return_type: Option<TypeName>,
}

impl View for PropertyAccessorSig {
    type V = AccessorView;

    open spec fn view(&self) -> AccessorView {
        AccessorView {
            visibility: self.visibility,
            is_iterator: self.is_iterator,
            params: self.params@.map_values(|p: ParamSig| p@),
            return_type: self.return_type,
        }
    }
}

/// A property of a class or interface.
#[derive(Debug)]
pub struct ClassPropertySig {
    pub name: String,
    pub is_shared: bool,
    pub is_readonly: bool,
    pub is_writeonly: bool,
    /// The getters, in declaration order; several are overloads picked by
    /// the arguments at the use site.
    pub get: Vec<PropertyAccessorSig>,
    /// The setters, in declaration order.
    pub set: Vec<PropertyAccessorSig>,
}

/// A property, as values.
pub struct PropertyView {
    pub name: Seq<char>,
    pub is_shared: bool,
    pub is_readonly: bool,
    pub is_writeonly: bool,
    pub get: Seq<AccessorView>,
    pub set: Seq<AccessorView>,
}

impl View for ClassPropertySig {
    type V = PropertyView;

    open spec fn view(&self) -> PropertyView {
        PropertyView {
            name: self.name@,
            is_shared: self.is_shared,
            is_readonly: self.is_readonly,
            is_writeonly: self.is_writeonly,
            get: self.get@.map_values(|a: PropertyAccessorSig| a@),
            set: self.set@.map_values(|a: PropertyAccessorSig| a@),
        }
    }
}

/// Whether accessor `r` is `a` with the generic parameters in its parameter
/// and return types replaced as `bindings` says, and otherwise the same.
pub open spec fn accessor_substituted(a: PropertyAccessorSig, bindings: Seq<(String, TypeName)>, r: PropertyAccessorSig) -> bool {
    &&& r.visibility == a.visibility
    &&& r.is_iterator == a.is_iterator
    &&& params_substituted(a.params@, bindings, r.params@)
    &&& return_substituted(a.return_type, bindings, r.return_type)
}

/// Whether each accessor of `r` is the matching accessor of `a` with its
/// generic parameters replaced.
pub open spec fn accessors_substituted(
    a: Seq<PropertyAccessorSig>,
    bindings: Seq<(String, TypeName)>,
    r: Seq<PropertyAccessorSig>,
) -> bool {
    r.len() == a.len() && forall|i: int| 0 <= i < a.len() ==> accessor_substituted(#[trigger] a[i], bindings, r[i])
}

impl PropertyAccessorSig {
    /// The accessor with the generic parameters in its parameter and return
    /// types replaced as `bindings` says.
    pub fn substitute_generics(&self, bindings: &[(String, TypeName)]) -> (r: PropertyAccessorSig)
        ensures
            accessor_substituted(*self, bindings@, r),
    {
        PropertyAccessorSig {
            visibility: self.visibility,
            is_iterator: self.is_iterator,
            params: substitute_params(&self.params, bindings),
            return_type: substitute_return(&self.return_type, bindings),
        }
    }
}

/// Each accessor with its generic parameters replaced.
fn substitute_accessors(accessors: &Vec<PropertyAccessorSig>, bindings: &[(String, TypeName)]) -> (r: Vec<
    PropertyAccessorSig,
>)
    ensures
        accessors_substituted(accessors@, bindings@, r@),
{
    let mut out: Vec<PropertyAccessorSig> = Vec::new();
    let mut i: usize = 0;
    while i < accessors.len()
        invariant
            i <= accessors@.len(),
            out@.len() == i,
            forall|j: int| 0 <= j < i ==> accessor_substituted(#[trigger] accessors@[j], bindings@, out@[j]),
        decreases accessors@.len() - i,
    {
        out.push(accessors[i].substitute_generics(bindings));
        i = i + 1;
    }
    out
}

impl ClassPropertySig {
    /// The property with the generic parameters of every accessor replaced
    /// as `bindings` says.
    pub fn substitute_generics(&self, bindings: &[(String, TypeName)]) -> (r: ClassPropertySig)
        ensures
            r.name@ == self.name@,
            r.is_shared == self.is_shared,
            r.is_readonly == self.is_readonly,
            r.is_writeonly == self.is_writeonly,
            accessors_substituted(self.get@, bindings@, r.get@),
            accessors_substituted(self.set@, bindings@, r.set@),
    {
        ClassPropertySig {
            name: self.name.clone(),
            is_shared: self.is_shared,
            is_readonly: self.is_readonly,
            is_writeonly: self.is_writeonly,
            get: substitute_accessors(&self.get, bindings),
            set: substitute_accessors(&self.set, bindings),
        }
    }
}

impl ClassPropertySig {
    /// The getter to answer with when the use site offers nothing to choose
    /// by: the first one declared.
    pub fn getter(&self) -> (r: Option<&PropertyAccessorSig>)
        ensures
            match r {
                Some(a) => self.get@.len() > 0 && *a == self.get@[0],
                None => self.get@.len() == 0,
            },
    {
        if self.get.len() > 0 {
            Some(&self.get[0])
        } else {
            None
        }
    }

    /// The accessor used for a property assignment: the first setter.
    pub fn writer(&self) -> (r: Option<&PropertyAccessorSig>)
        ensures
            match r {
                Some(a) => self.set@.len() > 0 && *a == self.set@[0],
                None => self.set@.len() == 0,
            },
    {
        if self.set.len() > 0 {
            Some(&self.set[0])
        } else {
            None
        }
    }

    /// Every accessor a write could go through.
    pub fn writers(&self) -> (r: &[PropertyAccessorSig])
        ensures
            r@ == self.set@,
    {
        self.set.as_slice()
    }
}

/// Every type a program can name, by lower-cased name, with what the body
/// being checked has in scope.
#[derive(Debug)]
pub struct TypeRegistry {
    pub types: NameMap<TypeSig>,
    pub enums: NameMap<EnumSig>,
    pub interfaces: NameMap<InterfaceSig>,
    pub classes: NameMap<ClassSig>,
    /// Named callable shapes: what `Delegate Sub` and `Delegate Function`
    /// declare.
    pub delegates: NameMap<CallableSig>,
    pub generic_params: NameMap<()>,
    /// What each generic parameter in scope is constrained to be.
    pub generic_constraints: NameMap<GenericParamConstraint>,
    pub import_origins: NameMap<String>,
    /// Imported simple names that denote several declarations: they are kept
    /// out of lookup rather than resolved to whichever import came first.
    pub ambiguous_imports: NameMap<Vec<String>>,
}

/// Whether a name is an ambiguous import, and so resolves to nothing.
pub open spec fn hidden(reg: TypeRegistry, name: Seq<char>) -> bool {
    reg.ambiguous_imports.table().contains_key(lowercase(name))
}

/// The position of the last dot before position `k`, or -1.
pub open spec fn last_dot(s: Seq<char>, k: int) -> int
    decreases k,
{
    if k <= 0 {
        -1
    } else if s[k - 1] == '.' {
        k - 1
    } else {
        last_dot(s, k - 1)
    }
}

/// The part of a name after its last dot, or the whole name.
pub open spec fn short_name(s: Seq<char>) -> Seq<char> {
    s.subrange(last_dot(s, s.len() as int) + 1, s.len() as int)
}

/// Whether a declared name, nested or not, ends in `name` without regard to
/// case.
pub open spec fn ends_in(full: Seq<char>, name: Seq<char>) -> bool {
    lowercase(short_name(full)) == lowercase(name)
}

/// The declared names of the types of a registry, in table order.
pub open spec fn type_names(reg: TypeRegistry) -> Seq<Seq<char>> {
    reg.types.entries().map_values(|e: (String, TypeSig)| e.1.name@)
}

/// The declared names of the enums of a registry, in table order.
pub open spec fn enum_names(reg: TypeRegistry) -> Seq<Seq<char>> {
    reg.enums.entries().map_values(|e: (String, EnumSig)| e.1.name@)
}

/// The declared names of the interfaces of a registry, in table order.
pub open spec fn interface_names(reg: TypeRegistry) -> Seq<Seq<char>> {
    reg.interfaces.entries().map_values(|e: (String, InterfaceSig)| e.1.name@)
}

/// The declared names of the classes of a registry, in table order.
pub open spec fn class_names(reg: TypeRegistry) -> Seq<Seq<char>> {
    reg.classes.entries().map_values(|e: (String, ClassSig)| e.1.name@)
}

/// The declared names of the types, enums, interfaces and classes of a
/// registry.
pub open spec fn declared_names(reg: TypeRegistry) -> Set<Seq<char>> {
    Set::new(
        |n: Seq<char>|
            type_names(reg).contains(n) || enum_names(reg).contains(n) || interface_names(reg).contains(n) || class_names(
                reg,
            ).contains(n),
    )
}

/// A prefix one longer holds what the shorter one holds and the next name.
proof fn lemma_prefix_step(s: Seq<Seq<char>>, i: int)
    requires
        0 <= i < s.len(),
    ensures
        forall|n: Seq<char>| s.subrange(0, i + 1).contains(n) <==> (s.subrange(0, i).contains(n) || s[i] == n),
{
    assert forall|n: Seq<char>| s.subrange(0, i + 1).contains(n) <==> (s.subrange(0, i).contains(n) || s[i] == n) by {
        if s.subrange(0, i + 1).contains(n) {
            let j = choose|j: int| 0 <= j < i + 1 && #[trigger] s.subrange(0, i + 1)[j] == n;
            if j < i {
                assert(s.subrange(0, i)[j] == n);
            }
        }
        if s.subrange(0, i).contains(n) {
            let j = choose|j: int| 0 <= j < i && #[trigger] s.subrange(0, i)[j] == n;
            assert(s.subrange(0, i + 1)[j] == n);
        }
        if s[i] == n {
            assert(s.subrange(0, i + 1)[i] == n);
        }
    }
}

/// The declared names that a simple name could mean as a nested type.
pub open spec fn nested_candidates(reg: TypeRegistry, name: Seq<char>) -> Set<Seq<char>> {
    declared_names(reg).filter(|n: Seq<char>| ends_in(n, name))
}

/// The one declared name a simple name means as a nested type, if exactly one
/// distinct declared name ends in it. A dotted name is not simple.
pub open spec fn unique_nested(reg: TypeRegistry, name: Seq<char>) -> Option<Seq<char>> {
    if name.contains('.') {
        None
    } else if exists|x: Seq<char>| nested_candidates(reg, name) == set![x] {
        Some(choose|x: Seq<char>| nested_candidates(reg, name) == set![x])
    } else {
        None
    }
}

/// Whether a name denotes a type of the registry.
pub open spec fn registry_contains(reg: TypeRegistry, name: Seq<char>) -> bool {
    let k = lowercase(name);
    !hidden(reg, name) && (reg.types.table().contains_key(k) || reg.enums.table().contains_key(k)
        || reg.interfaces.table().contains_key(k) || reg.classes.table().contains_key(k)
        || reg.delegates.table().contains_key(k) || unique_nested(reg, name) is Some)
}

/// The name a written user type is spelled with once resolved: the declared
/// spelling of a type, class, enum or interface, else of the one nested type
/// it can mean, else the built-in `Object` or `Collection`, else as written.
pub open spec fn canonical_user_name(reg: TypeRegistry, name: Seq<char>) -> Seq<char> {
    let k = lowercase(name);
    if reg.types.table().contains_key(k) {
        reg.types.table()[k].name@
    } else if reg.classes.table().contains_key(k) {
        reg.classes.table()[k].name@
    } else if reg.enums.table().contains_key(k) {
        reg.enums.table()[k].name@
    } else if reg.interfaces.table().contains_key(k) {
        reg.interfaces.table()[k].name@
    } else if let Some(nested) = unique_nested(reg, name) {
        nested
    } else if same_ignoring_ascii_case(name, "Object"@) {
        "Object"@
    } else if same_ignoring_ascii_case(name, "Collection"@) {
        "Collection"@
    } else {
        name
    }
}

/// The name a generic type is spelled with once resolved.
pub open spec fn canonical_generic_name(reg: TypeRegistry, name: Seq<char>) -> Seq<char> {
    let k = lowercase(name);
    if reg.types.table().contains_key(k) {
        reg.types.table()[k].name@
    } else if reg.classes.table().contains_key(k) {
        reg.classes.table()[k].name@
    } else if reg.interfaces.table().contains_key(k) {
        reg.interfaces.table()[k].name@
    } else {
        name
    }
}

/// Whether `r` is `ty` with every user type name, at any depth of generic
/// arguments and array elements, spelled as declared.
pub open spec fn canonical_form(reg: TypeRegistry, ty: TypeName, r: TypeName) -> bool
    decreases ty,
{
    match ty {
        TypeName::User(name) => r matches TypeName::User(n) && n@ == canonical_user_name(reg, name@),
        TypeName::GenericInstance { name, args } => r matches TypeName::GenericInstance { name: n, args: rargs }
            && n@ == canonical_generic_name(reg, name@) && rargs@.len() == args@.len() && forall|i: int|
            0 <= i < args@.len() ==> canonical_form(reg, #[trigger] args@[i], rargs@[i]),
        TypeName::Array(inner) => r matches TypeName::Array(rinner) && canonical_form(reg, *inner, *rinner),
        _ => ty_eq(r, ty),
    }
}

/// The part of a name after its last dot.
fn short_part(s: &str) -> (r: &str)
    ensures
        r@ == short_name(s@),
{
    let n = s.unicode_len();
    let mut i: usize = n;
    while i > 0 && s.get_char(i - 1) != '.'
        invariant
            i <= n,
            n == s@.len(),
            last_dot(s@, n as int) == last_dot(s@, i as int),
        decreases i,
    {
        i = i - 1;
    }
    s.substring_char(i, n)
}

/// The declared names so far that end in `name`.
spec fn found_views(found: Seq<String>) -> Seq<Seq<char>> {
    found.map_values(|s: String| s@)
}

/// Adds a declared name to the distinct candidates if it ends in `name`.
#[verifier::loop_isolation(false)]
fn add_candidate(found: &mut Vec<String>, full: &String, name_key: &String, Ghost(name): Ghost<Seq<char>>)
    requires
        name_key@ == lowercase(name),
        forall|i: int, j: int| 0 <= i < j < old(found)@.len() ==> old(found)@[i]@ != old(found)@[j]@,
    ensures
        forall|i: int, j: int| 0 <= i < j < final(found)@.len() ==> final(found)@[i]@ != final(found)@[j]@,
        forall|n: Seq<char>|
            found_views(final(found)@).contains(n) <==> found_views(old(found)@).contains(n) || (n == full@ && ends_in(
                full@,
                name,
            )),
{
    let short_key = key(short_part(full.as_str()));
    if !same_text(short_key.as_str(), name_key.as_str()) {
        return;
    }
    let mut i: usize = 0;
    while i < found.len()
        invariant
            i <= found@.len(),
            forall|j: int| 0 <= j < i ==> found@[j]@ != full@,
        decreases found@.len() - i,
    {
        if same_text(found[i].as_str(), full.as_str()) {
            assert(found_views(found@)[i as int] == full@);
            return;
        }
        i = i + 1;
    }
    let ghost before = found@;
    found.push(full.clone());
    assert forall|n: Seq<char>|
        found_views(found@).contains(n) <==> found_views(before).contains(n) || (n == full@ && ends_in(full@, name)) by {
        if found_views(found@).contains(n) {
            let j = choose|j: int| 0 <= j < found_views(found@).len() && found_views(found@)[j] == n;
            if j < before.len() {
                assert(found_views(before)[j] == n);
            }
        }
        if found_views(before).contains(n) {
            let j = choose|j: int| 0 <= j < found_views(before).len() && found_views(before)[j] == n;
            assert(found_views(found@)[j] == n);
        }
        if n == full@ {
            assert(found_views(found@)[before.len() as int] == n);
        }
    }
}

impl TypeRegistry {
    /// A registry with nothing declared.
    pub fn new() -> (r: TypeRegistry)
        ensures
            r.types.table() == Map::<Seq<char>, TypeSig>::empty(),
            r.enums.table() == Map::<Seq<char>, EnumSig>::empty(),
            r.interfaces.table() == Map::<Seq<char>, InterfaceSig>::empty(),
            r.classes.table() == Map::<Seq<char>, ClassSig>::empty(),
            r.delegates.table() == Map::<Seq<char>, CallableSig>::empty(),
            r.generic_params.table() == Map::<Seq<char>, ()>::empty(),
            r.generic_constraints.table() == Map::<Seq<char>, GenericParamConstraint>::empty(),
            r.import_origins.table() == Map::<Seq<char>, String>::empty(),
            r.ambiguous_imports.table() == Map::<Seq<char>, Vec<String>>::empty(),
    {
        TypeRegistry {
            types: NameMap::new(),
            enums: NameMap::new(),
            interfaces: NameMap::new(),
            classes: NameMap::new(),
            delegates: NameMap::new(),
            generic_params: NameMap::new(),
            generic_constraints: NameMap::new(),
            import_origins: NameMap::new(),
            ambiguous_imports: NameMap::new(),
        }
    }

    /// The first bound of a generic parameter in scope, if it is one and has
    /// a bound.
    pub fn bound_of(&self, name: &str) -> (r: Option<&TypeName>)
        ensures
            match r {
                Some(t) => self.generic_constraints.table().contains_key(lowercase(name@))
                    && self.generic_constraints.table()[lowercase(name@)].bounds@.len() > 0
                    && *t == self.generic_constraints.table()[lowercase(name@)].bounds@[0],
                None => !self.generic_constraints.table().contains_key(lowercase(name@))
                    || self.generic_constraints.table()[lowercase(name@)].bounds@.len() == 0,
            },
    {
        let name_key = key(name);
        match self.generic_constraints.get(name_key.as_str()) {
            Some(constraint) => if constraint.bounds.len() > 0 {
                Some(&constraint.bounds[0])
            } else {
                None
            },
            None => None,
        }
    }

    /// Whether `New T()` is allowed: `Of T As New` says so.
    pub fn can_construct_generic(&self, name: &str) -> (r: bool)
        ensures
            r == (self.generic_constraints.table().contains_key(lowercase(name@))
                && self.generic_constraints.table()[lowercase(name@)].require_new),
    {
        let name_key = key(name);
        match self.generic_constraints.get(name_key.as_str()) {
            Some(constraint) => constraint.require_new,
            None => false,
        }
    }

    /// The `Type` or `Structure` a name denotes, unless it is an ambiguous
    /// import.
    pub fn get(&self, name: &str) -> (r: Option<&TypeSig>)
        ensures
            match r {
                Some(sig) => !hidden(*self, name@) && self.types.table().contains_key(lowercase(name@))
                    && *sig == self.types.table()[lowercase(name@)],
                None => hidden(*self, name@) || !self.types.table().contains_key(lowercase(name@)),
            },
    {
        let name_key = key(name);
        if self.ambiguous_imports.contains_key(name_key.as_str()) {
            return None;
        }
        self.types.get(name_key.as_str())
    }

    /// The class a name denotes, unless it is an ambiguous import.
    pub fn get_class(&self, name: &str) -> (r: Option<&ClassSig>)
        ensures
            match r {
                Some(sig) => !hidden(*self, name@) && self.classes.table().contains_key(lowercase(name@))
                    && *sig == self.classes.table()[lowercase(name@)],
                None => hidden(*self, name@) || !self.classes.table().contains_key(lowercase(name@)),
            },
    {
        let name_key = key(name);
        if self.ambiguous_imports.contains_key(name_key.as_str()) {
            return None;
        }
        self.classes.get(name_key.as_str())
    }

    /// The enum a name denotes, unless it is an ambiguous import.
    pub fn get_enum(&self, name: &str) -> (r: Option<&EnumSig>)
        ensures
            match r {
                Some(sig) => !hidden(*self, name@) && self.enums.table().contains_key(lowercase(name@))
                    && *sig == self.enums.table()[lowercase(name@)],
                None => hidden(*self, name@) || !self.enums.table().contains_key(lowercase(name@)),
            },
    {
        let name_key = key(name);
        if self.ambiguous_imports.contains_key(name_key.as_str()) {
            return None;
        }
        self.enums.get(name_key.as_str())
    }

    /// The interface a name denotes, unless it is an ambiguous import.
    pub fn get_interface(&self, name: &str) -> (r: Option<&InterfaceSig>)
        ensures
            match r {
                Some(sig) => !hidden(*self, name@) && self.interfaces.table().contains_key(lowercase(name@))
                    && *sig == self.interfaces.table()[lowercase(name@)],
                None => hidden(*self, name@) || !self.interfaces.table().contains_key(lowercase(name@)),
            },
    {
        let name_key = key(name);
        if self.ambiguous_imports.contains_key(name_key.as_str()) {
            return None;
        }
        self.interfaces.get(name_key.as_str())
    }
}

impl TypeRegistry {
    /// The one declared type a simple name can mean as a nested type: the
    /// declared names of the types, enums, interfaces and classes whose part
    /// after the last dot is the name, without regard to case, must all be
    /// the same one. A dotted name is not simple.
    pub fn unique_nested_type_name(&self, name: &str) -> (r: Option<String>)
        ensures
            match unique_nested(*self, name@) {
                Some(x) => r matches Some(s) && s@ == x,
                None => r is None,
            },
    {
        if contains_char(name, '.') {
            return None;
        }
        let name_key = key(name);
        let ghost target = name@;
        let mut found: Vec<String> = Vec::new();
        let ghost t = type_names(*self);
        let ghost e = enum_names(*self);
        let ghost f = interface_names(*self);
        let ghost c = class_names(*self);
        let mut i: usize = 0;
        assert(t.subrange(0, 0) =~= Seq::<Seq<char>>::empty());
        while i < self.types.len()
            invariant
                i <= t.len(),
                t == type_names(*self),
                name_key@ == lowercase(target),
                forall|a: int, b: int| 0 <= a < b < found@.len() ==> found@[a]@ != found@[b]@,
                forall|n: Seq<char>|
                    #![trigger found_views(found@).contains(n)]
                    found_views(found@).contains(n) <==> (t.subrange(0, i as int).contains(n) && ends_in(n, target)),
            decreases t.len() - i,
        {
            let entry = self.types.entry(i);
            assert(entry.1.name@ == t[i as int]);
            let ghost before = found@;
            add_candidate(&mut found, &entry.1.name, &name_key, Ghost(target));
            proof {
                lemma_prefix_step(t, i as int);
                assert forall|n: Seq<char>|
                    found_views(found@).contains(n) <==> (t.subrange(0, i + 1).contains(n) && ends_in(n, target)) by {
                    assert(found_views(found@).contains(n) <==> found_views(before).contains(n) || (n == t[i as int]
                        && ends_in(t[i as int], target)));
                    assert(found_views(before).contains(n) <==> (t.subrange(0, i as int).contains(n) && ends_in(n, target)));
                }
            }
            i = i + 1;
        }
        assert(t.subrange(0, t.len() as int) =~= t);
        let mut i: usize = 0;
        assert(e.subrange(0, 0) =~= Seq::<Seq<char>>::empty());
        while i < self.enums.len()
            invariant
                i <= e.len(),
                e == enum_names(*self),
                name_key@ == lowercase(target),
                forall|a: int, b: int| 0 <= a < b < found@.len() ==> found@[a]@ != found@[b]@,
                forall|n: Seq<char>|
                    found_views(found@).contains(n) <==> (t.contains(n) || e.subrange(0, i as int).contains(n)) && ends_in(n, target),
            decreases e.len() - i,
        {
            let entry = self.enums.entry(i);
            assert(entry.1.name@ == e[i as int]);
            add_candidate(&mut found, &entry.1.name, &name_key, Ghost(target));
            proof {
                lemma_prefix_step(e, i as int);
            }
            i = i + 1;
        }
        assert(e.subrange(0, e.len() as int) =~= e);
        let mut i: usize = 0;
        assert(f.subrange(0, 0) =~= Seq::<Seq<char>>::empty());
        while i < self.interfaces.len()
            invariant
                i <= f.len(),
                f == interface_names(*self),
                name_key@ == lowercase(target),
                forall|a: int, b: int| 0 <= a < b < found@.len() ==> found@[a]@ != found@[b]@,
                forall|n: Seq<char>|
                    found_views(found@).contains(n) <==> (t.contains(n) || e.contains(n) || f.subrange(0, i as int).contains(n))
                        && ends_in(n, target),
            decreases f.len() - i,
        {
            let entry = self.interfaces.entry(i);
            assert(entry.1.name@ == f[i as int]);
            add_candidate(&mut found, &entry.1.name, &name_key, Ghost(target));
            proof {
                lemma_prefix_step(f, i as int);
            }
            i = i + 1;
        }
        assert(f.subrange(0, f.len() as int) =~= f);
        let mut i: usize = 0;
        assert(c.subrange(0, 0) =~= Seq::<Seq<char>>::empty());
        while i < self.classes.len()
            invariant
                i <= c.len(),
                c == class_names(*self),
                name_key@ == lowercase(target),
                forall|a: int, b: int| 0 <= a < b < found@.len() ==> found@[a]@ != found@[b]@,
                forall|n: Seq<char>|
                    found_views(found@).contains(n) <==> (t.contains(n) || e.contains(n) || f.contains(n) || c.subrange(
                        0,
                        i as int,
                    ).contains(n)) && ends_in(n, target),
            decreases c.len() - i,
        {
            let entry = self.classes.entry(i);
            assert(entry.1.name@ == c[i as int]);
            add_candidate(&mut found, &entry.1.name, &name_key, Ghost(target));
            proof {
                lemma_prefix_step(c, i as int);
            }
            i = i + 1;
        }
        assert(c.subrange(0, c.len() as int) =~= c);
        let ghost candidates = nested_candidates(*self, target);
        assert forall|n: Seq<char>| found_views(found@).contains(n) <==> candidates.contains(n) by {}
        if found.len() == 1 {
            proof {
                assert(found_views(found@)[0] == found@[0]@);
                assert forall|n: Seq<char>| candidates.contains(n) <==> set![found@[0]@].contains(n) by {
                    if found_views(found@).contains(n) {
                        let j = choose|j: int| 0 <= j < found_views(found@).len() && found_views(found@)[j] == n;
                        assert(j == 0);
                    }
                }
                assert(candidates =~= set![found@[0]@]);
                assert(set![found@[0]@] == set![choose|x: Seq<char>| candidates == set![x]]);
                assert(set![found@[0]@].contains(choose|x: Seq<char>| candidates == set![x]));
            }
            Some(found.remove(0))
        } else {
            proof {
                if exists|x: Seq<char>| candidates == set![x] {
                    let x = choose|x: Seq<char>| candidates == set![x];
                    assert(candidates.contains(x));
                    if found@.len() == 0 {
                        assert(!found_views(found@).contains(x));
                    } else {
                        assert(found_views(found@)[0] == found@[0]@);
                        assert(found_views(found@)[1] == found@[1]@);
                        assert(candidates.contains(found@[0]@));
                        assert(candidates.contains(found@[1]@));
                    }
                }
            }
            None
        }
    }

    /// Whether a name denotes a type of the registry: a type, enum,
    /// interface, class or delegate, or one nested type; an ambiguous import
    /// denotes none.
    pub fn contains(&self, name: &str) -> (r: bool)
        ensures
            r == registry_contains(*self, name@),
    {
        let name_key = key(name);
        if self.ambiguous_imports.contains_key(name_key.as_str()) {
            return false;
        }
        let k = name_key.as_str();
        self.types.contains_key(k) || self.enums.contains_key(k) || self.interfaces.contains_key(k)
            || self.classes.contains_key(k) || self.delegates.contains_key(k) || self.unique_nested_type_name(name).is_some()
    }
}

impl TypeRegistry {
    /// The declared spelling of a written user type name.
    fn canonical_user(&self, name: &str) -> (r: String)
        ensures
            r@ == canonical_user_name(*self, name@),
    {
        let name_key = key(name);
        let k = name_key.as_str();
        if let Some(sig) = self.types.get(k) {
            return sig.name.clone();
        }
        if let Some(sig) = self.classes.get(k) {
            return sig.name.clone();
        }
        if let Some(sig) = self.enums.get(k) {
            return sig.name.clone();
        }
        if let Some(sig) = self.interfaces.get(k) {
            return sig.name.clone();
        }
        if let Some(canonical) = self.unique_nested_type_name(name) {
            return canonical;
        }
        if eq_ignore_ascii_case(name, "Object") {
            return String::from_str("Object");
        }
        if eq_ignore_ascii_case(name, "Collection") {
            return String::from_str("Collection");
        }
        String::from_str(name)
    }

    /// The declared spelling of a written generic type name.
    fn canonical_generic(&self, name: &str) -> (r: String)
        ensures
            r@ == canonical_generic_name(*self, name@),
    {
        let name_key = key(name);
        let k = name_key.as_str();
        if let Some(sig) = self.types.get(k) {
            return sig.name.clone();
        }
        if let Some(sig) = self.classes.get(k) {
            return sig.name.clone();
        }
        if let Some(sig) = self.interfaces.get(k) {
            return sig.name.clone();
        }
        String::from_str(name)
    }

    /// A type with every user type name in it, at any depth of generic
    /// arguments and array elements, spelled as declared.
    pub fn canonical_type_name(&self, ty: &TypeName) -> (r: TypeName)
        ensures
            canonical_form(*self, *ty, r),
        decreases ty,
    {
        match ty {
            TypeName::User(name) => TypeName::User(self.canonical_user(name.as_str())),
            TypeName::GenericInstance { name, args } => {
                let canonical_name = self.canonical_generic(name.as_str());
                let mut out: Vec<TypeName> = Vec::new();
                let mut i: usize = 0;
                while i < args.len()
                    invariant
                        *ty == (TypeName::GenericInstance { name: *name, args: *args }),
                        i <= args@.len(),
                        out@.len() == i,
                        forall|j: int| 0 <= j < i ==> canonical_form(*self, #[trigger] args@[j], out@[j]),
                    decreases args@.len() - i,
                {
                    proof {
                        assert(decreases_to!(*ty => (*ty)->args));
                        vstd::std_specs::vec::axiom_vec_index_decreases(*args, i as int);
                    }
                    out.push(self.canonical_type_name(&args[i]));
                    i = i + 1;
                }
                TypeName::GenericInstance { name: canonical_name, args: out }
            },
            TypeName::Array(inner) => TypeName::Array(Box::new(self.canonical_type_name(inner))),
            _ => ty.duplicate(),
        }
    }
}

} // verus!
