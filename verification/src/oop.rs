//! The inheritance rules of class declarations: what `MustOverride`,
//! `Overrides` and `Shadows` members require of the classes they inherit
//! from, and of the classes that inherit them.
use vstd::prelude::*;

use crate::ast::{ClassDecl, ClassInheritance, ClassMember, OverrideKind, Program};
use crate::diagnostics::{Diagnostic, DiagnosticCode, Span};
use crate::name_map::NameMap;
use crate::text::{eq_ignore_ascii_case, key, lowercase, push_str, same_ignoring_ascii_case, same_text};
use crate::type_model::TypeName;
use crate::types::TypeRegistry;

verus! {

/// What a member declares about inheritance: its name, how it overrides,
/// where it stands and whether it has a body. Only `Sub`, `Function` and
/// `Property` members declare anything.
pub open spec fn oop_info(m: ClassMember) -> Option<(Seq<char>, OverrideKind, Span, bool)> {
    match m {
        ClassMember::Sub(x) => Some((x.name@, x.override_kind, x.span, x.body@.len() > 0)),
        ClassMember::Function(x) => Some((x.name@, x.override_kind, x.span, x.body@.len() > 0)),
        ClassMember::Property(x) => Some((x.name@, x.override_kind, x.span, x.body@.len() > 0)),
        _ => None,
    }
}

/// The class a lower-case name refers to: the last declared class whose
/// name has that lower-case form.
pub open spec fn class_index(classes: Seq<ClassDecl>, k: Seq<char>) -> Option<int>
    decreases classes.len(),
{
    if classes.len() == 0 {
        None
    } else if lowercase(classes.last().name@) == k {
        Some(classes.len() - 1)
    } else {
        class_index(classes.drop_last(), k)
    }
}

/// The lower-case name of a base class, where the base is named as a plain
/// user type.
pub open spec fn base_key(base: Option<TypeName>) -> Option<Seq<char>> {
    match base {
        Some(TypeName::User(b)) => Some(lowercase(b@)),
        _ => None,
    }
}

/// Whether the chain of base classes from the class named `k` ends within
/// `fuel` steps: at a class without a plain base, or at a name that no class
/// of the program declares.
pub open spec fn chain_from(classes: Seq<ClassDecl>, k: Seq<char>, fuel: nat) -> bool
    decreases fuel,
{
    match class_index(classes, k) {
        None => true,
        Some(i) => match base_key(classes[i].base_class) {
            None => true,
            Some(b) => if fuel == 0 {
                false
            } else {
                chain_from(classes, b, (fuel - 1) as nat)
            },
        },
    }
}

/// Whether the chain of base classes from `base` ends within `fuel` steps.
pub open spec fn chain_ends(classes: Seq<ClassDecl>, base: Option<TypeName>, fuel: nat) -> bool {
    match base_key(base) {
        None => true,
        Some(k) => chain_from(classes, k, fuel),
    }
}

/// Whether no class of the program inherits, directly or not, from itself
/// through plainly named base classes.
pub open spec fn bases_end(classes: Seq<ClassDecl>) -> bool {
    forall|i: int| #![trigger classes[i]] 0 <= i < classes.len() ==> exists|f: nat| #[trigger] chain_ends(classes, classes[i].base_class, f)
}

/// A number of steps within which the chain from `base` ends.
pub open spec fn base_fuel(classes: Seq<ClassDecl>, base: Option<TypeName>) -> nat {
    choose|f: nat| chain_ends(classes, base, f)
}

/// The inherited `MustOverride` members still open after one member: a
/// `MustOverride` member opens its name, an `Overrides` or `Shadows` member
/// closes it.
pub open spec fn apply_member(r: Map<Seq<char>, Span>, m: ClassMember) -> Map<Seq<char>, Span> {
    match oop_info(m) {
        Some((n, kind, s, _)) => if kind == OverrideKind::MustOverride {
            r.insert(lowercase(n), s)
        } else if kind == OverrideKind::Overrides || kind == OverrideKind::Shadows {
            r.remove(lowercase(n))
        } else {
            r
        },
        None => r,
    }
}

/// The open members after a list of members, in order.
pub open spec fn apply_members(r: Map<Seq<char>, Span>, members: Seq<ClassMember>) -> Map<Seq<char>, Span>
    decreases members.len(),
{
    if members.len() == 0 {
        r
    } else {
        apply_member(apply_members(r, members.drop_last()), members.last())
    }
}

/// The open members after the class named `k` and its bases, the most
/// distant base first, starting from `r`.
pub open spec fn collected(classes: Seq<ClassDecl>, k: Seq<char>, fuel: nat, r: Map<Seq<char>, Span>) -> Map<
    Seq<char>,
    Span,
>
    decreases fuel,
{
    match class_index(classes, k) {
        None => r,
        Some(i) => {
            let before = match base_key(classes[i].base_class) {
                None => r,
                Some(b) => if fuel == 0 {
                    r
                } else {
                    collected(classes, b, (fuel - 1) as nat, r)
                },
            };
            apply_members(before, classes[i].members@)
        },
    }
}

/// The `MustOverride` members that a class with this base inherits and
/// that no class of the chain overrides or shadows, each with where it was
/// declared, by lower-case name.
pub open spec fn inherited_required(classes: Seq<ClassDecl>, base: Option<TypeName>, fuel: nat) -> Map<
    Seq<char>,
    Span,
> {
    match base_key(base) {
        None => Map::empty(),
        Some(k) => collected(classes, k, fuel, Map::empty()),
    }
}

/// How the first member named `n` (without regard to ASCII case) among
/// `members` overrides, if one is.
pub open spec fn first_member_kind(members: Seq<ClassMember>, n: Seq<char>) -> Option<OverrideKind>
    decreases members.len(),
{
    if members.len() == 0 {
        None
    } else {
        match oop_info(members[0]) {
            Some((m, kind, _, _)) => if same_ignoring_ascii_case(m, n) {
                Some(kind)
            } else {
                first_member_kind(members.drop_first(), n)
            },
            None => first_member_kind(members.drop_first(), n),
        }
    }
}

/// How the nearest member named `n` in the class named `k` or its bases
/// overrides.
pub open spec fn base_member_from(classes: Seq<ClassDecl>, k: Seq<char>, n: Seq<char>, fuel: nat) -> Option<
    OverrideKind,
>
    decreases fuel,
{
    match class_index(classes, k) {
        None => None,
        Some(i) => match first_member_kind(classes[i].members@, n) {
            Some(kind) => Some(kind),
            None => match base_key(classes[i].base_class) {
                None => None,
                Some(b) => if fuel == 0 {
                    None
                } else {
                    base_member_from(classes, b, n, (fuel - 1) as nat)
                },
            },
        },
    }
}

/// How the nearest member named `n` among the bases from `base` overrides.
pub open spec fn base_member_kind(classes: Seq<ClassDecl>, base: Option<TypeName>, n: Seq<char>, fuel: nat) -> Option<
    OverrideKind,
> {
    match base_key(base) {
        None => None,
        Some(k) => base_member_from(classes, k, n, fuel),
    }
}

/// Whether a base member may be overridden.
pub open spec fn overridable(kind: OverrideKind) -> bool {
    kind == OverrideKind::Overridable || kind == OverrideKind::Overrides || kind == OverrideKind::MustOverride
}

/// Why a class is rejected, and where.
pub struct OopFailure {
    pub code: DiagnosticCode,
    pub message: Seq<char>,
    pub span: Span,
}

/// Whether a diagnostic reports this failure.
pub open spec fn reports_oop(d: Diagnostic, f: OopFailure) -> bool {
    &&& d.code == f.code
    &&& d.message@ == f.message
    &&& d.span == Some(f.span)
    &&& d.help is None
}

/// What one member of class `c` does to the open inherited members, or why
/// it is rejected.
pub open spec fn member_step(
    classes: Seq<ClassDecl>,
    c: ClassDecl,
    fuel: nat,
    r: Map<Seq<char>, Span>,
    m: ClassMember,
) -> Result<Map<Seq<char>, Span>, OopFailure> {
    match oop_info(m) {
        None => Ok(r),
        Some((n, kind, s, body)) => if kind == OverrideKind::MustOverride && c.inheritance
            != ClassInheritance::MustInherit {
            Err(
                OopFailure {
                    code: DiagnosticCode::TypeMismatch,
                    message: "MustOverride member '"@ + n + "' requires MustInherit class '"@ + c.name@ + "'"@,
                    span: s,
                },
            )
        } else if kind == OverrideKind::MustOverride && body {
            Err(
                OopFailure {
                    code: DiagnosticCode::TypeMismatch,
                    message: "MustOverride member '"@ + n + "' cannot have a body"@,
                    span: s,
                },
            )
        } else if kind == OverrideKind::Overrides {
            match base_member_kind(classes, c.base_class, n, fuel) {
                None => Err(
                    OopFailure {
                        code: DiagnosticCode::MemberAccess,
                        message: "Method '"@ + n + "' cannot override because no base member is defined"@,
                        span: s,
                    },
                ),
                Some(b) => if overridable(b) {
                    Ok(r.remove(lowercase(n)))
                } else {
                    Err(
                        OopFailure {
                            code: DiagnosticCode::MemberAccess,
                            message: "Method '"@ + n
                                + "' cannot override because the base member is not marked Overridable"@,
                            span: s,
                        },
                    )
                },
            }
        } else if kind == OverrideKind::Shadows {
            Ok(r.remove(lowercase(n)))
        } else {
            Ok(r)
        },
    }
}

/// The members of class `c` checked in order, from the open members `r`.
pub open spec fn scan_members(
    classes: Seq<ClassDecl>,
    c: ClassDecl,
    fuel: nat,
    r: Map<Seq<char>, Span>,
    members: Seq<ClassMember>,
) -> Result<Map<Seq<char>, Span>, OopFailure>
    decreases members.len(),
{
    if members.len() == 0 {
        Ok(r)
    } else {
        match scan_members(classes, c, fuel, r, members.drop_last()) {
            Err(f) => Err(f),
            Ok(t) => member_step(classes, c, fuel, t, members.last()),
        }
    }
}

/// The outcome of the inheritance rules for one class.
pub enum ClassVerdict {
    Accepted,
    Rejected(OopFailure),
    /// A class that is not `MustInherit` leaves these inherited
    /// `MustOverride` members open; the class's name comes first.
    Unoverridden(Seq<char>, Map<Seq<char>, Span>),
}

/// What the inheritance rules say of class `c`.
pub open spec fn class_verdict(classes: Seq<ClassDecl>, c: ClassDecl) -> ClassVerdict {
    let fuel = base_fuel(classes, c.base_class);
    match scan_members(classes, c, fuel, inherited_required(classes, c.base_class, fuel), c.members@) {
        Err(f) => ClassVerdict::Rejected(f),
        Ok(r) => if c.inheritance != ClassInheritance::MustInherit && r != Map::<Seq<char>, Span>::empty() {
            ClassVerdict::Unoverridden(c.name@, r)
        } else {
            ClassVerdict::Accepted
        },
    }
}

/// The verdict on the first class from position `i` on that is not
/// accepted, or acceptance.
pub open spec fn oop_outcome(classes: Seq<ClassDecl>, i: int) -> ClassVerdict
    decreases classes.len() - i,
{
    if i < 0 || i >= classes.len() {
        ClassVerdict::Accepted
    } else {
        match class_verdict(classes, classes[i]) {
            ClassVerdict::Accepted => oop_outcome(classes, i + 1),
            v => v,
        }
    }
}

/// Whether a diagnostic names one of the open members of a class.
pub open spec fn reports_unoverridden(d: Diagnostic, class_name: Seq<char>, open: Map<Seq<char>, Span>) -> bool {
    &&& d.code == DiagnosticCode::TypeMismatch
    &&& d.help is None
    &&& exists|k: Seq<char>|
        #[trigger] open.contains_key(k) && d.message@ == "Class '"@ + class_name
            + "' must override inherited MustOverride member '"@ + k + "'"@ && d.span == Some(open[k])
}

proof fn lemma_class_index(classes: Seq<ClassDecl>, k: Seq<char>)
    ensures
        match class_index(classes, k) {
            Some(i) => 0 <= i < classes.len() && lowercase(classes[i].name@) == k,
            None => true,
        },
    decreases classes.len(),
{
    if classes.len() > 0 && lowercase(classes.last().name@) != k {
        lemma_class_index(classes.drop_last(), k);
    }
}

/// The name, override kind, place and body presence of a member, where it
/// declares them.
fn class_member_oop_info(member: &ClassMember) -> (r: Option<(String, OverrideKind, Span, bool)>)
    ensures
        match r {
            Some((n, kind, s, body)) => oop_info(*member) == Some((n@, kind, s, body)),
            None => oop_info(*member) is None,
        },
{
    match member {
        ClassMember::Sub(x) => Some((x.name.clone(), x.override_kind, x.span, x.body.len() > 0)),
        ClassMember::Function(x) => Some((x.name.clone(), x.override_kind, x.span, x.body.len() > 0)),
        ClassMember::Property(x) => Some((x.name.clone(), x.override_kind, x.span, x.body.len() > 0)),
        _ => None,
    }
}

/// The position of the class a lower-case name refers to.
fn find_class(classes: &Vec<ClassDecl>, k: &str) -> (r: Option<usize>)
    ensures
        match r {
            Some(i) => i < classes@.len() && class_index(classes@, k@) == Some(i as int),
            None => class_index(classes@, k@) is None,
        },
{
    let mut i = classes.len();
    assert(classes@.take(i as int) =~= classes@);
    while i > 0
        invariant
            i <= classes@.len(),
            class_index(classes@, k@) == class_index(classes@.take(i as int), k@),
        decreases i,
    {
        let class_key = key(classes[i - 1].name.as_str());
        assert(classes@.take(i as int).last() == classes@[i - 1]);
        if same_text(class_key.as_str(), k) {
            return Some(i - 1);
        }
        assert(classes@.take(i as int).drop_last() =~= classes@.take(i - 1));
        i = i - 1;
    }
    None
}

/// How the first member named `name` among `members` overrides.
fn first_member_with_name(members: &Vec<ClassMember>, name: &str) -> (r: Option<OverrideKind>)
    ensures
        r == first_member_kind(members@, name@),
{
    let mut j: usize = 0;
    assert(members@.skip(0) =~= members@);
    while j < members.len()
        invariant
            j <= members@.len(),
            first_member_kind(members@, name@) == first_member_kind(members@.skip(j as int), name@),
        decreases members@.len() - j,
    {
        assert(members@.skip(j as int)[0] == members@[j as int]);
        assert(members@.skip(j as int).drop_first() =~= members@.skip(j + 1));
        if let Some((n, kind, _, _)) = class_member_oop_info(&members[j]) {
            if eq_ignore_ascii_case(n.as_str(), name) {
                return Some(kind);
            }
        }
        j = j + 1;
    }
    assert(members@.skip(j as int) =~= Seq::<ClassMember>::empty());
    None
}

/// How the nearest member named `member_name` among the bases of a class
/// overrides: the bases are searched from the nearest, and the search stops
/// at a base that no class of the program declares.
fn find_base_member_info(
    class_decl: &ClassDecl,
    member_name: &str,
    classes: &Vec<ClassDecl>,
    Ghost(fuel): Ghost<nat>,
) -> (r: Option<OverrideKind>)
    requires
        chain_ends(classes@, class_decl.base_class, fuel),
    ensures
        r == base_member_kind(classes@, class_decl.base_class, member_name@, fuel),
{
    let mut current: &Option<TypeName> = &class_decl.base_class;
    let ghost mut f = fuel;
    loop
        invariant
            chain_ends(classes@, *current, f),
            base_member_kind(classes@, class_decl.base_class, member_name@, fuel) == base_member_kind(
                classes@,
                *current,
                member_name@,
                f,
            ),
        decreases f,
    {
        match current {
            Some(TypeName::User(base_name)) => {
                let base_key_text = key(base_name.as_str());
                match find_class(classes, base_key_text.as_str()) {
                    None => {
                        return None;
                    },
                    Some(i) => {
                        let base_decl = &classes[i];
                        if let Some(kind) = first_member_with_name(&base_decl.members, member_name) {
                            return Some(kind);
                        }
                        match &base_decl.base_class {
                            Some(TypeName::User(_)) => {},
                            _ => {
                                return None;
                            },
                        }
                        current = &base_decl.base_class;
                        proof {
                            f = (f - 1) as nat;
                        }
                    },
                }
            },
            _ => {
                return None;
            },
        }
    }
}

/// Applies the members of one class to the open inherited members.
fn apply_class_members(members: &Vec<ClassMember>, required: &mut NameMap<Span>)
    ensures
        final(required).table() == apply_members(old(required).table(), members@),
{
    let ghost start = required.table();
    let mut j: usize = 0;
    assert(members@.take(0) =~= Seq::<ClassMember>::empty());
    while j < members.len()
        invariant
            j <= members@.len(),
            required.table() == apply_members(start, members@.take(j as int)),
        decreases members@.len() - j,
    {
        assert(members@.take(j + 1).drop_last() =~= members@.take(j as int));
        assert(members@.take(j + 1).last() == members@[j as int]);
        if let Some((name, kind, span, _)) = class_member_oop_info(&members[j]) {
            if kind == OverrideKind::MustOverride {
                required.insert(key(name.as_str()), span);
            } else if kind == OverrideKind::Overrides || kind == OverrideKind::Shadows {
                let k = key(name.as_str());
                required.remove(k.as_str());
            }
        }
        j = j + 1;
    }
    assert(members@.take(j as int) =~= members@);
}

/// Adds to `required` the `MustOverride` members of the class named
/// `class_name` and its bases, most distant base first, and removes those
/// that a later class of the chain overrides or shadows.
fn collect_must_override_members(
    class_name: &str,
    classes: &Vec<ClassDecl>,
    required: &mut NameMap<Span>,
    Ghost(fuel): Ghost<nat>,
)
    requires
        chain_from(classes@, lowercase(class_name@), fuel),
    ensures
        final(required).table() == collected(classes@, lowercase(class_name@), fuel, old(required).table()),
    decreases fuel,
{
    let k = key(class_name);
    let i = match find_class(classes, k.as_str()) {
        Some(i) => i,
        None => {
            return ;
        },
    };
    let class_decl = &classes[i];
    if let Some(TypeName::User(base_name)) = &class_decl.base_class {
        collect_must_override_members(base_name.as_str(), classes, required, Ghost((fuel - 1) as nat));
    }
    apply_class_members(&class_decl.members, required);
}

/// The diagnostic for a rejected member: `head`, the member's name, `tail`.
fn member_error(code: DiagnosticCode, head: &str, name: &str, tail: &str, span: Span) -> (d: Diagnostic)
    ensures
        reports_oop(d, OopFailure { code, message: head@ + name@ + tail@, span }),
{
    let mut message = String::new();
    push_str(&mut message, head);
    push_str(&mut message, name);
    push_str(&mut message, tail);
    Diagnostic::new(code, message, Some(span))
}

/// Checks one member of a class against the inheritance rules, and closes
/// the inherited `MustOverride` member it overrides or shadows.
fn check_member(
    classes: &Vec<ClassDecl>,
    class_decl: &ClassDecl,
    member: &ClassMember,
    required: &mut NameMap<Span>,
    Ghost(fuel): Ghost<nat>,
) -> (r: Result<(), Diagnostic>)
    requires
        chain_ends(classes@, class_decl.base_class, fuel),
    ensures
        match member_step(classes@, *class_decl, fuel, old(required).table(), *member) {
            Ok(t) => r is Ok && final(required).table() == t,
            Err(f) => r matches Err(d) && reports_oop(d, f),
        },
{
    let (member_name, override_kind, span, has_body) = match class_member_oop_info(member) {
        Some(info) => info,
        None => {
            return Ok(());
        },
    };
    if override_kind == OverrideKind::MustOverride {
        if class_decl.inheritance != ClassInheritance::MustInherit {
            let mut message = String::new();
            push_str(&mut message, "MustOverride member '");
            push_str(&mut message, member_name.as_str());
            push_str(&mut message, "' requires MustInherit class '");
            push_str(&mut message, class_decl.name.as_str());
            push_str(&mut message, "'");
            assert(message@ == "MustOverride member '"@ + member_name@ + "' requires MustInherit class '"@
                + class_decl.name@ + "'"@);
            return Err(Diagnostic::new(DiagnosticCode::TypeMismatch, message, Some(span)));
        }
        if has_body {
            return Err(
                member_error(
                    DiagnosticCode::TypeMismatch,
                    "MustOverride member '",
                    member_name.as_str(),
                    "' cannot have a body",
                    span,
                ),
            );
        }
    }
    if override_kind == OverrideKind::Overrides {
        let base_member = match find_base_member_info(class_decl, member_name.as_str(), classes, Ghost(fuel)) {
            Some(kind) => kind,
            None => {
                return Err(
                    member_error(
                        DiagnosticCode::MemberAccess,
                        "Method '",
                        member_name.as_str(),
                        "' cannot override because no base member is defined",
                        span,
                    ),
                );
            },
        };
        if !(base_member == OverrideKind::Overridable || base_member == OverrideKind::Overrides || base_member
            == OverrideKind::MustOverride) {
            return Err(
                member_error(
                    DiagnosticCode::MemberAccess,
                    "Method '",
                    member_name.as_str(),
                    "' cannot override because the base member is not marked Overridable",
                    span,
                ),
            );
        }
        let k = key(member_name.as_str());
        required.remove(k.as_str());
    } else if override_kind == OverrideKind::Shadows {
        let k = key(member_name.as_str());
        required.remove(k.as_str());
    }
    Ok(())
}

/// Checks one class against the inheritance rules.
fn check_class(classes: &Vec<ClassDecl>, class_decl: &ClassDecl) -> (r: Result<(), Diagnostic>)
    requires
        exists|f: nat| chain_ends(classes@, class_decl.base_class, f),
    ensures
        match class_verdict(classes@, *class_decl) {
            ClassVerdict::Accepted => r is Ok,
            ClassVerdict::Rejected(f) => r matches Err(d) && reports_oop(d, f),
            ClassVerdict::Unoverridden(name, open) => r matches Err(d) && reports_unoverridden(d, name, open),
        },
{
    let ghost fuel = base_fuel(classes@, class_decl.base_class);
    let mut required: NameMap<Span> = NameMap::new();
    if let Some(TypeName::User(base_name)) = &class_decl.base_class {
        collect_must_override_members(base_name.as_str(), classes, &mut required, Ghost(fuel));
    }
    let ghost start = required.table();
    assert(start == inherited_required(classes@, class_decl.base_class, fuel));
    let members = &class_decl.members;
    let mut j: usize = 0;
    assert(members@.take(0) =~= Seq::<ClassMember>::empty());
    while j < members.len()
        invariant
            j <= members@.len(),
            chain_ends(classes@, class_decl.base_class, fuel),
            members == &class_decl.members,
            fuel == base_fuel(classes@, class_decl.base_class),
            start == inherited_required(classes@, class_decl.base_class, fuel),
            scan_members(classes@, *class_decl, fuel, start, members@.take(j as int)) == Ok::<
                Map<Seq<char>, Span>,
                OopFailure,
            >(required.table()),
        decreases members@.len() - j,
    {
        assert(members@.take(j + 1).drop_last() =~= members@.take(j as int));
        assert(members@.take(j + 1).last() == members@[j as int]);
        let ghost before = required.table();
        match check_member(classes, class_decl, &members[j], &mut required, Ghost(fuel)) {
            Ok(()) => {},
            Err(d) => {
                let ghost step = member_step(classes@, *class_decl, fuel, before, members@[j as int]);
                assert(scan_members(classes@, *class_decl, fuel, start, members@.take(j + 1)) == step);
                proof {
                    lemma_scan_stays_failed(classes@, *class_decl, fuel, start, members@, j + 1);
                }
                assert(scan_members(classes@, *class_decl, fuel, start, class_decl.members@) == step);
                assert(reports_oop(d, step->Err_0));
                return Err(d);
            },
        }
        j = j + 1;
    }
    assert(members@.take(j as int) =~= members@);
    if class_decl.inheritance != ClassInheritance::MustInherit {
        if let Some(entry) = required.first() {
            let mut message = String::new();
            push_str(&mut message, "Class '");
            push_str(&mut message, class_decl.name.as_str());
            push_str(&mut message, "' must override inherited MustOverride member '");
            push_str(&mut message, entry.0.as_str());
            push_str(&mut message, "'");
            let d = Diagnostic::new(DiagnosticCode::TypeMismatch, message, Some(entry.1));
            assert(required.table() != Map::<Seq<char>, Span>::empty()) by {
                assert(!Map::<Seq<char>, Span>::empty().contains_key(entry.0@));
            }
            assert(required.table().contains_key(entry.0@));
            return Err(d);
        }
    }
    Ok(())
}

/// Once the members up to `j` fail, the whole list fails the same way.
proof fn lemma_scan_stays_failed(
    classes: Seq<ClassDecl>,
    c: ClassDecl,
    fuel: nat,
    r: Map<Seq<char>, Span>,
    members: Seq<ClassMember>,
    j: int,
)
    requires
        0 <= j <= members.len(),
        scan_members(classes, c, fuel, r, members.take(j)) is Err,
    ensures
        scan_members(classes, c, fuel, r, members) == scan_members(classes, c, fuel, r, members.take(j)),
    decreases members.len() - j,
{
    if j < members.len() {
        assert(members.take(j + 1).drop_last() =~= members.take(j));
        lemma_scan_stays_failed(classes, c, fuel, r, members, j + 1);
    } else {
        assert(members.take(j) =~= members);
    }
}

/// Checks the inheritance rules of every class of a program, in order:
/// a `MustOverride` member stands only in a `MustInherit` class and has no
/// body; an `Overrides` member has a base member of the same name that is
/// `Overridable`, `Overrides` or `MustOverride`; and a class that is not
/// `MustInherit` overrides or shadows every `MustOverride` member it
/// inherits. The first class that breaks a rule is reported.
pub fn validate_oop_semantics(program: &Program, _registry: &TypeRegistry) -> (r: Result<(), Diagnostic>)
    requires
        bases_end(program.classes@),
    ensures
        match oop_outcome(program.classes@, 0) {
            ClassVerdict::Accepted => r is Ok,
            ClassVerdict::Rejected(f) => r matches Err(d) && reports_oop(d, f),
            ClassVerdict::Unoverridden(name, open) => r matches Err(d) && reports_unoverridden(d, name, open),
        },
{
    let classes = &program.classes;
    let mut i: usize = 0;
    while i < classes.len()
        invariant
            i <= classes@.len(),
            classes == &program.classes,
            bases_end(classes@),
            oop_outcome(classes@, 0) == oop_outcome(classes@, i as int),
        decreases classes@.len() - i,
    {
        assert(exists|f: nat| chain_ends(classes@, classes@[i as int].base_class, f));
        match check_class(classes, &classes[i]) {
            Ok(()) => {},
            Err(d) => {
                return Err(d);
            },
        }
        i = i + 1;
    }
    Ok(())
}

/// An accepted program breaks none of the inheritance rules: every class is
/// accepted, so each of its `MustOverride` members stands in a
/// `MustInherit` class and has no body, each of its `Overrides` members has
/// an overridable base member, and, unless it is `MustInherit`, it leaves no
/// inherited `MustOverride` member open.
pub proof fn lemma_accepted_program_keeps_the_rules(classes: Seq<ClassDecl>, i: int)
    requires
        bases_end(classes),
        oop_outcome(classes, 0) is Accepted,
        0 <= i < classes.len(),
    ensures
        class_verdict(classes, classes[i]) is Accepted,
        forall|j: int|
            0 <= j < classes[i].members@.len() ==> match #[trigger] oop_info(classes[i].members@[j]) {
                Some((n, kind, _, body)) => (kind == OverrideKind::MustOverride ==> classes[i].inheritance
                    == ClassInheritance::MustInherit && !body) && (kind == OverrideKind::Overrides ==> exists|
                    b: OverrideKind,
                | base_member_kind(classes, classes[i].base_class, n, base_fuel(classes, classes[i].base_class))
                    == Some(b) && overridable(b)),
                None => true,
            },
{
    lemma_outcome_accepted_from(classes, 0, i);
    let c = classes[i];
    let fuel = base_fuel(classes, c.base_class);
    let start = inherited_required(classes, c.base_class, fuel);
    assert forall|j: int| 0 <= j < c.members@.len() implies match #[trigger] oop_info(c.members@[j]) {
        Some((n, kind, _, body)) => (kind == OverrideKind::MustOverride ==> c.inheritance
            == ClassInheritance::MustInherit && !body) && (kind == OverrideKind::Overrides ==> exists|
            b: OverrideKind,
        | base_member_kind(classes, c.base_class, n, fuel) == Some(b) && overridable(b)),
        None => true,
    } by {
        lemma_scan_prefix_ok(classes, c, fuel, start, c.members@, j + 1);
        assert(c.members@.take(j + 1).drop_last() =~= c.members@.take(j));
        assert(c.members@.take(j + 1).last() == c.members@[j]);
        if let Some((n, kind, _, _)) = oop_info(c.members@[j]) {
            if kind == OverrideKind::Overrides {
                let b = base_member_kind(classes, c.base_class, n, fuel)->0;
                assert(base_member_kind(classes, c.base_class, n, fuel) == Some(b) && overridable(b));
            }
        }
    }
}

/// An `Overrides` member is judged by the nearest base member of its name
/// alone: it is accepted, and closes that inherited member, when the base
/// member is `Overridable`, `MustOverride` or itself `Overrides` (so chains
/// of overrides of any length are accepted); it is rejected when the base
/// member is plain, `NotOverridable` or `Shadows`, and when there is none.
pub proof fn lemma_overrides_judged_by_nearest_base(
    classes: Seq<ClassDecl>,
    c: ClassDecl,
    fuel: nat,
    r: Map<Seq<char>, Span>,
    m: ClassMember,
    n: Seq<char>,
    s: Span,
    body: bool,
)
    requires
        oop_info(m) == Some((n, OverrideKind::Overrides, s, body)),
    ensures
        (base_member_kind(classes, c.base_class, n, fuel) matches Some(b) && (b == OverrideKind::Overridable || b
            == OverrideKind::Overrides || b == OverrideKind::MustOverride)) ==> member_step(classes, c, fuel, r, m)
            == Ok::<Map<Seq<char>, Span>, OopFailure>(r.remove(lowercase(n))),
        (base_member_kind(classes, c.base_class, n, fuel) matches Some(b) && (b == OverrideKind::Plain || b
            == OverrideKind::NotOverridable || b == OverrideKind::Shadows)) ==> (member_step(classes, c, fuel, r, m) matches Err(f)
            && f.code == DiagnosticCode::MemberAccess && f.span == s && f.message == "Method '"@ + n
            + "' cannot override because the base member is not marked Overridable"@),
        base_member_kind(classes, c.base_class, n, fuel) is None ==> (member_step(classes, c, fuel, r, m) matches Err(f)
            && f.code == DiagnosticCode::MemberAccess && f.span == s && f.message == "Method '"@ + n
            + "' cannot override because no base member is defined"@),
{
}

/// Every class from position `i` up to the end is accepted once the
/// outcome from `i` is acceptance.
proof fn lemma_outcome_accepted_from(classes: Seq<ClassDecl>, i: int, j: int)
    requires
        0 <= i <= j < classes.len(),
        oop_outcome(classes, i) is Accepted,
    ensures
        class_verdict(classes, classes[j]) is Accepted,
    decreases j - i,
{
    if i < j {
        lemma_outcome_accepted_from(classes, i + 1, j);
    }
}

/// When the whole list of members passes, so does each prefix.
proof fn lemma_scan_prefix_ok(
    classes: Seq<ClassDecl>,
    c: ClassDecl,
    fuel: nat,
    r: Map<Seq<char>, Span>,
    members: Seq<ClassMember>,
    j: int,
)
    requires
        0 <= j <= members.len(),
        scan_members(classes, c, fuel, r, members) is Ok,
    ensures
        scan_members(classes, c, fuel, r, members.take(j)) is Ok,
    decreases members.len() - j,
{
    if j == members.len() {
        assert(members.take(j) =~= members);
    } else {
        lemma_scan_prefix_ok(classes, c, fuel, r, members, j + 1);
        assert(members.take(j + 1).drop_last() =~= members.take(j));
    }
}

} // verus!
