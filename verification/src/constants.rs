//! Which expressions may initialize a constant: literals, other constants,
//! enum members, and operators over those.
use vstd::prelude::*;

use crate::ast::{BinaryOp, ConstDecl, EnumDecl, EnumMemberDecl, Expr, ExprKind, UnaryOp};
use crate::diagnostics::{Diagnostic, DiagnosticCode, Span};
use crate::name_map::NameMap;
use crate::symbols::VarType;
use crate::text::{key, lowercase, push_str};
use crate::type_rules::{enum_member_value_type, names_enum_member};
use crate::types::{hidden, EnumSig, TypeRegistry, TypeSig};

verus! {

/// Whether `field` names a member of the enum `enum_name`, names compared
/// without regard to case.
pub open spec fn enum_has_member(types: TypeRegistry, enum_name: Seq<char>, field: Seq<char>) -> bool {
    &&& !hidden(types, enum_name)
    &&& types.enums.table().contains_key(lowercase(enum_name))
    &&& types.enums.table()[lowercase(enum_name)].members.table().contains_key(lowercase(field))
}

/// Whether a name in scope is a constant.
pub open spec fn names_const(symbols: NameMap<VarType>, name: Seq<char>) -> bool {
    symbols.table().contains_key(lowercase(name)) && symbols.table()[lowercase(name)] is Const
}

/// Where the first part of an expression stands that is not a compile-time
/// constant, looking left to right, if any part is not.
pub open spec fn const_failure(e: Expr, symbols: NameMap<VarType>, types: TypeRegistry) -> Option<Span>
    decreases e,
{
    match e.kind {
        ExprKind::String(_) | ExprKind::Integer(_) | ExprKind::Long(_) | ExprKind::LongLong(_) | ExprKind::Single(_)
        | ExprKind::Double(_) | ExprKind::Currency(_) | ExprKind::Decimal(_) | ExprKind::Boolean(_)
        | ExprKind::DateLiteral(_) | ExprKind::Empty | ExprKind::Null => None,
        ExprKind::Variable(n) => if names_const(symbols, n@) || names_enum_member(types, n@) {
            None
        } else {
            Some(e.span)
        },
        ExprKind::MemberAccess { object, field, .. } => match object.kind {
            ExprKind::Variable(en) => if enum_has_member(types, en@, field@) {
                None
            } else {
                Some(e.span)
            },
            _ => Some(e.span),
        },
        ExprKind::Unary { expr, .. } => const_failure(*expr, symbols, types),
        ExprKind::PassingModeOverride { expr, .. } => const_failure(*expr, symbols, types),
        ExprKind::Binary { left, right, .. } => match const_failure(*left, symbols, types) {
            Some(s) => Some(s),
            None => const_failure(*right, symbols, types),
        },
        _ => Some(e.span),
    }
}

fn not_constant(span: Span) -> (d: Diagnostic)
    ensures
        d.code == DiagnosticCode::TypeMismatch,
        d.message@ == "Const initializer must be a compile-time constant"@,
        d.span == Some(span),
        d.help is None,
        d.label is None,
{
    let mut message = String::new();
    push_str(&mut message, "Const initializer must be a compile-time constant");
    Diagnostic::new(DiagnosticCode::TypeMismatch, message, Some(span))
}

/// Checks that an expression is a compile-time constant: a literal, a
/// constant in scope, an enum member (bare or as `Enum.Member`), or a unary
/// or binary operator over those. Anything else is reported where the
/// first offending part stands.
pub fn ensure_const_expr(expr: &Expr, symbols: &NameMap<VarType>, types: &TypeRegistry) -> (r: Result<(), Diagnostic>)
    ensures
        match const_failure(*expr, *symbols, *types) {
            Some(s) => r matches Err(d) && d.code == DiagnosticCode::TypeMismatch && d.message@
                == "Const initializer must be a compile-time constant"@ && d.span == Some(s) && d.help is None
                && d.label is None,
            None => r is Ok,
        },
    decreases expr,
{
    match &expr.kind {
        ExprKind::String(_) | ExprKind::Integer(_) | ExprKind::Long(_) | ExprKind::LongLong(_) | ExprKind::Single(_)
        | ExprKind::Double(_) | ExprKind::Currency(_) | ExprKind::Decimal(_) | ExprKind::Boolean(_)
        | ExprKind::DateLiteral(_) | ExprKind::Empty | ExprKind::Null => Ok(()),
        ExprKind::Variable(name) => {
            let is_const = match symbols.get(key(name.as_str()).as_str()) {
                Some(var_type) => var_type.is_const(),
                None => false,
            };
            if is_const || enum_member_value_type(name.as_str(), types).is_some() {
                Ok(())
            } else {
                Err(not_constant(expr.span))
            }
        },
        ExprKind::MemberAccess { object, field, .. } => {
            if let ExprKind::Variable(enum_name) = &object.kind {
                if let Some(enum_sig) = types.get_enum(enum_name.as_str()) {
                    if enum_sig.members.contains_key(key(field.as_str()).as_str()) {
                        return Ok(());
                    }
                }
            }
            Err(not_constant(expr.span))
        },
        ExprKind::Unary { expr: inner, .. } => ensure_const_expr(inner, symbols, types),
        ExprKind::PassingModeOverride { expr: inner, .. } => ensure_const_expr(inner, symbols, types),
        ExprKind::Binary { left, right, .. } => {
            match ensure_const_expr(left, symbols, types) {
                Ok(()) => {},
                Err(d) => {
                    return Err(d);
                },
            }
            ensure_const_expr(right, symbols, types)
        },
        _ => Err(not_constant(expr.span)),
    }
}

/// Why an enum member's value expression cannot be evaluated.
pub struct EvalFailure {
    pub code: DiagnosticCode,
    pub message: Seq<char>,
    pub span: Span,
}

/// Whether a diagnostic reports an evaluation failure.
pub open spec fn reports_eval(d: Diagnostic, f: EvalFailure) -> bool {
    &&& d.code == f.code
    &&& d.message@ == f.message
    &&& d.span == Some(f.span)
    &&& d.help is None
    &&& d.label is None
}

/// Integer division rounding toward zero, as Rust's `/` does.
pub open spec fn trunc_div(a: int, b: int) -> int {
    let q = (if a < 0 { -a } else { a }) / (if b < 0 { -b } else { b });
    if (a < 0) != (b < 0) { -q } else { q }
}

/// Whether a value fits an `i64`.
pub open spec fn in_i64(v: int) -> bool {
    i64::MIN <= v <= i64::MAX
}

pub open spec fn not_numeric(span: Span) -> EvalFailure {
    EvalFailure { code: DiagnosticCode::TypeMismatch, message: "Enum value expression must be numeric"@, span }
}

/// The value of an enum member's value expression: integer literals, other
/// members of the same enum, module constants, sign, and `+ - * /` over
/// those. Names are looked up among the members first.
pub open spec fn enum_value(e: Expr, members: Map<Seq<char>, i64>, consts: Map<Seq<char>, i64>) -> Result<int, EvalFailure>
    decreases e,
{
    match e.kind {
        ExprKind::Integer(v) => Ok(v as int),
        ExprKind::Long(v) => Ok(v as int),
        ExprKind::LongLong(v) => Ok(v as int),
        ExprKind::Variable(n) => if members.contains_key(lowercase(n@)) {
            Ok(members[lowercase(n@)] as int)
        } else if consts.contains_key(lowercase(n@)) {
            Ok(consts[lowercase(n@)] as int)
        } else {
            Err(
                EvalFailure {
                    code: DiagnosticCode::UnknownName,
                    message: "Enum member '"@ + n@ + "' is not defined"@,
                    span: e.span,
                },
            )
        },
        ExprKind::Unary { op, expr } => if op is Negate {
            match enum_value(*expr, members, consts) {
                Ok(v) => Ok(-v),
                Err(f) => Err(f),
            }
        } else if op is Positive {
            enum_value(*expr, members, consts)
        } else {
            Err(not_numeric(e.span))
        },
        ExprKind::Binary { op, left, right } => match enum_value(*left, members, consts) {
            Err(f) => Err(f),
            Ok(l) => match enum_value(*right, members, consts) {
                Err(f) => Err(f),
                Ok(r) => if op is Add {
                    Ok(l + r)
                } else if op is Subtract {
                    Ok(l - r)
                } else if op is Multiply {
                    Ok(l * r)
                } else if op is Divide {
                    if r == 0 {
                        Err(EvalFailure { code: DiagnosticCode::Generic, message: "Division by zero"@, span: e.span })
                    } else {
                        Ok(trunc_div(l, r))
                    }
                } else {
                    Err(not_numeric(e.span))
                },
            },
        },
        ExprKind::PassingModeOverride { expr, .. } => enum_value(*expr, members, consts),
        _ => Err(not_numeric(e.span)),
    }
}

/// Whether every value the evaluation computes along the way fits an
/// `i64`: the original's arithmetic is on `i64`, and overflows there.
pub open spec fn enum_value_fits(e: Expr, members: Map<Seq<char>, i64>, consts: Map<Seq<char>, i64>) -> bool
    decreases e,
{
    match e.kind {
        ExprKind::Unary { expr, .. } => enum_value_fits(*expr, members, consts) && (enum_value(e, members, consts) matches Ok(
            v,
        ) ==> in_i64(v)),
        ExprKind::Binary { left, right, .. } => enum_value_fits(*left, members, consts) && enum_value_fits(
            *right,
            members,
            consts,
        ) && (enum_value(e, members, consts) matches Ok(v) ==> in_i64(v)),
        ExprKind::PassingModeOverride { expr, .. } => enum_value_fits(*expr, members, consts),
        _ => true,
    }
}

fn eval_error(code: DiagnosticCode, head: &str, name: &str, tail: &str, span: Span) -> (d: Diagnostic)
    ensures
        reports_eval(d, EvalFailure { code, message: head@ + name@ + tail@, span }),
{
    let mut message = String::new();
    push_str(&mut message, head);
    push_str(&mut message, name);
    push_str(&mut message, tail);
    Diagnostic::new(code, message, Some(span))
}

fn divide_toward_zero(a: i64, b: i64) -> (q: i64)
    requires
        b != 0,
        in_i64(trunc_div(a as int, b as int)),
    ensures
        q as int == trunc_div(a as int, b as int),
{
    let ua: u64 = if a < 0 { (-(a as i128)) as u64 } else { a as u64 };
    let ub: u64 = if b < 0 { (-(b as i128)) as u64 } else { b as u64 };
    let m: u64 = ua / ub;
    if (a < 0) != (b < 0) {
        (-(m as i128)) as i64
    } else {
        m as i64
    }
}

/// Evaluates the value expression of an enum member: integer literals,
/// earlier members and module constants by name (members first, names
/// without regard to case), unary sign, and `+`, `-`, `*` and `/` (which
/// rounds toward zero). Anything else is reported.
pub fn eval_enum_const_expr(expr: &Expr, members: &NameMap<i64>, module_consts: &NameMap<i64>) -> (r: Result<
    i64,
    Diagnostic,
>)
    requires
        enum_value_fits(*expr, members.table(), module_consts.table()),
    ensures
        match enum_value(*expr, members.table(), module_consts.table()) {
            Ok(v) => r matches Ok(x) && x as int == v,
            Err(f) => r matches Err(d) && reports_eval(d, f),
        },
    decreases expr,
{
    proof {
        reveal_strlit("");
    }
    match &expr.kind {
        ExprKind::Integer(v) => Ok(*v),
        ExprKind::Long(v) => Ok(*v),
        ExprKind::LongLong(v) => Ok(*v),
        ExprKind::Variable(name) => {
            let name_key = key(name.as_str());
            if let Some(v) = members.get(name_key.as_str()) {
                Ok(*v)
            } else if let Some(v) = module_consts.get(name_key.as_str()) {
                Ok(*v)
            } else {
                Err(eval_error(DiagnosticCode::UnknownName, "Enum member '", name.as_str(), "' is not defined", expr.span))
            }
        },
        ExprKind::Unary { op: UnaryOp::Negate, expr: inner } => {
            let v = match eval_enum_const_expr(inner, members, module_consts) {
                Ok(v) => v,
                Err(d) => {
                    return Err(d);
                },
            };
            Ok(-v)
        },
        ExprKind::Unary { op: UnaryOp::Positive, expr: inner } => eval_enum_const_expr(inner, members, module_consts),
        ExprKind::Binary { op, left, right } => {
            let l = match eval_enum_const_expr(left, members, module_consts) {
                Ok(v) => v,
                Err(d) => {
                    return Err(d);
                },
            };
            let r = match eval_enum_const_expr(right, members, module_consts) {
                Ok(v) => v,
                Err(d) => {
                    return Err(d);
                },
            };
            match op {
                BinaryOp::Add => Ok(l + r),
                BinaryOp::Subtract => Ok(l - r),
                BinaryOp::Multiply => Ok(l * r),
                BinaryOp::Divide => {
                    if r == 0 {
                        Err(eval_error(DiagnosticCode::Generic, "Division by zero", "", "", expr.span))
                    } else {
                        Ok(divide_toward_zero(l, r))
                    }
                },
                _ => Err(eval_error(DiagnosticCode::TypeMismatch, "Enum value expression must be numeric", "", "", expr.span)),
            }
        },
        ExprKind::PassingModeOverride { expr: inner, .. } => eval_enum_const_expr(inner, members, module_consts),
        _ => Err(eval_error(DiagnosticCode::TypeMismatch, "Enum value expression must be numeric", "", "", expr.span)),
    }
}

/// The values of the first `n` members of an enum and the value of the last
/// of them (-1 before the first): a member with a value expression takes
/// what it evaluates to, with the earlier members and the module constants
/// in scope; one without takes one more than the member before it. A member
/// named like an earlier one (without regard to case) is reported.
pub open spec fn enum_members_upto(
    enum_name: Seq<char>,
    ms: Seq<EnumMemberDecl>,
    consts: Map<Seq<char>, i64>,
    n: int,
) -> Result<(Map<Seq<char>, i64>, int), EvalFailure>
    decreases n,
{
    if n <= 0 {
        Ok((Map::empty(), -1))
    } else {
        match enum_members_upto(enum_name, ms, consts, n - 1) {
            Err(f) => Err(f),
            Ok((t, previous)) => {
                let m = ms[n - 1];
                let k = lowercase(m.name@);
                if t.contains_key(k) {
                    Err(
                        EvalFailure {
                            code: DiagnosticCode::DuplicateDeclaration,
                            message: "Enum member '"@ + m.name@ + "' is already declared in Enum '"@ + enum_name + "'"@,
                            span: m.span,
                        },
                    )
                } else {
                    match m.value {
                        Some(e) => match enum_value(e, t, consts) {
                            Ok(v) => Ok((t.insert(k, v as i64), v)),
                            Err(f) => Err(f),
                        },
                        None => Ok((t.insert(k, (previous + 1) as i64), previous + 1)),
                    }
                }
            },
        }
    }
}

/// Whether every value computed for the first `n` members fits an `i64`:
/// the original computes them, and the step from one member to the next, on
/// `i64`.
pub open spec fn enum_members_fit(enum_name: Seq<char>, ms: Seq<EnumMemberDecl>, consts: Map<Seq<char>, i64>, n: int) -> bool
    decreases n,
{
    n <= 0 || (enum_members_fit(enum_name, ms, consts, n - 1) && match enum_members_upto(enum_name, ms, consts, n - 1) {
        Ok((t, previous)) => match ms[n - 1].value {
            Some(e) => enum_value_fits(e, t, consts),
            None => previous + 1 <= i64::MAX,
        },
        Err(_) => true,
    })
}

/// The value of each member of an enum, by lower-case name, or the first
/// failure: a member declared twice, or a value expression that cannot be
/// evaluated.
pub fn collect_enum_members(decl: &EnumDecl, module_consts: &NameMap<i64>) -> (r: Result<NameMap<i64>, Diagnostic>)
    requires
        enum_members_fit(decl.name@, decl.members@, module_consts.table(), decl.members@.len() as int),
    ensures
        match enum_members_upto(decl.name@, decl.members@, module_consts.table(), decl.members@.len() as int) {
            Ok((t, _)) => r matches Ok(m) && m.table() == t,
            Err(f) => r matches Err(d) && reports_eval(d, f),
        },
{
    let ms = &decl.members;
    let mut members: NameMap<i64> = NameMap::new();
    let mut previous: i64 = -1;
    let mut i: usize = 0;
    while i < ms.len()
        invariant
            ms == &decl.members,
            i <= ms@.len(),
            enum_members_fit(decl.name@, ms@, module_consts.table(), ms@.len() as int),
            enum_members_upto(decl.name@, ms@, module_consts.table(), i as int) == Ok::<
                (Map<Seq<char>, i64>, int),
                EvalFailure,
            >((members.table(), previous as int)),
        decreases ms@.len() - i,
    {
        proof {
            lemma_enum_members_fit_prefix(decl.name@, ms@, module_consts.table(), ms@.len() as int, i as int + 1);
        }
        let member = &ms[i];
        let member_key = key(member.name.as_str());
        if members.contains_key(member_key.as_str()) {
            let mut message = String::from_str("Enum member '");
            push_str(&mut message, member.name.as_str());
            push_str(&mut message, "' is already declared in Enum '");
            push_str(&mut message, decl.name.as_str());
            push_str(&mut message, "'");
            proof {
                lemma_enum_members_err_stays(decl.name@, ms@, module_consts.table(), i as int + 1, ms@.len() as int);
            }
            return Err(Diagnostic::new(DiagnosticCode::DuplicateDeclaration, message, Some(member.span)));
        }
        let value = match &member.value {
            Some(e) => match eval_enum_const_expr(e, &members, module_consts) {
                Ok(v) => v,
                Err(d) => {
                    proof {
                        lemma_enum_members_err_stays(decl.name@, ms@, module_consts.table(), i as int + 1, ms@.len() as int);
                    }
                    return Err(d);
                },
            },
            None => previous + 1,
        };
        members.insert(member_key, value);
        previous = value;
        i = i + 1;
    }
    Ok(members)
}

/// Whether a `Type` or an enum collected so far has this name, without
/// regard to case.
pub open spec fn enum_name_taken(
    types: Map<Seq<char>, TypeSig>,
    enums: Map<Seq<char>, EnumSig>,
    name: Seq<char>,
) -> bool {
    types.contains_key(lowercase(name)) || enums.contains_key(lowercase(name))
}

/// The failure for an enum named like a `Type` or an enum before it.
pub open spec fn duplicate_enum(decl: EnumDecl) -> EvalFailure {
    EvalFailure {
        code: DiagnosticCode::DuplicateDeclaration,
        message: "Enum '"@ + decl.name@ + "' is already defined"@,
        span: decl.span,
    }
}

/// Whether `after` is `before` with the enum stored under its lower-case
/// name, with these member values.
pub open spec fn enum_stored(
    decl: EnumDecl,
    members: Map<Seq<char>, i64>,
    before: Map<Seq<char>, EnumSig>,
    after: Map<Seq<char>, EnumSig>,
) -> bool {
    let k = lowercase(decl.name@);
    &&& after.contains_key(k)
    &&& after[k].name@ == decl.name@
    &&& after[k].visibility == decl.visibility
    &&& after[k].members.table() == members
    &&& after.remove(k) == before.remove(k)
}

/// Registers an enum beside the `Type`s and enums collected so far: an enum
/// named like one of them (without regard to case) is reported, and so is
/// the first failure among its members; otherwise it is stored under its
/// lower-case name with the value of each member.
pub fn register_enum(
    decl: &EnumDecl,
    module_consts: &NameMap<i64>,
    types: &NameMap<TypeSig>,
    enums: &mut NameMap<EnumSig>,
) -> (r: Result<(), Diagnostic>)
    requires
        enum_members_fit(decl.name@, decl.members@, module_consts.table(), decl.members@.len() as int),
    ensures
        enum_name_taken(types.table(), old(enums).table(), decl.name@) ==> (r matches Err(d) && reports_eval(
            d,
            duplicate_enum(*decl),
        )) && final(enums).table() == old(enums).table(),
        !enum_name_taken(types.table(), old(enums).table(), decl.name@) ==> match enum_members_upto(
            decl.name@,
            decl.members@,
            module_consts.table(),
            decl.members@.len() as int,
        ) {
            Ok((t, _)) => r is Ok && enum_stored(*decl, t, old(enums).table(), final(enums).table()),
            Err(f) => (r matches Err(d) && reports_eval(d, f)) && final(enums).table() == old(enums).table(),
        },
{
    let enum_key = key(decl.name.as_str());
    if types.contains_key(enum_key.as_str()) || enums.contains_key(enum_key.as_str()) {
        let mut message = String::from_str("Enum '");
        push_str(&mut message, decl.name.as_str());
        push_str(&mut message, "' is already defined");
        return Err(Diagnostic::new(DiagnosticCode::DuplicateDeclaration, message, Some(decl.span)));
    }
    let members = match collect_enum_members(decl, module_consts) {
        Ok(m) => m,
        Err(d) => return Err(d),
    };
    let ghost before = enums.table();
    enums.insert(enum_key, EnumSig { visibility: decl.visibility, name: decl.name.clone(), members });
    proof {
        assert(enums.table().remove(lowercase(decl.name@)) =~= before.remove(lowercase(decl.name@)));
    }
    Ok(())
}

/// The lower-case name of an enum member.
pub open spec fn member_key(m: EnumMemberDecl) -> Seq<char> {
    lowercase(m.name@)
}

/// An enum whose members are written without values, under distinct names,
/// numbers them from 0 in declaration order, and holds nothing else.
pub proof fn lemma_enum_members_count_from_zero(
    enum_name: Seq<char>,
    ms: Seq<EnumMemberDecl>,
    consts: Map<Seq<char>, i64>,
    n: int,
)
    requires
        0 <= n <= ms.len(),
        n <= i64::MAX,
        forall|i: int| 0 <= i < n ==> (#[trigger] ms[i]).value is None,
        forall|i: int, j: int| 0 <= i < j < n ==> member_key(#[trigger] ms[i]) != member_key(#[trigger] ms[j]),
    ensures
        enum_members_upto(enum_name, ms, consts, n) matches Ok((t, previous)) && previous == n - 1 && (forall|i: int|
            0 <= i < n ==> t.contains_key(member_key(#[trigger] ms[i])) && t[member_key(ms[i])] == i) && (forall|
            k: Seq<char>,
        | #[trigger] t.contains_key(k) ==> exists|i: int| 0 <= i < n && k == member_key(#[trigger] ms[i])),
    decreases n,
{
    if n > 0 {
        lemma_enum_members_count_from_zero(enum_name, ms, consts, n - 1);
        let (t, previous) = enum_members_upto(enum_name, ms, consts, n - 1)->Ok_0;
        let k = member_key(ms[n - 1]);
        assert(ms[n - 1].value is None);
        if t.contains_key(k) {
            let i = choose|i: int| 0 <= i < n - 1 && k == member_key(#[trigger] ms[i]);
            assert(member_key(ms[i]) != member_key(ms[n - 1]));
        }
        let t2 = t.insert(k, (previous + 1) as i64);
        assert(enum_members_upto(enum_name, ms, consts, n) == Ok::<(Map<Seq<char>, i64>, int), EvalFailure>((t2, n - 1)));
        assert forall|i: int| 0 <= i < n implies t2.contains_key(member_key(#[trigger] ms[i])) && t2[member_key(ms[i])] == i by {
            if i < n - 1 {
                assert(member_key(ms[i]) != member_key(ms[n - 1]));
            }
        }
        assert forall|x: Seq<char>| #[trigger] t2.contains_key(x) implies exists|i: int| 0 <= i < n && x == member_key(#[trigger] ms[i]) by {
            if x == k {
                assert(x == member_key(ms[n - 1]));
            } else {
                assert(t.contains_key(x));
            }
        }
    }
}

/// The first failure among the first `n` enums of a program, registered in
/// order: an enum named like a `Type` or an earlier enum, or the first
/// failure among its members.
pub open spec fn enums_failure(
    decls: Seq<EnumDecl>,
    consts: Map<Seq<char>, i64>,
    types: Map<Seq<char>, TypeSig>,
    n: int,
) -> Option<EvalFailure>
    decreases n,
{
    if n <= 0 {
        None
    } else {
        match enums_failure(decls, consts, types, n - 1) {
            Some(f) => Some(f),
            None => {
                let d = decls[n - 1];
                if types.contains_key(lowercase(d.name@)) || exists|j: int|
                    0 <= j < n - 1 && lowercase(#[trigger] decls[j].name@) == lowercase(d.name@) {
                    Some(duplicate_enum(d))
                } else {
                    match enum_members_upto(d.name@, d.members@, consts, d.members@.len() as int) {
                        Err(f) => Some(f),
                        Ok(_) => None,
                    }
                }
            },
        }
    }
}

/// Whether `table` holds exactly the first `n` enums, each under its
/// lower-case name with its member values.
#[verifier::opaque]
pub open spec fn enums_collected(
    decls: Seq<EnumDecl>,
    consts: Map<Seq<char>, i64>,
    table: Map<Seq<char>, EnumSig>,
    n: int,
) -> bool {
    &&& forall|j: int| 0 <= j < n ==> {
        let k = lowercase(#[trigger] decls[j].name@);
        &&& table.contains_key(k)
        &&& table[k].name@ == decls[j].name@
        &&& table[k].visibility == decls[j].visibility
        &&& enum_members_upto(decls[j].name@, decls[j].members@, consts, decls[j].members@.len() as int) matches Ok(
            (t, _),
        ) && table[k].members.table() == t
    }
    &&& forall|k: Seq<char>| #[trigger] table.contains_key(k) ==> exists|j: int|
        0 <= j < n && k == lowercase(#[trigger] decls[j].name@)
}

/// Registers the enums of a program in order, beside its `Type`s, with the
/// module constants in scope of their values.
pub fn collect_enums(
    decls: &[EnumDecl],
    module_consts: &NameMap<i64>,
    types: &NameMap<TypeSig>,
) -> (r: Result<NameMap<EnumSig>, Diagnostic>)
    requires
        forall|i: int|
            0 <= i < decls@.len() && enums_failure(decls@, module_consts.table(), types.table(), i) is None
                ==> enum_members_fit(
                #[trigger] decls@[i].name@,
                decls@[i].members@,
                module_consts.table(),
                decls@[i].members@.len() as int,
            ),
    ensures
        match enums_failure(decls@, module_consts.table(), types.table(), decls@.len() as int) {
            None => r matches Ok(m) && enums_collected(decls@, module_consts.table(), m.table(), decls@.len() as int),
            Some(f) => r matches Err(d) && reports_eval(d, f),
        },
{
    let mut enums: NameMap<EnumSig> = NameMap::new();
    let mut i: usize = 0;
    assert(enums_collected(decls@, module_consts.table(), enums.table(), 0)) by {
        reveal(enums_collected);
    }
    while i < decls.len()
        invariant
            i <= decls@.len(),
            forall|x: int|
                0 <= x < decls@.len() && enums_failure(decls@, module_consts.table(), types.table(), x) is None
                    ==> enum_members_fit(
                    #[trigger] decls@[x].name@,
                    decls@[x].members@,
                    module_consts.table(),
                    decls@[x].members@.len() as int,
                ),
            enums_failure(decls@, module_consts.table(), types.table(), i as int) is None,
            enums_collected(decls@, module_consts.table(), enums.table(), i as int),
        decreases decls@.len() - i,
    {
        let ghost before = enums.table();
        proof {
            lemma_enum_key_taken(decls@, module_consts.table(), before, i as int);
        }
        match register_enum(&decls[i], module_consts, types, &mut enums) {
            Ok(()) => {},
            Err(d) => {
                proof {
                    lemma_enums_failure_stays(decls@, module_consts.table(), types.table(), i as int + 1, decls@.len() as int);
                }
                return Err(d);
            },
        }
        proof {
            let d = decls@[i as int];
            assert(!enum_name_taken(types.table(), before, d.name@));
            assert(enum_members_upto(d.name@, d.members@, module_consts.table(), d.members@.len() as int) is Ok);
            lemma_enums_collected_step(decls@, module_consts.table(), before, enums.table(), i as int);
            assert(enums_failure(decls@, module_consts.table(), types.table(), i as int + 1) is None);
        }
        i = i + 1;
    }
    Ok(enums)
}

proof fn lemma_enum_key_taken(
    decls: Seq<EnumDecl>,
    consts: Map<Seq<char>, i64>,
    table: Map<Seq<char>, EnumSig>,
    i: int,
)
    requires
        0 <= i < decls.len(),
        enums_collected(decls, consts, table, i),
    ensures
        table.contains_key(lowercase(decls[i].name@)) <==> exists|j: int|
            0 <= j < i && lowercase(#[trigger] decls[j].name@) == lowercase(decls[i].name@),
{
    reveal(enums_collected);
    let k = lowercase(decls[i].name@);
    if exists|j: int| 0 <= j < i && lowercase(#[trigger] decls[j].name@) == k {
        let j = choose|j: int| 0 <= j < i && lowercase(#[trigger] decls[j].name@) == k;
        assert(table.contains_key(lowercase(decls[j].name@)));
    }
    if table.contains_key(k) {
        let j = choose|j: int| 0 <= j < i && k == lowercase(#[trigger] decls[j].name@);
        assert(lowercase(decls[j].name@) == k);
    }
}

proof fn lemma_enums_collected_step(
    decls: Seq<EnumDecl>,
    consts: Map<Seq<char>, i64>,
    before: Map<Seq<char>, EnumSig>,
    after: Map<Seq<char>, EnumSig>,
    i: int,
)
    requires
        0 <= i < decls.len(),
        enums_collected(decls, consts, before, i),
        !before.contains_key(lowercase(decls[i].name@)),
        enum_members_upto(decls[i].name@, decls[i].members@, consts, decls[i].members@.len() as int) matches Ok((t, _))
            && enum_stored(decls[i], t, before, after),
    ensures
        enums_collected(decls, consts, after, i + 1),
{
    reveal(enums_collected);
    let k = lowercase(decls[i].name@);
    assert forall|j: int| 0 <= j < i + 1 implies {
        let kj = lowercase(#[trigger] decls[j].name@);
        &&& after.contains_key(kj)
        &&& after[kj].name@ == decls[j].name@
        &&& after[kj].visibility == decls[j].visibility
        &&& enum_members_upto(decls[j].name@, decls[j].members@, consts, decls[j].members@.len() as int) matches Ok(
            (t, _),
        ) && after[kj].members.table() == t
    } by {
        if j < i {
            let kj = lowercase(decls[j].name@);
            assert(before.contains_key(kj));
            assert(kj != k);
            assert(after.remove(k).contains_key(kj));
            assert(after[kj] == after.remove(k)[kj]);
            assert(before[kj] == before.remove(k)[kj]);
        }
    }
    assert forall|x: Seq<char>| #[trigger] after.contains_key(x) implies exists|j: int|
        0 <= j < i + 1 && x == lowercase(#[trigger] decls[j].name@) by {
        if x != k {
            assert(after.remove(k).contains_key(x));
            assert(before.contains_key(x));
        } else {
            assert(x == lowercase(decls[i].name@));
        }
    }
}

proof fn lemma_enums_failure_stays(
    decls: Seq<EnumDecl>,
    consts: Map<Seq<char>, i64>,
    types: Map<Seq<char>, TypeSig>,
    m: int,
    n: int,
)
    requires
        0 <= m <= n,
        enums_failure(decls, consts, types, m) is Some,
    ensures
        enums_failure(decls, consts, types, n) == enums_failure(decls, consts, types, m),
    decreases n - m,
{
    if m < n {
        lemma_enums_failure_stays(decls, consts, types, m, n - 1);
    }
}

proof fn lemma_enum_members_fit_prefix(
    enum_name: Seq<char>,
    ms: Seq<EnumMemberDecl>,
    consts: Map<Seq<char>, i64>,
    n: int,
    m: int,
)
    requires
        enum_members_fit(enum_name, ms, consts, n),
        m <= n,
    ensures
        enum_members_fit(enum_name, ms, consts, m),
    decreases n - m,
{
    if m < n {
        lemma_enum_members_fit_prefix(enum_name, ms, consts, n - 1, m);
    }
}

proof fn lemma_enum_members_err_stays(
    enum_name: Seq<char>,
    ms: Seq<EnumMemberDecl>,
    consts: Map<Seq<char>, i64>,
    m: int,
    n: int,
)
    requires
        0 <= m <= n,
        enum_members_upto(enum_name, ms, consts, m) is Err,
    ensures
        enum_members_upto(enum_name, ms, consts, n) == enum_members_upto(enum_name, ms, consts, m),
    decreases n - m,
{
    if m < n {
        lemma_enum_members_err_stays(enum_name, ms, consts, m, n - 1);
    }
}

/// One pass over the module constants still pending: in order, each one
/// whose value evaluates with the values known so far (and no enum members in
/// scope) gets its value under its lower-case name; the others stay pending.
/// The constants left pending and the values known after the first `n`.
pub open spec fn const_pass(pending: Seq<ConstDecl>, values: Map<Seq<char>, i64>, n: int) -> (Seq<ConstDecl>, Map<
    Seq<char>,
    i64,
>)
    decreases n,
{
    if n <= 0 {
        (Seq::empty(), values)
    } else {
        let (rest, known) = const_pass(pending, values, n - 1);
        let c = pending[n - 1];
        match enum_value(c.value, Map::empty(), known) {
            Ok(v) => (rest, known.insert(lowercase(c.name@), v as i64)),
            Err(_) => (rest.push(c), known),
        }
    }
}

/// The values of the module constants: passes are repeated while one of them
/// settles a constant, so a constant may name one declared after it.
pub open spec fn const_values_from(pending: Seq<ConstDecl>, values: Map<Seq<char>, i64>) -> Map<Seq<char>, i64>
    decreases pending.len(),
{
    if pending.len() == 0 {
        values
    } else {
        let (next, known) = const_pass(pending, values, pending.len() as int);
        if next.len() < pending.len() {
            const_values_from(next, known)
        } else {
            known
        }
    }
}

/// Whether every evaluation of the first `n` steps of a pass stays within
/// `i64`.
pub open spec fn const_pass_fits(pending: Seq<ConstDecl>, values: Map<Seq<char>, i64>, n: int) -> bool
    decreases n,
{
    n <= 0 || (const_pass_fits(pending, values, n - 1) && enum_value_fits(
        pending[n - 1].value,
        Map::empty(),
        const_pass(pending, values, n - 1).1,
    ))
}

/// Whether every evaluation of every pass stays within `i64`.
pub open spec fn const_values_fit(pending: Seq<ConstDecl>, values: Map<Seq<char>, i64>) -> bool
    decreases pending.len(),
{
    pending.len() == 0 || (const_pass_fits(pending, values, pending.len() as int) && {
        let (next, known) = const_pass(pending, values, pending.len() as int);
        next.len() < pending.len() ==> const_values_fit(next, known)
    })
}

/// The constants at the given positions, in that order.
pub open spec fn consts_at(consts: Seq<ConstDecl>, idx: Seq<usize>) -> Seq<ConstDecl> {
    idx.map_values(|i: usize| consts[i as int])
}

proof fn lemma_const_pass_fits_prefix(pending: Seq<ConstDecl>, values: Map<Seq<char>, i64>, n: int, m: int)
    requires
        const_pass_fits(pending, values, n),
        m <= n,
    ensures
        const_pass_fits(pending, values, m),
    decreases n - m,
{
    if m < n {
        lemma_const_pass_fits_prefix(pending, values, n - 1, m);
    }
}

proof fn lemma_const_pass_len(pending: Seq<ConstDecl>, values: Map<Seq<char>, i64>, n: int)
    requires
        n >= 0,
    ensures
        const_pass(pending, values, n).0.len() <= n,
    decreases n,
{
    if n > 0 {
        lemma_const_pass_len(pending, values, n - 1);
    }
}

/// The values of a module's constants by lower-case name: each constant whose
/// value can be evaluated from literals and the constants already settled
/// gets it, pass after pass, until a pass settles nothing more. Constants
/// that never settle are left out.
pub fn module_const_values(consts: &[ConstDecl]) -> (r: NameMap<i64>)
    requires
        const_values_fit(consts@, Map::empty()),
    ensures
        r.table() == const_values_from(consts@, Map::empty()),
{
    let no_members: NameMap<i64> = NameMap::new();
    let mut values: NameMap<i64> = NameMap::new();
    let mut pending: Vec<usize> = Vec::new();
    let mut j: usize = 0;
    while j < consts.len()
        invariant
            j <= consts@.len(),
            pending@.len() == j,
            forall|x: int| 0 <= x < j ==> pending@[x] == x,
        decreases consts@.len() - j,
    {
        pending.push(j);
        j = j + 1;
    }
    assert(consts_at(consts@, pending@) =~= consts@);
    let ghost goal = const_values_from(consts@, Map::empty());
    let mut progress = true;
    while progress && pending.len() > 0
        invariant
            no_members.table() == Map::<Seq<char>, i64>::empty(),
            forall|x: int| 0 <= x < pending@.len() ==> pending@[x] < consts@.len(),
            progress ==> const_values_fit(consts_at(consts@, pending@), values.table()),
            progress ==> const_values_from(consts_at(consts@, pending@), values.table()) == goal,
            !progress ==> values.table() == goal,
        decreases pending@.len() + if progress { 1int } else { 0int },
    {
        let ghost p = consts_at(consts@, pending@);
        let ghost v = values.table();
        proof {
            lemma_const_pass_len(p, v, p.len() as int);
        }
        let mut next: Vec<usize> = Vec::new();
        let mut settled = false;
        let mut i: usize = 0;
        while i < pending.len()
            invariant
                p == consts_at(consts@, pending@),
                p.len() == pending@.len(),
                no_members.table() == Map::<Seq<char>, i64>::empty(),
                forall|x: int| 0 <= x < pending@.len() ==> pending@[x] < consts@.len(),
                forall|x: int| 0 <= x < next@.len() ==> next@[x] < consts@.len(),
                i <= pending@.len(),
                const_pass_fits(p, v, p.len() as int),
                const_pass(p, v, i as int) == (consts_at(consts@, next@), values.table()),
                settled == (next@.len() < i),
                next@.len() <= i,
            decreases pending@.len() - i,
        {
            proof {
                lemma_const_pass_fits_prefix(p, v, p.len() as int, i as int + 1);
            }
            let c = &consts[pending[i]];
            assert(p[i as int] == *c);
            match eval_enum_const_expr(&c.value, &no_members, &values) {
                Ok(value) => {
                    values.insert(key(c.name.as_str()), value);
                    settled = true;
                },
                Err(_) => {
                    next.push(pending[i]);
                    proof {
                        assert(consts_at(consts@, next@) =~= consts_at(consts@, next@.drop_last()).push(*c));
                    }
                },
            }
            i = i + 1;
        }
        proof {
            lemma_const_pass_len(p, v, p.len() as int);
        }
        pending = next;
        progress = settled;
    }
    values
}

} // verus!
