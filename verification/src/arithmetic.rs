//! Target-independent arithmetic selection shared by checking, HIR and execution.
use vstd::prelude::*;

use crate::ast::BinaryOp;
use crate::type_model::{integral, TypeName};

verus! {

/// An arithmetic operation, whatever its operand types.
#[derive(Debug, Clone, Copy, PartialEq, Eq, Structural)]
pub enum ArithmeticOp {
    Add,
    Subtract,
    Multiply,
    Divide,
    IntegerDivide,
    Modulo,
    Power,
}

/// The arithmetic operation a source operator denotes, if it is one.
pub open spec fn arithmetic_of(op: BinaryOp) -> Option<ArithmeticOp> {
    match op {
        BinaryOp::Add => Some(ArithmeticOp::Add),
        BinaryOp::Subtract => Some(ArithmeticOp::Subtract),
        BinaryOp::Multiply => Some(ArithmeticOp::Multiply),
        BinaryOp::Divide => Some(ArithmeticOp::Divide),
        BinaryOp::IntegerDivide => Some(ArithmeticOp::IntegerDivide),
        BinaryOp::Modulo => Some(ArithmeticOp::Modulo),
        BinaryOp::Exponent => Some(ArithmeticOp::Power),
        _ => None,
    }
}

impl ArithmeticOp {
    /// The arithmetic operation a source operator denotes; `None` for the
    /// operators that are not arithmetic.
    pub fn from_ast(op: BinaryOp) -> (r: Option<Self>)
        ensures
            r == arithmetic_of(op),
    {
        match op {
            BinaryOp::Add => Some(Self::Add),
            BinaryOp::Subtract => Some(Self::Subtract),
            BinaryOp::Multiply => Some(Self::Multiply),
            BinaryOp::Divide => Some(Self::Divide),
            BinaryOp::IntegerDivide => Some(Self::IntegerDivide),
            BinaryOp::Modulo => Some(Self::Modulo),
            BinaryOp::Exponent => Some(Self::Power),
            _ => None,
        }
    }
}

/// Both operands are converted to `operand_type` before performing the
/// operation. Integer add/subtract/multiply wrap at the selected width,
/// independent of values.
#[derive(Debug)]
pub struct ArithmeticSignature {
    pub operand_type: TypeName,
    pub result_type: TypeName,
}

/// Whether a type takes part in arithmetic.
pub open spec fn numeric(t: TypeName) -> bool {
    integral(t) || t is Single || t is Double || t is Decimal || t is Currency || t is Date
}

/// Whether a type makes arithmetic on it go through `Double`.
pub open spec fn extended(t: TypeName) -> bool {
    t is Double || t is Decimal || t is Currency || t is Date
}

/// Whether a type is one of the signed integer types wider than a byte.
pub open spec fn signed_wide(t: TypeName) -> bool {
    t is Int16 || t is Int32 || t is Int64
}

/// The type arithmetic on these operands is carried out in, or `None` when
/// the operands do not support the operation.
///
/// Division and powers are done in `Double`; integer division of anything
/// that is not an integer in `Int64`; otherwise the widest operand decides,
/// with any extended type giving `Double`, then `Single`, `UInt64`, `Int64`,
/// `UInt32` and `Int32`. No signed type represents every `UInt64`, so mixing
/// the two is refused, and a signed type with `UInt32` needs `Int64`.
pub open spec fn arithmetic_type(op: ArithmeticOp, left: TypeName, right: TypeName) -> Option<TypeName> {
    if !numeric(left) || !numeric(right) {
        None
    } else if op is Divide || op is Power {
        Some(TypeName::Double)
    } else if op is IntegerDivide && (!integral(left) || !integral(right)) {
        Some(TypeName::Int64)
    } else if extended(left) || extended(right) {
        Some(TypeName::Double)
    } else if left is Single || right is Single {
        Some(TypeName::Single)
    } else if left is UInt64 || right is UInt64 {
        if signed_wide(left) || signed_wide(right) {
            None
        } else {
            Some(TypeName::UInt64)
        }
    } else if left is Int64 || right is Int64 {
        Some(TypeName::Int64)
    } else if left is UInt32 || right is UInt32 {
        if left is Int16 || left is Int32 || right is Int16 || right is Int32 {
            Some(TypeName::Int64)
        } else {
            Some(TypeName::UInt32)
        }
    } else {
        Some(TypeName::Int32)
    }
}

fn is_numeric(t: &TypeName) -> (r: bool)
    ensures
        r == numeric(*t),
{
    t.is_integral() || matches!(t, TypeName::Single | TypeName::Double | TypeName::Decimal | TypeName::Currency | TypeName::Date)
}

fn is_extended(t: &TypeName) -> (r: bool)
    ensures
        r == extended(*t),
{
    matches!(t, TypeName::Double | TypeName::Decimal | TypeName::Currency | TypeName::Date)
}

fn is_signed_wide(t: &TypeName) -> (r: bool)
    ensures
        r == signed_wide(*t),
{
    matches!(t, TypeName::Int16 | TypeName::Int32 | TypeName::Int64)
}

/// The signature arithmetic on these operand types uses, if they support it.
pub fn signature(op: ArithmeticOp, left: &TypeName, right: &TypeName) -> (r: Option<ArithmeticSignature>)
    ensures
        match arithmetic_type(op, *left, *right) {
            Some(t) => r matches Some(s) && s.operand_type == t && s.result_type == t,
            None => r is None,
        },
{
    if !is_numeric(left) || !is_numeric(right) {
        return None;
    }
    let use_double = matches!(op, ArithmeticOp::Divide | ArithmeticOp::Power);
    let choice: u8 = if use_double {
        0
    } else if matches!(op, ArithmeticOp::IntegerDivide) && (!left.is_integral() || !right.is_integral()) {
        1
    } else if is_extended(left) || is_extended(right) {
        0
    } else if matches!(left, TypeName::Single) || matches!(right, TypeName::Single) {
        2
    } else if matches!(left, TypeName::UInt64) || matches!(right, TypeName::UInt64) {
        // No signed integer type can represent every UInt64 value.
        if is_signed_wide(left) || is_signed_wide(right) {
            return None;
        }
        3
    } else if matches!(left, TypeName::Int64) || matches!(right, TypeName::Int64) {
        1
    } else if matches!(left, TypeName::UInt32) || matches!(right, TypeName::UInt32) {
        if matches!(left, TypeName::Int16 | TypeName::Int32) || matches!(right, TypeName::Int16 | TypeName::Int32) {
            1
        } else {
            4
        }
    } else {
        5
    };
    Some(ArithmeticSignature { operand_type: scalar_of(choice), result_type: scalar_of(choice) })
}

/// The scalar type an arithmetic choice stands for.
fn scalar_of(choice: u8) -> (t: TypeName)
    ensures
        choice == 0 ==> t == TypeName::Double,
        choice == 1 ==> t == TypeName::Int64,
        choice == 2 ==> t == TypeName::Single,
        choice == 3 ==> t == TypeName::UInt64,
        choice == 4 ==> t == TypeName::UInt32,
        choice >= 5 ==> t == TypeName::Int32,
{
    match choice {
        0 => TypeName::Double,
        1 => TypeName::Int64,
        2 => TypeName::Single,
        3 => TypeName::UInt64,
        4 => TypeName::UInt32,
        _ => TypeName::Int32,
    }
}

/// Arithmetic never mixes a signed operand with `UInt64`, and whenever it is
/// defined, the type it is carried out in is itself numeric: the result of one
/// operation can always be the operand of the next.
pub proof fn lemma_arithmetic_type_is_numeric(op: ArithmeticOp, left: TypeName, right: TypeName)
    ensures
        arithmetic_type(op, left, right) matches Some(t) ==> numeric(t),
        (left is UInt64 && signed_wide(right) && !(op is Divide || op is Power || op is IntegerDivide))
            ==> arithmetic_type(op, left, right) is None,
{
}

/// The type arithmetic is carried out in does not depend on which operand is
/// on which side.
pub proof fn lemma_arithmetic_type_symmetric(op: ArithmeticOp, left: TypeName, right: TypeName)
    ensures
        arithmetic_type(op, left, right) == arithmetic_type(op, right, left),
{
}

/// The values an integer type holds, as the least and the greatest.
pub open spec fn integer_bounds(t: TypeName) -> Option<(int, int)> {
    match t {
        TypeName::Byte => Some((0, 255)),
        TypeName::Int16 => Some((-32768, 32767)),
        TypeName::Int32 => Some((-2147483648, 2147483647)),
        TypeName::Int64 => Some((-9223372036854775808, 9223372036854775807)),
        TypeName::UInt32 => Some((0, 4294967295)),
        TypeName::UInt64 => Some((0, 18446744073709551615)),
        _ => None,
    }
}

/// Whether every value of integer type `inner` is a value of integer type
/// `outer`.
pub open spec fn holds_all_of(outer: TypeName, inner: TypeName) -> bool {
    match (integer_bounds(outer), integer_bounds(inner)) {
        (Some((lo, hi)), Some((l, h))) => lo <= l && h <= hi,
        _ => false,
    }
}

/// Integer arithmetic other than division and powers never loses an operand:
/// on two integer operands it is carried out in an integer type that holds
/// every value of both, and it is refused exactly when no integer type does
/// (a negative value beside one above the largest `Int64`). In particular a
/// signed operand is never carried out in an unsigned type.
pub proof fn lemma_integer_arithmetic_represents_both(op: ArithmeticOp, left: TypeName, right: TypeName)
    requires
        integral(left),
        integral(right),
        !(op is Divide || op is Power),
    ensures
        arithmetic_type(op, left, right) matches Some(t) ==> integral(t) && holds_all_of(t, left) && holds_all_of(
            t,
            right,
        ),
        arithmetic_type(op, left, right) is None <==> !exists|t: TypeName|
            holds_all_of(t, left) && holds_all_of(t, right),
{
    if arithmetic_type(op, left, right) is None {
        assert forall|t: TypeName| !(holds_all_of(t, left) && holds_all_of(t, right)) by {
        }
    } else {
        let t = arithmetic_type(op, left, right)->0;
        assert(holds_all_of(t, left) && holds_all_of(t, right));
    }
}

/// Arithmetic needs two numbers. Division and powers are carried out in
/// `Double`; integer division of a number that is not an integer in
/// `Int64`; any other operation with a non-integer operand in a floating
/// type, `Single` exactly when a `Single` takes part and no `Double`,
/// `Decimal`, `Currency` or `Date` does.
pub proof fn lemma_floating_arithmetic(op: ArithmeticOp, left: TypeName, right: TypeName)
    ensures
        !numeric(left) || !numeric(right) ==> arithmetic_type(op, left, right) is None,
        numeric(left) && numeric(right) && (op is Divide || op is Power) ==> arithmetic_type(op, left, right)
            == Some(TypeName::Double),
        numeric(left) && numeric(right) && op is IntegerDivide && !(integral(left) && integral(right))
            ==> arithmetic_type(op, left, right) == Some(TypeName::Int64),
        numeric(left) && numeric(right) && (op is Add || op is Subtract || op is Multiply || op is Modulo) && !(
        integral(left) && integral(right)) ==> (arithmetic_type(op, left, right) == Some(TypeName::Single) || arithmetic_type(
            op,
            left,
            right,
        ) == Some(TypeName::Double)) && (arithmetic_type(op, left, right) == Some(TypeName::Single) <==> ((left is Single
            || right is Single) && !(left is Double || left is Decimal || left is Currency || left is Date || right is Double
            || right is Decimal || right is Currency || right is Date))),
{
}

} // verus!
