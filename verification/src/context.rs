//! What the body being checked is: a procedure, a function, a method or a
//! property accessor, and what it has seen so far.
use vstd::prelude::*;

use crate::type_model::{ty_eq, TypeName};

verus! {

/// The kind of body whose statements are being checked. A function-like body
/// records whether a `Return` or `Yield` was seen.
pub enum Context<'a> {
    Sub { is_async: bool },
    Function {
        return_type: TypeName,
        return_slot: Option<String>,
        is_iterator: bool,
        is_async: bool,
        saw_return: &'a mut bool,
        saw_yield: &'a mut bool,
    },
    MethodSub { class_name: String, is_async: bool },
    MethodFunction {
        class_name: String,
        return_type: TypeName,
        return_slot: Option<String>,
        is_iterator: bool,
        is_async: bool,
        saw_return: &'a mut bool,
        saw_yield: &'a mut bool,
    },
    PropertyGet {
        class_name: String,
        return_type: TypeName,
        return_slot: Option<String>,
        is_iterator: bool,
        is_async: bool,
        saw_return: &'a mut bool,
        saw_yield: &'a mut bool,
    },
    PropertyLetSet { class_name: String },
}

/// The class whose member the body is, if it is a member.
pub open spec fn current_class_spec(c: Context) -> Option<Seq<char>> {
    match c {
        Context::MethodSub { class_name, .. } | Context::MethodFunction { class_name, .. }
        | Context::PropertyGet { class_name, .. } | Context::PropertyLetSet { class_name } => Some(class_name@),
        _ => None,
    }
}

/// Whether `Await` may appear in the body: only in an `Async` body, and
/// never in a property `Let` or `Set`.
pub open spec fn allows_await_spec(c: Context) -> bool {
    match c {
        Context::Sub { is_async } | Context::Function { is_async, .. } | Context::MethodSub { is_async, .. }
        | Context::MethodFunction { is_async, .. } | Context::PropertyGet { is_async, .. } => is_async,
        Context::PropertyLetSet { .. } => false,
    }
}

/// The return type of a function-like body.
pub open spec fn return_type_of(c: Context) -> Option<TypeName> {
    match c {
        Context::Function { return_type, .. }
        | Context::MethodFunction { return_type, .. }
        | Context::PropertyGet { return_type, .. } => Some(return_type),
        _ => None,
    }
}

/// The other value fields of a function-like body: its return slot and
/// whether it is an iterator.
pub open spec fn function_values(c: Context) -> Option<(Option<Seq<char>>, bool)> {
    match c {
        Context::Function { return_slot, is_iterator, .. }
        | Context::MethodFunction { return_slot, is_iterator, .. }
        | Context::PropertyGet { return_slot, is_iterator, .. } => Some(
            (
                match return_slot {
                    Some(s) => Some(s@),
                    None => None,
                },
                is_iterator,
            ),
        ),
        _ => None,
    }
}

/// Whether a function-like body has seen a `Return` and a `Yield` so far.
pub open spec fn flags_now(c: Context) -> Option<(bool, bool)> {
    match c {
        Context::Function { saw_return, saw_yield, .. }
        | Context::MethodFunction { saw_return, saw_yield, .. }
        | Context::PropertyGet { saw_return, saw_yield, .. } => Some((*saw_return, *saw_yield)),
        _ => None,
    }
}

impl<'a> Context<'a> {
    /// The class whose member the body is, if it is a member.
    pub fn current_class(&self) -> (r: Option<&str>)
        ensures
            match current_class_spec(*self) {
                Some(name) => r matches Some(s) && s@ == name,
                None => r is None,
            },
    {
        match self {
            Context::MethodSub { class_name, .. } | Context::MethodFunction { class_name, .. }
            | Context::PropertyGet { class_name, .. } | Context::PropertyLetSet { class_name } => Some(class_name.as_str()),
            _ => None,
        }
    }

    /// Whether `Await` may appear in the body.
    pub fn allows_await(&self) -> (r: bool)
        ensures
            r == allows_await_spec(*self),
    {
        match self {
            Context::Sub { is_async } | Context::Function { is_async, .. } | Context::MethodSub { is_async, .. }
            | Context::MethodFunction { is_async, .. } | Context::PropertyGet { is_async, .. } => *is_async,
            Context::PropertyLetSet { .. } => false,
        }
    }
    /// A second view of the same context, for a nested check: the values are
    /// copied and the flags are the same flags, borrowed again.
    pub fn reborrow(&mut self) -> (r: Context<'_>)
        ensures
            r is Sub <==> *old(self) is Sub,
            r is Function <==> *old(self) is Function,
            r is MethodSub <==> *old(self) is MethodSub,
            r is MethodFunction <==> *old(self) is MethodFunction,
            r is PropertyGet <==> *old(self) is PropertyGet,
            r is PropertyLetSet <==> *old(self) is PropertyLetSet,
            current_class_spec(r) == current_class_spec(*old(self)),
            allows_await_spec(r) == allows_await_spec(*old(self)),
            function_values(r) == function_values(*old(self)),
            match (return_type_of(r), return_type_of(*old(self))) {
                (Some(a), Some(b)) => ty_eq(a, b),
                (None, None) => true,
                _ => false,
            },
            flags_now(r) == flags_now(*old(self)),
            match r {
                Context::Function { saw_return, saw_yield, .. }
                | Context::MethodFunction { saw_return, saw_yield, .. }
                | Context::PropertyGet { saw_return, saw_yield, .. } => flags_now(*final(self)) == Some(
                    (*final(saw_return), *final(saw_yield)),
                ),
                _ => flags_now(*final(self)) is None,
            },
    {
        match self {
            Context::Sub { is_async } => Context::Sub { is_async: *is_async },
            Context::Function { return_type, return_slot, is_iterator, is_async, saw_return, saw_yield } => {
                Context::Function {
                    return_type: return_type.duplicate(),
                    return_slot: match return_slot {
                        Some(s) => Some(s.clone()),
                        None => None,
                    },
                    is_iterator: *is_iterator,
                    is_async: *is_async,
                    saw_return,
                    saw_yield,
                }
            },
            Context::MethodSub { class_name, is_async } => Context::MethodSub {
                class_name: class_name.clone(),
                is_async: *is_async,
            },
            Context::MethodFunction { class_name, return_type, return_slot, is_iterator, is_async, saw_return, saw_yield } => {
                Context::MethodFunction {
                    class_name: class_name.clone(),
                    return_type: return_type.duplicate(),
                    return_slot: match return_slot {
                        Some(s) => Some(s.clone()),
                        None => None,
                    },
                    is_iterator: *is_iterator,
                    is_async: *is_async,
                    saw_return,
                    saw_yield,
                }
            },
            Context::PropertyGet { class_name, return_type, return_slot, is_iterator, is_async, saw_return, saw_yield } => {
                Context::PropertyGet {
                    class_name: class_name.clone(),
                    return_type: return_type.duplicate(),
                    return_slot: match return_slot {
                        Some(s) => Some(s.clone()),
                        None => None,
                    },
                    is_iterator: *is_iterator,
                    is_async: *is_async,
                    saw_return,
                    saw_yield,
                }
            },
            Context::PropertyLetSet { class_name } => Context::PropertyLetSet { class_name: class_name.clone() },
        }
    }
}

} // verus!
