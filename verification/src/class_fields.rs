//! Collecting the fields of a class into its signature.
use vstd::prelude::*;

use crate::ast::{array_decl_eq, ArrayDecl, ClassField};
use crate::diagnostics::{Diagnostic, DiagnosticCode};
use crate::name_map::NameMap;
use crate::symbols::CallableSig;
use crate::text::{key, lowercase, push_str};
use crate::type_model::{ty_eq, TypeName};
use crate::types::{ClassFieldSig, ClassPropertySig};

verus! {

/// Whether a field's name is taken by a field, an event or a property
/// collected so far, without regard to case.
pub open spec fn field_name_taken(
    name: Seq<char>,
    fields: Map<Seq<char>, ClassFieldSig>,
    events: Map<Seq<char>, CallableSig>,
    properties: Map<Seq<char>, ClassPropertySig>,
) -> bool {
    let k = lowercase(name);
    fields.contains_key(k) || events.contains_key(k) || properties.contains_key(k)
}

/// Whether `sig` is what a field declaration records: its visibility and
/// flags, its type (`Variant` when none is written) and its array shape.
pub open spec fn field_sig_of(sig: ClassFieldSig, field: ClassField) -> bool {
    &&& sig.visibility == field.visibility
    &&& sig.is_shared == field.is_shared
    &&& sig.with_events == field.with_events
    &&& match field.ty {
        Some(t) => ty_eq(sig.ty, t),
        None => sig.ty == TypeName::Variant,
    }
    &&& match (sig.array, field.array) {
        (Some(a), Some(b)) => array_decl_eq(a, b),
        (None, None) => true,
        _ => false,
    }
}

/// Records a field of a class: a field named like a field, event or
/// property already collected is reported, and the table is left as it was.
pub fn insert_class_field(
    class_name: &str,
    field: &ClassField,
    fields: &mut NameMap<ClassFieldSig>,
    events: &NameMap<CallableSig>,
    properties: &NameMap<ClassPropertySig>,
) -> (r: Result<(), Diagnostic>)
    ensures
        field_name_taken(field.name@, old(fields).table(), events.table(), properties.table()) ==> (r matches Err(d)
            && d.code == DiagnosticCode::MemberAccess && d.message@ == "Field '"@ + field.name@
            + "' conflicts with another member in Class '"@ + class_name@ + "'"@ && d.span == Some(field.span)
            && d.help is None && d.label is None) && final(fields).table() == old(fields).table(),
        !field_name_taken(field.name@, old(fields).table(), events.table(), properties.table()) ==> r is Ok
            && final(fields).table().contains_key(lowercase(field.name@)) && field_sig_of(
            final(fields).table()[lowercase(field.name@)],
            *field,
        ) && final(fields).table().remove(lowercase(field.name@)) == old(fields).table().remove(
            lowercase(field.name@),
        ),
{
    let field_key = key(field.name.as_str());
    if fields.contains_key(field_key.as_str()) || events.contains_key(field_key.as_str()) || properties.contains_key(
        field_key.as_str(),
    ) {
        let mut message = String::from_str("Field '");
        push_str(&mut message, field.name.as_str());
        push_str(&mut message, "' conflicts with another member in Class '");
        push_str(&mut message, class_name);
        push_str(&mut message, "'");
        return Err(Diagnostic::new(DiagnosticCode::MemberAccess, message, Some(field.span)));
    }
    let ty = match &field.ty {
        Some(t) => t.duplicate(),
        None => TypeName::Variant,
    };
    let array = match &field.array {
        Some(a) => Some(a.duplicate()),
        None => None,
    };
    let ghost before = fields.table();
    fields.insert(
        field_key,
        ClassFieldSig {
            visibility: field.visibility,
            is_shared: field.is_shared,
            with_events: field.with_events,
            ty,
            array,
        },
    );
    proof {
        assert(fields.table().remove(lowercase(field.name@)) =~= before.remove(lowercase(field.name@)));
    }
    Ok(())
}

} // verus!
