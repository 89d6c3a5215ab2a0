use valo_semantics::ast::{
    ArrayBound, ArrayDecl, ClassDecl, ClassField, ClassInheritance, ClassMember, Expr, ExprKind, Parameter,
    PassingMode, Visibility,
};
use valo_semantics::class_fields::insert_class_field;
use valo_semantics::diagnostics::{DiagnosticCode, Span};
use valo_semantics::name_map::NameMap;
use valo_semantics::statements::{class_constant_symbols, params_to_sigs};
use valo_semantics::symbols::{CallableSig, VarType};
use valo_semantics::type_model::TypeName;
use valo_semantics::types::{ClassFieldSig, ClassPropertySig};

fn span(line: usize) -> Span {
    Span { line, column: 1 }
}

fn field(name: &str, ty: Option<TypeName>, array: Option<ArrayDecl>, line: usize) -> ClassField {
    ClassField {
        name: name.to_string(),
        visibility: Visibility::Private,
        is_shared: false,
        with_events: false,
        ty,
        array,
        initializer: None,
        span: span(line),
    }
}

#[test]
fn a_field_is_recorded_with_its_type_or_as_a_variant() {
    let mut fields: NameMap<ClassFieldSig> = NameMap::new();
    let events: NameMap<CallableSig> = NameMap::new();
    let properties: NameMap<ClassPropertySig> = NameMap::new();
    let grid = field("Grid", Some(TypeName::Int32), Some(ArrayDecl::Fixed(vec![ArrayBound { lower: 0, upper: 9 }])), 2);
    assert!(insert_class_field("Board", &grid, &mut fields, &events, &properties).is_ok());
    assert!(insert_class_field("Board", &field("Note", None, None, 3), &mut fields, &events, &properties).is_ok());
    let g = fields.get("grid").unwrap();
    assert!(matches!(g.ty, TypeName::Int32));
    assert!(matches!(&g.array, Some(ArrayDecl::Fixed(b)) if b.len() == 1 && b[0].upper == 9));
    assert!(matches!(fields.get("note").unwrap().ty, TypeName::Variant));
}

#[test]
fn a_field_named_like_another_member_is_reported() {
    let mut fields: NameMap<ClassFieldSig> = NameMap::new();
    let events: NameMap<CallableSig> = NameMap::new();
    let properties: NameMap<ClassPropertySig> = NameMap::new();
    assert!(insert_class_field("Board", &field("Size", None, None, 2), &mut fields, &events, &properties).is_ok());
    let d = insert_class_field("Board", &field("SIZE", Some(TypeName::Int64), None, 4), &mut fields, &events, &properties)
        .unwrap_err();
    assert_eq!(d.code, DiagnosticCode::MemberAccess);
    assert_eq!(d.message, "Field 'SIZE' conflicts with another member in Class 'Board'");
    assert_eq!(d.span, Some(span(4)));
    assert!(matches!(fields.get("size").unwrap().ty, TypeName::Variant));
    assert_eq!(fields.len(), 1);
}

fn lit(value: i64, line: usize) -> Expr {
    Expr { kind: ExprKind::Integer(value), span: span(line) }
}

#[test]
fn class_constants_are_public_of_their_declared_type_and_the_later_one_counts() {
    let decl = ClassDecl {
        name: "Limits".to_string(),
        visibility: Visibility::Public,
        inheritance: ClassInheritance::Normal,
        base_class: None,
        members: vec![
            ClassMember::Const { name: "Max".to_string(), ty: Some(TypeName::Int32), value: lit(10, 2), span: span(2) },
            ClassMember::Field(field("Count", None, None, 3)),
            ClassMember::Const { name: "Label".to_string(), ty: None, value: lit(1, 4), span: span(4) },
            ClassMember::Const { name: "MAX".to_string(), ty: Some(TypeName::Int64), value: lit(20, 5), span: span(5) },
        ],
        span: span(1),
    };
    let table = class_constant_symbols(&decl);
    assert_eq!(table.len(), 2);
    assert!(matches!(table.get("max"), Some(VarType::Const(Visibility::Public, TypeName::Int64))));
    assert!(matches!(table.get("label"), Some(VarType::Const(Visibility::Public, TypeName::Variant))));
    assert!(table.get("count").is_none());
}

#[test]
fn parameters_become_signatures_in_order() {
    let params = vec![
        Parameter {
            name: "Count".to_string(),
            ty: TypeName::Int32,
            mode: PassingMode::ByRef,
            is_optional: false,
            is_param_array: false,
            span: span(1),
        },
        Parameter {
            name: "Rest".to_string(),
            ty: TypeName::Variant,
            mode: PassingMode::ByVal,
            is_optional: true,
            is_param_array: true,
            span: span(1),
        },
    ];
    let sigs = params_to_sigs(&params);
    assert_eq!(sigs.len(), 2);
    assert_eq!(sigs[0].name, "Count");
    assert!(matches!(sigs[0].mode, PassingMode::ByRef));
    assert!(matches!(sigs[0].ty, TypeName::Int32));
    assert!(sigs[1].is_optional && sigs[1].is_param_array);
    assert!(matches!(sigs[1].mode, PassingMode::ByVal));
}
