use valo_semantics::ast::{
    ClassDecl, ClassInheritance, ClassMember, EnumDecl, LoadedModule, ProcedureDecl, Program, Project, ResolvedImport, TypeDecl, TypeKind,
    Visibility,
};
use valo_semantics::diagnostics::{DiagnosticCode, Span};
use valo_semantics::hir::{build_project_index, FunctionSymbolKind, TypeSymbolKind};
use valo_semantics::ids::{FunctionId, ModuleId, SymbolId, TypeId};
use valo_semantics::text::key;
use valo_semantics::validate::validate_project_for_check;

fn span(line: usize) -> Span {
    Span { line, column: 1 }
}

fn empty_program(namespace: Option<&str>) -> Program {
    Program {
        namespace: namespace.map(|n| n.to_string()),
        types: Vec::new(),
        enums: Vec::new(),
        interfaces: Vec::new(),
        classes: Vec::new(),
        procedures: Vec::new(),
        functions: Vec::new(),
        properties: Vec::new(),
        declares: Vec::new(),
        imports: Vec::new(),
        option_explicit: true,
    }
}

fn procedure(name: &str, line: usize) -> ProcedureDecl {
    ProcedureDecl { name: name.to_string(), visibility: Visibility::Public, params: Vec::new(), body: Vec::new(), span: span(line) }
}

fn structure(name: &str, line: usize) -> TypeDecl {
    TypeDecl {
        name: name.to_string(),
        kind: TypeKind::Structure,
        visibility: Visibility::Public,
        fields: Vec::new(),
        span: span(line),
    }
}

fn module(name: &str, program: Program) -> LoadedModule {
    LoadedModule { name: name.to_string(), path: format!("{name}.valo"), program, imports: Vec::new() }
}

fn main_module() -> LoadedModule {
    let mut program = empty_program(None);
    program.procedures.push(procedure("Main", 1));
    program.types.push(structure("Point", 2));
    program.enums.push(EnumDecl { name: "Color".to_string(), visibility: Visibility::Private, members: Vec::new(), span: span(3) });
    program.classes.push(ClassDecl {
        name: "Shapes".to_string(),
        visibility: Visibility::Public,
        inheritance: ClassInheritance::Normal,
        base_class: None,
        members: vec![
            ClassMember::Class {
                name: "Circle".to_string(),
                visibility: Visibility::Public,
                members: vec![ClassMember::Enum(EnumDecl {
                    name: "Kind".to_string(),
                    visibility: Visibility::Public,
                    members: Vec::new(),
                    span: span(6),
                })],
                span: span(5),
            },
            ClassMember::Other,
        ],
        span: span(4),
    });
    module("Main", program)
}

#[test]
fn every_declaration_is_indexed_under_its_qualified_name() {
    let project = Project { modules: vec![main_module()], entry: 0 };
    let index = build_project_index(&project).expect("no duplicates");
    assert_eq!(index.modules.len(), 1);
    assert_eq!(index.modules[0].name, "Main");
    let names: Vec<&str> = index.types.iter().map(|t| t.qualified_name.as_str()).collect();
    assert_eq!(names, vec!["Main.Point", "Main.Color", "Main.Shapes", "Main.Shapes.Circle", "Main.Shapes.Circle.Kind"]);
    let kinds: Vec<TypeSymbolKind> = index.types.iter().map(|t| t.kind).collect();
    assert_eq!(
        kinds,
        vec![
            TypeSymbolKind::Structure,
            TypeSymbolKind::Enum,
            TypeSymbolKind::Class,
            TypeSymbolKind::Class,
            TypeSymbolKind::Enum
        ]
    );
    assert_eq!(index.types[3].name, "Shapes.Circle");
    assert_eq!(index.types[3].id, TypeId(3));
    assert_eq!(index.functions.len(), 1);
    assert_eq!(index.functions[0].qualified_name, "Main.Main");
    assert_eq!(index.functions[0].kind, FunctionSymbolKind::Sub);
    assert_eq!(index.by_qualified_name.get(key("main.shapes.circle").as_str()), Some(&SymbolId::Type(TypeId(3))));
    assert_eq!(index.by_qualified_name.get(key("MAIN").as_str()), Some(&SymbolId::Module(ModuleId(0))));
    assert_eq!(index.by_qualified_name.get(key("Main.Main").as_str()), Some(&SymbolId::Function(FunctionId(0))));
    assert_eq!(index.by_qualified_name.len(), 7);
}

#[test]
fn a_namespace_qualifies_names_that_do_not_already_carry_it() {
    let mut program = empty_program(Some("App"));
    program.types.push(structure("Point", 1));
    program.types.push(structure("App.Size", 2));
    let project = Project { modules: vec![module("Geometry", program)], entry: 0 };
    let index = build_project_index(&project).expect("no duplicates");
    assert_eq!(index.types[0].qualified_name, "App.Point");
    assert_eq!(index.types[1].qualified_name, "App.Size");
    assert_eq!(index.modules[0].namespace.as_deref(), Some("App"));
}

#[test]
fn a_name_declared_twice_is_reported_at_the_second_declaration() {
    let mut program = empty_program(None);
    program.types.push(structure("Point", 1));
    program.functions.push(procedure("POINT", 9));
    let project = Project { modules: vec![module("Main", program)], entry: 0 };
    let error = build_project_index(&project).unwrap_err();
    assert_eq!(error.code, DiagnosticCode::DuplicateDeclaration);
    assert_eq!(error.message, "Symbol 'Main.POINT' is already declared in this project");
    assert_eq!(error.span, Some(span(9)));
}

#[test]
fn two_modules_in_one_namespace_cannot_declare_the_same_type() {
    let mut first = empty_program(Some("App"));
    first.types.push(structure("Point", 1));
    let mut second = empty_program(Some("App"));
    second.types.push(structure("Point", 7));
    let project = Project { modules: vec![module("A", first), module("B", second)], entry: 0 };
    let error = build_project_index(&project).unwrap_err();
    assert_eq!(error.message, "Symbol 'App.Point' is already declared in this project");
    assert_eq!(error.span, Some(span(7)));
}

#[test]
fn a_module_named_twice_has_no_declaration_site() {
    let project = Project {
        modules: vec![module("Main", empty_program(None)), module("MAIN", empty_program(None))],
        entry: 0,
    };
    let error = build_project_index(&project).unwrap_err();
    assert_eq!(error.message, "Symbol 'MAIN' is already declared in this project");
    assert_eq!(error.span, None);
}

fn import(qualifier: &str, module: usize, line: usize) -> ResolvedImport {
    ResolvedImport { qualifier: qualifier.to_string(), module, span: span(line) }
}

#[test]
fn an_import_alias_may_be_used_once() {
    let mut main = main_module();
    main.imports = vec![import("Utils", 1, 10), import("UTILS", 1, 11)];
    let project = Project { modules: vec![main, module("Utils", empty_program(None))], entry: 0 };
    let error = validate_project_for_check(&project).unwrap_err();
    assert_eq!(error.code, DiagnosticCode::DuplicateImport);
    assert_eq!(error.message, "Import alias 'UTILS' is already used");
    assert_eq!(error.span, Some(span(11)));
}

#[test]
fn an_import_alias_may_not_hide_a_top_level_declaration() {
    let mut main = main_module();
    main.imports = vec![import("shapes", 1, 10)];
    let project = Project { modules: vec![main, module("Utils", empty_program(None))], entry: 0 };
    let error = validate_project_for_check(&project).unwrap_err();
    assert_eq!(error.message, "Import alias 'shapes' conflicts with a top-level declaration");
}

#[test]
fn a_project_with_distinct_names_and_aliases_checks() {
    let mut main = main_module();
    main.imports = vec![import("Utils", 1, 10)];
    let project = Project { modules: vec![main, module("Utils", empty_program(None))], entry: 0 };
    assert!(validate_project_for_check(&project).is_ok());
}
