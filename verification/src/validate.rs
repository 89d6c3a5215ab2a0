//! Project-level validation: the declarations of the whole project, and the
//! import aliases of each module.
use vstd::prelude::*;

use crate::ast::{ClassDecl, LoadedModule, ProcedureDecl, Program, Project, ResolvedImport};
use crate::context::Context;
use crate::symbols::{Signatures, VarType};
use crate::types::TypeRegistry;
use crate::diagnostics::{Diagnostic, DiagnosticCode, Span};
use crate::hir::{build_project_index, project_index_spec, reports_duplicate};
use crate::name_map::NameMap;
use crate::text::{eq_ignore_ascii_case, key, lowercase, push_str, same_ignoring_ascii_case};

verus! {

/// Why an import is rejected, and where.
pub struct ImportFailure {
    pub message: Seq<char>,
    pub span: Span,
}

/// Whether a diagnostic reports this import failure.
pub open spec fn reports_import(d: Diagnostic, f: ImportFailure) -> bool {
    &&& d.code == DiagnosticCode::DuplicateImport
    &&& d.message@ == f.message
    &&& d.span == Some(f.span)
    &&& d.help is None
}

/// Whether an earlier import of the list uses the same qualifier as import
/// `k`, without regard to case.
pub open spec fn alias_taken(imports: Seq<ResolvedImport>, k: int) -> bool {
    exists|j: int| 0 <= j < k && #[trigger] lowercase(imports[j].qualifier@) == lowercase(imports[k].qualifier@)
}

/// Whether one of the procedures is named `q`, without regard to ASCII case.
pub open spec fn names_procedure(decls: Seq<ProcedureDecl>, q: Seq<char>) -> bool {
    exists|i: int| 0 <= i < decls.len() && same_ignoring_ascii_case(#[trigger] decls[i].name@, q)
}

/// Whether one of the classes is named `q`, without regard to ASCII case.
pub open spec fn names_class(classes: Seq<ClassDecl>, q: Seq<char>) -> bool {
    exists|i: int| 0 <= i < classes.len() && same_ignoring_ascii_case(#[trigger] classes[i].name@, q)
}

/// Whether a qualifier would hide a top-level sub, function or class of the
/// module.
pub open spec fn conflicts_with_declaration(program: Program, q: Seq<char>) -> bool {
    names_procedure(program.procedures@, q) || names_procedure(program.functions@, q) || names_class(program.classes@, q)
}

/// The first rejected import of a module from position `k` on: a qualifier
/// used twice, or one that names a top-level declaration.
pub open spec fn import_failure(module: LoadedModule, k: int) -> Option<ImportFailure>
    decreases module.imports@.len() - k,
{
    if k < 0 || k >= module.imports@.len() {
        None
    } else {
        let import = module.imports@[k];
        let q = import.qualifier@;
        if alias_taken(module.imports@, k) {
            Some(ImportFailure { message: "Import alias '"@ + q + "' is already used"@, span: import.span })
        } else if conflicts_with_declaration(module.program, q) {
            Some(
                ImportFailure {
                    message: "Import alias '"@ + q + "' conflicts with a top-level declaration"@,
                    span: import.span,
                },
            )
        } else {
            import_failure(module, k + 1)
        }
    }
}

/// The first rejected import of the modules from position `i` on.
pub open spec fn project_import_failure(project: Project, i: int) -> Option<ImportFailure>
    decreases project.modules@.len() - i,
{
    if i < 0 || i >= project.modules@.len() {
        None
    } else {
        match import_failure(project.modules@[i], 0) {
            Some(f) => Some(f),
            None => project_import_failure(project, i + 1),
        }
    }
}

/// Whether every import of every module names a module of the project.
pub open spec fn imports_resolved(project: Project) -> bool {
    forall|i: int, j: int|
        0 <= i < project.modules@.len() && 0 <= j < project.modules@[i].imports@.len() ==> (#[trigger] project.modules@[i].imports@[j]).module
            < project.modules@.len()
}

/// Whether one of the procedures is named `q`, without regard to ASCII case.
fn any_procedure_named(decls: &Vec<ProcedureDecl>, q: &str) -> (r: bool)
    ensures
        r == names_procedure(decls@, q@),
{
    let mut i: usize = 0;
    while i < decls.len()
        invariant
            i <= decls@.len(),
            forall|j: int| 0 <= j < i ==> !same_ignoring_ascii_case(#[trigger] decls@[j].name@, q@),
        decreases decls@.len() - i,
    {
        if eq_ignore_ascii_case(decls[i].name.as_str(), q) {
            return true;
        }
        i = i + 1;
    }
    false
}

/// Whether one of the classes is named `q`, without regard to ASCII case.
fn any_class_named(classes: &Vec<ClassDecl>, q: &str) -> (r: bool)
    ensures
        r == names_class(classes@, q@),
{
    let mut i: usize = 0;
    while i < classes.len()
        invariant
            i <= classes@.len(),
            forall|j: int| 0 <= j < i ==> !same_ignoring_ascii_case(#[trigger] classes@[j].name@, q@),
        decreases classes@.len() - i,
    {
        if eq_ignore_ascii_case(classes[i].name.as_str(), q) {
            return true;
        }
        i = i + 1;
    }
    false
}

/// The diagnostic for a rejected import alias.
fn import_error(qualifier: &str, tail: &str, span: Span) -> (d: Diagnostic)
    ensures
        reports_import(d, ImportFailure { message: "Import alias '"@ + qualifier@ + tail@, span }),
{
    let mut message = String::from_str("Import alias '");
    push_str(&mut message, qualifier);
    push_str(&mut message, tail);
    Diagnostic::new(DiagnosticCode::DuplicateImport, message, Some(span))
}

/// Checks the import qualifiers of a module: each is used once, without
/// regard to case, and none names a top-level sub, function or class of the
/// module.
fn validate_import_aliases(module: &LoadedModule, project: &Project) -> (r: Result<(), Diagnostic>)
    requires
        forall|j: int| 0 <= j < module.imports@.len() ==> (#[trigger] module.imports@[j]).module < project.modules@.len(),
    ensures
        match import_failure(*module, 0) {
            Some(f) => r matches Err(d) && reports_import(d, f),
            None => r is Ok,
        },
{
    let mut aliases: NameMap<Span> = NameMap::new();
    let mut k: usize = 0;
    while k < module.imports.len()
        invariant
            k <= module.imports@.len(),
            forall|j: int| 0 <= j < module.imports@.len() ==> (#[trigger] module.imports@[j]).module < project.modules@.len(),
            forall|text: Seq<char>|
                aliases.table().contains_key(text) <==> exists|j: int|
                    0 <= j < k && #[trigger] lowercase(module.imports@[j].qualifier@) == text,
            import_failure(*module, 0) == import_failure(*module, k as int),
        decreases module.imports@.len() - k,
    {
        let import = &module.imports[k];
        let alias_key = key(import.qualifier.as_str());
        let ghost before = aliases.table();
        if aliases.insert(alias_key, import.span) {
            assert(alias_taken(module.imports@, k as int));
            return Err(import_error(import.qualifier.as_str(), "' is already used", import.span));
        }
        assert(!alias_taken(module.imports@, k as int)) by {
            if alias_taken(module.imports@, k as int) {
                let j = choose|j: int|
                    0 <= j < k && #[trigger] lowercase(module.imports@[j].qualifier@) == lowercase(module.imports@[k as int].qualifier@);
                assert(before.contains_key(lowercase(module.imports@[j].qualifier@)));
            }
        }
        let _imported = &project.modules[import.module];
        let q = import.qualifier.as_str();
        if any_procedure_named(&module.program.procedures, q) || any_procedure_named(&module.program.functions, q)
            || any_class_named(&module.program.classes, q) {
            return Err(import_error(q, "' conflicts with a top-level declaration", import.span));
        }
        assert forall|text: Seq<char>|
            aliases.table().contains_key(text) <==> exists|j: int|
                0 <= j < k + 1 && #[trigger] lowercase(module.imports@[j].qualifier@) == text by {
            if aliases.table().contains_key(text) && text != lowercase(module.imports@[k as int].qualifier@) {
                assert(before.contains_key(text));
            }
            if exists|j: int| 0 <= j < k + 1 && #[trigger] lowercase(module.imports@[j].qualifier@) == text {
                let j = choose|j: int| 0 <= j < k + 1 && #[trigger] lowercase(module.imports@[j].qualifier@) == text;
                if j < k {
                    assert(before.contains_key(text));
                }
            }
        }
        k = k + 1;
    }
    Ok(())
}

/// Checks a project for the `check` command: its declarations form a valid
/// project index, and the import aliases of every module are valid.
pub fn validate_project_for_check(project: &Project) -> (r: Result<(), Diagnostic>)
    requires
        imports_resolved(*project),
    ensures
        match project_index_spec(*project) {
            Err(d) => r matches Err(diag) && reports_duplicate(*project, diag, d),
            Ok(_) => match project_import_failure(*project, 0) {
                Some(f) => r matches Err(d) && reports_import(d, f),
                None => r is Ok,
            },
        },
{
    if let Err(d) = build_project_index(project) {
        return Err(d);
    }
    let mut i: usize = 0;
    while i < project.modules.len()
        invariant
            i <= project.modules@.len(),
            imports_resolved(*project),
            project_index_spec(*project) is Ok,
            project_import_failure(*project, 0) == project_import_failure(*project, i as int),
        decreases project.modules@.len() - i,
    {
        let module = &project.modules[i];
        assert forall|j: int| 0 <= j < module.imports@.len() implies (#[trigger] module.imports@[j]).module < project.modules@.len() by {
            assert(project.modules@[i as int].imports@[j] == module.imports@[j]);
        }
        if let Err(d) = validate_import_aliases(module, project) {
            return Err(d);
        }
        i = i + 1;
    }
    Ok(())
}

/// How deeply the statement being checked is nested in each kind of loop;
/// `Exit For`, `Exit While` and `Exit Do` need an enclosing loop of their
/// kind.
#[derive(Debug, Clone, Copy, PartialEq, Eq, Structural)]
pub struct LoopContext {
    pub for_depth: usize,
    pub while_depth: usize,
    pub do_depth: usize,
}

impl LoopContext {
    /// The context inside one more `For` loop.
    pub fn in_for(self) -> (r: Self)
        requires
            self.for_depth < usize::MAX,
        ensures
            r == (LoopContext { for_depth: (self.for_depth + 1) as usize, ..self }),
    {
        LoopContext { for_depth: self.for_depth + 1, ..self }
    }

    /// The context inside one more `While` loop.
    pub fn in_while(self) -> (r: Self)
        requires
            self.while_depth < usize::MAX,
        ensures
            r == (LoopContext { while_depth: (self.while_depth + 1) as usize, ..self }),
    {
        LoopContext { while_depth: self.while_depth + 1, ..self }
    }

    /// The context inside one more `Do` loop.
    pub fn in_do(self) -> (r: Self)
        requires
            self.do_depth < usize::MAX,
        ensures
            r == (LoopContext { do_depth: (self.do_depth + 1) as usize, ..self }),
    {
        LoopContext { do_depth: self.do_depth + 1, ..self }
    }
}

/// Everything the statements of one body are checked against: the names in
/// scope, the types and signatures of the program, the kind of body, and
/// where the statements stand.
pub struct StmtValidation<'a, 'ctx> {
    pub symbols: &'a mut NameMap<VarType>,
    pub types: &'a TypeRegistry,
    pub signatures: &'a Signatures,
    pub context: &'a mut Context<'ctx>,
    pub loop_context: LoopContext,
    pub in_with: bool,
    pub option_explicit: bool,
}

} // verus!
