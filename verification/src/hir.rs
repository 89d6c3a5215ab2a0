//! Project-wide semantic index.
//!
//! The index records stable IDs and import-aware ownership, so that later
//! passes can resolve bodies, expose tooling data, lower and package a
//! project without re-deriving identity from strings at every layer.
//!
//! Every module, type and module-level procedure of a project gets a
//! qualified name; two declarations whose qualified names agree without
//! regard to case are reported as a duplicate.
use vstd::prelude::*;

use crate::ast::{ClassDecl, ClassMember, EnumDecl, InterfaceDecl, Program, ProcedureDecl, Project, TypeDecl, TypeKind, Visibility};
use crate::diagnostics::{Diagnostic, DiagnosticCode, Span};
use crate::ids::{FunctionId, ModuleId, SymbolId, TypeId};
use crate::name_map::NameMap;
use crate::text::{is_prefix, key, lowercase, push_str, starts_with};

verus! {

/// The index of a project: its modules, types and module-level procedures
/// in declaration order, and what each qualified name denotes.
#[derive(Debug)]
pub struct ProjectIndex {
    pub modules: Vec<ModuleSymbol>,
    pub types: Vec<TypeSymbol>,
    pub functions: Vec<FunctionSymbol>,
    /// Keyed by the lower-cased qualified name.
    pub by_qualified_name: NameMap<SymbolId>,
}

/// A module of the project.
#[derive(Debug)]
pub struct ModuleSymbol {
    pub id: ModuleId,
    pub name: String,
    pub namespace: Option<String>,
    pub path: String,
}

/// A type declared in a module, possibly nested in classes.
#[derive(Debug)]
pub struct TypeSymbol {
    pub id: TypeId,
    pub module: ModuleId,
    pub name: String,
    pub qualified_name: String,
    pub visibility: Visibility,
    pub kind: TypeSymbolKind,
    pub span: Span,
}

/// What declares a type.
#[derive(Debug, Clone, Copy, PartialEq, Eq, Structural)]
pub enum TypeSymbolKind {
    Class,
    Interface,
    Structure,
    Type,
    Enum,
}

/// A module-level procedure.
#[derive(Debug)]
pub struct FunctionSymbol {
    pub id: FunctionId,
    pub module: ModuleId,
    pub name: String,
    pub qualified_name: String,
    pub visibility: Visibility,
    pub kind: FunctionSymbolKind,
    pub span: Span,
}

/// What declares a module-level procedure.
#[derive(Debug, Clone, Copy, PartialEq, Eq, Structural)]
pub enum FunctionSymbolKind {
    Sub,
    Function,
    Property,
    Declare,
}

/// An optional text as characters.
pub open spec fn opt_chars(s: Option<String>) -> Option<Seq<char>> {
    match s {
        Some(x) => Some(x@),
        None => None,
    }
}

/// A module as the index records it.
pub struct ModuleSymbolView {
    pub id: ModuleId,
    pub name: Seq<char>,
    pub namespace: Option<Seq<char>>,
    pub path: Seq<char>,
}

/// A type as the index records it.
pub struct TypeSymbolView {
    pub id: TypeId,
    pub module: ModuleId,
    pub name: Seq<char>,
    pub qualified_name: Seq<char>,
    pub visibility: Visibility,
    pub kind: TypeSymbolKind,
    pub span: Span,
}

/// A module-level procedure as the index records it.
pub struct FunctionSymbolView {
    pub id: FunctionId,
    pub module: ModuleId,
    pub name: Seq<char>,
    pub qualified_name: Seq<char>,
    pub visibility: Visibility,
    pub kind: FunctionSymbolKind,
    pub span: Span,
}

/// The index as values: the symbols in order and the table from lower-cased
/// qualified names to what they denote.
pub struct ProjectIndexView {
    pub modules: Seq<ModuleSymbolView>,
    pub types: Seq<TypeSymbolView>,
    pub functions: Seq<FunctionSymbolView>,
    pub names: Map<Seq<char>, SymbolId>,
}

impl View for ModuleSymbol {
    type V = ModuleSymbolView;

    open spec fn view(&self) -> ModuleSymbolView {
        ModuleSymbolView { id: self.id, name: self.name@, namespace: opt_chars(self.namespace), path: self.path@ }
    }
}

impl View for TypeSymbol {
    type V = TypeSymbolView;

    open spec fn view(&self) -> TypeSymbolView {
        TypeSymbolView {
            id: self.id,
            module: self.module,
            name: self.name@,
            qualified_name: self.qualified_name@,
            visibility: self.visibility,
            kind: self.kind,
            span: self.span,
        }
    }
}

impl View for FunctionSymbol {
    type V = FunctionSymbolView;

    open spec fn view(&self) -> FunctionSymbolView {
        FunctionSymbolView {
            id: self.id,
            module: self.module,
            name: self.name@,
            qualified_name: self.qualified_name@,
            visibility: self.visibility,
            kind: self.kind,
            span: self.span,
        }
    }
}

impl View for ProjectIndex {
    type V = ProjectIndexView;

    open spec fn view(&self) -> ProjectIndexView {
        ProjectIndexView {
            modules: self.modules@.map_values(|m: ModuleSymbol| m@),
            types: self.types@.map_values(|t: TypeSymbol| t@),
            functions: self.functions@.map_values(|f: FunctionSymbol| f@),
            names: self.by_qualified_name.table(),
        }
    }
}

/// One declaration the index records, in the order the index records them.
pub enum Declared {
    /// The module at this position of the project.
    Module { module: usize },
    /// A type, named as written or, when nested, after its enclosing classes.
    Type { module: usize, name: Seq<char>, visibility: Visibility, kind: TypeSymbolKind, span: Span },
    /// A module-level procedure.
    Function { module: usize, name: Seq<char>, visibility: Visibility, kind: FunctionSymbolKind, span: Span },
}

/// The qualified name of a declaration: inside a namespace, a name that
/// already begins with it stands as written and any other is put under it;
/// outside one, the name is put under the module's name.
pub open spec fn qualified_spec(module_name: Seq<char>, namespace: Option<Seq<char>>, name: Seq<char>) -> Seq<char> {
    match namespace {
        Some(ns) => if is_prefix(ns, name) {
            name
        } else {
            ns + "."@ + name
        },
        None => module_name + "."@ + name,
    }
}

/// The name a nested declaration is recorded under: the enclosing class's
/// name, a dot, and its own name.
pub open spec fn nested_name(prefix: Seq<char>, name: Seq<char>) -> Seq<char> {
    prefix + "."@ + name
}

/// The index entry of a `Type` or `Structure` declaration.
pub open spec fn type_entry(module: usize, name: Seq<char>, t: TypeDecl) -> Declared {
    Declared::Type {
        module,
        name,
        visibility: t.visibility,
        kind: if t.kind is Structure {
            TypeSymbolKind::Structure
        } else {
            TypeSymbolKind::Type
        },
        span: t.span,
    }
}

/// The index entry of an `Enum` declaration.
pub open spec fn enum_entry(module: usize, name: Seq<char>, e: EnumDecl) -> Declared {
    Declared::Type { module, name, visibility: e.visibility, kind: TypeSymbolKind::Enum, span: e.span }
}

/// The index entry of an `Interface` declaration.
pub open spec fn interface_entry(module: usize, i: InterfaceDecl) -> Declared {
    Declared::Type { module, name: i.name@, visibility: i.visibility, kind: TypeSymbolKind::Interface, span: i.span }
}

/// The index entry of a module-level procedure.
pub open spec fn function_entry(module: usize, p: ProcedureDecl, kind: FunctionSymbolKind) -> Declared {
    Declared::Function { module, name: p.name@, visibility: p.visibility, kind, span: p.span }
}

/// The entries of the members of a class from position `k` on, nested names
/// put under `prefix`.
pub open spec fn member_entries(module: usize, members: Seq<ClassMember>, prefix: Seq<char>, k: int) -> Seq<Declared>
    decreases members, members.len() - k,
{
    if k < 0 || k >= members.len() {
        Seq::empty()
    } else {
        member_entry_list(module, members[k], prefix) + member_entries(module, members, prefix, k + 1)
    }
}

/// The entries one class member contributes: a nested type, or a nested
/// class followed by its own members.
pub open spec fn member_entry_list(module: usize, member: ClassMember, prefix: Seq<char>) -> Seq<Declared>
    decreases member, 0nat,
{
    match member {
        ClassMember::Type(t) => seq![type_entry(module, nested_name(prefix, t.name@), t)],
        ClassMember::Enum(e) => seq![enum_entry(module, nested_name(prefix, e.name@), e)],
        ClassMember::Class { name, visibility, members, span } => {
            let qualified = nested_name(prefix, name@);
            seq![Declared::Type { module, name: qualified, visibility, kind: TypeSymbolKind::Class, span }]
                + member_entries(module, members@, qualified, 0)
        },
        _ => Seq::empty(),
    }
}

/// The entries of the classes from position `k` on: each class, then its
/// nested types.
pub open spec fn class_entries(module: usize, classes: Seq<ClassDecl>, k: int) -> Seq<Declared>
    decreases classes.len() - k,
{
    if k < 0 || k >= classes.len() {
        Seq::empty()
    } else {
        let c = classes[k];
        seq![Declared::Type { module, name: c.name@, visibility: c.visibility, kind: TypeSymbolKind::Class, span: c.span }]
            + member_entries(module, c.members@, c.name@, 0) + class_entries(module, classes, k + 1)
    }
}

/// The entries of one module: the module, its types, enums, interfaces,
/// classes with their nested types, then its subs, functions, properties and
/// declares.
pub open spec fn module_entries(module: usize, program: Program) -> Seq<Declared> {
    seq![Declared::Module { module }] + program.types@.map_values(|t: TypeDecl| type_entry(module, t.name@, t))
        + program.enums@.map_values(|e: EnumDecl| enum_entry(module, e.name@, e)) + program.interfaces@.map_values(
        |i: InterfaceDecl| interface_entry(module, i),
    ) + class_entries(module, program.classes@, 0) + program.procedures@.map_values(
        |p: ProcedureDecl| function_entry(module, p, FunctionSymbolKind::Sub),
    ) + program.functions@.map_values(|p: ProcedureDecl| function_entry(module, p, FunctionSymbolKind::Function))
        + program.properties@.map_values(|p: ProcedureDecl| function_entry(module, p, FunctionSymbolKind::Property))
        + program.declares@.map_values(|p: ProcedureDecl| function_entry(module, p, FunctionSymbolKind::Declare))
}

/// The entries of the modules from position `k` on, in project order.
pub open spec fn project_entries(project: Project, k: int) -> Seq<Declared>
    decreases project.modules@.len() - k,
{
    if k < 0 || k >= project.modules@.len() {
        Seq::empty()
    } else {
        module_entries(k as usize, project.modules@[k].program) + project_entries(project, k + 1)
    }
}

/// The qualified name of an entry of the project.
pub open spec fn entry_name(project: Project, d: Declared) -> Seq<char> {
    match d {
        Declared::Module { module } => project.modules@[module as int].name@,
        Declared::Type { module, name, .. } | Declared::Function { module, name, .. } => qualified_spec(
            project.modules@[module as int].name@,
            opt_chars(project.modules@[module as int].program.namespace),
            name,
        ),
    }
}

/// Where an entry is declared; a module has no declaration site.
pub open spec fn entry_span(d: Declared) -> Option<Span> {
    match d {
        Declared::Module { .. } => None,
        Declared::Type { span, .. } | Declared::Function { span, .. } => Some(span),
    }
}

/// The index with one more entry, or the entry itself when its lower-cased
/// qualified name is already taken.
pub open spec fn record(project: Project, index: ProjectIndexView, d: Declared) -> Result<ProjectIndexView, Declared> {
    let q = entry_name(project, d);
    let k = lowercase(q);
    if index.names.contains_key(k) {
        Err(d)
    } else {
        match d {
            Declared::Module { module } => {
                let m = project.modules@[module as int];
                Ok(ProjectIndexView {
                    modules: index.modules.push(
                        ModuleSymbolView {
                            id: ModuleId(module),
                            name: m.name@,
                            namespace: opt_chars(m.program.namespace),
                            path: m.path@,
                        },
                    ),
                    names: index.names.insert(k, SymbolId::Module(ModuleId(module))),
                    ..index
                })
            },
            Declared::Type { module, name, visibility, kind, span } => {
                let id = TypeId(index.types.len() as usize);
                Ok(ProjectIndexView {
                    types: index.types.push(
                        TypeSymbolView { id, module: ModuleId(module), name, qualified_name: q, visibility, kind, span },
                    ),
                    names: index.names.insert(k, SymbolId::Type(id)),
                    ..index
                })
            },
            Declared::Function { module, name, visibility, kind, span } => {
                let id = FunctionId(index.functions.len() as usize);
                Ok(ProjectIndexView {
                    functions: index.functions.push(
                        FunctionSymbolView { id, module: ModuleId(module), name, qualified_name: q, visibility, kind, span },
                    ),
                    names: index.names.insert(k, SymbolId::Function(id)),
                    ..index
                })
            },
        }
    }
}

/// The empty index.
pub open spec fn empty_index() -> ProjectIndexView {
    ProjectIndexView { modules: Seq::empty(), types: Seq::empty(), functions: Seq::empty(), names: Map::empty() }
}

/// The index of a list of entries recorded in order, or the first entry whose
/// name was taken.
pub open spec fn index_entries(project: Project, entries: Seq<Declared>) -> Result<ProjectIndexView, Declared>
    decreases entries.len(),
{
    if entries.len() == 0 {
        Ok(empty_index())
    } else {
        match index_entries(project, entries.drop_last()) {
            Err(d) => Err(d),
            Ok(index) => record(project, index, entries.last()),
        }
    }
}

/// The index of a project, or its first duplicate declaration.
pub open spec fn project_index_spec(project: Project) -> Result<ProjectIndexView, Declared> {
    index_entries(project, project_entries(project, 0))
}

/// The message reporting a qualified name declared twice.
pub open spec fn duplicate_message(qualified: Seq<char>) -> Seq<char> {
    "Symbol '"@ + qualified + "' is already declared in this project"@
}

/// Whether a diagnostic reports a duplicate declaration of this entry.
pub open spec fn reports_duplicate(project: Project, diagnostic: Diagnostic, d: Declared) -> bool {
    &&& diagnostic.code == DiagnosticCode::DuplicateDeclaration
    &&& diagnostic.message@ == duplicate_message(entry_name(project, d))
    &&& diagnostic.span == entry_span(d)
    &&& diagnostic.help is None
}

/// The module an entry belongs to.
pub open spec fn module_of(d: Declared) -> usize {
    match d {
        Declared::Module { module } => module,
        Declared::Type { module, .. } => module,
        Declared::Function { module, .. } => module,
    }
}

/// Whether every entry of a list belongs to module `m`.
pub open spec fn all_in_module(entries: Seq<Declared>, m: usize) -> bool {
    forall|i: int| 0 <= i < entries.len() ==> module_of(#[trigger] entries[i]) == m
}

proof fn lemma_concat_in_module(a: Seq<Declared>, b: Seq<Declared>, m: usize)
    requires
        all_in_module(a, m),
        all_in_module(b, m),
    ensures
        all_in_module(a + b, m),
{
    assert forall|i: int| 0 <= i < (a + b).len() implies module_of(#[trigger] (a + b)[i]) == m by {
        if i < a.len() {
            assert((a + b)[i] == a[i]);
        } else {
            assert((a + b)[i] == b[i - a.len()]);
        }
    }
}

proof fn lemma_members_in_module(m: usize, members: Seq<ClassMember>, prefix: Seq<char>, k: int)
    ensures
        all_in_module(member_entries(m, members, prefix, k), m),
    decreases members, members.len() - k,
{
    if 0 <= k < members.len() {
        lemma_member_in_module(m, members[k], prefix);
        lemma_members_in_module(m, members, prefix, k + 1);
        lemma_concat_in_module(member_entry_list(m, members[k], prefix), member_entries(m, members, prefix, k + 1), m);
    }
}

proof fn lemma_member_in_module(m: usize, member: ClassMember, prefix: Seq<char>)
    ensures
        all_in_module(member_entry_list(m, member, prefix), m),
    decreases member, 0nat,
{
    if let ClassMember::Class { name, visibility, members, span } = member {
        let qualified = nested_name(prefix, name@);
        lemma_members_in_module(m, members@, qualified, 0);
        lemma_concat_in_module(
            seq![Declared::Type { module: m, name: qualified, visibility, kind: TypeSymbolKind::Class, span }],
            member_entries(m, members@, qualified, 0),
            m,
        );
    }
}

proof fn lemma_classes_in_module(m: usize, classes: Seq<ClassDecl>, k: int)
    ensures
        all_in_module(class_entries(m, classes, k), m),
    decreases classes.len() - k,
{
    if 0 <= k < classes.len() {
        let c = classes[k];
        lemma_members_in_module(m, c.members@, c.name@, 0);
        lemma_classes_in_module(m, classes, k + 1);
        let head = seq![Declared::Type { module: m, name: c.name@, visibility: c.visibility, kind: TypeSymbolKind::Class, span: c.span }];
        lemma_concat_in_module(head, member_entries(m, c.members@, c.name@, 0), m);
        lemma_concat_in_module(head + member_entries(m, c.members@, c.name@, 0), class_entries(m, classes, k + 1), m);
    }
}

proof fn lemma_module_entries_in_module(m: usize, program: Program)
    ensures
        all_in_module(module_entries(m, program), m),
{
    lemma_classes_in_module(m, program.classes@, 0);
    let parts = seq![
        seq![Declared::Module { module: m }],
        program.types@.map_values(|t: TypeDecl| type_entry(m, t.name@, t)),
        program.enums@.map_values(|e: EnumDecl| enum_entry(m, e.name@, e)),
        program.interfaces@.map_values(|i: InterfaceDecl| interface_entry(m, i)),
        class_entries(m, program.classes@, 0),
        program.procedures@.map_values(|p: ProcedureDecl| function_entry(m, p, FunctionSymbolKind::Sub)),
        program.functions@.map_values(|p: ProcedureDecl| function_entry(m, p, FunctionSymbolKind::Function)),
        program.properties@.map_values(|p: ProcedureDecl| function_entry(m, p, FunctionSymbolKind::Property)),
        program.declares@.map_values(|p: ProcedureDecl| function_entry(m, p, FunctionSymbolKind::Declare)),
    ];
    assert forall|j: int| 0 <= j < parts.len() implies all_in_module(#[trigger] parts[j], m) by {}
    let mut acc = parts[0];
    lemma_concat_in_module(acc, parts[1], m);
    acc = acc + parts[1];
    lemma_concat_in_module(acc, parts[2], m);
    acc = acc + parts[2];
    lemma_concat_in_module(acc, parts[3], m);
    acc = acc + parts[3];
    lemma_concat_in_module(acc, parts[4], m);
    acc = acc + parts[4];
    lemma_concat_in_module(acc, parts[5], m);
    acc = acc + parts[5];
    lemma_concat_in_module(acc, parts[6], m);
    acc = acc + parts[6];
    lemma_concat_in_module(acc, parts[7], m);
    acc = acc + parts[7];
    lemma_concat_in_module(acc, parts[8], m);
    acc = acc + parts[8];
    assert(acc == module_entries(m, program));
}

/// Every entry of a project belongs to one of its modules.
proof fn lemma_project_entries_in_range(project: Project, k: int)
    requires
        0 <= k,
    ensures
        forall|i: int|
            0 <= i < project_entries(project, k).len() ==> (module_of(#[trigger] project_entries(project, k)[i]) as int)
                < project.modules@.len(),
    decreases project.modules@.len() - k,
{
    if k < project.modules@.len() {
        lemma_project_entries_in_range(project, k + 1);
        lemma_module_entries_in_module(k as usize, project.modules@[k].program);
        let head = module_entries(k as usize, project.modules@[k].program);
        let rest = project_entries(project, k + 1);
        assert forall|i: int| 0 <= i < (head + rest).len() implies (module_of(#[trigger] (head + rest)[i]) as int) < project.modules@.len() by {
            if i < head.len() {
                assert((head + rest)[i] == head[i]);
            } else {
                assert((head + rest)[i] == rest[i - head.len()]);
            }
        }
    }
}

/// Once a duplicate is found, later entries change nothing.
proof fn lemma_index_err_extends(project: Project, a: Seq<Declared>, b: Seq<Declared>)
    requires
        index_entries(project, a) is Err,
    ensures
        index_entries(project, a + b) == index_entries(project, a),
    decreases b.len(),
{
    if b.len() == 0 {
        assert(a + b =~= a);
    } else {
        lemma_index_err_extends(project, a, b.drop_last());
        assert((a + b).drop_last() =~= a + b.drop_last());
    }
}

/// A declaration collected for the index.
enum Declaration {
    Module { module: usize },
    Type { module: usize, name: String, visibility: Visibility, kind: TypeSymbolKind, span: Span },
    Function { module: usize, name: String, visibility: Visibility, kind: FunctionSymbolKind, span: Span },
}

impl View for Declaration {
    type V = Declared;

    closed spec fn view(&self) -> Declared {
        match self {
            Declaration::Module { module } => Declared::Module { module: *module },
            Declaration::Type { module, name, visibility, kind, span } => Declared::Type {
                module: *module,
                name: name@,
                visibility: *visibility,
                kind: *kind,
                span: *span,
            },
            Declaration::Function { module, name, visibility, kind, span } => Declared::Function {
                module: *module,
                name: name@,
                visibility: *visibility,
                kind: *kind,
                span: *span,
            },
        }
    }
}

/// The entries a list of collected declarations stands for.
closed spec fn views(ds: Seq<Declaration>) -> Seq<Declared> {
    ds.map_values(|d: Declaration| d@)
}

/// Appends one declaration.
fn push_declaration(out: &mut Vec<Declaration>, d: Declaration)
    ensures
        views(final(out)@) == views(old(out)@).push(d@),
{
    out.push(d);
    assert(views(out@) =~= views(old(out)@).push(d@));
}

/// A name under an enclosing class's name.
fn dotted(prefix: &str, name: &str) -> (r: String)
    ensures
        r@ == nested_name(prefix@, name@),
{
    let mut out = String::from_str(prefix);
    push_str(&mut out, ".");
    push_str(&mut out, name);
    out
}

/// Collects the module-level procedures of one list, all of one kind.
fn collect_functions(list: &Vec<ProcedureDecl>, m: usize, kind: FunctionSymbolKind, out: &mut Vec<Declaration>)
    ensures
        views(final(out)@) == views(old(out)@) + list@.map_values(|p: ProcedureDecl| function_entry(m, p, kind)),
{
    let ghost base = views(out@);
    let mut i: usize = 0;
    while i < list.len()
        invariant
            i <= list@.len(),
            views(out@) == base + list@.subrange(0, i as int).map_values(|p: ProcedureDecl| function_entry(m, p, kind)),
        decreases list@.len() - i,
    {
        let p = &list[i];
        push_declaration(
            out,
            Declaration::Function { module: m, name: p.name.clone(), visibility: p.visibility, kind, span: p.span },
        );
        i = i + 1;
        assert(list@.subrange(0, i as int).map_values(|p: ProcedureDecl| function_entry(m, p, kind)) =~= list@.subrange(
            0,
            i - 1,
        ).map_values(|p: ProcedureDecl| function_entry(m, p, kind)).push(function_entry(m, *p, kind)));
    }
    assert(list@.subrange(0, list@.len() as int) =~= list@);
}

/// Collects the types nested in the members of a class, naming each under
/// `prefix`.
fn index_nested(members: &Vec<ClassMember>, prefix: &str, m: usize, out: &mut Vec<Declaration>)
    ensures
        views(final(out)@) == views(old(out)@) + member_entries(m, members@, prefix@, 0),
    decreases members@, 0nat,
{
    let ghost base = views(out@);
    let mut k: usize = 0;
    while k < members.len()
        invariant
            k <= members@.len(),
            base + member_entries(m, members@, prefix@, 0) == views(out@) + member_entries(m, members@, prefix@, k as int),
        decreases members@.len() - k,
    {
        let ghost before = views(out@);
        index_member(&members[k], prefix, m, out);
        assert(before + (member_entry_list(m, members@[k as int], prefix@) + member_entries(m, members@, prefix@, k + 1))
            =~= views(out@) + member_entries(m, members@, prefix@, k + 1));
        k = k + 1;
    }
    assert(views(out@) + Seq::<Declared>::empty() =~= views(out@));
}

/// Collects what one class member declares.
fn index_member(member: &ClassMember, prefix: &str, m: usize, out: &mut Vec<Declaration>)
    ensures
        views(final(out)@) == views(old(out)@) + member_entry_list(m, *member, prefix@),
    decreases member, 1nat,
{
    let ghost base = views(out@);
    match member {
        ClassMember::Type(t) => {
            let kind = if t.kind == TypeKind::Structure {
                TypeSymbolKind::Structure
            } else {
                TypeSymbolKind::Type
            };
            push_declaration(
                out,
                Declaration::Type { module: m, name: dotted(prefix, t.name.as_str()), visibility: t.visibility, kind, span: t.span },
            );
            assert(views(out@) =~= base + member_entry_list(m, *member, prefix@));
        },
        ClassMember::Enum(e) => {
            push_declaration(
                out,
                Declaration::Type {
                    module: m,
                    name: dotted(prefix, e.name.as_str()),
                    visibility: e.visibility,
                    kind: TypeSymbolKind::Enum,
                    span: e.span,
                },
            );
            assert(views(out@) =~= base + member_entry_list(m, *member, prefix@));
        },
        ClassMember::Class { name, visibility, members, span } => {
            let qualified = dotted(prefix, name.as_str());
            push_declaration(
                out,
                Declaration::Type {
                    module: m,
                    name: qualified.clone(),
                    visibility: *visibility,
                    kind: TypeSymbolKind::Class,
                    span: *span,
                },
            );
            index_nested(members, qualified.as_str(), m, out);
            assert(views(out@) =~= base + member_entry_list(m, *member, prefix@));
        },
        _ => {
            assert(views(out@) =~= base + member_entry_list(m, *member, prefix@));
        },
    }
}

/// Collects the classes of a module, each followed by its nested types.
fn collect_classes(classes: &Vec<ClassDecl>, m: usize, out: &mut Vec<Declaration>)
    ensures
        views(final(out)@) == views(old(out)@) + class_entries(m, classes@, 0),
{
    let ghost base = views(out@);
    let mut k: usize = 0;
    while k < classes.len()
        invariant
            k <= classes@.len(),
            base + class_entries(m, classes@, 0) == views(out@) + class_entries(m, classes@, k as int),
        decreases classes@.len() - k,
    {
        let ghost before = views(out@);
        let c = &classes[k];
        push_declaration(
            out,
            Declaration::Type { module: m, name: c.name.clone(), visibility: c.visibility, kind: TypeSymbolKind::Class, span: c.span },
        );
        index_nested(&c.members, c.name.as_str(), m, out);
        let ghost head = seq![Declared::Type { module: m, name: c.name@, visibility: c.visibility, kind: TypeSymbolKind::Class, span: c.span }];
        assert(before + (head + member_entries(m, c.members@, c.name@, 0) + class_entries(m, classes@, k + 1)) =~= views(out@)
            + class_entries(m, classes@, k + 1));
        k = k + 1;
    }
    assert(views(out@) + Seq::<Declared>::empty() =~= views(out@));
}

/// Collects everything one module declares, in index order.
fn collect_module(program: &Program, m: usize, out: &mut Vec<Declaration>)
    ensures
        views(final(out)@) == views(old(out)@) + module_entries(m, *program),
{
    let ghost base = views(out@);
    push_declaration(out, Declaration::Module { module: m });
    let ghost with_module = views(out@);
    let mut i: usize = 0;
    while i < program.types.len()
        invariant
            i <= program.types@.len(),
            views(out@) == with_module + program.types@.subrange(0, i as int).map_values(|t: TypeDecl| type_entry(m, t.name@, t)),
        decreases program.types@.len() - i,
    {
        let t = &program.types[i];
        let kind = if t.kind == TypeKind::Structure {
            TypeSymbolKind::Structure
        } else {
            TypeSymbolKind::Type
        };
        push_declaration(out, Declaration::Type { module: m, name: t.name.clone(), visibility: t.visibility, kind, span: t.span });
        i = i + 1;
        assert(program.types@.subrange(0, i as int).map_values(|t: TypeDecl| type_entry(m, t.name@, t)) =~= program.types@.subrange(
            0,
            i - 1,
        ).map_values(|t: TypeDecl| type_entry(m, t.name@, t)).push(type_entry(m, t.name@, *t)));
    }
    assert(program.types@.subrange(0, program.types@.len() as int) =~= program.types@);
    let ghost with_types = views(out@);
    let mut i: usize = 0;
    while i < program.enums.len()
        invariant
            i <= program.enums@.len(),
            views(out@) == with_types + program.enums@.subrange(0, i as int).map_values(|e: EnumDecl| enum_entry(m, e.name@, e)),
        decreases program.enums@.len() - i,
    {
        let e = &program.enums[i];
        push_declaration(
            out,
            Declaration::Type { module: m, name: e.name.clone(), visibility: e.visibility, kind: TypeSymbolKind::Enum, span: e.span },
        );
        i = i + 1;
        assert(program.enums@.subrange(0, i as int).map_values(|e: EnumDecl| enum_entry(m, e.name@, e)) =~= program.enums@.subrange(
            0,
            i - 1,
        ).map_values(|e: EnumDecl| enum_entry(m, e.name@, e)).push(enum_entry(m, e.name@, *e)));
    }
    assert(program.enums@.subrange(0, program.enums@.len() as int) =~= program.enums@);
    let ghost with_enums = views(out@);
    let mut i: usize = 0;
    while i < program.interfaces.len()
        invariant
            i <= program.interfaces@.len(),
            views(out@) == with_enums + program.interfaces@.subrange(0, i as int).map_values(
                |d: InterfaceDecl| interface_entry(m, d),
            ),
        decreases program.interfaces@.len() - i,
    {
        let d = &program.interfaces[i];
        push_declaration(
            out,
            Declaration::Type { module: m, name: d.name.clone(), visibility: d.visibility, kind: TypeSymbolKind::Interface, span: d.span },
        );
        i = i + 1;
        assert(program.interfaces@.subrange(0, i as int).map_values(|d: InterfaceDecl| interface_entry(m, d))
            =~= program.interfaces@.subrange(0, i - 1).map_values(|d: InterfaceDecl| interface_entry(m, d)).push(
            interface_entry(m, *d),
        ));
    }
    assert(program.interfaces@.subrange(0, program.interfaces@.len() as int) =~= program.interfaces@);
    collect_classes(&program.classes, m, out);
    collect_functions(&program.procedures, m, FunctionSymbolKind::Sub, out);
    collect_functions(&program.functions, m, FunctionSymbolKind::Function, out);
    collect_functions(&program.properties, m, FunctionSymbolKind::Property, out);
    collect_functions(&program.declares, m, FunctionSymbolKind::Declare, out);
    assert(views(out@) =~= base + module_entries(m, *program));
}

/// Where declarations are being recorded: the module, its name, and its
/// namespace if it has one.
#[derive(Clone, Copy)]
struct SymbolScope<'a> {
    module: ModuleId,
    module_name: &'a str,
    namespace: Option<&'a str>,
}

/// An optional borrowed text as characters.
spec fn opt_str_chars(s: Option<&str>) -> Option<Seq<char>> {
    match s {
        Some(x) => Some(x@),
        None => None,
    }
}

/// Whether a scope is that of module `m` of the project.
spec fn scope_of(project: Project, scope: SymbolScope, m: usize) -> bool {
    &&& m < project.modules@.len()
    &&& scope.module == ModuleId(m)
    &&& scope.module_name@ == project.modules@[m as int].name@
    &&& opt_str_chars(scope.namespace) == opt_chars(project.modules@[m as int].program.namespace)
}

/// The scope of a module of the project.
fn scope_for<'a>(project: &'a Project, m: usize) -> (scope: SymbolScope<'a>)
    requires
        m < project.modules@.len(),
    ensures
        scope_of(*project, scope, m),
{
    let module = &project.modules[m];
    let namespace = match &module.program.namespace {
        Some(ns) => Some(ns.as_str()),
        None => None,
    };
    SymbolScope { module: ModuleId(m), module_name: module.name.as_str(), namespace }
}

/// The qualified name of a declaration of a module.
fn qualified_name(module_name: &str, namespace: Option<&str>, name: &str) -> (r: String)
    ensures
        r@ == qualified_spec(module_name@, opt_str_chars(namespace), name@),
{
    match namespace {
        Some(namespace) => {
            if starts_with(name, namespace) {
                String::from_str(name)
            } else {
                dotted(namespace, name)
            }
        },
        None => dotted(module_name, name),
    }
}

/// Records what a qualified name denotes, keyed without case; a name taken
/// already is reported as a duplicate declaration.
fn insert_symbol(by_qualified_name: &mut NameMap<SymbolId>, qualified_name: &str, symbol: SymbolId, span: Option<Span>) -> (r: Result<(), Diagnostic>)
    ensures
        !old(by_qualified_name).table().contains_key(lowercase(qualified_name@)) ==> (r is Ok
            && final(by_qualified_name).table() == old(by_qualified_name).table().insert(lowercase(qualified_name@), symbol)),
        old(by_qualified_name).table().contains_key(lowercase(qualified_name@)) ==> (r matches Err(d)
            && d.code == DiagnosticCode::DuplicateDeclaration && d.message@ == duplicate_message(qualified_name@) && d.span == span
            && d.help is None),
{
    let name_key = key(qualified_name);
    if by_qualified_name.insert(name_key, symbol) {
        let mut message = String::from_str("Symbol '");
        push_str(&mut message, qualified_name);
        push_str(&mut message, "' is already declared in this project");
        return Err(Diagnostic::new(DiagnosticCode::DuplicateDeclaration, message, span));
    }
    Ok(())
}

/// Records a module of the project.
fn push_module(index: &mut ProjectIndex, project: &Project, m: usize) -> (r: Result<(), Diagnostic>)
    requires
        m < project.modules@.len(),
    ensures
        match record(*project, old(index)@, Declared::Module { module: m }) {
            Ok(v) => r is Ok && final(index)@ == v,
            Err(d) => r matches Err(diag) && reports_duplicate(*project, diag, d),
        },
{
    let module = &project.modules[m];
    if let Err(d) = insert_symbol(&mut index.by_qualified_name, module.name.as_str(), SymbolId::Module(ModuleId(m)), None) {
        return Err(d);
    }
    let namespace = match &module.program.namespace {
        Some(ns) => Some(ns.clone()),
        None => None,
    };
    let ghost before = index.modules@;
    index.modules.push(ModuleSymbol { id: ModuleId(m), name: module.name.clone(), namespace, path: module.path.clone() });
    assert(index.modules@.map_values(|x: ModuleSymbol| x@) =~= before.map_values(|x: ModuleSymbol| x@).push(
        index.modules@.last()@,
    ));
    Ok(())
}

/// Records a type declared in the scope's module.
fn push_type(
    index: &mut ProjectIndex,
    project: &Project,
    scope: SymbolScope,
    name: &str,
    visibility: Visibility,
    kind: TypeSymbolKind,
    span: Span,
) -> (r: Result<(), Diagnostic>)
    requires
        scope_of(*project, scope, scope.module.0),
    ensures
        match record(*project, old(index)@, Declared::Type { module: scope.module.0, name: name@, visibility, kind, span }) {
            Ok(v) => r is Ok && final(index)@ == v,
            Err(d) => r matches Err(diag) && reports_duplicate(*project, diag, d),
        },
{
    let id = TypeId(index.types.len());
    let qualified_name = qualified_name(scope.module_name, scope.namespace, name);
    if let Err(d) = insert_symbol(&mut index.by_qualified_name, qualified_name.as_str(), SymbolId::Type(id), Some(span)) {
        return Err(d);
    }
    let ghost before = index.types@;
    index.types.push(
        TypeSymbol { id, module: scope.module, name: String::from_str(name), qualified_name, visibility, kind, span },
    );
    assert(index.types@.map_values(|x: TypeSymbol| x@) =~= before.map_values(|x: TypeSymbol| x@).push(index.types@.last()@));
    Ok(())
}

/// Records a module-level procedure declared in the scope's module.
fn push_function(
    index: &mut ProjectIndex,
    project: &Project,
    scope: SymbolScope,
    name: &str,
    visibility: Visibility,
    kind: FunctionSymbolKind,
    span: Span,
) -> (r: Result<(), Diagnostic>)
    requires
        scope_of(*project, scope, scope.module.0),
    ensures
        match record(*project, old(index)@, Declared::Function { module: scope.module.0, name: name@, visibility, kind, span }) {
            Ok(v) => r is Ok && final(index)@ == v,
            Err(d) => r matches Err(diag) && reports_duplicate(*project, diag, d),
        },
{
    let id = FunctionId(index.functions.len());
    let qualified_name = qualified_name(scope.module_name, scope.namespace, name);
    if let Err(d) = insert_symbol(&mut index.by_qualified_name, qualified_name.as_str(), SymbolId::Function(id), Some(span)) {
        return Err(d);
    }
    let ghost before = index.functions@;
    index.functions.push(
        FunctionSymbol { id, module: scope.module, name: String::from_str(name), qualified_name, visibility, kind, span },
    );
    assert(index.functions@.map_values(|x: FunctionSymbol| x@) =~= before.map_values(|x: FunctionSymbol| x@).push(
        index.functions@.last()@,
    ));
    Ok(())
}

/// Builds the index of a project: every module, then its types (nested ones
/// named under their classes) and its module-level procedures, each under
/// its qualified name. Two declarations whose qualified names agree without
/// regard to case are reported at the second one.
pub fn build_project_index(project: &Project) -> (r: Result<ProjectIndex, Diagnostic>)
    ensures
        match project_index_spec(*project) {
            Ok(v) => r matches Ok(index) && index@ == v,
            Err(d) => r matches Err(diag) && reports_duplicate(*project, diag, d),
        },
{
    let mut declarations: Vec<Declaration> = Vec::new();
    let mut i: usize = 0;
    assert(views(declarations@) =~= Seq::<Declared>::empty());
    while i < project.modules.len()
        invariant
            i <= project.modules@.len(),
            views(declarations@) + project_entries(*project, i as int) == project_entries(*project, 0),
        decreases project.modules@.len() - i,
    {
        let ghost before = views(declarations@);
        collect_module(&project.modules[i].program, i, &mut declarations);
        assert(before + (module_entries(i, project.modules@[i as int].program) + project_entries(*project, i + 1))
            =~= views(declarations@) + project_entries(*project, i + 1));
        i = i + 1;
    }
    let ghost all = views(declarations@);
    assert(all + Seq::<Declared>::empty() =~= all);
    proof {
        lemma_project_entries_in_range(*project, 0);
    }
    let mut index = ProjectIndex {
        modules: Vec::new(),
        types: Vec::new(),
        functions: Vec::new(),
        by_qualified_name: NameMap::new(),
    };
    assert(index.modules@.map_values(|x: ModuleSymbol| x@) =~= Seq::<ModuleSymbolView>::empty());
    assert(index.types@.map_values(|x: TypeSymbol| x@) =~= Seq::<TypeSymbolView>::empty());
    assert(index.functions@.map_values(|x: FunctionSymbol| x@) =~= Seq::<FunctionSymbolView>::empty());
    assert(index@ == empty_index());
    let mut k: usize = 0;
    while k < declarations.len()
        invariant
            k <= declarations@.len(),
            all == views(declarations@),
            all == project_entries(*project, 0),
            forall|j: int| 0 <= j < all.len() ==> (module_of(#[trigger] all[j]) as int) < project.modules@.len(),
            index_entries(*project, all.subrange(0, k as int)) == Ok::<ProjectIndexView, Declared>(index@),
        decreases declarations@.len() - k,
    {
        assert(all[k as int] == declarations@[k as int]@);
        assert(all.subrange(0, k + 1).drop_last() =~= all.subrange(0, k as int));
        let step = match &declarations[k] {
            Declaration::Module { module } => push_module(&mut index, project, *module),
            Declaration::Type { module, name, visibility, kind, span } => {
                let scope = scope_for(project, *module);
                push_type(&mut index, project, scope, name.as_str(), *visibility, *kind, *span)
            },
            Declaration::Function { module, name, visibility, kind, span } => {
                let scope = scope_for(project, *module);
                push_function(&mut index, project, scope, name.as_str(), *visibility, *kind, *span)
            },
        };
        if let Err(d) = step {
            proof {
                lemma_index_err_extends(*project, all.subrange(0, k + 1), all.subrange(k + 1, all.len() as int));
                assert(all.subrange(0, k + 1) + all.subrange(k + 1, all.len() as int) =~= all);
            }
            return Err(d);
        }
        k = k + 1;
    }
    assert(all.subrange(0, all.len() as int) =~= all);
    Ok(index)
}

/// Whether every recorded symbol can be found again: each module under its
/// name, each type and procedure under its qualified name (all lower-cased),
/// and each type and procedure carries its position as its ID.
pub open spec fn index_consistent(v: ProjectIndexView) -> bool {
    &&& forall|i: int|
        0 <= i < v.modules.len() ==> #[trigger] v.names.contains_key(lowercase(v.modules[i].name))
            && v.names[lowercase(v.modules[i].name)] == SymbolId::Module(v.modules[i].id)
    &&& forall|i: int|
        0 <= i < v.types.len() ==> (#[trigger] v.types[i]).id == TypeId(i as usize) && v.names.contains_key(
            lowercase(v.types[i].qualified_name),
        ) && v.names[lowercase(v.types[i].qualified_name)] == SymbolId::Type(TypeId(i as usize))
    &&& forall|i: int|
        0 <= i < v.functions.len() ==> (#[trigger] v.functions[i]).id == FunctionId(i as usize) && v.names.contains_key(
            lowercase(v.functions[i].qualified_name),
        ) && v.names[lowercase(v.functions[i].qualified_name)] == SymbolId::Function(FunctionId(i as usize))
}

proof fn lemma_record_consistent(project: Project, index: ProjectIndexView, d: Declared)
    requires
        index_consistent(index),
        index.types.len() < usize::MAX,
        index.functions.len() < usize::MAX,
    ensures
        record(project, index, d) matches Ok(v) ==> index_consistent(v),
{
    if let Ok(v) = record(project, index, d) {
        let k = lowercase(entry_name(project, d));
        assert(!index.names.contains_key(k));
        assert forall|i: int| 0 <= i < v.modules.len() implies #[trigger] v.names.contains_key(lowercase(v.modules[i].name))
            && v.names[lowercase(v.modules[i].name)] == SymbolId::Module(v.modules[i].id) by {
            if i < index.modules.len() {
                assert(v.modules[i] == index.modules[i]);
                assert(index.names.contains_key(lowercase(index.modules[i].name)));
            }
        }
        assert forall|i: int| 0 <= i < v.types.len() implies (#[trigger] v.types[i]).id == TypeId(i as usize)
            && v.names.contains_key(lowercase(v.types[i].qualified_name)) && v.names[lowercase(v.types[i].qualified_name)]
            == SymbolId::Type(TypeId(i as usize)) by {
            if i < index.types.len() {
                assert(v.types[i] == index.types[i]);
                assert(index.names.contains_key(lowercase(index.types[i].qualified_name)));
            }
        }
        assert forall|i: int| 0 <= i < v.functions.len() implies (#[trigger] v.functions[i]).id == FunctionId(i as usize)
            && v.names.contains_key(lowercase(v.functions[i].qualified_name))
            && v.names[lowercase(v.functions[i].qualified_name)] == SymbolId::Function(FunctionId(i as usize)) by {
            if i < index.functions.len() {
                assert(v.functions[i] == index.functions[i]);
                assert(index.names.contains_key(lowercase(index.functions[i].qualified_name)));
            }
        }
    }
}

proof fn lemma_index_entries_consistent(project: Project, entries: Seq<Declared>)
    requires
        entries.len() < usize::MAX,
    ensures
        index_entries(project, entries) matches Ok(v) ==> index_consistent(v) && v.types.len() + v.functions.len()
            <= entries.len(),
    decreases entries.len(),
{
    if entries.len() > 0 {
        lemma_index_entries_consistent(project, entries.drop_last());
        if let Ok(index) = index_entries(project, entries.drop_last()) {
            lemma_record_consistent(project, index, entries.last());
        }
    }
}

/// A project index keeps what it records: every module can be found by its
/// name, and every type and module-level procedure by its qualified name,
/// without regard to case; the ID of each type and procedure is its position
/// in the index.
pub proof fn lemma_project_index_consistent(project: Project)
    requires
        project_entries(project, 0).len() < usize::MAX,
    ensures
        project_index_spec(project) matches Ok(v) ==> index_consistent(v),
{
    lemma_index_entries_consistent(project, project_entries(project, 0));
}

} // verus!
