//! The declarations of a parsed program that semantic analysis reads.
use vstd::prelude::*;

use crate::diagnostics::Span;
use crate::type_model::TypeName;

verus! {

/// Who may see a declaration.
#[derive(Debug, Clone, Copy, PartialEq, Eq, Structural)]
pub enum Visibility {
    Public,
    Private,
    Friend,
}

/// A binary operator as written in source.
#[derive(Debug, Clone, Copy, PartialEq, Eq, Structural)]
pub enum BinaryOp {
    Add,
    Subtract,
    Multiply,
    Divide,
    IntegerDivide,
    Modulo,
    Exponent,
    Concat,
    Equal,
    NotEqual,
    Less,
    Greater,
    LessEqual,
    GreaterEqual,
    And,
    Or,
    Xor,
    AndAlso,
    OrElse,
    Is,
    IsNot,
    Like,
}

/// Whether a `Type` declaration is a value type (`Structure`) or a plain record.
#[derive(Debug, Clone, Copy, PartialEq, Eq, Structural)]
pub enum TypeKind {
    Structure,
    Type,
}

/// How an argument is passed to a parameter.
#[derive(Debug, Clone, Copy, PartialEq, Eq, Structural)]
pub enum PassingMode {
    ByVal,
    ByRef,
    ByRefReadOnly,
}

/// The bounds of one dimension of a fixed array, both inclusive.
#[derive(Debug, Clone, Copy, PartialEq, Eq, Structural)]
pub struct ArrayBound {
    pub lower: i64,
    pub upper: i64,
}

/// How a field or variable is declared as an array.
#[derive(Debug)]
pub enum ArrayDecl {
    Fixed(Vec<ArrayBound>),
    Dynamic,
}

impl ArrayDecl {
    /// A copy of `self`, with the same bounds.
    pub fn duplicate(&self) -> (r: ArrayDecl)
        ensures
            array_decl_eq(r, *self),
    {
        match self {
            ArrayDecl::Fixed(bounds) => {
                let mut out: Vec<ArrayBound> = Vec::new();
                let mut i: usize = 0;
                while i < bounds.len()
                    invariant
                        i <= bounds@.len(),
                        out@ == bounds@.subrange(0, i as int),
                    decreases bounds@.len() - i,
                {
                    out.push(bounds[i]);
                    i = i + 1;
                }
                assert(out@ =~= bounds@);
                ArrayDecl::Fixed(out)
            },
            ArrayDecl::Dynamic => ArrayDecl::Dynamic,
        }
    }
}

/// Whether two array declarations have the same shape and bounds.
pub open spec fn array_decl_eq(a: ArrayDecl, b: ArrayDecl) -> bool {
    match (a, b) {
        (ArrayDecl::Fixed(x), ArrayDecl::Fixed(y)) => x@ == y@,
        (ArrayDecl::Dynamic, ArrayDecl::Dynamic) => true,
        _ => false,
    }
}

/// A field of a `Type` or `Structure`.
#[derive(Debug)]
pub struct FieldDecl {
    pub name: String,
    pub ty: TypeName,
    pub array: Option<ArrayDecl>,
    pub visibility: Visibility,
    pub span: Span,
}

/// A `Type` or `Structure` declaration.
#[derive(Debug)]
pub struct TypeDecl {
    pub name: String,
    pub kind: TypeKind,
    pub visibility: Visibility,
    pub fields: Vec<FieldDecl>,
    pub span: Span,
}

/// An `Enum` declaration.
#[derive(Debug)]
pub struct EnumDecl {
    pub name: String,
    pub visibility: Visibility,
    pub members: Vec<EnumMemberDecl>,
    pub span: Span,
}

/// A member of an `Enum`, with the value written for it, if any.
#[derive(Debug)]
pub struct EnumMemberDecl {
    pub name: String,
    pub value: Option<Expr>,
    pub span: Span,
}

/// An `Interface` declaration.
#[derive(Debug)]
pub struct InterfaceDecl {
    pub name: String,
    pub visibility: Visibility,
    pub span: Span,
}

/// How a class member relates to a member of the same name in a base class.
#[derive(Debug, Clone, Copy, PartialEq, Eq, Structural)]
pub enum OverrideKind {
    /// No inheritance keyword.
    Plain,
    Overridable,
    NotOverridable,
    Overrides,
    MustOverride,
    Shadows,
}

/// A `Sub`, `Function` or `Property` of a class: what the inheritance
/// rules read of it.
#[derive(Debug)]
pub struct ClassMethod {
    pub name: String,
    pub override_kind: OverrideKind,
    pub body: Vec<Stmt>,
    pub span: Span,
}

/// A member of a class.
#[derive(Debug)]
pub enum ClassMember {
    /// A nested `Type` or `Structure`.
    Type(TypeDecl),
    /// A nested `Enum`.
    Enum(EnumDecl),
    /// A nested class, with its own members.
    Class { name: String, visibility: Visibility, members: Vec<ClassMember>, span: Span },
    /// A `Const` member, with its declared type if one is written.
    Const { name: String, ty: Option<TypeName>, value: Expr, span: Span },
    Sub(ClassMethod),
    Function(ClassMethod),
    Property(ClassMethod),
    /// A field.
    Field(ClassField),
    /// An event or other member that declares neither a type, a field nor a
    /// method.
    Other,
}

/// A field of a class.
#[derive(Debug)]
pub struct ClassField {
    pub name: String,
    pub visibility: Visibility,
    pub is_shared: bool,
    pub with_events: bool,
    /// The declared type; a field declared without one is a `Variant`.
    pub ty: Option<TypeName>,
    pub array: Option<ArrayDecl>,
    pub initializer: Option<Expr>,
    pub span: Span,
}

/// A generic parameter and what it is constrained to: bounds it must meet,
/// and whether `New` may construct it.
#[derive(Debug)]
pub struct GenericParamConstraint {
    pub name: String,
    pub bounds: Vec<TypeName>,
    pub require_new: bool,
}

/// Whether a class may or must be inherited from.
#[derive(Debug, Clone, Copy, PartialEq, Eq, Structural)]
pub enum ClassInheritance {
    Normal,
    MustInherit,
    NotInheritable,
}

/// A `Class` declaration.
#[derive(Debug)]
pub struct ClassDecl {
    pub name: String,
    pub visibility: Visibility,
    pub inheritance: ClassInheritance,
    pub base_class: Option<TypeName>,
    pub members: Vec<ClassMember>,
    pub span: Span,
}

/// A parameter of a procedure.
#[derive(Debug)]
pub struct Parameter {
    pub name: String,
    pub ty: TypeName,
    pub mode: PassingMode,
    pub is_optional: bool,
    pub is_param_array: bool,
    pub span: Span,
}

/// A module-level `Sub`, `Function`, `Property` or `Declare`: what the index
/// and the import checks read of it.
#[derive(Debug)]
pub struct ProcedureDecl {
    pub name: String,
    pub visibility: Visibility,
    pub params: Vec<Parameter>,
    pub body: Vec<Stmt>,
    pub span: Span,
}

/// An `Imports` line of a single-file program.
#[derive(Debug)]
pub struct Import {
    pub module: String,
    pub alias: Option<String>,
    pub span: Span,
}

/// The declarations of one parsed source file.
#[derive(Debug)]
pub struct Program {
    pub namespace: Option<String>,
    pub types: Vec<TypeDecl>,
    pub enums: Vec<EnumDecl>,
    pub interfaces: Vec<InterfaceDecl>,
    pub classes: Vec<ClassDecl>,
    pub procedures: Vec<ProcedureDecl>,
    pub functions: Vec<ProcedureDecl>,
    pub properties: Vec<ProcedureDecl>,
    pub declares: Vec<ProcedureDecl>,
    pub imports: Vec<Import>,
    pub option_explicit: bool,
}

/// An import of a project module, resolved to that module's index.
#[derive(Debug)]
pub struct ResolvedImport {
    pub qualifier: String,
    pub module: usize,
    pub span: Span,
}

/// One loaded source file of a project.
#[derive(Debug)]
pub struct LoadedModule {
    pub name: String,
    pub path: String,
    pub program: Program,
    pub imports: Vec<ResolvedImport>,
}

/// Every module of a project, and which one holds the entry point.
#[derive(Debug)]
pub struct Project {
    pub modules: Vec<LoadedModule>,
    pub entry: usize,
}

/// What an `Exit` statement leaves.
#[derive(Debug, Clone, Copy, PartialEq, Eq, Structural)]
pub enum ExitTarget {
    Sub,
    Function,
    Property,
    For,
    While,
    Do,
}

/// Which loop a `Continue` statement goes on with.
#[derive(Debug, Clone, Copy, PartialEq, Eq, Structural)]
pub enum ContinueTarget {
    For,
    While,
    Do,
}

/// Where `Resume` goes on.
#[derive(Debug)]
pub enum ResumeTarget {
    /// `Resume`: the statement that failed.
    Current,
    /// `Resume Next`: the statement after it.
    Next,
    /// `Resume label`.
    Label(String),
}

/// What `On Error` does from then on.
#[derive(Debug)]
pub enum OnErrorMode {
    /// `On Error GoTo label`.
    GoToLabel(String),
    /// `On Error Resume Next`.
    ResumeNext,
    /// `On Error GoTo 0`.
    GoToZero,
}

/// A unary operator as written in source.
#[derive(Debug, Clone, Copy, PartialEq, Eq, Structural)]
pub enum UnaryOp {
    Negate,
    Positive,
    Not,
}

/// An expression with its place in the source.
#[derive(Debug)]
pub struct Expr {
    pub kind: ExprKind,
    pub span: Span,
}

/// The forms of an expression. Floating-point literals are held as the bit
/// patterns of their values.
#[derive(Debug)]
pub enum ExprKind {
    String(String),
    Integer(i64),
    Long(i64),
    LongLong(i64),
    Single(u32),
    Double(u64),
    Currency(i64),
    Decimal(String),
    Boolean(bool),
    DateLiteral(String),
    Nothing,
    Empty,
    Null,
    Missing,
    Me,
    MyBase,
    MyClass,
    /// The object of the enclosing `With` block, as in `.Name`.
    WithTarget,
    Variable(String),
    New { class_name: TypeName, args: Vec<Expr>, initializer: Option<Vec<Expr>> },
    Call { name: String, args: Vec<Expr> },
    Index { target: Box<Expr>, args: Vec<Expr> },
    IIf { condition: Box<Expr>, true_expr: Box<Expr>, false_expr: Box<Expr> },
    NamedArg { name: String, expr: Box<Expr> },
    TypeOfIs { expr: Box<Expr>, ty: TypeName },
    /// `object.field`; `conditional` for `object?.field`, which answers
    /// `Nothing` when the object is `Nothing`.
    MemberAccess { object: Box<Expr>, field: String, conditional: bool },
    MemberCall { object: Box<Expr>, method: String, type_args: Vec<TypeName>, args: Vec<Expr>, conditional: bool },
    Binary { op: BinaryOp, left: Box<Expr>, right: Box<Expr> },
    Unary { op: UnaryOp, expr: Box<Expr> },
    Lambda { body: Box<Expr> },
    Await(Box<Expr>),
    AddressOf(Box<Expr>),
    PassingModeOverride { mode: PassingMode, expr: Box<Expr> },
}

/// What an assignment writes to.
#[derive(Debug)]
pub enum AssignTarget {
    Variable { name: String },
    ArrayElement { name: String, indices: Vec<Expr> },
    Member { object: Expr, member: String },
    MemberArrayElement { object: Expr, member: String, indices: Vec<Expr> },
}

/// One item of a `Case` clause.
#[derive(Debug)]
pub enum CaseItem {
    Value(Expr),
    Compare { op: BinaryOp, expr: Expr },
    Range { start: Expr, end: Expr },
}

/// Where and how a `Do` loop tests its condition.
#[derive(Debug)]
pub enum DoLoopCondition {
    Infinite,
    PreWhile(Expr),
    PreUntil(Expr),
    PostWhile(Expr),
    PostUntil(Expr),
}

/// One `ElseIf` branch.
#[derive(Debug)]
pub struct ElseIfBranch {
    pub condition: Expr,
    pub body: Vec<Stmt>,
}

/// One `Case` branch.
#[derive(Debug)]
pub struct CaseBranch {
    pub items: Vec<CaseItem>,
    pub body: Vec<Stmt>,
}

/// A declared variable or constant with its optional initializer.
#[derive(Debug)]
pub struct VarDecl {
    pub name: String,
    pub initializer: Option<Expr>,
}

/// A declared constant with its value.
#[derive(Debug)]
pub struct ConstDecl {
    pub name: String,
    pub value: Expr,
}

/// One item of a `Print #` statement.
#[derive(Debug)]
pub struct PrintItem {
    pub expr: Expr,
}

/// What a `Using` block disposes of.
#[derive(Debug)]
pub enum UsingResource {
    /// A variable declared by the block, with its initializer or `New`
    /// arguments.
    Declaration { name: String, initializer: Option<Expr>, new_args: Vec<Expr> },
    /// An existing value.
    Target(Expr),
}

/// A statement.
#[derive(Debug)]
pub enum Stmt {
    End { span: Span },
    Throw { span: Span },
    Const { name: String, value: Expr, span: Span },
    ConstMany { consts: Vec<ConstDecl>, span: Span },
    Return { expr: Expr, span: Span },
    Assign { target: AssignTarget, expr: Expr, span: Span },
    SetAssign { target: AssignTarget, expr: Expr, span: Span },
    LSet { target: AssignTarget, expr: Expr, span: Span },
    RSet { target: AssignTarget, expr: Expr, span: Span },
    ConsoleCall { args: Vec<Expr>, span: Span },
    SubCall { name: String, args: Vec<Expr>, span: Span },
    DebugPrint { args: Vec<Expr>, span: Span },
    OpenFile { path: Expr, number: Expr, record_len: Option<Expr>, span: Span },
    CloseFile { numbers: Vec<Expr>, span: Span },
    LineInput { number: Expr, target: AssignTarget, span: Span },
    InputFile { number: Expr, targets: Vec<AssignTarget>, span: Span },
    PrintFile { number: Expr, items: Vec<PrintItem>, span: Span },
    WriteFile { number: Expr, args: Vec<Expr>, span: Span },
    GetFile { number: Expr, position: Option<Expr>, target: AssignTarget, span: Span },
    PutFile { number: Expr, position: Option<Expr>, expr: Expr, span: Span },
    SeekFile { number: Expr, position: Expr, span: Span },
    NameFile { old_path: Expr, new_path: Expr, span: Span },
    MemberSubCall { object: Expr, method: String, args: Vec<Expr>, span: Span },
    RaiseEvent { name: String, args: Vec<Expr>, span: Span },
    AddHandler { event: Expr, handler: Expr, span: Span },
    RemoveHandler { event: Expr, handler: Expr, span: Span },
    Await { expr: Expr, span: Span },
    If { condition: Expr, then_body: Vec<Stmt>, elseif_branches: Vec<ElseIfBranch>, else_body: Vec<Stmt>, span: Span },
    SelectCase { subject: Expr, branches: Vec<CaseBranch>, else_body: Vec<Stmt>, span: Span },
    While { condition: Expr, body: Vec<Stmt>, span: Span },
    DoLoop { condition: DoLoopCondition, body: Vec<Stmt>, span: Span },
    For { variable: String, start: Expr, end: Expr, step: Option<Expr>, body: Vec<Stmt>, span: Span },
    ForEach { variable: String, iterable: Expr, body: Vec<Stmt>, span: Span },
    ReDim { name: String, dims: Vec<(Option<Expr>, Expr)>, span: Span },
    TryCatch { try_body: Vec<Stmt>, catch_body: Option<Vec<Stmt>>, finally_body: Option<Vec<Stmt>>, span: Span },
    Erase { names: Vec<String>, span: Span },
    Label { name: String, span: Span },
    GoTo { label: String, span: Span },
    OnError { mode: OnErrorMode, span: Span },
    Resume { target: ResumeTarget, span: Span },
    With { target: Expr, body: Vec<Stmt>, span: Span },
    Using { resource: UsingResource, body: Vec<Stmt>, span: Span },
    Dim { name: String, initializer: Option<Expr>, span: Span },
    Static { name: String, initializer: Option<Expr>, span: Span },
    DimMany { decls: Vec<VarDecl>, span: Span },
    StaticMany { decls: Vec<VarDecl>, span: Span },
    Exit { target: ExitTarget, span: Span },
    Yield { expr: Expr, span: Span },
}

} // verus!
