//! Typed bodies for the initial native lowering subset.
//!
//! IDs are scoped to the input program (functions) or body (locals), not to
//! the separate project declaration index. There are no runtime values here.
use vstd::prelude::*;

use crate::arithmetic::{ArithmeticOp, ArithmeticSignature};
use crate::ast::BinaryOp;
use crate::diagnostics::Span;
use crate::type_model::TypeName;
use crate::type_properties::{KnownProperty, TypeProperties};

verus! {

/// A function of the input program, by index.
#[derive(Debug, Clone, Copy, PartialEq, Eq, Hash, Structural)]
pub struct BodyFunctionId(pub usize);

/// A local of a body, by index into its locals.
#[derive(Debug, Clone, Copy, PartialEq, Eq, Hash, Structural)]
pub struct LocalId(pub usize);

/// A lexical scope of a body, by index into its scopes.
#[derive(Debug, Clone, Copy, PartialEq, Eq, Hash, Structural)]
pub struct ScopeId(pub usize);

/// A loop of a body.
#[derive(Debug, Clone, Copy, PartialEq, Eq, Hash, Structural)]
pub struct LoopId(pub usize);

/// A resolved field, by index into the body's field table.
#[derive(Debug, Clone, Copy, PartialEq, Eq, Hash, Structural)]
pub struct FieldId(pub usize);

/// A resolved `Dispose` method, by index into the body's disposer table.
#[derive(Debug, Clone, Copy, PartialEq, Eq, Hash, Structural)]
pub struct DisposeMethodId(pub usize);

/// A `Dispose` method and the class that declares it.
#[derive(Debug)]
pub struct ResolvedDispose {
    pub id: DisposeMethodId,
    pub owner: TypeName,
}

/// Work a scope must do when control leaves it.
#[derive(Debug, Clone, Copy, PartialEq, Eq, Structural)]
pub enum ScopeCleanup {
    ExplicitDispose { resource: LocalId, method: DisposeMethodId },
    /// Execute the already typed Finally body before leaving the Try scope.
    FinallyRegion { finally_scope: ScopeId },
}

/// One handler on a transfer path. The value of a Return is evaluated before
/// this chain begins; handlers run in this order before the final transfer.
#[derive(Debug, Clone, Copy, PartialEq, Eq, Structural)]
pub struct CleanupStep {
    pub owner: ScopeId,
    pub action: ScopeCleanup,
}

/// A resolved field of a Structure or Class.
#[derive(Debug)]
pub struct ResolvedField {
    pub id: FieldId,
    pub owner: TypeName,
    pub ty: TypeName,
    pub name: String,
}

/// An addressable location after name resolution. Projections are ordered
/// from the root outward.
#[derive(Debug)]
pub struct Place {
    pub root: LocalId,
    pub projections: Vec<Projection>,
}

/// One step from a place to a part of it.
#[derive(Debug)]
pub enum Projection {
    Field(FieldId),
    TupleField(usize),
    Index(IndexProjection),
}

/// An element of an array place.
#[derive(Debug)]
pub struct IndexProjection {
    pub index: Box<Expression>,
    pub element_type: TypeName,
}

/// What is known of an index: a constant, or nothing that proves two indices
/// differ.
#[derive(Debug, Clone, Copy, PartialEq, Eq, Structural)]
pub enum IndexKey {
    Constant(i64),
    /// A resolved index whose inequality with another index is not proven.
    Unknown,
}

/// The key of an index expression: its value when it is an integer constant.
pub open spec fn index_key(p: IndexProjection) -> IndexKey {
    match p.index.kind {
        ExpressionKind::Constant(Constant::Integer(value)) => IndexKey::Constant(value),
        _ => IndexKey::Unknown,
    }
}

impl IndexProjection {
    /// The key of this index: its value when it is an integer constant.
    pub fn key(&self) -> (r: IndexKey)
        ensures
            r == index_key(*self),
    {
        match &self.index.kind {
            ExpressionKind::Constant(Constant::Integer(value)) => IndexKey::Constant(*value),
            _ => IndexKey::Unknown,
        }
    }
}

/// Whether two places can share storage.
#[derive(Debug, Clone, Copy, PartialEq, Eq, Structural)]
pub enum PlaceOverlap {
    Disjoint,
    Overlap,
    Unknown,
}

/// What one pair of projections at the same depth decides: a verdict, or
/// nothing when they reach the same part and the comparison goes on.
pub open spec fn projection_verdict(left: Projection, right: Projection) -> Option<PlaceOverlap> {
    match (left, right) {
        (Projection::Field(a), Projection::Field(b)) => if a != b {
            Some(PlaceOverlap::Disjoint)
        } else {
            None
        },
        (Projection::TupleField(a), Projection::TupleField(b)) => if a != b {
            Some(PlaceOverlap::Disjoint)
        } else {
            None
        },
        (Projection::Index(a), Projection::Index(b)) => match (index_key(a), index_key(b)) {
            (IndexKey::Constant(x), IndexKey::Constant(y)) => if x != y {
                Some(PlaceOverlap::Disjoint)
            } else {
                None
            },
            _ => Some(PlaceOverlap::Unknown),
        },
        _ => Some(PlaceOverlap::Unknown),
    }
}

/// The verdict of comparing two projection paths from depth `k` on: the first
/// pair that decides anything decides; paths that agree as far as both go
/// overlap.
pub open spec fn overlap_from(left: Seq<Projection>, right: Seq<Projection>, k: int) -> PlaceOverlap
    decreases left.len() - k,
{
    if k < 0 || k >= left.len() || k >= right.len() {
        PlaceOverlap::Overlap
    } else {
        match projection_verdict(left[k], right[k]) {
            Some(v) => v,
            None => overlap_from(left, right, k + 1),
        }
    }
}

/// Whether two places can share storage: different roots never do.
pub open spec fn place_overlap(a: Place, b: Place) -> PlaceOverlap {
    if a.root != b.root {
        PlaceOverlap::Disjoint
    } else {
        overlap_from(a.projections@, b.projections@, 0)
    }
}

impl Place {
    /// The place of a whole local.
    pub fn local(root: LocalId) -> (p: Self)
        ensures
            p.root == root,
            p.projections@.len() == 0,
    {
        Self { root, projections: Vec::new() }
    }

    /// Whether `self` and `other` can share storage. `Unknown` must be treated
    /// as a conflict for mutable borrows.
    pub fn overlap(&self, other: &Self) -> (r: PlaceOverlap)
        ensures
            r == place_overlap(*self, *other),
    {
        if self.root != other.root {
            return PlaceOverlap::Disjoint;
        }
        let mut k: usize = 0;
        while k < self.projections.len() && k < other.projections.len()
            invariant
                self.root == other.root,
                k <= self.projections@.len(),
                overlap_from(self.projections@, other.projections@, 0) == overlap_from(self.projections@, other.projections@, k as int),
            decreases self.projections@.len() - k,
        {
            let verdict = match (&self.projections[k], &other.projections[k]) {
                (Projection::Field(a), Projection::Field(b)) => if a != b {
                    Some(PlaceOverlap::Disjoint)
                } else {
                    None
                },
                (Projection::TupleField(a), Projection::TupleField(b)) => if a != b {
                    Some(PlaceOverlap::Disjoint)
                } else {
                    None
                },
                (Projection::Index(a), Projection::Index(b)) => match (a.key(), b.key()) {
                    (IndexKey::Constant(left), IndexKey::Constant(right)) => if left != right {
                        Some(PlaceOverlap::Disjoint)
                    } else {
                        None
                    },
                    _ => Some(PlaceOverlap::Unknown),
                },
                _ => Some(PlaceOverlap::Unknown),
            };
            if let Some(v) = verdict {
                return v;
            }
            k = k + 1;
        }
        PlaceOverlap::Overlap
    }
}

/// How a local holds its value.
#[derive(Debug, Clone, Copy, PartialEq, Eq, Structural)]
pub enum LocalStorage {
    Value,
    BorrowedMutable,
    BorrowedImmutable,
}

/// Whether a local holds a value on entry to its scope.
#[derive(Debug, Clone, Copy, PartialEq, Eq, Structural)]
pub enum InitialState {
    /// Function arguments are available on entry.
    Initialized,
    /// A local becomes available at its explicit Initialize statement.
    Uninitialized,
}

/// What an expression denotes.
#[derive(Debug, Clone, Copy, PartialEq, Eq, Structural)]
pub enum ValueCategory {
    Value,
    Place,
    MutableReference,
    ImmutableReference,
}

/// How an argument is handed to a callee.
#[derive(Debug, Clone, Copy, PartialEq, Eq, Structural)]
pub enum ArgumentMode {
    ByVal,
    BorrowMutable,
    BorrowImmutable,
    Move,
}

/// One argument of a call.
#[derive(Debug)]
pub struct CallArgument {
    pub mode: ArgumentMode,
    pub value: Expression,
}

/// The resolved shape of a callee.
#[derive(Debug)]
pub struct CallSignature {
    pub parameter_types: Vec<TypeName>,
    pub parameter_modes: Vec<ArgumentMode>,
    pub return_type: TypeName,
}

/// A lexical scope. Locals are recorded in declaration order, so cleanup can
/// visit them in reverse on each normal or non-local exit.
#[derive(Debug)]
pub struct Scope {
    pub id: ScopeId,
    pub parent: Option<ScopeId>,
    pub locals: Vec<LocalId>,
    pub cleanup: Vec<ScopeCleanup>,
    pub span: Span,
}

/// A local variable or parameter.
#[derive(Debug)]
pub struct Local {
    pub id: LocalId,
    pub name: String,
    pub ty: TypeName,
    pub properties: TypeProperties,
    pub parameter_index: Option<usize>,
    pub storage: LocalStorage,
    pub initial_state: InitialState,
    pub scope: ScopeId,
    pub span: Span,
}

/// A function body after name resolution and typing.
#[derive(Debug)]
pub struct TypedBody {
    pub function: BodyFunctionId,
    pub name: String,
    /// Owner-qualified semantic callable identity, including parameter shape.
    pub symbol_name: String,
    pub return_type: TypeName,
    pub locals: Vec<Local>,
    /// Declared value types, including empty Structures, in source declaration order.
    pub structures: Vec<TypeName>,
    /// Native Class identities; fields share the resolved FieldId table.
    pub classes: Vec<TypeName>,
    pub fields: Vec<ResolvedField>,
    pub disposers: Vec<ResolvedDispose>,
    pub scopes: Vec<Scope>,
    pub root_scope: ScopeId,
    pub statements: Vec<Statement>,
    pub span: Span,
}

/// The cleanup steps of one exited scope: its handlers, newest first, each
/// attributed to the scope.
pub open spec fn scope_steps(scopes: Seq<Scope>, s: ScopeId) -> Seq<CleanupStep> {
    scopes[s.0 as int].cleanup@.reverse().map_values(|action: ScopeCleanup| CleanupStep { owner: s, action })
}

/// The handlers run when leaving the given scopes, innermost first.
pub open spec fn cleanup_chain_spec(scopes: Seq<Scope>, exited: Seq<ScopeId>) -> Seq<CleanupStep>
    decreases exited.len(),
{
    if exited.len() == 0 {
        Seq::empty()
    } else {
        cleanup_chain_spec(scopes, exited.drop_last()) + scope_steps(scopes, exited.last())
    }
}

/// Leaving one list of scopes and then another runs the first list's
/// handlers, then the second's: the chain of a concatenation is the
/// concatenation of the chains.
pub proof fn lemma_cleanup_chain_concat(scopes: Seq<Scope>, x: Seq<ScopeId>, y: Seq<ScopeId>)
    ensures
        cleanup_chain_spec(scopes, x + y) == cleanup_chain_spec(scopes, x) + cleanup_chain_spec(scopes, y),
    decreases y.len(),
{
    if y.len() == 0 {
        assert(x + y =~= x);
        assert(cleanup_chain_spec(scopes, x) + Seq::<CleanupStep>::empty() =~= cleanup_chain_spec(scopes, x));
    } else {
        assert((x + y).drop_last() =~= x + y.drop_last());
        assert((x + y).last() == y.last());
        lemma_cleanup_chain_concat(scopes, x, y.drop_last());
        assert(cleanup_chain_spec(scopes, x + y) =~= cleanup_chain_spec(scopes, x) + cleanup_chain_spec(scopes, y));
    }
}

/// The locals declared by value in the given scopes, innermost scope and
/// newest declaration first.
pub open spec fn owned_exit_locals_spec(scopes: Seq<Scope>, locals: Seq<Local>, exited: Seq<ScopeId>) -> Seq<LocalId>
    decreases exited.len(),
{
    if exited.len() == 0 {
        Seq::empty()
    } else {
        owned_exit_locals_spec(scopes, locals, exited.drop_last()) + scopes[exited.last().0 as int].locals@.reverse().filter(
            |l: LocalId| locals[l.0 as int].storage is Value,
        )
    }
}

/// Whether every exited scope is a scope of the body.
pub open spec fn scopes_in_range(body: TypedBody, exited: Seq<ScopeId>) -> bool {
    forall|i: int| 0 <= i < exited.len() ==> #[trigger] exited[i].0 < body.scopes@.len()
}

/// Whether every local of every exited scope is a local of the body.
pub open spec fn scope_locals_in_range(body: TypedBody, exited: Seq<ScopeId>) -> bool {
    forall|i: int, j: int|
        0 <= i < exited.len() && 0 <= j < body.scopes@[exited[i].0 as int].locals@.len() ==> #[trigger] body.scopes@[exited[i].0 as int].locals@[j].0
            < body.locals@.len()
}

impl TypedBody {
    /// The handlers a transfer leaving `exited_scopes` runs, innermost scope
    /// first and, within a scope, the handler registered last first.
    pub fn cleanup_chain(&self, exited_scopes: &[ScopeId]) -> (r: Vec<CleanupStep>)
        requires
            scopes_in_range(*self, exited_scopes@),
        ensures
            r@ == cleanup_chain_spec(self.scopes@, exited_scopes@),
    {
        let mut out: Vec<CleanupStep> = Vec::new();
        let mut i: usize = 0;
        while i < exited_scopes.len()
            invariant
                i <= exited_scopes@.len(),
                scopes_in_range(*self, exited_scopes@),
                out@ == cleanup_chain_spec(self.scopes@, exited_scopes@.subrange(0, i as int)),
            decreases exited_scopes@.len() - i,
        {
            let scope = exited_scopes[i];
            let cleanup = &self.scopes[scope.0].cleanup;
            let ghost base = out@;
            let mut k: usize = cleanup.len();
            while k > 0
                invariant
                    k <= cleanup@.len(),
                    out@ == base + cleanup@.subrange(k as int, cleanup@.len() as int).reverse().map_values(
                        |action: ScopeCleanup| CleanupStep { owner: scope, action },
                    ),
                decreases k,
            {
                k = k - 1;
                out.push(CleanupStep { owner: scope, action: cleanup[k] });
                proof {
                    let f = |action: ScopeCleanup| CleanupStep { owner: scope, action };
                    assert(cleanup@.subrange(k as int, cleanup@.len() as int).reverse() =~= cleanup@.subrange(
                        (k + 1) as int,
                        cleanup@.len() as int,
                    ).reverse().push(cleanup@[k as int]));
                }
                assert(out@ =~= base + cleanup@.subrange(k as int, cleanup@.len() as int).reverse().map_values(
                    |action: ScopeCleanup| CleanupStep { owner: scope, action },
                ));
            }
            assert(cleanup@.subrange(0, cleanup@.len() as int) =~= cleanup@);
            assert(exited_scopes@.subrange(0, i + 1).drop_last() =~= exited_scopes@.subrange(0, i as int));
            i = i + 1;
        }
        assert(exited_scopes@.subrange(0, exited_scopes@.len() as int) =~= exited_scopes@);
        out
    }

    /// Owned locals encountered on a control-flow edge, innermost scope and
    /// newest declaration first. These are candidates, not unconditional
    /// drops: ownership state and type-level drop requirements are resolved
    /// later.
    pub fn owned_exit_locals(&self, exited_scopes: &[ScopeId]) -> (r: Vec<LocalId>)
        requires
            scopes_in_range(*self, exited_scopes@),
            scope_locals_in_range(*self, exited_scopes@),
        ensures
            r@ == owned_exit_locals_spec(self.scopes@, self.locals@, exited_scopes@),
    {
        let mut out: Vec<LocalId> = Vec::new();
        let mut i: usize = 0;
        while i < exited_scopes.len()
            invariant
                i <= exited_scopes@.len(),
                scopes_in_range(*self, exited_scopes@),
                scope_locals_in_range(*self, exited_scopes@),
                out@ == owned_exit_locals_spec(self.scopes@, self.locals@, exited_scopes@.subrange(0, i as int)),
            decreases exited_scopes@.len() - i,
        {
            let scope = exited_scopes[i];
            let locals = &self.scopes[scope.0].locals;
            let ghost base = out@;
            let ghost keep = |l: LocalId| self.locals@[l.0 as int].storage is Value;
            let mut k: usize = locals.len();
            while k > 0
                invariant
                    k <= locals@.len(),
                    locals == self.scopes@[scope.0 as int].locals,
                    i < exited_scopes@.len(),
                    scope == exited_scopes@[i as int],
                    scope_locals_in_range(*self, exited_scopes@),
                    keep == (|l: LocalId| self.locals@[l.0 as int].storage is Value),
                    out@ == base + locals@.subrange(k as int, locals@.len() as int).reverse().filter(keep),
                decreases k,
            {
                k = k - 1;
                let local = locals[k];
                assert(local.0 < self.locals@.len());
                proof {
                    let tail = locals@.subrange((k + 1) as int, locals@.len() as int);
                    let sr = locals@.subrange(k as int, locals@.len() as int).reverse();
                    assert(sr =~= tail.reverse().push(locals@[k as int]));
                    assert(sr.drop_last() =~= tail.reverse());
                    assert(sr.last() == locals@[k as int]);
                    reveal(Seq::filter);
                    assert(sr.filter(keep) == if keep(locals@[k as int]) {
                        tail.reverse().filter(keep).push(locals@[k as int])
                    } else {
                        tail.reverse().filter(keep)
                    });
                    assert(keep(local) == (self.locals@[local.0 as int].storage is Value));
                }
                if self.locals[local.0].storage == LocalStorage::Value {
                    out.push(local);
                }
            }
            assert(locals@.subrange(0, locals@.len() as int) =~= locals@);
            assert(exited_scopes@.subrange(0, i + 1).drop_last() =~= exited_scopes@.subrange(0, i as int));
            i = i + 1;
        }
        assert(exited_scopes@.subrange(0, exited_scopes@.len() as int) =~= exited_scopes@);
        out
    }

    /// The type-level part of each exit obligation: each owned exit local
    /// with whether its type requires cleanup. `Unknown` blocks drop emission
    /// until native resource semantics and path ownership are known.
    pub fn exit_drop_requirements(&self, exited_scopes: &[ScopeId]) -> (r: Vec<(LocalId, KnownProperty)>)
        requires
            scopes_in_range(*self, exited_scopes@),
            scope_locals_in_range(*self, exited_scopes@),
        ensures
            r@ == owned_exit_locals_spec(self.scopes@, self.locals@, exited_scopes@).map_values(
                |l: LocalId| (l, self.locals@[l.0 as int].properties.requires_drop),
            ),
    {
        let owned = self.owned_exit_locals(exited_scopes);
        proof {
            lemma_owned_exit_locals_in_range(self.scopes@, self.locals@, exited_scopes@);
        }
        let mut out: Vec<(LocalId, KnownProperty)> = Vec::new();
        let mut i: usize = 0;
        while i < owned.len()
            invariant
                i <= owned@.len(),
                forall|j: int| 0 <= j < owned@.len() ==> #[trigger] owned@[j].0 < self.locals@.len(),
                out@ == owned@.subrange(0, i as int).map_values(
                    |l: LocalId| (l, self.locals@[l.0 as int].properties.requires_drop),
                ),
            decreases owned@.len() - i,
        {
            let local = owned[i];
            out.push((local, self.locals[local.0].properties.requires_drop));
            i = i + 1;
            assert(out@ =~= owned@.subrange(0, i as int).map_values(
                |l: LocalId| (l, self.locals@[l.0 as int].properties.requires_drop),
            ));
        }
        assert(owned@.subrange(0, owned@.len() as int) =~= owned@);
        out
    }
}

/// Every owned exit local is a local of the body.
pub proof fn lemma_owned_exit_locals_in_range(scopes: Seq<Scope>, locals: Seq<Local>, exited: Seq<ScopeId>)
    requires
        forall|i: int, j: int|
            0 <= i < exited.len() && 0 <= j < scopes[exited[i].0 as int].locals@.len() ==> #[trigger] scopes[exited[i].0 as int].locals@[j].0
                < locals.len(),
    ensures
        forall|j: int| 0 <= j < owned_exit_locals_spec(scopes, locals, exited).len() ==> #[trigger] owned_exit_locals_spec(scopes, locals, exited)[j].0 < locals.len(),
    decreases exited.len(),
{
    if exited.len() > 0 {
        let init = exited.drop_last();
        assert forall|i: int, j: int|
            0 <= i < init.len() && 0 <= j < scopes[init[i].0 as int].locals@.len() implies #[trigger] scopes[init[i].0 as int].locals@[j].0
                < locals.len() by {
            assert(init[i] == exited[i]);
        }
        lemma_owned_exit_locals_in_range(scopes, locals, init);
        let s = exited.last();
        let ls = scopes[s.0 as int].locals@;
        let keep = |l: LocalId| locals[l.0 as int].storage is Value;
        let kept = ls.reverse().filter(keep);
        assert forall|j: int| 0 <= j < kept.len() implies #[trigger] kept[j].0 < locals.len() by {
            ls.reverse().lemma_filter_contains_rev(keep, kept[j]);
            let m = choose|m: int| 0 <= m < ls.reverse().len() && ls.reverse()[m] == kept[j];
            assert(ls.reverse()[m] == ls[ls.len() - 1 - m]);
            assert(exited[exited.len() - 1] == s);
        }
        let whole = owned_exit_locals_spec(scopes, locals, exited);
        let prefix = owned_exit_locals_spec(scopes, locals, init);
        assert(whole == prefix + kept);
        assert forall|j: int| 0 <= j < whole.len() implies #[trigger] whole[j].0 < locals.len() by {
            if j < prefix.len() {
                assert(whole[j] == prefix[j]);
            } else {
                assert(whole[j] == kept[j - prefix.len()]);
            }
        }
    }
}

/// A value whose type only the expression carries.
#[derive(Debug)]
pub enum Constant {
    /// Default value of a plain value aggregate; its type is carried by
    /// the expression.
    ZeroAggregate,
    Integer(i64),
    /// A `Single` constant, by its IEEE 754 bit pattern.
    Single(u32),
    /// A `Double` constant, by its IEEE 754 bit pattern.
    Double(u64),
    Boolean(bool),
    String(String),
    NullReference,
}

/// How a numeric value is converted.
#[derive(Debug, Clone, Copy, PartialEq, Eq, Structural)]
pub enum Conversion {
    /// Ordinary assignment/argument conversion, including checked narrowing.
    NumericChecked,
    /// Integer division truncates floating operands before division.
    TruncateToInteger,
}

/// A comparison.
#[derive(Debug, Clone, Copy, PartialEq, Eq, Structural)]
pub enum ComparisonOp {
    Equal,
    NotEqual,
    Less,
    Greater,
    LessEqual,
    GreaterEqual,
}

/// The comparison a source operator denotes, if it is one.
pub open spec fn comparison_of(op: BinaryOp) -> Option<ComparisonOp> {
    match op {
        BinaryOp::Equal => Some(ComparisonOp::Equal),
        BinaryOp::NotEqual => Some(ComparisonOp::NotEqual),
        BinaryOp::Less => Some(ComparisonOp::Less),
        BinaryOp::Greater => Some(ComparisonOp::Greater),
        BinaryOp::LessEqual => Some(ComparisonOp::LessEqual),
        BinaryOp::GreaterEqual => Some(ComparisonOp::GreaterEqual),
        _ => None,
    }
}

impl ComparisonOp {
    /// The comparison a source operator denotes; `None` for the operators
    /// that do not compare.
    pub fn from_ast(op: BinaryOp) -> (r: Option<Self>)
        ensures
            r == comparison_of(op),
    {
        match op {
            BinaryOp::Equal => Some(Self::Equal),
            BinaryOp::NotEqual => Some(Self::NotEqual),
            BinaryOp::Less => Some(Self::Less),
            BinaryOp::Greater => Some(Self::Greater),
            BinaryOp::LessEqual => Some(Self::LessEqual),
            BinaryOp::GreaterEqual => Some(Self::GreaterEqual),
            _ => None,
        }
    }
}

/// A statement of a typed body.
#[derive(Debug)]
pub enum Statement {
    Initialize { target: LocalId, value: Expression, span: Span },
    Store { target: Box<Expression>, value: Expression, span: Span },
    Return {
        value: Expression,
        exited_scopes: Vec<ScopeId>,
        cleanup_chain: Vec<CleanupStep>,
        span: Span,
    },
    ReturnVoid { exited_scopes: Vec<ScopeId>, cleanup_chain: Vec<CleanupStep>, span: Span },
    CallSub {
        function: BodyFunctionId,
        signature: CallSignature,
        arguments: Vec<CallArgument>,
        span: Span,
    },
    CollectionAdd {
        collection: Expression,
        item: Expression,
        before: Box<Option<Expression>>,
        span: Span,
    },
    CollectionRemove { collection: Expression, index: Expression, span: Span },
    If {
        condition: Expression,
        then_scope: ScopeId,
        then_body: Vec<Statement>,
        else_scope: ScopeId,
        else_body: Vec<Statement>,
        span: Span,
    },
    /// Structured cleanup region. Transfers out of Try carry a Finally
    /// handler; exception dispatch/unwind edges remain future work.
    TryFinally {
        try_scope: ScopeId,
        try_body: Vec<Statement>,
        finally_scope: ScopeId,
        finally_body: Vec<Statement>,
        span: Span,
    },
    /// One source Catch clause, optionally followed by Finally. Catch dispatch
    /// and exception edges remain abstract.
    TryCatch {
        try_scope: ScopeId,
        try_body: Vec<Statement>,
        catch_scope: ScopeId,
        catch_local: Option<LocalId>,
        catch_body: Vec<Statement>,
        finally_scope: Option<ScopeId>,
        finally_body: Vec<Statement>,
        span: Span,
    },
    UsingDispose {
        resource: LocalId,
        method: DisposeMethodId,
        body_scope: ScopeId,
        body: Vec<Statement>,
        span: Span,
    },
    While { id: LoopId, condition: Expression, body_scope: ScopeId, body: Vec<Statement>, span: Span },
    Do { id: LoopId, condition: DoCondition, body_scope: ScopeId, body: Vec<Statement>, span: Span },
    For {
        id: LoopId,
        variable: LocalId,
        start: Box<Expression>,
        end: Box<Expression>,
        step: Box<Expression>,
        body_scope: ScopeId,
        body: Vec<Statement>,
        span: Span,
    },
    ForEach {
        id: LoopId,
        variable: LocalId,
        iterable: Expression,
        element_type: TypeName,
        body_scope: ScopeId,
        body: Vec<Statement>,
        span: Span,
    },
    ExitLoop { loop_id: LoopId, exited_scopes: Vec<ScopeId>, cleanup_chain: Vec<CleanupStep>, span: Span },
    ContinueLoop { loop_id: LoopId, exited_scopes: Vec<ScopeId>, cleanup_chain: Vec<CleanupStep>, span: Span },
}

/// When a `Do` loop tests its condition, and for what.
#[derive(Debug)]
pub enum DoCondition {
    Infinite,
    PreWhile(Expression),
    PreUntil(Expression),
    PostWhile(Expression),
    PostUntil(Expression),
}

/// A typed expression.
#[derive(Debug)]
pub struct Expression {
    pub kind: ExpressionKind,
    pub ty: TypeName,
    pub category: ValueCategory,
    pub span: Span,
}

/// What an expression computes.
#[derive(Debug)]
pub enum ExpressionKind {
    Constant(Constant),
    StringConcat { left: Box<Expression>, right: Box<Expression> },
    StringCompare { operation: ComparisonOp, left: Box<Expression>, right: Box<Expression>, text: bool },
    /// Object identity; consumes the two owned reference temporaries.
    ReferenceIdentity { left: Box<Expression>, right: Box<Expression>, negated: bool },
    StringLen(Box<Expression>),
    /// Render a primitive interpolation hole; `decimals` is a resolved fixed
    /// decimal format, not source format syntax for the backend.
    StringFormat { value: Box<Expression>, decimals: Option<u8> },
    Tuple(Vec<Expression>),
    /// The source upper bound is inclusive. Only one-dimensional fixed arrays
    /// enter the current native HIR subset.
    ArrayInit { lower: i64, upper: i64 },
    /// Allocate a resolved native Class.
    NewClass(TypeName),
    NewCollection,
    BoxDynamic(Box<Expression>),
    UnboxDynamic { value: Box<Expression>, target: TypeName },
    CollectionCount(Box<Expression>),
    CollectionItem { collection: Box<Expression>, index: Box<Expression> },
    Place(Place),
    Load(Box<Expression>),
    BorrowMutable(Box<Expression>),
    BorrowImmutable(Box<Expression>),
    /// Ownership transfer. No source construct lowers to this yet.
    Move(Box<Expression>),
    Convert { value: Box<Expression>, conversion: Conversion },
    Arithmetic {
        operation: ArithmeticOp,
        signature: ArithmeticSignature,
        left: Box<Expression>,
        right: Box<Expression>,
    },
    Compare { operation: ComparisonOp, left: Box<Expression>, right: Box<Expression> },
    Call { function: BodyFunctionId, signature: CallSignature, arguments: Vec<CallArgument> },
}

/// Whether two places can share storage does not depend on which is asked
/// about first.
pub proof fn lemma_overlap_symmetric(a: Place, b: Place)
    ensures
        place_overlap(a, b) == place_overlap(b, a),
{
    if a.root == b.root {
        lemma_overlap_from_symmetric(a.projections@, b.projections@, 0);
    }
}

proof fn lemma_overlap_from_symmetric(left: Seq<Projection>, right: Seq<Projection>, k: int)
    ensures
        overlap_from(left, right, k) == overlap_from(right, left, k),
    decreases left.len() - k,
{
    if 0 <= k < left.len() && k < right.len() {
        lemma_overlap_from_symmetric(left, right, k + 1);
    }
}

/// A place is never disjoint from itself: a mutable borrow of it conflicts
/// with any other borrow of it.
pub proof fn lemma_overlap_reflexive(a: Place)
    ensures
        place_overlap(a, a) != PlaceOverlap::Disjoint,
{
    lemma_overlap_from_reflexive(a.projections@, 0);
}

proof fn lemma_overlap_from_reflexive(path: Seq<Projection>, k: int)
    ensures
        overlap_from(path, path, k) != PlaceOverlap::Disjoint,
    decreases path.len() - k,
{
    if 0 <= k < path.len() {
        lemma_overlap_from_reflexive(path, k + 1);
    }
}

} // verus!
