# valo_semantics

Semantic analysis for the Valo language, written in Verus: every executable
function in `src/` carries a contract that Verus proves.

## Layout

- `ast.rs` — the declarations of a parsed program and project that the
  analysis reads.
- `type_model.rs` — resolved types and when two of them denote the same type.
- `text.rs`, `name_map.rs` — case-insensitive names and name-keyed tables.
- `hir.rs`, `ids.rs` — the project index: stable IDs for modules, types and
  module-level procedures, keyed by qualified name; duplicates are reported.
- `validate.rs` — project checks: the index and the import aliases.
- `symbols.rs`, `types.rs`, `builtin_types.rs` — signatures, the type
  registry with nested-name and canonical-name resolution, and the built-in
  `Collection` class.
- `type_rules.rs`, `member_rules.rs` — the questions expression checking
  asks of types, bounds and signatures.
- `oop.rs` — the inheritance rules of classes: `MustOverride`, `Overrides`
  and `Shadows` against the chain of base classes
  (`lemma_accepted_program_keeps_the_rules`).
- `overloads.rs` — overload resolution by argument fit; it depends only on
  what the parameters and arguments are written as.
- `accessors.rs` — which accessor of a property a read or a write goes to.
- `arithmetic.rs` — the operand type of arithmetic on two types.
- `type_properties.rs` — conservative Copy and cleanup properties of types.
- `typed_hir.rs` — typed bodies: scopes, locals, places and cleanup chains.
- `verify_hir.rs` — structural verification of a typed body; a body that
  passes meets every precondition of ownership analysis
  (`lemma_verified_body_is_analysable`).
- `ownership.rs` — initialization, move and borrow dataflow, and the cleanup
  plan of every exit and overwriting store.
- `debug_hir.rs` — a text rendering of a cleanup plan.
- `control_flow.rs` — where `Exit`, `Continue`, labels and jumps may
  stand.
- `statements.rs` — what statement checking reads of statements: use of the
  `With` object, each statement's place, assignments to a name, and fields
  of the current class reached by a bare name.
- `constants.rs` — constant initializers, the values of module constants
  (settled pass after pass), the members of enums, and the registration
  of a program's enums in order (`lemma_enum_members_count_from_zero`).
- `class_fields.rs` — recording the fields of a class, with conflicts
  between members reported.
- `assignment.rs` — what a bare or indexed name denotes when a value is
  assigned to it: a local, a field or property of the current class, or a
  field of the current `Type`, and what an element assignment gives.
- `context.rs` — what kind of body is being checked, and a second borrow
  of it whose flags write through to the first.

## Not covered

The syntax tree in `ast.rs` holds declarations, with procedure and method
bodies, statements and expressions; it does not hold every detail of them
(declared variable types and array shapes, parameters of lambdas, the
members of `Type` declarations beyond fields). Of the checks that give
statements and expressions their meaning, only parts are here: name
resolution for assignment targets, enum and module-constant values, and
the statement facts above. The library has no expression typing
(`validate_expr`), so neither the indices of an element assignment nor a
member assignment's object are typed; no statement checking
(`validate_statements`); only the enum part of collecting the type registry
(`collect_types`); no lowering to typed HIR (`lower_function_body`); and no
`validate`, `validate_snippet` or `validate_project`. It checks typed bodies
that are built directly, and the declaration-level rules above.

Contracts are stated over spec functions in each module; the public proof
functions (`lemma_*`) state the laws the library keeps.
