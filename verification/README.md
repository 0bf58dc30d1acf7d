# hir

Semantic analysis of the high-level intermediate representation (HIR) of the
Pen programming language, written in Verus: types are canonicalized,
compared for equality, subsumption and comparability; types of expressions
are inferred; modules are transformed (built-in types and variables,
qualification, renaming, type coercion) and validated (duplicate names, type
existence, recursive aliases, impossible records, record field access, try
operations, unused errors, type checking). `analysis::analyze` runs the
whole pipeline on a module.

- `src/` is the verified library. Each function states in its contract what
  it returns in terms of spec functions over the types' mathematical values.
  Laws that relate several functions are public proof functions named
  `law_*`: type equality is an equivalence and a type equals its canonical
  form; subsumption is reflexive and transitive, holds between equal types,
  of `any` over every type, and of a union over each of its types;
  canonicalization is idempotent; the difference of a type with itself is
  empty, and a difference is subsumed by the first type; equal types get
  equal identifiers; the members of a union, and so its identifier, do not
  depend on the order of its parts; the type aliases of a module that
  passes the recursive-alias validation all canonicalize; transforming a
  module with the identity on types, or replacing its variables by
  themselves, gives the module back.
- The analysis context carries the error type that `?` operations are
  checked against; where it has none, such an operation is an
  `ErrorTypeUndefined` error.
- `src/tables.rs` holds the hash tables (from `fnv`) that the analysis keeps
  its scopes in; `src/recursive_type_alias_validator.rs` holds the graph
  (from `petgraph`) whose topological sort finds recursive type aliases.
  These are the only places where outside crates are called, behind trusted
  wrappers whose contracts are stated over names for their contents.
- `app/` gives analysis errors `Display` and `std::error::Error`.
- `tests/` holds the tests.
