//! Compilation of `INSERT ... ON CONFLICT DO UPDATE` clauses.
//!
//! The crate turns one UPSERT clause into a register-precise instruction
//! sequence over a row store with secondary indexes:
//!
//! * `resolve` decides which unique constraint (primary key or unique index)
//!   an `ON CONFLICT` target list names, honoring per-column collations and
//!   order-insensitive multiset matching.
//! * `rewrite` replaces `EXCLUDED.col` references and target-table column
//!   references inside an expression tree with direct register references.
//! * `set_clause` flattens possibly multi-column `SET` assignments into a
//!   column-index-to-expression mapping with last-assignment-wins semantics.
//! * `emit` orchestrates row snapshotting, the optional `WHERE` guard, `SET`
//!   application with constraint checks, index maintenance, the row rewrite,
//!   change capture and `RETURNING` output.

pub mod emit;
pub mod expr;
pub mod insert;
pub mod names;
pub mod program;
pub mod resolve;
pub mod rewrite;
pub mod schema;
pub mod set_clause;
