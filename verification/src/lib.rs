//! A schema compiler for SQL-backed record types.
//!
//! From a declarative entity description (named fields, some carrying
//! textual attribute annotations) the library builds an immutable
//! [`schema::EntitySchema`]: parallel column-naming projections, one
//! alias-scoped projection group per declared join alias, row parsers,
//! field accessors over a tri-state value wrapper, and a parameterized
//! partial-update statement builder.  Everything that computes is
//! specified and verified; the single database round trip that the
//! update statement needs is left to the surrounding application.

use vstd::prelude::*;

pub mod decl;
pub mod entity;
pub mod ident;
pub mod introspect;
pub mod laws;
pub mod markers;
pub mod naming;
pub mod row;
pub mod schema;
pub mod text;
pub mod tristate;
pub mod update;
pub mod value;

verus! {

} // verus!
