//! Capability markers and the pagination interface.
//!
//! The marker traits name the families of artifacts a schema-backed
//! entity type can carry — relational storage, encrypted fields, form
//! conversion, enum codecs, JSONB codecs, and the structural-emptiness
//! test; a consumer bounds its own helpers on them.  `Pagination` is the
//! interface a paged record listing implements for its consumers.

use vstd::prelude::*;

verus! {

/// A paged listing of records of type `T`.
pub trait Pagination<T> {
    /// The page this listing holds, counted from the first.
    fn page(&self) -> i64;

    /// How many records one page holds.
    fn per_page(&self) -> i64;

    /// How many records the filter left.
    fn filtered_count(&self) -> i64;

    /// How many records there are in all.
    fn total_count(&self) -> i64;

    /// The records of this page.
    fn records(&self) -> Vec<T>;
}

/// Marks a type whose fields carry encrypted storage artifacts.
pub trait Encryption {

}

/// Marks an enumeration with string codecs for storage and transport.
pub trait Enums {

}

/// Marks a type with a form-conversion artifact.
pub trait Form {

}

/// Marks a type with the structural-emptiness test against its default.
pub trait IsEmpty {

}

/// Marks a type stored whole as a JSONB column.
pub trait Jsonb {

}

/// Marks an entity type compiled against a relational table.
pub trait PostgreSQL {

}

} // verus!
