//! Wire-compatibility checking between two versions of an interface schema.
//!
//! A [`Snapshot`](snapshot::Snapshot) indexes the declarations of one schema
//! version by their global identifiers. The comparators in
//! [`is_broken`](mod@is_broken) decide, declaration by declaration and field
//! by field, whether the changed version can still exchange data with the
//! base version, and name what cannot. What they return is stated over the
//! models in [`schema`]; [`laws`] proves what holds of every comparison.

pub mod code_order;
pub mod is_broken;
pub mod laws;
pub mod schema;
pub mod snapshot;
pub mod type_matrix;
pub mod value;
pub mod well_formed;
