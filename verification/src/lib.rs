//! A closed, immutable value model for the results of a markdown query
//! evaluation: a tagged union of arrays, string-keyed mappings and rendered
//! leaves, together with its rendering, equality, ordering, truthiness and
//! indexing algebra, a total converter from an open runtime-value domain into
//! that model, and an aggregate over one evaluation's output.

pub mod convert;
pub mod options;
pub mod result;
pub mod value;
