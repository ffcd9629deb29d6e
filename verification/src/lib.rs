//! Materializes a typed, rectangular dataset from one of two sources — an
//! in-memory literal value or a delimited text file — into a
//! column-addressable value.
//!
//! The data model lives in [`value`]; [`standardize`] forces a tensor to
//! an exact column count; [`literal`] and [`file`] materialize the two
//! sources; [`materialize`] resolves the requested column count and
//! dispatches between them; [`maps`] holds the key-unique entry lists the
//! column maps are made of.

pub mod value;
pub mod maps;
pub mod standardize;
pub mod literal;
pub mod file;
pub mod materialize;
