//! Bookkeeping and type-mapping core of a cross-language binding generator.
//!
//! The crate covers four pieces: the hierarchical naming model shared by
//! native and generated entities (`rust_type`), the reversible type-conversion
//! algebra for values crossing the foreign-function boundary (`rust_type`),
//! the versioned store of native, FFI and generated items (`database`), and
//! the per-environment compatibility ledger attached to FFI items
//! (`cpp_checks`).

pub mod cpp_checks;
pub mod database;
pub mod cpp_data;
pub mod rust_type;
pub mod string_utils;
