//! Code generation helpers for the MuJoCo bindings: extractors that recover
//! field, function and table metadata from C headers, and renderers that turn
//! it into declarations for the Rust binding layer.
use vstd::prelude::*;

pub mod text;
pub mod outside;
pub mod type_map;
pub mod fixed_arr_fn;
pub mod info_method;
pub mod model_fn;
pub mod array_slice;
pub mod getter_setter;
pub mod getset;
pub mod views;
pub mod typedef;

verus! {

/// Why a generator could not run on its input.
#[derive(PartialEq, Eq, Structural, Debug, Clone, Copy)]
pub enum GenError {
    /// A pattern built from the caller's name does not compile.
    InvalidPattern,
    /// The named struct or block is not in the input.
    AnchorNotFound,
}

} // verus!
