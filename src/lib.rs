//! Java bindings emission for WebAssembly interfaces run through wasmtime-java.
use vstd::prelude::*;

pub mod casing;
pub mod error;
pub mod generator;
pub mod java_deps;
pub mod module;
pub mod opts;
pub mod order;
pub mod source;
pub mod text;
pub mod ty;

pub use generator::WasmtimeJava;
pub use opts::Opts;

verus! {

} // verus!
