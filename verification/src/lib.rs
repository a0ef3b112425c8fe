//! A verified lowering from a WebAssembly-style stack machine to Wimpl,
//! a statement-oriented intermediate representation in which the operand
//! stack is made explicit through named variables and expression trees.

pub mod wasm;
pub mod ir;
pub mod error;
pub mod typecheck;
pub mod lower;
pub mod laws;

pub use error::{Error, ErrorKind};
pub use lower::{wimplify, wimplify_function_body, Context, State};
