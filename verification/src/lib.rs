//! Generator of object-oriented wrapper source for a C embedded GUI toolkit.
//!
//! The toolkit exposes its API as flat foreign functions named by convention
//! (a library prefix, a widget token, an operation token). This crate parses
//! a batch of such declarations, infers which functions are constructors and
//! which are methods of which widget, and emits per-widget wrapper source
//! fragments.

use vstd::prelude::*;

pub mod codegen;
pub mod emit;
pub mod extract;
pub mod laws;
pub mod model;
pub mod parse;
pub mod token;
pub mod strutil;
pub mod types;

pub use codegen::CodeGen;
pub use emit::{Rusty, WrapperError, WrapperResult};
pub use model::{ArgView, FuncView, LvArg, LvFunc, LvWidget, WidgetView};
pub use parse::ParseError;
pub use types::LvType;

verus! {

/// The library prefix that every toolkit function name carries.
pub open spec fn spec_lib_prefix() -> Seq<char> {
    "lv_"@
}

} // verus!
