//! Writing TypeScript bindings.

pub mod gen_enum;
pub mod gen_struct;
pub mod ts_map;
pub mod utils;

use vstd::prelude::*;

verus! {

/// The first line of every binding file.
pub const FILE_DISCLAIMER: &'static str = "// Do not edit: ts-bind rewrites this file.";

} // verus!
