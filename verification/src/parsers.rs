//! The fields of structs and the variants of enums, as read from the type
//! definition.

use vstd::prelude::*;
use crate::ts::ts_map::RustType;

verus! {

/// The `#[ts_bind(...)]` options given to one field or variant.
pub struct FieldAttributes {
    /// The field or variant is left out of the binding.
    pub skip: bool,
    /// The name it is exported under, overriding any naming convention.
    pub rename: Option<String>,
}

/// A named field of a struct.
pub struct ParsedField {
    pub ident: String,
    pub ty: RustType,
    pub attrs: FieldAttributes,
}

/// A variant of an enum.
pub struct ParsedVariant {
    pub ident: String,
    /// The source tokens of the explicit discriminant, if one is given.
    pub discriminant: Option<String>,
    pub attrs: FieldAttributes,
    /// The type of the first unnamed field, if the variant has unnamed fields.
    pub field: Option<RustType>,
}

} // verus!
