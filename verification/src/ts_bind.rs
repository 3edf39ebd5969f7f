//! The binding of a struct or enum that derives it.

use vstd::prelude::*;
use crate::config::{BindingPath, Config, placed};
use crate::derive_attrs::{
    AttrEntry, AttrError, DeriveAttrs, DeriveAttrsView, apply_entries, attrs_error, entries_error,
    export_parts, initial_attrs,
};
use crate::parsers::{ParsedField, ParsedVariant};
use crate::ts::gen_enum::{
    enum_binding, gen_enum, lemma_variants_error, type_export_enabled, variants_error,
    variants_map_error,
};
use crate::ts::gen_struct::{fields_error, fields_map_error, gen_struct, lemma_fields_error, struct_binding};
use crate::ts::ts_map::MapError;

verus! {

/// The body of the item that the derive is applied to.
pub enum TypeData {
    /// A struct, with its named fields (none for a tuple or unit struct).
    Struct(Vec<ParsedField>),
    /// An enum, with its variants.
    Enum(Vec<ParsedVariant>),
    /// A union, which gets no binding.
    Union,
}

/// A binding file: where it goes and what it holds.
pub struct Binding {
    pub path: BindingPath,
    pub code: String,
}

/// Why the derive refuses an item.
#[derive(PartialEq, Eq, Structural, Clone, Copy, Debug)]
pub enum BindError {
    /// An option on the item itself is refused.
    Attr(AttrError),
    /// A type that the binding needs cannot be mapped.
    Mapping(MapError),
}

/// The options of the item named `name` with the attributes `attrs`.
pub open spec fn item_attrs(name: Seq<char>, attrs: Seq<AttrEntry>) -> DeriveAttrsView {
    apply_entries(initial_attrs(name), attrs)
}

/// Why the derive refuses the item, if it does: first an option on the item,
/// then a type that the binding maps.
pub open spec fn bind_error(
    config: Config,
    name: Seq<char>,
    attrs: Seq<AttrEntry>,
    data: TypeData,
) -> Option<BindError> {
    match entries_error(attrs) {
        Some(e) => Some(BindError::Attr(e)),
        None => match data {
            TypeData::Struct(fields) => match fields_error(fields@) {
                Some(e) => Some(BindError::Mapping(e)),
                None => None,
            },
            TypeData::Enum(variants) => if type_export_enabled(item_attrs(name, attrs), config) {
                match variants_error(variants@) {
                    Some(e) => Some(BindError::Mapping(e)),
                    None => None,
                }
            } else {
                None
            },
            TypeData::Union => None,
        },
    }
}

/// Why the derive refuses the item, if it does.
pub fn ts_bind_error(config: &Config, ident: &String, attrs: &Vec<AttrEntry>, data: &TypeData) -> (r:
    Option<BindError>)
    ensures
        r == bind_error(*config, ident@, attrs@, *data),
{
    match attrs_error(attrs) {
        Some(e) => Some(BindError::Attr(e)),
        None => match data {
            TypeData::Struct(fields) => match fields_map_error(fields) {
                Some(e) => Some(BindError::Mapping(e)),
                None => None,
            },
            TypeData::Enum(variants) => {
                let attr = DeriveAttrs::from(ident.clone(), attrs);
                let enabled = match attr.get_enum_type_export() {
                    Some(b) => *b,
                    None => match config.enum_type_export {
                        Some(b) => b,
                        None => false,
                    },
                };
                if enabled {
                    match variants_map_error(variants) {
                        Some(e) => Some(BindError::Mapping(e)),
                        None => None,
                    }
                } else {
                    None
                }
            },
            TypeData::Union => None,
        },
    }
}

/// The binding of the item named `ident` with the attributes `attrs`: for a
/// struct an interface in `<name>.d.ts`, for an enum a constant object in
/// `<name>.ts`, both under the configured directory; a union gets none.
pub fn handle_ts_bind(config: &Config, ident: String, attrs: &Vec<AttrEntry>, data: TypeData) -> (r:
    Option<Binding>)
    requires
        bind_error(*config, ident@, attrs@, data) is None,
    ensures
        match data {
            TypeData::Struct(fields) => r matches Some(b) && b.path.parts_view() == placed(
                *config,
                export_parts(item_attrs(ident@, attrs@), false),
            ) && b.code@ == struct_binding(item_attrs(ident@, attrs@), *config, fields@),
            TypeData::Enum(variants) => r matches Some(b) && b.path.parts_view() == placed(
                *config,
                export_parts(item_attrs(ident@, attrs@), true),
            ) && b.code@ == enum_binding(item_attrs(ident@, attrs@), *config, variants@),
            TypeData::Union => r is None,
        },
{
    let attr = DeriveAttrs::from(ident, attrs);
    match data {
        TypeData::Struct(fields) => {
            proof {
                lemma_fields_error(fields@);
            }
            let code = gen_struct(&attr, config, &fields);
            let path = config.create_path(&attr.get_export_path(false));
            Some(Binding { path, code })
        },
        TypeData::Enum(variants) => {
            proof {
                lemma_variants_error(variants@);
            }
            let code = gen_enum(&attr, config, variants);
            let path = config.create_path(&attr.get_export_path(true));
            Some(Binding { path, code })
        },
        TypeData::Union => None,
    }
}

} // verus!
