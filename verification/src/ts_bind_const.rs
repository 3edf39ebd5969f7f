//! The binding of a constant that carries the attribute.

use vstd::prelude::*;
use crate::config::{BindingPath, Config, placed};
use crate::rename_all::{RenameAll, case_from_name, case_text, is_case_name};
use crate::text::{eq_str, remove_char, remove_char_seq};
use crate::ts::ts_map::{MapError, RustType, map_error, ts_map, ts_rs_map, type_map_error};

verus! {

/// The arguments given to the attribute on a constant.
pub enum ConstMeta {
    /// The arguments do not form a meta item (for instance, there are none).
    Invalid,
    /// A `path = value` item.
    NameValue {
        /// The path, when it is a single identifier.
        path_ident: Option<String>,
        /// The source tokens of the value.
        value_tokens: String,
    },
    /// Any other meta item.
    Other,
}

/// The exported constant: where it goes, what it needs imported, and its
/// declaration.
pub struct ConstBinding {
    pub path: BindingPath,
    pub imports: Vec<String>,
    pub content: String,
}

/// Why the attribute refuses a constant.
#[derive(PartialEq, Eq, Structural, Clone, Copy, Debug)]
pub enum ConstError {
    /// `rename` with a value that names no convention.
    UnknownCase,
    /// The constant's type cannot be mapped.
    Mapping(MapError),
}

/// The convention name given by `rename = "..."`, with its quotes removed.
pub open spec fn rename_value(meta: ConstMeta) -> Option<Seq<char>> {
    match meta {
        ConstMeta::NameValue { path_ident, value_tokens } => match path_ident {
            Some(p) => if p@ == "rename"@ {
                Some(remove_char_seq(value_tokens@, '"'))
            } else {
                None
            },
            None => None,
        },
        _ => None,
    }
}

/// The convention that the attribute asks for, if it asks for one.
pub open spec fn meta_case(meta: ConstMeta) -> Option<RenameAll> {
    match rename_value(meta) {
        Some(v) => case_from_name(v),
        None => None,
    }
}

/// Why the attribute refuses the constant, if it does: first an unknown
/// convention, then a type that cannot be mapped.
pub open spec fn const_error(meta: ConstMeta, ty: RustType) -> Option<ConstError> {
    if rename_value(meta) is Some && case_from_name(rename_value(meta)->0) is None {
        Some(ConstError::UnknownCase)
    } else {
        match map_error(ty) {
            Some(e) => Some(ConstError::Mapping(e)),
            None => None,
        }
    }
}

/// The name the constant `name` is exported under: in the convention that
/// the attribute asks for, else in the project's default convention, else
/// unchanged.
pub open spec fn exported_const_name(config: Config, meta: ConstMeta, name: Seq<char>) -> Seq<char> {
    match meta_case(meta) {
        Some(case) => case_text(case, name),
        None => match config.default_case {
            Some(case) => case_text(case, name),
            None => name,
        },
    }
}

fn rename_tokens(meta: &ConstMeta) -> (r: Option<&String>)
    ensures
        match r {
            Some(v) => rename_value(*meta) == Some(remove_char_seq(v@, '"')),
            None => rename_value(*meta) is None,
        },
{
    match meta {
        ConstMeta::NameValue { path_ident, value_tokens } => match path_ident {
            Some(p) => if eq_str(p.as_str(), "rename") {
                Some(value_tokens)
            } else {
                None
            },
            None => None,
        },
        _ => None,
    }
}

/// The convention that the attribute asks for with `rename = "..."`.
pub fn read_case(meta: &ConstMeta) -> (r: Option<RenameAll>)
    requires
        rename_value(*meta) matches Some(v) ==> case_from_name(v) is Some,
    ensures
        r == meta_case(*meta),
{
    match rename_tokens(meta) {
        Some(v) => {
            let value = remove_char(v.as_str(), '"');
            RenameAll::from_string(value.as_str())
        },
        None => None,
    }
}

/// Why the attribute refuses the constant of type `ty`, if it does.
pub fn ts_bind_const_error(meta: &ConstMeta, ty: &RustType) -> (r: Option<ConstError>)
    ensures
        r == const_error(*meta, *ty),
{
    match rename_tokens(meta) {
        Some(v) => {
            let value = remove_char(v.as_str(), '"');
            if !is_case_name(value.as_str()) {
                return Some(ConstError::UnknownCase);
            }
        },
        None => {},
    }
    match type_map_error(ty) {
        Some(e) => Some(ConstError::Mapping(e)),
        None => None,
    }
}

/// The exported form of the constant `const_name: ty = expr`, written as
/// `export const <name>: <TS type> = <expr tokens>;` into `bindings/const.ts`
/// under the configured directory.
pub fn handle_ts_bind_const(
    config: &Config,
    const_name: String,
    meta: &ConstMeta,
    ty: &RustType,
    expr_tokens: &str,
) -> (r: ConstBinding)
    requires
        const_error(*meta, *ty) is None,
    ensures
        r.path.parts_view() == placed(*config, seq!["bindings"@, "const.ts"@]),
        r.imports.deep_view() == ts_map(*ty).1,
        r.content@ == "export const "@ + exported_const_name(*config, *meta, const_name@) + ": "@ + ts_map(
            *ty,
        ).0 + " = "@ + expr_tokens@ + ";"@,
{
    let name = match read_case(meta) {
        Some(case) => case.to_case(const_name.as_str()),
        None => match &config.default_case {
            Some(case) => case.to_case(const_name.as_str()),
            None => const_name,
        },
    };
    let mut imports: Vec<String> = Vec::new();
    let mapped = ts_rs_map(ty, &mut imports);
    assert(imports.deep_view() =~= ts_map(*ty).1);
    let mut content = "export const ".to_owned();
    content.append(name.as_str());
    content.append(": ");
    content.append(mapped.as_str());
    content.append(" = ");
    content.append(expr_tokens);
    content.append(";");
    let mut parts: Vec<String> = Vec::new();
    parts.push("bindings".to_owned());
    parts.push("const.ts".to_owned());
    assert(parts.deep_view() =~= seq!["bindings"@, "const.ts"@]);
    let path = config.create_path(&BindingPath { parts });
    ConstBinding { path, imports, content }
}


/// How a constant is named: when the attribute is `rename = "<convention>"`
/// for a known convention, the constant is named in that convention whatever
/// the project's default is; when the attribute names no convention, the
/// project's default applies, and with no default the name is kept.
pub proof fn const_naming_rule(config: Config, meta: ConstMeta, name: Seq<char>)
    ensures
        rename_value(meta) is Some && case_from_name(rename_value(meta)->0) is Some
            ==> exported_const_name(config, meta, name) == case_text(
            case_from_name(rename_value(meta)->0)->0,
            name,
        ),
        rename_value(meta) is None && config.default_case is Some ==> exported_const_name(
            config,
            meta,
            name,
        ) == case_text(config.default_case->0, name),
        rename_value(meta) is None && config.default_case is None ==> exported_const_name(
            config,
            meta,
            name,
        ) == name,
{
}

/// When the attribute names a known convention, the project's settings do
/// not change the constant's name.
pub proof fn const_rename_ignores_settings(
    first: Config,
    second: Config,
    meta: ConstMeta,
    name: Seq<char>,
)
    requires
        rename_value(meta) is Some,
        case_from_name(rename_value(meta)->0) is Some,
    ensures
        exported_const_name(first, meta, name) == exported_const_name(second, meta, name),
{
}

} // verus!
