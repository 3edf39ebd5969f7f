//! Project-wide settings, and the paths that bindings are written to.

use vstd::prelude::*;
use crate::rename_all::RenameAll;
use crate::text::copy_strings;

verus! {

/// A file system path, given as the parts that are joined in order to form
/// it (each part may itself hold separators).
pub struct BindingPath {
    pub parts: Vec<String>,
}

impl BindingPath {
    /// The parts, as character sequences.
    pub open spec fn parts_view(&self) -> Seq<Seq<char>> {
        self.parts.deep_view()
    }
}

/// The settings of a project: where bindings go, the default naming
/// convention, and whether enums also get a type export.
pub struct Config {
    pub ts_code_gen_path: Option<String>,
    pub default_case: Option<RenameAll>,
    pub enum_type_export: Option<bool>,
}

/// The characters of an optional string.
pub open spec fn opt_view(o: Option<String>) -> Option<Seq<char>> {
    match o {
        Some(s) => Some(s@),
        None => None,
    }
}

/// The parts of `parts` placed under the directory set in `config`, if any.
pub open spec fn placed(config: Config, parts: Seq<Seq<char>>) -> Seq<Seq<char>> {
    match opt_view(config.ts_code_gen_path) {
        Some(dir) => seq![dir] + parts,
        None => parts,
    }
}

impl Config {
    /// The path of a binding: `path_buf` placed under the configured
    /// directory, or `path_buf` itself when none is set.
    pub fn create_path(&self, path_buf: &BindingPath) -> (r: BindingPath)
        ensures
            r.parts_view() == placed(*self, path_buf.parts_view()),
    {
        match &self.ts_code_gen_path {
            None => BindingPath { parts: copy_strings(&path_buf.parts) },
            Some(dir) => {
                let mut parts: Vec<String> = Vec::new();
                parts.push(dir.clone());
                let mut rest = copy_strings(&path_buf.parts);
                let ghost first = parts.deep_view();
                let ghost second = rest.deep_view();
                parts.append(&mut rest);
                assert(parts.deep_view() =~= first + second);
                BindingPath { parts }
            },
        }
    }
}

} // verus!
