//! The options given to the derive on the type itself.

use vstd::prelude::*;
use crate::config::{BindingPath, opt_view};
use crate::rename_all::{RenameAll, case_from_name, is_case_name};
use crate::text::eq_str;

verus! {

/// The value given to an option inside `#[ts_bind(...)]`.
pub enum AttrValue {
    /// No value, as in `#[ts_bind(name)]`.
    Absent,
    /// A string literal, as in `rename = "User"`.
    Str(String),
    /// A boolean literal, as in `enum_type_export = true`.
    Bool(bool),
    /// Any other value.
    Other,
}

/// One option inside `#[ts_bind(...)]`.
pub struct AttrEntry {
    /// The option's name, when its path is a single identifier.
    pub key: Option<String>,
    pub value: AttrValue,
}

/// Why a `#[ts_bind(...)]` option on a type is refused.
#[derive(PartialEq, Eq, Structural, Clone, Copy, Debug)]
pub enum AttrError {
    /// `rename` or `rename_all` without a string value.
    RenameValue,
    /// `export` without a string value.
    ExportValue,
    /// `rename_all` with a value that names no convention.
    UnknownCase,
    /// `enum_type_export` without a boolean value, or a value after an
    /// option whose name is not a single identifier.
    NestedMeta,
    /// An option of another name.
    InvalidName,
}

/// The options of the derive, as read from the type's attributes.
pub struct DeriveAttrs {
    pub name: String,
    pub rename_all: Option<RenameAll>,
    pub export: Option<String>,
    pub enum_type_export: Option<bool>,
}

/// The options of the derive, as values.
pub struct DeriveAttrsView {
    pub name: Seq<char>,
    pub rename_all: Option<RenameAll>,
    pub export: Option<Seq<char>>,
    pub enum_type_export: Option<bool>,
}

impl View for DeriveAttrs {
    type V = DeriveAttrsView;

    open spec fn view(&self) -> DeriveAttrsView {
        DeriveAttrsView {
            name: self.name@,
            rename_all: self.rename_all,
            export: opt_view(self.export),
            enum_type_export: self.enum_type_export,
        }
    }
}

/// The string held by `v`, if it is a string.
pub open spec fn str_value(v: AttrValue) -> Option<Seq<char>> {
    match v {
        AttrValue::Str(s) => Some(s@),
        _ => None,
    }
}

/// Why the option `e` is refused, if it is.
pub open spec fn entry_error(e: AttrEntry) -> Option<AttrError> {
    match e.key {
        None => if e.value is Absent {
            None
        } else {
            Some(AttrError::NestedMeta)
        },
        Some(k) => if k@ == "rename"@ {
            if e.value is Str {
                None
            } else {
                Some(AttrError::RenameValue)
            }
        } else if k@ == "rename_all"@ {
            if !(e.value is Str) {
                Some(AttrError::RenameValue)
            } else if case_from_name(str_value(e.value)->0) is None {
                Some(AttrError::UnknownCase)
            } else {
                None
            }
        } else if k@ == "export"@ {
            if e.value is Str {
                None
            } else {
                Some(AttrError::ExportValue)
            }
        } else if k@ == "enum_type_export"@ {
            if e.value is Bool {
                None
            } else {
                Some(AttrError::NestedMeta)
            }
        } else {
            Some(AttrError::InvalidName)
        },
    }
}

/// The first refused option among `entries`, if any.
pub open spec fn entries_error(entries: Seq<AttrEntry>) -> Option<AttrError>
    decreases entries.len(),
{
    if entries.len() == 0 {
        None
    } else if entries_error(entries.drop_last()) is Some {
        entries_error(entries.drop_last())
    } else {
        entry_error(entries.last())
    }
}

/// The options after applying the option `e`; a later option overrides an
/// earlier one of the same name.
pub open spec fn apply_entry(d: DeriveAttrsView, e: AttrEntry) -> DeriveAttrsView {
    match e.key {
        None => d,
        Some(k) => if k@ == "rename"@ {
            DeriveAttrsView { name: str_value(e.value)->0, ..d }
        } else if k@ == "rename_all"@ {
            DeriveAttrsView { rename_all: case_from_name(str_value(e.value)->0), ..d }
        } else if k@ == "export"@ {
            DeriveAttrsView { export: str_value(e.value), ..d }
        } else if k@ == "enum_type_export"@ {
            DeriveAttrsView { enum_type_export: Some(e.value->Bool_0), ..d }
        } else {
            d
        },
    }
}

/// The options after applying `entries` in order.
pub open spec fn apply_entries(d: DeriveAttrsView, entries: Seq<AttrEntry>) -> DeriveAttrsView
    decreases entries.len(),
{
    if entries.len() == 0 {
        d
    } else {
        apply_entry(apply_entries(d, entries.drop_last()), entries.last())
    }
}

/// The name of the file that holds the binding of `name`.
pub open spec fn export_file_name(name: Seq<char>, is_enum: bool) -> Seq<char> {
    if is_enum {
        name + ".ts"@
    } else {
        name + ".d"@ + ".ts"@
    }
}

/// The path of the binding file of a type with the options `d`: in the
/// `export` directory if one is set, else in `bindings`.
pub open spec fn export_parts(d: DeriveAttrsView, is_enum: bool) -> Seq<Seq<char>> {
    seq![
        match d.export {
            Some(dir) => dir,
            None => "bindings"@,
        },
        export_file_name(d.name, is_enum),
    ]
}

/// The options of a type named `name` before any attribute is read.
pub open spec fn initial_attrs(name: Seq<char>) -> DeriveAttrsView {
    DeriveAttrsView { name, rename_all: None, export: None, enum_type_export: None }
}

/// Why the option `e` is refused, if it is.
pub fn attr_entry_error(e: &AttrEntry) -> (r: Option<AttrError>)
    ensures
        r == entry_error(*e),
{
    match &e.key {
        None => match &e.value {
            AttrValue::Absent => None,
            _ => Some(AttrError::NestedMeta),
        },
        Some(k) => {
            if eq_str(k.as_str(), "rename") {
                match &e.value {
                    AttrValue::Str(_) => None,
                    _ => Some(AttrError::RenameValue),
                }
            } else if eq_str(k.as_str(), "rename_all") {
                match &e.value {
                    AttrValue::Str(v) => if is_case_name(v.as_str()) {
                        None
                    } else {
                        Some(AttrError::UnknownCase)
                    },
                    _ => Some(AttrError::RenameValue),
                }
            } else if eq_str(k.as_str(), "export") {
                match &e.value {
                    AttrValue::Str(_) => None,
                    _ => Some(AttrError::ExportValue),
                }
            } else if eq_str(k.as_str(), "enum_type_export") {
                match &e.value {
                    AttrValue::Bool(_) => None,
                    _ => Some(AttrError::NestedMeta),
                }
            } else {
                Some(AttrError::InvalidName)
            }
        },
    }
}

/// The first refused option among `attrs`, if any; the derive refuses the
/// type when there is one.
pub fn attrs_error(attrs: &Vec<AttrEntry>) -> (r: Option<AttrError>)
    ensures
        r == entries_error(attrs@),
{
    let mut i: usize = 0;
    while i < attrs.len()
        invariant
            i <= attrs.len(),
            entries_error(attrs@.take(i as int)) is None,
        decreases attrs.len() - i,
    {
        assert(attrs@.take(i + 1).drop_last() =~= attrs@.take(i as int));
        let e = attr_entry_error(&attrs[i]);
        if e.is_some() {
            proof {
                lemma_error_prefix(attrs@, i + 1);
            }
            return e;
        }
        i = i + 1;
    }
    assert(attrs@.take(attrs.len() as int) =~= attrs@);
    None
}

/// An error in a prefix of the options is the first error of all of them.
proof fn lemma_error_prefix(entries: Seq<AttrEntry>, n: int)
    requires
        0 <= n <= entries.len(),
        entries_error(entries.take(n)) is Some,
    ensures
        entries_error(entries) == entries_error(entries.take(n)),
    decreases entries.len() - n,
{
    if n < entries.len() {
        assert(entries.take(n + 1).drop_last() =~= entries.take(n));
        lemma_error_prefix(entries, n + 1);
    } else {
        assert(entries.take(n) =~= entries);
    }
}

impl DeriveAttrs {
    /// Reads the `#[ts_bind(...)]` options given to the type `struct_name`:
    /// `rename` sets the exported name, `rename_all` the naming convention
    /// of its fields or variants, `export` the output directory and
    /// `enum_type_export` whether an enum also gets a type export. Options
    /// are read in order, so a later one overrides an earlier one.
    pub fn from(struct_name: String, attrs: &Vec<AttrEntry>) -> (r: Self)
        requires
            entries_error(attrs@) is None,
        ensures
            r@ == apply_entries(initial_attrs(struct_name@), attrs@),
    {
        let mut struct_attrs = DeriveAttrs {
            name: struct_name,
            rename_all: None,
            export: None,
            enum_type_export: None,
        };
        Self::parse_attrs(&mut struct_attrs, attrs);
        struct_attrs
    }

    /// The exported name of the type.
    pub fn get_name(&self) -> (r: &String)
        ensures
            r@ == self@.name,
    {
        &self.name
    }

    /// The path of the file that the binding is written to: `<name>.ts` for
    /// an enum and `<name>.d.ts` otherwise, in the `export` directory or in
    /// `bindings`.
    pub fn get_export_path(&self, is_enum: bool) -> (r: BindingPath)
        ensures
            r.parts_view() == export_parts(self@, is_enum),
    {
        let dir = match &self.export {
            Some(d) => d.clone(),
            None => "bindings".to_owned(),
        };
        let mut file = self.name.clone();
        if !is_enum {
            file.append(".d");
        }
        file.append(".ts");
        let mut parts: Vec<String> = Vec::new();
        parts.push(dir);
        parts.push(file);
        assert(parts.deep_view() =~= seq![
            match self@.export {
                Some(dir) => dir,
                None => "bindings"@,
            },
            export_file_name(self@.name, is_enum),
        ]);
        BindingPath { parts }
    }

    /// The naming convention of the type's fields or variants, if set.
    pub fn get_rename_all(&self) -> (r: Option<&RenameAll>)
        ensures
            match r {
                Some(x) => self.rename_all == Some(*x),
                None => self.rename_all is None,
            },
    {
        self.rename_all.as_ref()
    }

    /// Whether an enum also gets a type export, if set.
    pub fn get_enum_type_export(&self) -> (r: Option<&bool>)
        ensures
            match r {
                Some(x) => self.enum_type_export == Some(*x),
                None => self.enum_type_export is None,
            },
    {
        self.enum_type_export.as_ref()
    }

    fn parse_attrs(struct_attrs: &mut Self, attrs: &Vec<AttrEntry>)
        requires
            entries_error(attrs@) is None,
        ensures
            final(struct_attrs)@ == apply_entries(old(struct_attrs)@, attrs@),
    {
        let ghost start = struct_attrs@;
        let mut i: usize = 0;
        while i < attrs.len()
            invariant
                i <= attrs.len(),
                entries_error(attrs@) is None,
                struct_attrs@ == apply_entries(start, attrs@.take(i as int)),
            decreases attrs.len() - i,
        {
            proof {
                assert(attrs@.take(i + 1).drop_last() =~= attrs@.take(i as int));
                lemma_no_error_prefix(attrs@, i + 1);
            }
            let attr = &attrs[i];
            match &attr.key {
                None => {},
                Some(k) => {
                    if eq_str(k.as_str(), "rename") {
                        match &attr.value {
                            AttrValue::Str(v) => {
                                struct_attrs.name = v.clone();
                            },
                            _ => {},
                        }
                    } else if eq_str(k.as_str(), "rename_all") {
                        match &attr.value {
                            AttrValue::Str(v) => {
                                struct_attrs.rename_all = RenameAll::from_string(v.as_str());
                            },
                            _ => {},
                        }
                    } else if eq_str(k.as_str(), "export") {
                        match &attr.value {
                            AttrValue::Str(v) => {
                                struct_attrs.export = Some(v.clone());
                            },
                            _ => {},
                        }
                    } else if eq_str(k.as_str(), "enum_type_export") {
                        match &attr.value {
                            AttrValue::Bool(b) => {
                                struct_attrs.enum_type_export = Some(*b);
                            },
                            _ => {},
                        }
                    }
                },
            }
            i = i + 1;
        }
        assert(attrs@.take(attrs.len() as int) =~= attrs@);
    }
}

/// No option in a prefix is refused when none of all of them is.
proof fn lemma_no_error_prefix(entries: Seq<AttrEntry>, n: int)
    requires
        0 <= n <= entries.len(),
        entries_error(entries) is None,
    ensures
        entries_error(entries.take(n)) is None,
        n > 0 ==> entry_error(entries[n - 1]) is None,
    decreases entries.len() - n,
{
    if n < entries.len() {
        lemma_no_error_prefix(entries, n + 1);
        assert(entries.take(n + 1).drop_last() =~= entries.take(n));
        assert(entries.take(n + 1).last() == entries[n]);
    } else {
        assert(entries.take(n) =~= entries);
    }
    if n > 0 {
        assert(entries.take(n).drop_last() =~= entries.take(n - 1));
        assert(entries.take(n).last() == entries[n - 1]);
    }
}


/// What each option does to the options read before it: `rename = v` sets
/// the exported name to `v`; `rename_all = v` sets the convention to the one
/// that `v` names (the one `RenameAll::from_string(v)` gives); `export = v`
/// sets the directory to `v`; `enum_type_export = b` sets that flag to `b`.
/// Each changes its own option only, and an option whose name is not a
/// single identifier changes nothing.
pub proof fn options_set_what_they_name(d: DeriveAttrsView, entries: Seq<AttrEntry>, e: AttrEntry)
    ensures
        ({
            let before = apply_entries(d, entries);
            let after = apply_entries(d, entries.push(e));
            &&& e.key is None ==> after == before
            &&& (e.key is Some && e.key->0@ == "rename"@ && e.value is Str) ==> after
                == DeriveAttrsView { name: e.value->Str_0@, ..before }
            &&& (e.key is Some && e.key->0@ == "rename_all"@ && e.value is Str) ==> after
                == DeriveAttrsView { rename_all: case_from_name(e.value->Str_0@), ..before }
            &&& (e.key is Some && e.key->0@ == "export"@ && e.value is Str) ==> after
                == DeriveAttrsView { export: Some(e.value->Str_0@), ..before }
            &&& (e.key is Some && e.key->0@ == "enum_type_export"@ && e.value is Bool) ==> after
                == DeriveAttrsView { enum_type_export: Some(e.value->Bool_0), ..before }
        }),
{
    reveal_strlit("rename");
    reveal_strlit("rename_all");
    reveal_strlit("export");
    reveal_strlit("enum_type_export");
    assert("export"@[0] != "rename"@[0]);
    assert(entries.push(e).drop_last() =~= entries);
    assert(entries.push(e).last() == e);
    let before = apply_entries(d, entries);
    assert(apply_entries(d, entries.push(e)) == apply_entry(before, e));
    assert("rename"@.len() == 6 && "rename_all"@.len() == 10 && "enum_type_export"@.len() == 16);
    assert("rename_all"@ != "rename"@);
    assert("enum_type_export"@ != "rename"@);
    assert("enum_type_export"@ != "rename_all"@);
    assert("enum_type_export"@ != "export"@);
    assert("export"@ != "rename_all"@);
}

} // verus!
