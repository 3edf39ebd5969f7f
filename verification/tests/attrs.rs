use ts_bind::config::{BindingPath, Config};
use ts_bind::derive_attrs::{attrs_error, AttrEntry, AttrError, AttrValue, DeriveAttrs};
use ts_bind::rename_all::RenameAll;

fn entry(key: &str, value: AttrValue) -> AttrEntry {
    AttrEntry { key: Some(key.to_string()), value }
}

fn s(v: &str) -> AttrValue {
    AttrValue::Str(v.to_string())
}

#[test]
fn options_are_read() {
    let entries = vec![
        entry("rename", s("Person")),
        entry("rename_all", s("camelCase")),
        entry("export", s("../web/types")),
        entry("enum_type_export", AttrValue::Bool(true)),
    ];
    assert_eq!(attrs_error(&entries), None);
    let d = DeriveAttrs::from("User".to_string(), &entries);
    assert_eq!(d.get_name(), "Person");
    assert_eq!(d.get_rename_all(), Some(&RenameAll::CamelCase));
    assert_eq!(d.get_enum_type_export(), Some(&true));
    assert_eq!(d.get_export_path(false).parts, vec!["../web/types".to_string(), "Person.d.ts".to_string()]);
    assert_eq!(d.get_export_path(true).parts, vec!["../web/types".to_string(), "Person.ts".to_string()]);
}

#[test]
fn defaults_without_options() {
    let d = DeriveAttrs::from("User".to_string(), &Vec::new());
    assert_eq!(d.get_name(), "User");
    assert_eq!(d.get_rename_all(), None);
    assert_eq!(d.get_enum_type_export(), None);
    assert_eq!(d.get_export_path(false).parts, vec!["bindings".to_string(), "User.d.ts".to_string()]);
    assert_eq!(d.get_export_path(true).parts, vec!["bindings".to_string(), "User.ts".to_string()]);
}

#[test]
fn later_options_override_earlier_ones() {
    let entries = vec![
        entry("rename", s("First")),
        entry("rename_all", s("snake_case")),
        entry("rename", s("Second")),
        entry("rename_all", s("PascalCase")),
        AttrEntry { key: None, value: AttrValue::Absent },
    ];
    let d = DeriveAttrs::from("User".to_string(), &entries);
    assert_eq!(d.get_name(), "Second");
    assert_eq!(d.get_rename_all(), Some(&RenameAll::PascalCase));
}

#[test]
fn refused_options_are_reported() {
    assert_eq!(attrs_error(&vec![entry("rename", AttrValue::Bool(true))]), Some(AttrError::RenameValue));
    assert_eq!(attrs_error(&vec![entry("rename_all", AttrValue::Absent)]), Some(AttrError::RenameValue));
    assert_eq!(attrs_error(&vec![entry("rename_all", s("Title"))]), Some(AttrError::UnknownCase));
    assert_eq!(attrs_error(&vec![entry("export", AttrValue::Other)]), Some(AttrError::ExportValue));
    assert_eq!(attrs_error(&vec![entry("enum_type_export", s("yes"))]), Some(AttrError::NestedMeta));
    assert_eq!(
        attrs_error(&vec![AttrEntry { key: None, value: s("x") }]),
        Some(AttrError::NestedMeta)
    );
    assert_eq!(
        attrs_error(&vec![entry("rename", s("Ok")), entry("skip", AttrValue::Absent), entry("export", AttrValue::Other)]),
        Some(AttrError::InvalidName)
    );
}

#[test]
fn paths_go_under_the_configured_directory() {
    let path = BindingPath { parts: vec!["bindings".to_string(), "User.d.ts".to_string()] };
    let with_dir = Config { ts_code_gen_path: Some("frontend/src".to_string()), default_case: None, enum_type_export: None };
    assert_eq!(
        with_dir.create_path(&path).parts,
        vec!["frontend/src".to_string(), "bindings".to_string(), "User.d.ts".to_string()]
    );
    let without = Config { ts_code_gen_path: None, default_case: None, enum_type_export: None };
    assert_eq!(without.create_path(&path).parts, path.parts);
}
