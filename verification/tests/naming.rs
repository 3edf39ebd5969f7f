use ts_bind::config::Config;
use ts_bind::derive_attrs::{AttrEntry, AttrValue, DeriveAttrs};
use ts_bind::parsers::FieldAttributes;
use ts_bind::rename_all::{is_case_name, RenameAll};
use ts_bind::ts::utils::{apply_name_attr, gen_imports};

fn config(default_case: Option<RenameAll>) -> Config {
    Config { ts_code_gen_path: None, default_case, enum_type_export: None }
}

fn attrs(rename_all: Option<&str>) -> DeriveAttrs {
    let entries: Vec<AttrEntry> = match rename_all {
        Some(v) => vec![AttrEntry { key: Some("rename_all".to_string()), value: AttrValue::Str(v.to_string()) }],
        None => vec![],
    };
    DeriveAttrs::from("Item".to_string(), &entries)
}

#[test]
fn cases_convert_names() {
    assert_eq!(RenameAll::CamelCase.to_case("my_field"), "myField");
    assert_eq!(RenameAll::PascalCase.to_case("my_field"), "MyField");
    assert_eq!(RenameAll::SnakeCase.to_case("userName"), "user_name");
    assert_eq!(RenameAll::UpperCase.to_case("my_field"), "MY FIELD");
    assert_eq!(RenameAll::LowerCase.to_case("MyField"), "my field");
    assert_eq!(RenameAll::KebabCase.to_case("userName"), "user_name");
    assert_eq!(RenameAll::KebabCase.to_case("my-long-name"), "my_long_name");
    assert!(!RenameAll::KebabCase.to_case("A Big Name").contains('-'));
}

#[test]
fn case_names_are_read() {
    assert_eq!(RenameAll::from_string("camelCase"), Some(RenameAll::CamelCase));
    assert_eq!(RenameAll::from_string("snake_case"), Some(RenameAll::SnakeCase));
    assert_eq!(RenameAll::from_string("UPPERCASE"), Some(RenameAll::UpperCase));
    assert_eq!(RenameAll::from_string("lowercase"), Some(RenameAll::LowerCase));
    assert_eq!(RenameAll::from_string("PascalCase"), Some(RenameAll::PascalCase));
    assert_eq!(RenameAll::from_string("kebab_case"), Some(RenameAll::KebabCase));
    assert!(is_case_name("kebab_case"));
    assert!(!is_case_name("kebab-case"));
    assert!(!is_case_name("CamelCase"));
}

#[test]
fn field_rename_wins() {
    let field = FieldAttributes { skip: false, rename: Some("explicit".to_string()) };
    let name = apply_name_attr("my_field".to_string(), &attrs(Some("camelCase")), &config(Some(RenameAll::UpperCase)), &field);
    assert_eq!(name, "explicit");
}

#[test]
fn type_case_beats_default_case() {
    let field = FieldAttributes { skip: false, rename: None };
    assert_eq!(apply_name_attr("my_field".to_string(), &attrs(Some("camelCase")), &config(Some(RenameAll::PascalCase)), &field), "myField");
    assert_eq!(apply_name_attr("my_field".to_string(), &attrs(None), &config(Some(RenameAll::PascalCase)), &field), "MyField");
    assert_eq!(apply_name_attr("my_field".to_string(), &attrs(None), &config(None), &field), "my_field");
}

#[test]
fn imports_are_sorted_unique_and_skip_the_current_type() {
    let imports = vec!["Users".to_string(), "Posts".to_string(), "Users".to_string(), "Item".to_string()];
    assert_eq!(
        gen_imports(imports, &"Item".to_string()),
        "import type { Posts } from \"./Posts\";\nimport type { Users } from \"./Users\";\n"
    );
    assert_eq!(gen_imports(Vec::new(), &"Item".to_string()), "");
}

#[test]
fn imports_do_not_depend_on_order_or_repetition() {
    let a = vec!["B".to_string(), "A".to_string(), "C".to_string()];
    let b = vec!["C".to_string(), "C".to_string(), "A".to_string(), "B".to_string(), "A".to_string()];
    assert_eq!(gen_imports(a, &"X".to_string()), gen_imports(b, &"X".to_string()));
}
