use ts_bind::config::Config;
use ts_bind::files::{file_lines, split_file_content, write_const_file};
use ts_bind::rename_all::RenameAll;
use ts_bind::ts::ts_map::{MapError, PathArgs, PathSegment, RustType, TypePath};
use ts_bind::ts::FILE_DISCLAIMER;
use ts_bind::ts_bind_const::{handle_ts_bind_const, read_case, ts_bind_const_error, ConstError, ConstMeta};

fn named(name: &str) -> RustType {
    RustType::Path(TypePath {
        leading_colon: false,
        segments: vec![PathSegment { ident: name.to_string(), arguments: PathArgs::Absent }],
        tokens: name.to_string(),
    })
}

fn rename(value: &str) -> ConstMeta {
    ConstMeta::NameValue { path_ident: Some("rename".to_string()), value_tokens: value.to_string() }
}

#[test]
fn lines_are_split_like_bufread() {
    assert_eq!(file_lines("a\r\nb\n\nc"), vec!["a", "b", "", "c"]);
    assert_eq!(file_lines("x\n"), vec!["x"]);
    assert_eq!(file_lines(""), Vec::<String>::new());
    assert_eq!(file_lines("\r"), vec!["\r"]);
    assert_eq!(file_lines("\n\n"), vec!["", ""]);
}

#[test]
fn file_content_is_split_into_imports_and_constants() {
    let lines = vec![
        FILE_DISCLAIMER.to_string(),
        "import type { A } from \"./A\";".to_string(),
        "".to_string(),
        "export const x: A = 1;".to_string(),
        "something else".to_string(),
        "import const".to_string(),
    ];
    let (imports, consts) = split_file_content(&lines);
    assert_eq!(imports, "import type { A } from \"./A\";\nimport const\n");
    assert_eq!(consts, "export const x: A = 1;\n");
}

#[test]
fn new_constants_file() {
    let text = write_const_file(None, vec!["Users".to_string()], "export const a: Users = 1;").unwrap();
    assert_eq!(text, format!("{}\n\nUsersexport const a: Users = 1;", FILE_DISCLAIMER));
    let plain = write_const_file(None, Vec::new(), "export const b: number = 2;").unwrap();
    assert_eq!(plain, format!("{}\n\nexport const b: number = 2;", FILE_DISCLAIMER));
}

#[test]
fn constants_are_added_once() {
    let first = write_const_file(None, vec!["Users".to_string()], "export const a: Users = 1;").unwrap();
    assert_eq!(write_const_file(Some(&first), vec!["Users".to_string()], "export const a: Users = 1;"), None);
    let second = write_const_file(Some(&first), Vec::new(), "export const b: number = 2;").unwrap();
    assert_eq!(
        second,
        format!("{}\n\nUsersexport const a: Users = 1;\nexport const b: number = 2;", FILE_DISCLAIMER)
    );
    assert_eq!(write_const_file(Some(&second), Vec::new(), "export const b: number = 2;"), None);
    assert_eq!(write_const_file(Some(&second), Vec::new(), "export const a: Users = 1;"), None);
}

#[test]
fn constant_binding() {
    let config = Config { ts_code_gen_path: None, default_case: None, enum_type_export: None };
    let b = handle_ts_bind_const(&config, "MAX_SIZE".to_string(), &ConstMeta::Invalid, &named("usize"), "10");
    assert_eq!(b.content, "export const MAX_SIZE: number = 10;");
    assert_eq!(b.path.parts, vec!["bindings".to_string(), "const.ts".to_string()]);
    assert!(b.imports.is_empty());

    let b = handle_ts_bind_const(&config, "MAX_SIZE".to_string(), &rename("\"camelCase\""), &named("Limit"), "Limit (3)");
    assert_eq!(b.content, "export const maxSize: Limit = Limit (3);");
    assert_eq!(b.imports, vec!["Limit".to_string()]);

    let with_default = Config { ts_code_gen_path: Some("out".to_string()), default_case: Some(RenameAll::PascalCase), enum_type_export: None };
    let b = handle_ts_bind_const(&with_default, "MAX_SIZE".to_string(), &ConstMeta::Other, &named("bool"), "true");
    assert_eq!(b.content, "export const MaxSize: boolean = true;");
    assert_eq!(b.path.parts, vec!["out".to_string(), "bindings".to_string(), "const.ts".to_string()]);
}

#[test]
fn constant_case_is_read_from_rename() {
    assert_eq!(read_case(&rename("\"snake_case\"")), Some(RenameAll::SnakeCase));
    assert_eq!(read_case(&ConstMeta::Invalid), None);
    assert_eq!(
        read_case(&ConstMeta::NameValue { path_ident: Some("name".to_string()), value_tokens: "\"x\"".to_string() }),
        None
    );
    assert_eq!(ts_bind_const_error(&rename("\"Title\""), &named("u8")), Some(ConstError::UnknownCase));
    assert_eq!(ts_bind_const_error(&ConstMeta::Invalid, &named("Vec")), Some(ConstError::Mapping(MapError::VecWithoutType)));
    assert_eq!(ts_bind_const_error(&rename("\"camelCase\""), &named("u8")), None);
}
