use ts_bind::config::Config;
use ts_bind::derive_attrs::{AttrEntry, AttrError, AttrValue, DeriveAttrs};
use ts_bind::parsers::{FieldAttributes, ParsedField, ParsedVariant};
use ts_bind::ts::gen_enum::{gen_enum, generate_type_export, map_discriminant, variants_map_error};
use ts_bind::ts::gen_struct::{fields_map_error, gen_struct};
use ts_bind::ts::ts_map::{GenericArg, MapError, PathArgs, PathSegment, RustType, TypePath};
use ts_bind::ts::FILE_DISCLAIMER;
use ts_bind::ts_bind::{handle_ts_bind, ts_bind_error, BindError, TypeData};

fn named(name: &str) -> RustType {
    RustType::Path(TypePath {
        leading_colon: false,
        segments: vec![PathSegment { ident: name.to_string(), arguments: PathArgs::Absent }],
        tokens: name.to_string(),
    })
}

fn generic(outer: &str, inner: RustType) -> RustType {
    RustType::Path(TypePath {
        leading_colon: false,
        segments: vec![PathSegment {
            ident: outer.to_string(),
            arguments: PathArgs::AngleBracketed(vec![GenericArg::Type(inner)]),
        }],
        tokens: String::new(),
    })
}

fn plain() -> FieldAttributes {
    FieldAttributes { skip: false, rename: None }
}

fn field(name: &str, ty: RustType, attrs: FieldAttributes) -> ParsedField {
    ParsedField { ident: name.to_string(), ty, attrs }
}

fn variant(name: &str, discriminant: Option<&str>, skip: bool, field: Option<RustType>) -> ParsedVariant {
    ParsedVariant {
        ident: name.to_string(),
        discriminant: discriminant.map(|d| d.to_string()),
        attrs: FieldAttributes { skip, rename: None },
        field,
    }
}

fn no_config() -> Config {
    Config { ts_code_gen_path: None, default_case: None, enum_type_export: None }
}

fn user_fields() -> Vec<ParsedField> {
    vec![
        field("id", named("u32"), plain()),
        field("name", named("String"), plain()),
        field("posts", generic("Vec", named("Post")), plain()),
        field("secret", named("Secret"), FieldAttributes { skip: true, rename: None }),
        field("nickname", generic("Option", named("String")), FieldAttributes { skip: false, rename: Some("nick".to_string()) }),
    ]
}

#[test]
fn struct_binding_with_imports() {
    let d = DeriveAttrs::from("User".to_string(), &Vec::new());
    let code = gen_struct(&d, &no_config(), &user_fields());
    let expected = format!(
        "{}\n\nimport type {{ Post }} from \"./Post\";\n\n\nexport interface User {{\n   id: number;\n   name: string;\n   posts: (Post)[];\n   nick: string | null;\n}}",
        FILE_DISCLAIMER
    );
    assert_eq!(code, expected);
}

#[test]
fn struct_binding_without_imports() {
    let d = DeriveAttrs::from("Point".to_string(), &Vec::new());
    let fields = vec![field("x", named("f64"), plain()), field("y", named("f64"), plain())];
    let config = Config { ts_code_gen_path: None, default_case: Some(ts_bind::rename_all::RenameAll::UpperCase), enum_type_export: None };
    let code = gen_struct(&d, &config, &fields);
    assert_eq!(code, format!("{}\n\n\nexport interface Point {{\n   X: number;\n   Y: number;\n}}", FILE_DISCLAIMER));
}

#[test]
fn struct_that_refers_to_itself_imports_nothing() {
    let d = DeriveAttrs::from("Node".to_string(), &Vec::new());
    let fields = vec![field("next", generic("Option", named("Node")), plain())];
    let code = gen_struct(&d, &no_config(), &fields);
    assert_eq!(code, format!("{}\n\n\nexport interface Node {{\n   next: Node | null;\n}}", FILE_DISCLAIMER));
}

#[test]
fn struct_with_field_named_like_import_gets_extra_line() {
    let d = DeriveAttrs::from("Flags".to_string(), &Vec::new());
    let fields = vec![field("important", named("bool"), plain())];
    let code = gen_struct(&d, &no_config(), &fields);
    assert_eq!(code, format!("{}\n\n\n\nexport interface Flags {{\n   important: boolean;\n}}", FILE_DISCLAIMER));
}

#[test]
fn enum_binding_without_type_export() {
    let d = DeriveAttrs::from("Color".to_string(), &Vec::new());
    let data = vec![variant("Red", None, false, None), variant("Green", None, true, None), variant("Blue", Some("7"), false, None)];
    let code = gen_enum(&d, &no_config(), data);
    assert_eq!(code, format!("{}\n\nexport const Color = {{\n  Red: 0,\n  Blue: 7,\n}};\n", FILE_DISCLAIMER));
}

#[test]
fn enum_binding_with_typeof_export() {
    let entries = vec![AttrEntry { key: Some("enum_type_export".to_string()), value: AttrValue::Bool(true) }];
    let d = DeriveAttrs::from("Color".to_string(), &entries);
    let data = vec![variant("Red", None, false, None), variant("Blue", None, false, None)];
    let code = gen_enum(&d, &no_config(), data);
    assert_eq!(
        code,
        format!(
            "{}\n\nexport const Color = {{\n  Red: 0,\n  Blue: 1,\n}};\n\nexport type Color = typeof Color[keyof typeof Color];",
            FILE_DISCLAIMER
        )
    );
}

#[test]
fn enum_binding_with_union_export() {
    let d = DeriveAttrs::from("Event".to_string(), &Vec::new());
    let config = Config { ts_code_gen_path: None, default_case: None, enum_type_export: Some(true) };
    let data = vec![
        variant("Tick", None, false, Some(named("u8"))),
        variant("Quit", None, true, None),
        variant("Post", None, false, Some(named("Posts"))),
    ];
    let code = gen_enum(&d, &config, data);
    assert_eq!(
        code,
        format!(
            "{}\nimport type {{ Posts }} from \"./Posts\";\n\nexport const Event = {{\n  Tick: 0,\n  Post: 2,\n}};\n\nexport type Event = \n| {{ type: 0, data: number }}\n| {{ type: 1, data: any }}\n| {{ type: 2, data: Posts }}",
            FILE_DISCLAIMER
        )
    );
}

#[test]
fn enum_own_option_beats_config() {
    let entries = vec![AttrEntry { key: Some("enum_type_export".to_string()), value: AttrValue::Bool(false) }];
    let d = DeriveAttrs::from("E".to_string(), &entries);
    let config = Config { ts_code_gen_path: None, default_case: None, enum_type_export: Some(true) };
    let code = gen_enum(&d, &config, vec![variant("A", None, false, None)]);
    assert_eq!(code, format!("{}\n\nexport const E = {{\n  A: 0,\n}};\n", FILE_DISCLAIMER));
}

#[test]
fn type_export_parts() {
    let d = DeriveAttrs::from("E".to_string(), &Vec::new());
    let (imports, export) = generate_type_export(&d, vec![variant("A", Some("3"), false, Some(named("E")))]);
    assert_eq!(imports, "");
    assert_eq!(export, "\nexport type E = \n| { type: 3, data: E }");
    assert_eq!(map_discriminant(&None, 12), "12");
    assert_eq!(map_discriminant(&Some("1 << 2".to_string()), 0), "1 << 2");
}

#[test]
fn derive_produces_files() {
    let config = Config { ts_code_gen_path: Some("web".to_string()), default_case: None, enum_type_export: None };
    let attrs = vec![AttrEntry { key: Some("rename".to_string()), value: AttrValue::Str("Person".to_string()) }];
    let b = handle_ts_bind(&config, "User".to_string(), &attrs, TypeData::Struct(vec![field("id", named("u32"), plain())])).unwrap();
    assert_eq!(b.path.parts, vec!["web".to_string(), "bindings".to_string(), "Person.d.ts".to_string()]);
    assert_eq!(b.code, format!("{}\n\n\nexport interface Person {{\n   id: number;\n}}", FILE_DISCLAIMER));
    let b = handle_ts_bind(&config, "Kind".to_string(), &Vec::new(), TypeData::Enum(vec![variant("A", None, false, None)])).unwrap();
    assert_eq!(b.path.parts, vec!["web".to_string(), "bindings".to_string(), "Kind.ts".to_string()]);
    assert!(handle_ts_bind(&config, "U".to_string(), &Vec::new(), TypeData::Union).is_none());
}

#[test]
fn derive_reports_refusals() {
    let config = no_config();
    let bad = vec![AttrEntry { key: Some("colour".to_string()), value: AttrValue::Absent }];
    assert_eq!(ts_bind_error(&config, &"T".to_string(), &bad, &TypeData::Union), Some(BindError::Attr(AttrError::InvalidName)));
    let fields = vec![field("a", named("Vec"), plain())];
    assert_eq!(fields_map_error(&fields), Some(MapError::VecWithoutType));
    assert_eq!(
        ts_bind_error(&config, &"T".to_string(), &Vec::new(), &TypeData::Struct(fields)),
        Some(BindError::Mapping(MapError::VecWithoutType))
    );
    let skipped = vec![field("a", named("Vec"), FieldAttributes { skip: true, rename: None })];
    assert_eq!(ts_bind_error(&config, &"T".to_string(), &Vec::new(), &TypeData::Struct(skipped)), None);
    let variants = vec![variant("A", None, false, Some(named("Option")))];
    assert_eq!(variants_map_error(&variants), Some(MapError::OptionWithoutType));
    assert_eq!(ts_bind_error(&config, &"T".to_string(), &Vec::new(), &TypeData::Enum(variants)), None);
    let exporting = Config { ts_code_gen_path: None, default_case: None, enum_type_export: Some(true) };
    let variants = vec![variant("A", None, false, Some(named("Option")))];
    assert_eq!(
        ts_bind_error(&exporting, &"T".to_string(), &Vec::new(), &TypeData::Enum(variants)),
        Some(BindError::Mapping(MapError::OptionWithoutType))
    );
}
