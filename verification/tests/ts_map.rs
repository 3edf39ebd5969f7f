use ts_bind::ts::ts_map::{
    is_hashmap, is_option, is_vec, read_last_seg, ts_rs_map, type_map_error, unwrap_hashmap,
    unwrap_option, unwrapped_fixed_array, GenericArg, MapError, PathArgs, PathSegment, RustType,
    TypePath,
};

fn seg(ident: &str, args: Vec<RustType>) -> PathSegment {
    PathSegment {
        ident: ident.to_string(),
        arguments: if args.is_empty() {
            PathArgs::Absent
        } else {
            PathArgs::AngleBracketed(args.into_iter().map(GenericArg::Type).collect())
        },
    }
}

fn path_of(segments: Vec<PathSegment>, tokens: &str) -> TypePath {
    TypePath { leading_colon: false, segments, tokens: tokens.to_string() }
}

fn ty(segments: Vec<PathSegment>, tokens: &str) -> RustType {
    RustType::Path(path_of(segments, tokens))
}

fn named(name: &str) -> RustType {
    ty(vec![seg(name, vec![])], name)
}

fn option_of(inner: RustType, tokens: &str) -> RustType {
    ty(vec![seg("Option", vec![inner])], tokens)
}

fn map(t: &RustType) -> (String, Vec<String>) {
    let mut imports = Vec::new();
    let r = ts_rs_map(t, &mut imports);
    (r, imports)
}

#[test]
fn test_handle_option() {
    let t = option_of(named("String"), "Option < String >");
    let imports = &mut Vec::new();
    let result = ts_rs_map(&t, imports);
    assert_eq!(result, "string | null");

    let t = option_of(option_of(named("String"), "Option < String >"), "Option < Option < String > >");
    let result = ts_rs_map(&t, imports);
    assert_eq!(result, "string | null | null");
}

#[test]
fn test_unwrap_option() {
    let type_path = path_of(vec![seg("Option", vec![named("String")])], "Option < String >");
    let result = unwrap_option(&type_path);
    if let RustType::Path(type_path) = result {
        assert_eq!(type_path.segments.len(), 1);
        assert_eq!(type_path.segments[0].ident, "String");
    } else {
        panic!("Could not get type path");
    }
}

#[test]
fn test_is_option() {
    let type_path = path_of(vec![seg("Option", vec![named("String")])], "Option < String >");
    let result = is_option(&type_path);
    assert_eq!(result, true);

    let type_path = path_of(vec![seg("String", vec![])], "String");
    let result = is_option(&type_path);
    assert_eq!(result, false);
}

#[test]
fn test_vector_map() {
    let t = ty(vec![seg("Vec", vec![named("String")])], "Vec < String >");
    let imports = &mut Vec::new();
    let result = ts_rs_map(&t, imports);
    assert_eq!(result, "(string)[]");
}

#[test]
fn test_map_map() {
    let t = ty(
        vec![
            seg("std", vec![]),
            seg("collections", vec![]),
            seg("HashMap", vec![named("String"), named("String")]),
        ],
        "std :: collections :: HashMap < String , String >",
    );
    let imports = &mut Vec::new();
    let result = ts_rs_map(&t, imports);
    assert_eq!(result, "{ [key: string]: string }");
}

#[test]
fn test_str_ref() {
    {
        let t = RustType::Reference(Box::new(named("str")));
        let imports = &mut Vec::new();
        let result = ts_rs_map(&t, imports);
        assert_eq!(result, "string");
    }

    {
        // with lifetime: the lifetime is not part of the referenced type
        let t = RustType::Reference(Box::new(named("str")));
        let imports = &mut Vec::new();
        let result = ts_rs_map(&t, imports);
        assert_eq!(result, "string");
    }
}

#[test]
fn test_imports() {
    {
        let t = ty(vec![seg("Vec", vec![named("Posts")])], "Vec < Posts >");
        let imports = &mut Vec::new();
        ts_rs_map(&t, imports);
        assert_eq!(imports, &mut vec!["Posts".to_string()]);
    }

    {
        let t = option_of(named("String"), "Option < String >");
        let imports = &mut Vec::new();
        ts_rs_map(&t, imports);

        assert_eq!(imports, &mut Vec::<String>::new());
    }

    {
        let t = named("Users");
        let imports = &mut Vec::new();
        ts_rs_map(&t, imports);
        assert_eq!(imports, &mut vec!["Users".to_string()]);
    }
}

#[test]
fn numbers_and_booleans() {
    for n in ["i8", "i16", "i32", "i64", "i128", "u8", "u16", "u32", "u64", "u128", "f32", "f64", "usize", "isize"] {
        assert_eq!(map(&named(n)), ("number".to_string(), vec![]));
    }
    assert_eq!(map(&named("bool")), ("boolean".to_string(), vec![]));
    assert_eq!(map(&named("char")), ("char".to_string(), vec!["char".to_string()]));
}

#[test]
fn qualified_string_is_imported() {
    let t = ty(
        vec![seg("std", vec![]), seg("string", vec![]), seg("String", vec![])],
        "std :: string :: String",
    );
    assert_eq!(map(&t), ("std :: string :: String".to_string(), vec!["std :: string :: String".to_string()]));
    let lead = RustType::Path(TypePath {
        leading_colon: true,
        segments: vec![seg("String", vec![])],
        tokens: ":: String".to_string(),
    });
    assert_eq!(map(&lead).0, ":: String");
}

#[test]
fn references_map_their_target() {
    let t = RustType::Reference(Box::new(named("String")));
    assert_eq!(map(&t).0, "string");
    let t = RustType::Reference(Box::new(named("Users")));
    assert_eq!(map(&t), ("Users".to_string(), vec!["Users".to_string()]));
}

#[test]
fn arrays_repeat_the_element() {
    let t = RustType::Array(Box::new(named("u8")), Some(3));
    assert_eq!(map(&t).0, "[number, number, number]");
    let t = RustType::Array(Box::new(named("Users")), Some(2));
    assert_eq!(map(&t), ("[Users, Users]".to_string(), vec!["Users".to_string()]));
    let t = RustType::Array(Box::new(named("Users")), Some(0));
    assert_eq!(map(&t), ("[]".to_string(), vec!["Users".to_string()]));
    let mut imports = Vec::new();
    assert_eq!(unwrapped_fixed_array(&named("bool"), Some(2), &mut imports), "boolean, boolean");
}

#[test]
fn hashmap_imports_key_then_value() {
    let t = ty(vec![seg("HashMap", vec![named("Key"), named("Value")])], "HashMap < Key , Value >");
    assert_eq!(
        map(&t),
        ("{ [key: Key]: Value }".to_string(), vec!["Key".to_string(), "Value".to_string()])
    );
    let p = path_of(vec![seg("HashMap", vec![named("Key"), named("Value")])], "");
    assert!(is_hashmap(&p));
    let (k, v) = unwrap_hashmap(&p);
    assert!(matches!(k, RustType::Path(q) if q.tokens == "Key"));
    assert!(matches!(v, RustType::Path(q) if q.tokens == "Value"));
}

#[test]
fn imports_are_appended() {
    let mut imports = vec!["Before".to_string()];
    let t = ty(vec![seg("Vec", vec![option_of(named("Posts"), "Option < Posts >")])], "");
    assert_eq!(ts_rs_map(&t, &mut imports), "(Posts | null)[]");
    assert_eq!(imports, vec!["Before".to_string(), "Posts".to_string()]);
}

#[test]
fn other_types_are_written_as_tokens() {
    let t = RustType::Other("(u8 , u16)".to_string());
    assert_eq!(map(&t), ("(u8 , u16)".to_string(), vec!["(u8 , u16)".to_string()]));
}

#[test]
fn segment_helpers() {
    let p = path_of(vec![seg("Vec", vec![named("u8")])], "Vec < u8 >");
    assert!(is_vec(&p));
    assert!(!is_option(&p));
    assert!(read_last_seg(&p).is_some());
    let bare = path_of(vec![seg("Vec", vec![])], "Vec");
    assert!(read_last_seg(&bare).is_none());
    let lifetime_first = path_of(
        vec![PathSegment {
            ident: "Cow".to_string(),
            arguments: PathArgs::AngleBracketed(vec![GenericArg::Other, GenericArg::Type(named("str"))]),
        }],
        "Cow < 'a , str >",
    );
    assert!(read_last_seg(&lifetime_first).is_none());
}

#[test]
fn unmappable_types_are_reported() {
    let bare_option = named("Option");
    assert_eq!(type_map_error(&bare_option), Some(MapError::OptionWithoutType));
    let bare_vec = named("Vec");
    assert_eq!(type_map_error(&bare_vec), Some(MapError::VecWithoutType));
    let one_arg = ty(vec![seg("HashMap", vec![named("K")])], "");
    assert_eq!(type_map_error(&one_arg), Some(MapError::HashMapArguments));
    let no_len = RustType::Array(Box::new(named("u8")), None);
    assert_eq!(type_map_error(&no_len), Some(MapError::ArrayLength));
    let nested = RustType::Array(Box::new(named("Vec")), None);
    assert_eq!(type_map_error(&nested), Some(MapError::VecWithoutType));
    let fine = option_of(named("String"), "");
    assert_eq!(type_map_error(&fine), None);
    let parenthesized = ty(
        vec![PathSegment { ident: "Option".to_string(), arguments: PathArgs::Parenthesized }],
        "",
    );
    assert_eq!(type_map_error(&parenthesized), Some(MapError::OptionWithoutType));
}
