//! Mapping of Rust types onto TypeScript types.
//!
//! A Rust type is held as a [`RustType`]: the parts of a parsed type that
//! the mapping reads, as plain values.

use vstd::prelude::*;
use crate::text::{eq_str, seq_join};

verus! {

/// A generic argument inside angle brackets.
pub enum GenericArg {
    /// A type argument.
    Type(RustType),
    /// Any other argument (a lifetime, a constant, a binding, ...).
    Other,
}

/// The arguments that follow a path segment.
pub enum PathArgs {
    /// No arguments, as in `String`.
    Absent,
    /// Arguments in angle brackets, as in `Vec<u8>`.
    AngleBracketed(Vec<GenericArg>),
    /// Arguments in parentheses, as in `Fn(u8) -> u8`.
    Parenthesized,
}

/// One segment of a type path, such as `HashMap<K, V>` in
/// `std::collections::HashMap<K, V>`.
pub struct PathSegment {
    pub ident: String,
    pub arguments: PathArgs,
}

/// A type written as a path.
pub struct TypePath {
    /// The path starts with `::`.
    pub leading_colon: bool,
    pub segments: Vec<PathSegment>,
    /// The source tokens of the whole type, as the token printer renders
    /// them (for instance `std :: collections :: HashMap < K , V >`).
    pub tokens: String,
}

/// A Rust type, as far as the mapping reads it.
pub enum RustType {
    /// A path type such as `Option<String>`.
    Path(TypePath),
    /// A reference `&T` or `&mut T`, holding `T`.
    Reference(Box<RustType>),
    /// An array `[T; N]`: the element type, and the length when it is an
    /// integer literal that fits in `usize`.
    Array(Box<RustType>, Option<usize>),
    /// Any other type, with its source tokens.
    Other(String),
}

/// Why a type cannot be mapped.
#[derive(PartialEq, Eq, Structural, Clone, Copy, Debug)]
pub enum MapError {
    /// An `Option` whose last segment has no type argument first.
    OptionWithoutType,
    /// A `Vec` whose last segment has no type argument first.
    VecWithoutType,
    /// A `HashMap` whose last segment does not have exactly two type arguments.
    HashMapArguments,
    /// An array whose length is not an integer literal that fits in `usize`.
    ArrayLength,
}

/// The last segment of `p` is named `name`.
pub open spec fn last_ident_is(p: TypePath, name: Seq<char>) -> bool {
    p.segments@.len() > 0 && p.segments@.last().ident@ == name
}

/// The identifier that `p` consists of, when it is a single segment without
/// leading `::` or arguments.
pub open spec fn path_ident(p: TypePath) -> Option<Seq<char>> {
    if !p.leading_colon && p.segments@.len() == 1 && p.segments@[0].arguments is Absent {
        Some(p.segments@[0].ident@)
    } else {
        None
    }
}

/// `p` is exactly the identifier `name`.
pub open spec fn path_is_ident(p: TypePath, name: Seq<char>) -> bool {
    path_ident(p) == Some(name)
}

/// The first type argument of the last segment of `p`, when its first
/// angle-bracketed argument is a type.
pub open spec fn last_first_type(p: TypePath) -> Option<RustType> {
    if p.segments@.len() > 0 {
        match p.segments@.last().arguments {
            PathArgs::AngleBracketed(args) => if args@.len() > 0 {
                match args@[0] {
                    GenericArg::Type(t) => Some(t),
                    GenericArg::Other => None,
                }
            } else {
                None
            },
            _ => None,
        }
    } else {
        None
    }
}

/// The two type arguments of the last segment of `p`, when it has exactly
/// two angle-bracketed arguments and both are types.
pub open spec fn last_two_types(p: TypePath) -> Option<(RustType, RustType)> {
    if p.segments@.len() > 0 {
        match p.segments@.last().arguments {
            PathArgs::AngleBracketed(args) => if args@.len() == 2 {
                match (args@[0], args@[1]) {
                    (GenericArg::Type(k), GenericArg::Type(v)) => Some((k, v)),
                    _ => None,
                }
            } else {
                None
            },
            _ => None,
        }
    } else {
        None
    }
}

/// The names of Rust's number types.
pub open spec fn is_number_name(s: Seq<char>) -> bool {
    ||| s == "i8"@
    ||| s == "i16"@
    ||| s == "i32"@
    ||| s == "i64"@
    ||| s == "i128"@
    ||| s == "u8"@
    ||| s == "u16"@
    ||| s == "u32"@
    ||| s == "u64"@
    ||| s == "u128"@
    ||| s == "f32"@
    ||| s == "f64"@
    ||| s == "usize"@
    ||| s == "isize"@
}

/// `n` copies of `s`, separated by `", "`.
pub open spec fn repeat_list(s: Seq<char>, n: nat) -> Seq<char> {
    seq_join(Seq::new(n, |i: int| s), ", "@)
}


/// The first type argument of a path type is smaller than the type.
pub proof fn lemma_first_type_smaller(t: RustType)
    requires
        t is Path,
        last_first_type(t->Path_0) is Some,
    ensures
        decreases_to!(t => last_first_type(t->Path_0)->0),
{
    let p = t->Path_0;
    assert(decreases_to!(t => t->Path_0));
    assert(decreases_to!(p => p.segments));
    assert(decreases_to!(p.segments => p.segments@));
    let seg = p.segments@[p.segments@.len() - 1];
    assert(decreases_to!(p.segments@ => seg));
    assert(decreases_to!(seg => seg.arguments));
    let a = seg.arguments;
    assert(decreases_to!(a => a->AngleBracketed_0));
    let args = a->AngleBracketed_0;
    assert(decreases_to!(args => args@));
    assert(decreases_to!(args@ => args@[0]));
    let g = args@[0];
    assert(decreases_to!(g => g->Type_0));
}


/// Both type arguments of a two-argument path type are smaller than the type.
pub proof fn lemma_two_types_smaller(t: RustType)
    requires
        t is Path,
        last_two_types(t->Path_0) is Some,
    ensures
        decreases_to!(t => (last_two_types(t->Path_0)->0).0),
        decreases_to!(t => (last_two_types(t->Path_0)->0).1),
{
    let p = t->Path_0;
    assert(decreases_to!(t => t->Path_0));
    assert(decreases_to!(p => p.segments));
    assert(decreases_to!(p.segments => p.segments@));
    let seg = p.segments@[p.segments@.len() - 1];
    assert(decreases_to!(p.segments@ => seg));
    assert(decreases_to!(seg => seg.arguments));
    let a = seg.arguments;
    assert(decreases_to!(a => a->AngleBracketed_0));
    let args = a->AngleBracketed_0;
    assert(decreases_to!(args => args@));
    assert(decreases_to!(args@ => args@[0]));
    assert(decreases_to!(args@ => args@[1]));
    let g0 = args@[0];
    let g1 = args@[1];
    assert(decreases_to!(g0 => g0->Type_0));
    assert(decreases_to!(g1 => g1->Type_0));
}

/// The first reason, in the order in which the mapping meets them, why `t`
/// cannot be mapped; `None` when it can.
pub open spec fn map_error(t: RustType) -> Option<MapError>
    decreases t,
{
    match t {
        RustType::Path(p) => {
            if last_ident_is(p, "Option"@) {
                if last_first_type(p) is Some {
                    proof {
                        lemma_first_type_smaller(t);
                    }
                    map_error(last_first_type(p)->0)
                } else {
                    Some(MapError::OptionWithoutType)
                }
            } else if path_is_ident(p, "String"@) || (path_ident(p) is Some && is_number_name(
                path_ident(p)->0,
            )) || path_is_ident(p, "bool"@) {
                None
            } else if last_ident_is(p, "Vec"@) {
                if last_first_type(p) is Some {
                    proof {
                        lemma_first_type_smaller(t);
                    }
                    map_error(last_first_type(p)->0)
                } else {
                    Some(MapError::VecWithoutType)
                }
            } else if last_ident_is(p, "HashMap"@) {
                if last_two_types(p) is Some {
                    proof {
                        lemma_two_types_smaller(t);
                    }
                    let k = map_error((last_two_types(p)->0).0);
                    if k is Some {
                        k
                    } else {
                        map_error((last_two_types(p)->0).1)
                    }
                } else {
                    Some(MapError::HashMapArguments)
                }
            } else {
                None
            }
        },
        RustType::Reference(e) => {
            match *e {
                RustType::Path(q) => if path_is_ident(q, "str"@) {
                    None
                } else {
                    map_error(*e)
                },
                _ => map_error(*e),
            }
        },
        RustType::Array(e, n) => {
            let inner = map_error(*e);
            if inner is Some {
                inner
            } else if n is None {
                Some(MapError::ArrayLength)
            } else {
                None
            }
        },
        RustType::Other(_) => None,
    }
}

/// `t` can be mapped without failing.
pub open spec fn mappable(t: RustType) -> bool {
    map_error(t) is None
}

/// The TypeScript type that `t` maps to, and the names it needs imported, in
/// the order in which the mapping meets them. Meaningful when `t` is
/// [`mappable`].
pub open spec fn ts_map(t: RustType) -> (Seq<char>, Seq<Seq<char>>)
    decreases t,
{
    match t {
        RustType::Path(p) => {
            if last_ident_is(p, "Option"@) {
                if last_first_type(p) is Some {
                    proof {
                        lemma_first_type_smaller(t);
                    }
                    let r = ts_map(last_first_type(p)->0);
                    (r.0 + " | null"@, r.1)
                } else {
                    (Seq::empty(), Seq::empty())
                }
            } else if path_is_ident(p, "String"@) {
                ("string"@, Seq::empty())
            } else if path_ident(p) is Some && is_number_name(path_ident(p)->0) {
                ("number"@, Seq::empty())
            } else if path_is_ident(p, "bool"@) {
                ("boolean"@, Seq::empty())
            } else if last_ident_is(p, "Vec"@) {
                if last_first_type(p) is Some {
                    proof {
                        lemma_first_type_smaller(t);
                    }
                    let r = ts_map(last_first_type(p)->0);
                    ("("@ + r.0 + ")[]"@, r.1)
                } else {
                    (Seq::empty(), Seq::empty())
                }
            } else if last_ident_is(p, "HashMap"@) {
                if last_two_types(p) is Some {
                    proof {
                        lemma_two_types_smaller(t);
                    }
                    let k = ts_map((last_two_types(p)->0).0);
                    let v = ts_map((last_two_types(p)->0).1);
                    ("{ [key: "@ + k.0 + "]: "@ + v.0 + " }"@, k.1 + v.1)
                } else {
                    (Seq::empty(), Seq::empty())
                }
            } else {
                (p.tokens@, seq![p.tokens@])
            }
        },
        RustType::Reference(e) => {
            match *e {
                RustType::Path(q) => if path_is_ident(q, "str"@) {
                    ("string"@, Seq::empty())
                } else {
                    ts_map(*e)
                },
                _ => ts_map(*e),
            }
        },
        RustType::Array(e, n) => {
            let r = ts_map(*e);
            ("["@ + repeat_list(r.0, n.unwrap_or(0) as nat) + "]"@, r.1)
        },
        RustType::Other(s) => (s@, seq![s@]),
    }
}


/// `t` is made only of types that TypeScript has built in: strings, numbers
/// and booleans, and options, vectors, maps, references and arrays of them.
pub open spec fn builtin_only(t: RustType) -> bool
    decreases t,
{
    match t {
        RustType::Path(p) => {
            if last_ident_is(p, "Option"@) || last_ident_is(p, "Vec"@) {
                if last_first_type(p) is Some {
                    proof {
                        lemma_first_type_smaller(t);
                    }
                    builtin_only(last_first_type(p)->0)
                } else {
                    false
                }
            } else if path_is_ident(p, "String"@) || (path_ident(p) is Some && is_number_name(
                path_ident(p)->0,
            )) || path_is_ident(p, "bool"@) {
                true
            } else if last_ident_is(p, "HashMap"@) {
                if last_two_types(p) is Some {
                    proof {
                        lemma_two_types_smaller(t);
                    }
                    builtin_only((last_two_types(p)->0).0) && builtin_only((last_two_types(p)->0).1)
                } else {
                    false
                }
            } else {
                false
            }
        },
        RustType::Reference(e) => {
            match *e {
                RustType::Path(q) => path_is_ident(q, "str"@) || builtin_only(*e),
                _ => builtin_only(*e),
            }
        },
        RustType::Array(e, _) => builtin_only(*e),
        RustType::Other(_) => false,
    }
}

/// A type made only of built-in TypeScript types needs no import.
pub proof fn builtin_types_need_no_imports(t: RustType)
    requires
        builtin_only(t),
    ensures
        ts_map(t).1 == Seq::<Seq<char>>::empty(),
    decreases t,
{
    match t {
        RustType::Path(p) => {
            if last_first_type(p) is Some {
                lemma_first_type_smaller(t);
                if last_ident_is(p, "Option"@) || last_ident_is(p, "Vec"@) {
                    builtin_types_need_no_imports(last_first_type(p)->0);
                }
            }
            if last_two_types(p) is Some {
                lemma_two_types_smaller(t);
                if last_ident_is(p, "HashMap"@) && !last_ident_is(p, "Option"@) && !last_ident_is(
                    p,
                    "Vec"@,
                ) && !path_is_ident(p, "String"@) && !path_is_ident(p, "bool"@) && !(path_ident(
                    p,
                ) is Some && is_number_name(path_ident(p)->0)) {
                    builtin_types_need_no_imports((last_two_types(p)->0).0);
                    builtin_types_need_no_imports((last_two_types(p)->0).1);
                    assert(ts_map(t).1 =~= Seq::<Seq<char>>::empty());
                }
            }
        },
        RustType::Reference(e) => {
            match *e {
                RustType::Path(q) => if !path_is_ident(q, "str"@) {
                    builtin_types_need_no_imports(*e);
                },
                _ => builtin_types_need_no_imports(*e),
            }
        },
        RustType::Array(e, _) => {
            builtin_types_need_no_imports(*e);
        },
        RustType::Other(_) => {},
    }
}

/// The type names that the mapping recognizes are all different.
proof fn lemma_known_names_differ()
    ensures
        "String"@ != "Option"@,
        "bool"@ != "Option"@,
        "bool"@ != "String"@,
        "Vec"@ != "Option"@,
        "Vec"@ != "String"@,
        "Vec"@ != "bool"@,
        "HashMap"@ != "Option"@,
        "HashMap"@ != "String"@,
        "HashMap"@ != "bool"@,
        "HashMap"@ != "Vec"@,
        forall|s: Seq<char>|
            #![trigger is_number_name(s)]
            is_number_name(s) ==> s != "Option"@ && s != "String"@ && s != "bool"@ && s != "Vec"@
                && s != "HashMap"@,
{
    reveal_strlit("Option");
    reveal_strlit("String");
    reveal_strlit("bool");
    reveal_strlit("Vec");
    reveal_strlit("HashMap");
    reveal_strlit("i8");
    reveal_strlit("i16");
    reveal_strlit("i32");
    reveal_strlit("i64");
    reveal_strlit("i128");
    reveal_strlit("u8");
    reveal_strlit("u16");
    reveal_strlit("u32");
    reveal_strlit("u64");
    reveal_strlit("u128");
    reveal_strlit("f32");
    reveal_strlit("f64");
    reveal_strlit("usize");
    reveal_strlit("isize");
    assert("String"@[0] != "Option"@[0]);
    assert("bool"@[0] != "i128"@[0]);
    assert("bool"@[0] != "u128"@[0]);
    assert("Vec"@[0] != "i16"@[0]);
    assert("Vec"@[0] != "i32"@[0]);
    assert("Vec"@[0] != "i64"@[0]);
    assert("Vec"@[0] != "u16"@[0]);
    assert("Vec"@[0] != "u32"@[0]);
    assert("Vec"@[0] != "u64"@[0]);
    assert("Vec"@[0] != "f32"@[0]);
    assert("Vec"@[0] != "f64"@[0]);
    assert forall|s: Seq<char>| #[trigger] is_number_name(s) implies s != "Option"@ && s != "String"@
        && s != "bool"@ && s != "Vec"@ && s != "HashMap"@ by {
        assert("Option"@.len() == 6 && "String"@.len() == 6 && "HashMap"@.len() == 7);
        assert("bool"@.len() == 4 && "Vec"@.len() == 3);
        if s == "i128"@ || s == "u128"@ {
            assert(s[0] != "bool"@[0]);
        } else if s == "i16"@ || s == "i32"@ || s == "i64"@ || s == "u16"@ || s == "u32"@
            || s == "u64"@ || s == "f32"@ || s == "f64"@ {
            assert(s[0] != "Vec"@[0]);
        } else {
            assert(s.len() == 2 || s.len() == 5);
        }
    }
}

/// `Option<T>` maps to the mapping of `T` followed by ` | null`, with the
/// imports of `T`: the mapping of an option always ends in ` | null`.
pub proof fn option_maps_to_nullable(p: TypePath, inner: RustType)
    requires
        last_ident_is(p, "Option"@),
        last_first_type(p) == Some(inner),
    ensures
        ts_map(RustType::Path(p)).0 == ts_map(inner).0 + " | null"@,
        ts_map(RustType::Path(p)).1 == ts_map(inner).1,
        ts_map(RustType::Path(p)).0.len() >= 7,
        ts_map(RustType::Path(p)).0.skip(ts_map(RustType::Path(p)).0.len() - 7) == " | null"@,
{
    reveal_strlit(" | null");
    let t = ts_map(inner).0;
    assert((t + " | null"@).skip(t.len() as int) =~= " | null"@);
}

/// The plain identifier `String` maps to `string`, with no import.
pub proof fn string_maps_to_string(p: TypePath)
    requires
        path_is_ident(p, "String"@),
    ensures
        ts_map(RustType::Path(p)) == ("string"@, Seq::<Seq<char>>::empty()),
{
    lemma_known_names_differ();
}

/// A reference to `str` maps to `string`; a reference to any other type
/// maps as that type does.
pub proof fn references_map_as_their_target(target: RustType)
    ensures
        (target matches RustType::Path(q) && path_is_ident(q, "str"@)) ==> ts_map(
            RustType::Reference(Box::new(target)),
        ) == ("string"@, Seq::<Seq<char>>::empty()),
        !(target matches RustType::Path(q) && path_is_ident(q, "str"@)) ==> ts_map(
            RustType::Reference(Box::new(target)),
        ) == ts_map(target),
{
}

/// Each of Rust's number types, written as a plain identifier, maps to
/// `number`, with no import.
pub proof fn numbers_map_to_number(p: TypePath)
    requires
        path_ident(p) matches Some(id) && is_number_name(id),
    ensures
        ts_map(RustType::Path(p)) == ("number"@, Seq::<Seq<char>>::empty()),
{
    lemma_known_names_differ();
    let id = path_ident(p)->0;
    assert(is_number_name(id));
    assert(p.segments@.last() == p.segments@[0]);
}

/// The plain identifier `bool` maps to `boolean`, with no import.
pub proof fn bool_maps_to_boolean(p: TypePath)
    requires
        path_is_ident(p, "bool"@),
    ensures
        ts_map(RustType::Path(p)) == ("boolean"@, Seq::<Seq<char>>::empty()),
{
    lemma_known_names_differ();
    assert(p.segments@.last() == p.segments@[0]);
    if is_number_name("bool"@) {
    }
}

/// `Vec<T>` maps to `(T)[]`, with the imports of `T`.
pub proof fn vecs_map_to_arrays(p: TypePath, inner: RustType)
    requires
        last_ident_is(p, "Vec"@),
        last_first_type(p) == Some(inner),
    ensures
        ts_map(RustType::Path(p)) == ("("@ + ts_map(inner).0 + ")[]"@, ts_map(inner).1),
{
    lemma_known_names_differ();
    if path_ident(p) is Some {
        assert(p.segments@.last() == p.segments@[0]);
        assert(path_ident(p)->0 == "Vec"@);
        if is_number_name("Vec"@) {
        }
    }
}

/// `HashMap<K, V>` maps to `{ [key: K]: V }`, with the imports of `K` and
/// then those of `V`.
pub proof fn hashmaps_map_to_index_signatures(p: TypePath, key: RustType, value: RustType)
    requires
        last_ident_is(p, "HashMap"@),
        last_two_types(p) == Some((key, value)),
    ensures
        ts_map(RustType::Path(p)) == (
            "{ [key: "@ + ts_map(key).0 + "]: "@ + ts_map(value).0 + " }"@,
            ts_map(key).1 + ts_map(value).1,
        ),
{
    lemma_known_names_differ();
    if path_ident(p) is Some {
        assert(p.segments@.last() == p.segments@[0]);
        assert(path_ident(p)->0 == "HashMap"@);
        if is_number_name("HashMap"@) {
        }
    }
}

/// `[T; N]` maps to a tuple of `N` times the mapping of `T`, separated by
/// `", "`, with the imports of `T` once.
pub proof fn arrays_map_to_tuples(elem: RustType, n: usize)
    ensures
        ts_map(RustType::Array(Box::new(elem), Some(n))) == (
            "["@ + seq_join(Seq::new(n as nat, |i: int| ts_map(elem).0), ", "@) + "]"@,
            ts_map(elem).1,
        ),
{
}

/// A path type that the mapping does not recognize is written as its
/// tokens and imported by them.
pub proof fn other_paths_are_imported(p: TypePath)
    requires
        !last_ident_is(p, "Option"@),
        !last_ident_is(p, "Vec"@),
        !last_ident_is(p, "HashMap"@),
        !path_is_ident(p, "String"@),
        !path_is_ident(p, "bool"@),
        !(path_ident(p) matches Some(id) && is_number_name(id)),
    ensures
        ts_map(RustType::Path(p)) == (p.tokens@, seq![p.tokens@]),
{
}

/// Any other type is written as its tokens and imported by them.
pub proof fn other_types_are_imported(tokens: String)
    ensures
        ts_map(RustType::Other(tokens)) == (tokens@, seq![tokens@]),
{
}

fn last_ident_matches(type_path: &TypePath, name: &str) -> (r: bool)
    ensures
        r == last_ident_is(*type_path, name@),
{
    let n = type_path.segments.len();
    if n == 0 {
        false
    } else {
        eq_str(type_path.segments[n - 1].ident.as_str(), name)
    }
}

/// Whether the last segment of `type_path` is `Option`.
pub fn is_option(type_path: &TypePath) -> (r: bool)
    ensures
        r == last_ident_is(*type_path, "Option"@),
{
    last_ident_matches(type_path, "Option")
}

/// Whether the last segment of `type_path` is `Vec`.
pub fn is_vec(type_path: &TypePath) -> (r: bool)
    ensures
        r == last_ident_is(*type_path, "Vec"@),
{
    last_ident_matches(type_path, "Vec")
}

/// Whether the last segment of `type_path` is `HashMap`.
pub fn is_hashmap(type_path: &TypePath) -> (r: bool)
    ensures
        r == last_ident_is(*type_path, "HashMap"@),
{
    last_ident_matches(type_path, "HashMap")
}

/// The identifier that `type_path` consists of, if it is a single plain
/// identifier.
pub fn get_ident(type_path: &TypePath) -> (r: Option<&String>)
    ensures
        match r {
            Some(x) => path_ident(*type_path) == Some(x@),
            None => path_ident(*type_path) is None,
        },
{
    if !type_path.leading_colon && type_path.segments.len() == 1 {
        match &type_path.segments[0].arguments {
            PathArgs::Absent => Some(&type_path.segments[0].ident),
            _ => None,
        }
    } else {
        None
    }
}

/// Whether `type_path` is exactly the identifier `name`.
pub fn is_ident(type_path: &TypePath, name: &str) -> (r: bool)
    ensures
        r == path_is_ident(*type_path, name@),
{
    match get_ident(type_path) {
        Some(id) => eq_str(id.as_str(), name),
        None => false,
    }
}

/// Whether `s` names one of Rust's number types.
pub fn is_number_name_str(s: &str) -> (r: bool)
    ensures
        r == is_number_name(s@),
{
    eq_str(s, "i8") || eq_str(s, "i16") || eq_str(s, "i32") || eq_str(s, "i64") || eq_str(s, "i128")
        || eq_str(s, "u8") || eq_str(s, "u16") || eq_str(s, "u32") || eq_str(s, "u64") || eq_str(
        s,
        "u128",
    ) || eq_str(s, "f32") || eq_str(s, "f64") || eq_str(s, "usize") || eq_str(s, "isize")
}

/// The first type argument of the last segment of `type_path`, if the first
/// angle-bracketed argument there is a type.
pub fn read_last_seg(type_path: &TypePath) -> (r: Option<&RustType>)
    requires
        type_path.segments@.len() > 0,
    ensures
        match r {
            Some(x) => last_first_type(*type_path) == Some(*x),
            None => last_first_type(*type_path) is None,
        },
{
    let n = type_path.segments.len();
    match &type_path.segments[n - 1].arguments {
        PathArgs::AngleBracketed(args) => {
            if args.len() > 0 {
                match &args[0] {
                    GenericArg::Type(t) => Some(t),
                    GenericArg::Other => None,
                }
            } else {
                None
            }
        },
        _ => None,
    }
}

/// The type inside an `Option`.
pub fn unwrap_option(type_path: &TypePath) -> (r: &RustType)
    requires
        last_first_type(*type_path) is Some,
    ensures
        last_first_type(*type_path) == Some(*r),
{
    match read_last_seg(type_path) {
        Some(t) => t,
        None => { proof { assert(false); } unreached() },
    }
}

/// The key and value types of a `HashMap`.
pub fn unwrap_hashmap(type_path: &TypePath) -> (r: (&RustType, &RustType))
    requires
        last_two_types(*type_path) is Some,
    ensures
        last_two_types(*type_path) == Some((*r.0, *r.1)),
{
    let n = type_path.segments.len();
    match &type_path.segments[n - 1].arguments {
        PathArgs::AngleBracketed(args) => {
            match (&args[0], &args[1]) {
                (GenericArg::Type(k), GenericArg::Type(v)) => (k, v),
                _ => { proof { assert(false); } unreached() },
            }
        },
        _ => { proof { assert(false); } unreached() },
    }
}


/// `n` copies of `s`, separated by `", "`.
fn repeat_joined(s: &String, n: usize) -> (r: String)
    ensures
        r@ == repeat_list(s@, n as nat),
{
    let mut copies: Vec<String> = Vec::new();
    let mut i: usize = 0;
    while i < n
        invariant
            i <= n,
            copies.deep_view() =~= Seq::new(i as nat, |k: int| s@),
        decreases n - i,
    {
        let ghost before = copies.deep_view();
        let c = s.clone();
        copies.push(c);
        assert(copies.deep_view() =~= before.push(s@));
        i = i + 1;
    }
    crate::text::join(&copies, ", ")
}

/// The elements of an array type `[elem; len]`: the mapping of `elem`
/// repeated `len` times, separated by `", "`. The element is mapped once,
/// so its imports are recorded once.
pub fn unwrapped_fixed_array(elem: &RustType, len: Option<usize>, imports: &mut Vec<String>) -> (r:
    String)
    requires
        mappable(*elem),
        len is Some,
    ensures
        r@ == repeat_list(ts_map(*elem).0, len->0 as nat),
        final(imports).deep_view() == old(imports).deep_view() + ts_map(*elem).1,
    decreases *elem, 1nat,
{
    let item = ts_rs_map(elem, imports);
    match len {
        Some(n) => repeat_joined(&item, n),
        None => { proof { assert(false); } unreached() },
    }
}

/// Maps a Rust type onto the TypeScript type that stands for it, and
/// appends to `imports` the names of the types it refers to that have to be
/// imported.
///
/// `Option<T>` becomes `T | null`, `String` and `&str` become `string`, the
/// number types `number`, `bool` `boolean`, `Vec<T>` `(T)[]`, `[T; N]` a tuple
/// of `N` times `T`, `HashMap<K, V>` `{ [key: K]: V }`, and any other type is
/// written as its source tokens and recorded as an import.
pub fn ts_rs_map(token: &RustType, imports: &mut Vec<String>) -> (r: String)
    requires
        mappable(*token),
    ensures
        r@ == ts_map(*token).0,
        final(imports).deep_view() == old(imports).deep_view() + ts_map(*token).1,
    decreases *token, 0nat,
{
    match token {
        RustType::Path(type_path) => {
            if is_option(type_path) {
                proof {
                    lemma_first_type_smaller(*token);
                }
                let inner = unwrap_option(type_path);
                let mut r = ts_rs_map(inner, imports);
                r.append(" | null");
                r
            } else if is_ident(type_path, "String") {
                proof {
                    assert(old(imports).deep_view() + Seq::empty() =~= old(imports).deep_view());
                }
                "string".to_owned()
            } else if match get_ident(type_path) {
                Some(id) => is_number_name_str(id.as_str()),
                None => false,
            } {
                proof {
                    assert(old(imports).deep_view() + Seq::empty() =~= old(imports).deep_view());
                }
                "number".to_owned()
            } else if is_ident(type_path, "bool") {
                proof {
                    assert(old(imports).deep_view() + Seq::empty() =~= old(imports).deep_view());
                }
                "boolean".to_owned()
            } else if is_vec(type_path) {
                proof {
                    lemma_first_type_smaller(*token);
                }
                let inner = match read_last_seg(type_path) {
                    Some(t) => t,
                    None => { proof { assert(false); } unreached() },
                };
                let m = ts_rs_map(inner, imports);
                let mut r = "(".to_owned();
                r.append(m.as_str());
                r.append(")[]");
                r
            } else if is_hashmap(type_path) {
                proof {
                    lemma_two_types_smaller(*token);
                }
                let (key, value) = unwrap_hashmap(type_path);
                let ghost before = imports.deep_view();
                let k = ts_rs_map(key, imports);
                let v = ts_rs_map(value, imports);
                let mut r = "{ [key: ".to_owned();
                r.append(k.as_str());
                r.append("]: ");
                r.append(v.as_str());
                r.append(" }");
                proof {
                    assert(imports.deep_view() =~= old(imports).deep_view() + ts_map(*token).1);
                }
                r
            } else {
                let value = type_path.tokens.clone();
                imports.push(value.clone());
                proof {
                    assert(imports.deep_view() =~= old(imports).deep_view() + ts_map(*token).1);
                }
                value
            }
        },
        RustType::Reference(elem) => {
            let ty: &RustType = elem;
            match ty {
                RustType::Path(type_path) => {
                    if is_ident(type_path, "str") {
                        proof {
                            assert(old(imports).deep_view() + Seq::empty()
                                =~= old(imports).deep_view());
                        }
                        "string".to_owned()
                    } else {
                        ts_rs_map(ty, imports)
                    }
                },
                _ => ts_rs_map(ty, imports),
            }
        },
        RustType::Array(elem, len) => {
            let inner = unwrapped_fixed_array(elem, *len, imports);
            let mut r = "[".to_owned();
            r.append(inner.as_str());
            r.append("]");
            r
        },
        RustType::Other(tokens) => {
            let value = tokens.clone();
            imports.push(value.clone());
            proof {
                assert(imports.deep_view() =~= old(imports).deep_view() + ts_map(*token).1);
            }
            value
        },
    }
}

/// The first reason why `t` cannot be mapped, in the order in which
/// [`ts_rs_map`] would meet it; `None` when it can be mapped.
pub fn type_map_error(t: &RustType) -> (r: Option<MapError>)
    ensures
        r == map_error(*t),
    decreases *t,
{
    match t {
        RustType::Path(type_path) => {
            if is_option(type_path) {
                match read_last_seg(type_path) {
                    Some(inner) => {
                        proof {
                            lemma_first_type_smaller(*t);
                        }
                        type_map_error(inner)
                    },
                    None => Some(MapError::OptionWithoutType),
                }
            } else if is_ident(type_path, "String") || match get_ident(type_path) {
                Some(id) => is_number_name_str(id.as_str()),
                None => false,
            } || is_ident(type_path, "bool") {
                None
            } else if is_vec(type_path) {
                match read_last_seg(type_path) {
                    Some(inner) => {
                        proof {
                            lemma_first_type_smaller(*t);
                        }
                        type_map_error(inner)
                    },
                    None => Some(MapError::VecWithoutType),
                }
            } else if is_hashmap(type_path) {
                if has_two_types(type_path) {
                    proof {
                        lemma_two_types_smaller(*t);
                    }
                    let (key, value) = unwrap_hashmap(type_path);
                    let k = type_map_error(key);
                    if k.is_some() {
                        k
                    } else {
                        type_map_error(value)
                    }
                } else {
                    Some(MapError::HashMapArguments)
                }
            } else {
                None
            }
        },
        RustType::Reference(elem) => {
            let ty: &RustType = elem;
            match ty {
                RustType::Path(type_path) => {
                    if is_ident(type_path, "str") {
                        None
                    } else {
                        type_map_error(ty)
                    }
                },
                _ => type_map_error(ty),
            }
        },
        RustType::Array(elem, len) => {
            let inner = type_map_error(elem);
            if inner.is_some() {
                inner
            } else if len.is_none() {
                Some(MapError::ArrayLength)
            } else {
                None
            }
        },
        RustType::Other(_) => None,
    }
}

fn has_two_types(type_path: &TypePath) -> (r: bool)
    ensures
        r == (last_two_types(*type_path) is Some),
{
    let n = type_path.segments.len();
    if n == 0 {
        return false;
    }
    match &type_path.segments[n - 1].arguments {
        PathArgs::AngleBracketed(args) => {
            if args.len() == 2 {
                match (&args[0], &args[1]) {
                    (GenericArg::Type(_), GenericArg::Type(_)) => true,
                    _ => false,
                }
            } else {
                false
            }
        },
        _ => false,
    }
}

} // verus!
