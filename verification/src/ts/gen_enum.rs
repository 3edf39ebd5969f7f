//! TypeScript constants (and optionally union types) for enums.

use vstd::prelude::*;
use crate::config::Config;
use crate::derive_attrs::{DeriveAttrs, DeriveAttrsView};
use crate::parsers::ParsedVariant;
use crate::text::{decimal, decimal_seq};
use crate::ts::FILE_DISCLAIMER;
use crate::ts::ts_map::{MapError, map_error, mappable, ts_map, ts_rs_map, type_map_error};
use crate::rename_all::case_text;
use crate::ts::utils::{applied_name, apply_name_attr, gen_imports, imports_text};

verus! {

/// The value that stands for the variant at position `index`: its explicit
/// discriminant if it has one, else its position.
pub open spec fn discriminant_text(discriminant: Option<String>, index: nat) -> Seq<char> {
    match discriminant {
        Some(t) => t@,
        None => decimal_seq(index),
    }
}

/// The constant's entries for the variants that are not skipped.
pub open spec fn variant_lines(
    data: Seq<ParsedVariant>,
    derive_attrs: DeriveAttrsView,
    config: Config,
) -> Seq<char>
    decreases data.len(),
{
    if data.len() == 0 {
        Seq::empty()
    } else {
        let v = data.last();
        variant_lines(data.drop_last(), derive_attrs, config) + if v.attrs.skip {
            Seq::empty()
        } else {
            "  "@ + applied_name(v.ident@, derive_attrs, config, v.attrs) + ": "@
                + discriminant_text(v.discriminant, (data.len() - 1) as nat) + ",\n"@
        }
    }
}

/// Some variant has an unnamed field.
pub open spec fn has_typed_variant(data: Seq<ParsedVariant>) -> bool {
    exists|i: int| 0 <= i < data.len() && (#[trigger] data[i]).field is Some
}

/// The members of the union type, one per variant (skipped ones included),
/// and the names their data types need imported.
pub open spec fn union_members(data: Seq<ParsedVariant>) -> (Seq<char>, Seq<Seq<char>>)
    decreases data.len(),
{
    if data.len() == 0 {
        (Seq::empty(), Seq::empty())
    } else {
        let r = union_members(data.drop_last());
        let v = data.last();
        let m: (Seq<char>, Seq<Seq<char>>) = match v.field {
            Some(t) => ts_map(t),
            None => ("any"@, Seq::empty()),
        };
        (
            r.0 + "\n| { type: "@ + discriminant_text(v.discriminant, (data.len() - 1) as nat)
                + ", data: "@ + m.0 + " }"@,
            r.1 + m.1,
        )
    }
}

/// The import statements and the type export of an enum named `name`.
pub open spec fn type_export(name: Seq<char>, data: Seq<ParsedVariant>) -> (Seq<char>, Seq<char>) {
    if !has_typed_variant(data) {
        (
            Seq::empty(),
            "\nexport type "@ + name + " = typeof "@ + name + "[keyof typeof "@ + name + "];"@,
        )
    } else {
        let m = union_members(data);
        (imports_text(m.1, name), "\nexport type "@ + name + " = "@ + m.0)
    }
}

/// Whether the enum also gets a type export: its own option if set, else
/// the project's, else not.
pub open spec fn type_export_enabled(derive_attrs: DeriveAttrsView, config: Config) -> bool {
    match derive_attrs.enum_type_export {
        Some(b) => b,
        None => match config.enum_type_export {
            Some(b) => b,
            None => false,
        },
    }
}

/// Every unnamed field type among the variants can be mapped.
pub open spec fn variants_mappable(data: Seq<ParsedVariant>) -> bool {
    forall|i: int| 0 <= i < data.len() && (#[trigger] data[i]).field is Some ==> mappable(
        data[i].field->0,
    )
}

/// The first reason, in variant order, why the type of a variant's field
/// cannot be mapped.
pub open spec fn variants_error(data: Seq<ParsedVariant>) -> Option<MapError>
    decreases data.len(),
{
    if data.len() == 0 {
        None
    } else if variants_error(data.drop_last()) is Some {
        variants_error(data.drop_last())
    } else {
        match data.last().field {
            Some(t) => map_error(t),
            None => None,
        }
    }
}

/// The variants' field types can all be mapped exactly when no variant
/// error is found.
pub proof fn lemma_variants_error(data: Seq<ParsedVariant>)
    ensures
        (variants_error(data) is None) == variants_mappable(data),
    decreases data.len(),
{
    if data.len() > 0 {
        let init = data.drop_last();
        lemma_variants_error(init);
        if variants_mappable(data) {
            assert forall|i: int| 0 <= i < init.len() && (#[trigger] init[i]).field is Some implies mappable(
                init[i].field->0,
            ) by {
                assert(data[i] == init[i]);
            }
            assert(data[data.len() - 1] == data.last());
        }
        if variants_error(data) is None {
            assert forall|i: int| 0 <= i < data.len() && (#[trigger] data[i]).field is Some implies mappable(
                data[i].field->0,
            ) by {
                if i < init.len() {
                    assert(data[i] == init[i]);
                }
            }
        }
    }
}

proof fn lemma_variants_error_prefix(data: Seq<ParsedVariant>, n: int)
    requires
        0 <= n <= data.len(),
        variants_error(data.take(n)) is Some,
    ensures
        variants_error(data) == variants_error(data.take(n)),
    decreases data.len() - n,
{
    if n < data.len() {
        assert(data.take(n + 1).drop_last() =~= data.take(n));
        lemma_variants_error_prefix(data, n + 1);
    } else {
        assert(data.take(n) =~= data);
    }
}

/// The first reason, in variant order, why the type of a variant's field
/// cannot be mapped; `None` when a type export can map them all.
pub fn variants_map_error(data: &Vec<ParsedVariant>) -> (r: Option<MapError>)
    ensures
        r == variants_error(data@),
{
    let mut i: usize = 0;
    while i < data.len()
        invariant
            i <= data.len(),
            variants_error(data@.take(i as int)) is None,
        decreases data.len() - i,
    {
        assert(data@.take(i + 1).drop_last() =~= data@.take(i as int));
        match &data[i].field {
            Some(t) => {
                let e = type_map_error(t);
                if e.is_some() {
                    proof {
                        lemma_variants_error_prefix(data@, i + 1);
                    }
                    return e;
                }
            },
            None => {},
        }
        i = i + 1;
    }
    assert(data@.take(data.len() as int) =~= data@);
    None
}

/// The binding file of an enum: the disclaimer, then a constant object that
/// maps each variant that is not skipped to its value, and, when enabled,
/// a type export preceded by the imports it needs.
pub open spec fn enum_binding(
    derive_attrs: DeriveAttrsView,
    config: Config,
    data: Seq<ParsedVariant>,
) -> Seq<char> {
    let output = "\nexport const "@ + derive_attrs.name + " = {\n"@ + variant_lines(
        data,
        derive_attrs,
        config,
    ) + "};\n"@;
    let output = if type_export_enabled(derive_attrs, config) {
        let e = type_export(derive_attrs.name, data);
        (if e.0.len() > 0 {
            e.0 + output
        } else {
            output
        }) + e.1
    } else {
        output
    };
    FILE_DISCLAIMER@ + "\n"@ + output
}

/// The value that stands for the variant at position `index`.
pub fn map_discriminant(discriminant: &Option<String>, index: usize) -> (r: String)
    ensures
        r@ == discriminant_text(*discriminant, index as nat),
{
    match discriminant {
        Some(t) => t.clone(),
        None => decimal(index),
    }
}

/// The import statements and the type export of an enum with the given
/// variants: `typeof` of the constant when no variant carries data, else a
/// union of `{ type, data }` objects, one per variant.
pub fn generate_type_export(derive_attrs: &DeriveAttrs, data: Vec<ParsedVariant>) -> (r: (
    String,
    String,
))
    requires
        variants_mappable(data@),
    ensures
        (r.0@, r.1@) == type_export(derive_attrs@.name, data@),
{
    let name = derive_attrs.get_name();
    let mut any_field = false;
    let mut i: usize = 0;
    while i < data.len()
        invariant
            i <= data.len(),
            any_field == exists|k: int| 0 <= k < i && (#[trigger] data@[k]).field is Some,
        decreases data.len() - i,
    {
        if data[i].field.is_some() {
            any_field = true;
        }
        i = i + 1;
    }
    if !any_field {
        let mut out = "\nexport type ".to_owned();
        out.append(name.as_str());
        out.append(" = typeof ");
        out.append(name.as_str());
        out.append("[keyof typeof ");
        out.append(name.as_str());
        out.append("];");
        return (String::new(), out);
    }
    let mut imports: Vec<String> = Vec::new();
    let mut members = String::new();
    let mut i: usize = 0;
    while i < data.len()
        invariant
            i <= data.len(),
            variants_mappable(data@),
            (members@, imports.deep_view()) == union_members(data@.take(i as int)),
        decreases data.len() - i,
    {
        assert(data@.take(i + 1).drop_last() =~= data@.take(i as int));
        let v = &data[i];
        members.append("\n| { type: ");
        let d = map_discriminant(&v.discriminant, i);
        members.append(d.as_str());
        members.append(", data: ");
        match &v.field {
            Some(t) => {
                let m = ts_rs_map(t, &mut imports);
                members.append(m.as_str());
            },
            None => {
                members.append("any");
                assert(imports.deep_view() =~= imports.deep_view() + Seq::<Seq<char>>::empty());
            },
        }
        members.append(" }");
        i = i + 1;
    }
    assert(data@.take(data.len() as int) =~= data@);
    let mut out = "\nexport type ".to_owned();
    out.append(name.as_str());
    out.append(" = ");
    out.append(members.as_str());
    (gen_imports(imports, name), out)
}

/// The binding file of an enum with the given variants.
pub fn gen_enum(derive_attrs: &DeriveAttrs, config: &Config, data: Vec<ParsedVariant>) -> (r:
    String)
    requires
        type_export_enabled(derive_attrs@, *config) ==> variants_mappable(data@),
    ensures
        r@ == enum_binding(derive_attrs@, *config, data@),
{
    let mut output = "\nexport const ".to_owned();
    output.append(derive_attrs.get_name().as_str());
    output.append(" = {\n");
    let ghost head = output@;
    let mut lines = String::new();
    let mut i: usize = 0;
    while i < data.len()
        invariant
            i <= data.len(),
            lines@ == variant_lines(data@.take(i as int), derive_attrs@, *config),
        decreases data.len() - i,
    {
        assert(data@.take(i + 1).drop_last() =~= data@.take(i as int));
        let v = &data[i];
        if !v.attrs.skip {
            lines.append("  ");
            let n = apply_name_attr(v.ident.clone(), derive_attrs, config, &v.attrs);
            lines.append(n.as_str());
            lines.append(": ");
            let d = map_discriminant(&v.discriminant, i);
            lines.append(d.as_str());
            lines.append(",\n");
        }
        i = i + 1;
    }
    assert(data@.take(data.len() as int) =~= data@);
    output.append(lines.as_str());
    output.append("};\n");
    let enabled = match derive_attrs.get_enum_type_export() {
        Some(b) => *b,
        None => match config.enum_type_export {
            Some(b) => b,
            None => false,
        },
    };
    if enabled {
        let (imports, type_export) = generate_type_export(derive_attrs, data);
        if !imports.as_str().is_empty() {
            let mut t = imports;
            t.append(output.as_str());
            output = t;
        }
        output.append(type_export.as_str());
    }
    let mut out = FILE_DISCLAIMER.to_owned();
    out.append("\n");
    out.append(output.as_str());
    out
}


/// Appending a variant to an enum appends its entry in the constant object
/// when the variant is not skipped, and nothing when it is. The entry is two
/// spaces, the key the variant is exported under (its own rename, else the
/// enum's own convention, else the project's default convention, else its
/// name), `": "`, its value (its explicit discriminant, else its position
/// among all variants in decimal) and `",\n"`.
pub proof fn enum_entry_lines(
    data: Seq<ParsedVariant>,
    v: ParsedVariant,
    derive_attrs: DeriveAttrsView,
    config: Config,
)
    ensures
        v.attrs.skip ==> variant_lines(data.push(v), derive_attrs, config) == variant_lines(
            data,
            derive_attrs,
            config,
        ),
        !v.attrs.skip ==> variant_lines(data.push(v), derive_attrs, config) == variant_lines(
            data,
            derive_attrs,
            config,
        ) + "  "@ + match v.attrs.rename {
            Some(r) => r@,
            None => match derive_attrs.rename_all {
                Some(c) => case_text(c, v.ident@),
                None => match config.default_case {
                    Some(c) => case_text(c, v.ident@),
                    None => v.ident@,
                },
            },
        } + ": "@ + match v.discriminant {
            Some(d) => d@,
            None => decimal_seq(data.len()),
        } + ",\n"@,
{
    assert(data.push(v).drop_last() =~= data);
}

/// Appending a variant adds one member to the union type: its value and the
/// TypeScript type of its field (`any` when it has none); skipped variants
/// are members too.
pub proof fn union_member_lines(data: Seq<ParsedVariant>, v: ParsedVariant)
    ensures
        union_members(data.push(v)).0 == union_members(data).0 + "\n| { type: "@ + match v.discriminant {
            Some(d) => d@,
            None => decimal_seq(data.len()),
        } + ", data: "@ + match v.field {
            Some(t) => ts_map(t).0,
            None => "any"@,
        } + " }"@,
        union_members(data.push(v)).1 == union_members(data).1 + match v.field {
            Some(t) => ts_map(t).1,
            None => Seq::<Seq<char>>::empty(),
        },
{
    assert(data.push(v).drop_last() =~= data);
}

/// An enum's file starts with the disclaimer line. Without a type export it
/// is exactly the disclaimer line and the constant object; with one, the
/// object is followed by the type export, and preceded by the imports that
/// the export needs.
pub proof fn enum_file_shape(derive_attrs: DeriveAttrsView, config: Config, data: Seq<ParsedVariant>)
    ensures
        ({
            let object = "\nexport const "@ + derive_attrs.name + " = {\n"@ + variant_lines(
                data,
                derive_attrs,
                config,
            ) + "};\n"@;
            let head = FILE_DISCLAIMER@ + "\n"@;
            let text = enum_binding(derive_attrs, config, data);
            let e = type_export(derive_attrs.name, data);
            &&& !type_export_enabled(derive_attrs, config) ==> text == head + object
            &&& type_export_enabled(derive_attrs, config) ==> text == head + e.0 + object + e.1
        }),
{
    let object = "\nexport const "@ + derive_attrs.name + " = {\n"@ + variant_lines(
        data,
        derive_attrs,
        config,
    ) + "};\n"@;
    let e = type_export(derive_attrs.name, data);
    if e.0.len() == 0 {
        assert(e.0 + object =~= object);
    }
    assert(FILE_DISCLAIMER@ + "\n"@ + (e.0 + object + e.1) =~= FILE_DISCLAIMER@ + "\n"@ + e.0
        + object + e.1);
}

/// The type export names the enum itself: `typeof` of the constant object
/// when no variant carries data, else the union of its members.
pub proof fn type_export_shape(name: Seq<char>, data: Seq<ParsedVariant>)
    ensures
        !has_typed_variant(data) ==> type_export(name, data) == (
            Seq::<char>::empty(),
            "\nexport type "@ + name + " = typeof "@ + name + "[keyof typeof "@ + name + "];"@,
        ),
        has_typed_variant(data) ==> type_export(name, data).1 == "\nexport type "@ + name + " = "@
            + union_members(data).0,
{
}

} // verus!
