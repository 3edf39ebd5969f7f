//! TypeScript interfaces for structs.

use vstd::prelude::*;
use crate::config::Config;
use crate::derive_attrs::{DeriveAttrs, DeriveAttrsView};
use crate::parsers::ParsedField;
use crate::text::{contains_seq, str_contains};
use crate::ts::FILE_DISCLAIMER;
use crate::ts::ts_map::{MapError, map_error, mappable, ts_map, ts_rs_map, type_map_error};
use crate::rename_all::case_text;
use crate::ts::utils::{applied_name, apply_name_attr, gen_imports, imports_text};

verus! {

/// The interface line of the field `f`.
pub open spec fn field_line(f: ParsedField, derive_attrs: DeriveAttrsView, config: Config) -> Seq<
    char,
> {
    "   "@ + applied_name(f.ident@, derive_attrs, config, f.attrs) + ": "@ + ts_map(f.ty).0 + ";\n"@
}

/// The interface lines of the fields that are not skipped, and the names
/// their types need imported.
pub open spec fn struct_fields(
    fields: Seq<ParsedField>,
    derive_attrs: DeriveAttrsView,
    config: Config,
) -> (Seq<char>, Seq<Seq<char>>)
    decreases fields.len(),
{
    if fields.len() == 0 {
        (Seq::empty(), Seq::empty())
    } else {
        let r = struct_fields(fields.drop_last(), derive_attrs, config);
        let f = fields.last();
        if f.attrs.skip {
            r
        } else {
            (r.0 + field_line(f, derive_attrs, config), r.1 + ts_map(f.ty).1)
        }
    }
}

/// Every field that is not skipped has a type that can be mapped.
pub open spec fn fields_mappable(fields: Seq<ParsedField>) -> bool {
    forall|i: int| 0 <= i < fields.len() && !fields[i].attrs.skip ==> mappable(#[trigger] fields[i].ty)
}

/// The first reason, in field order, why the type of a field that is not
/// skipped cannot be mapped.
pub open spec fn fields_error(fields: Seq<ParsedField>) -> Option<MapError>
    decreases fields.len(),
{
    if fields.len() == 0 {
        None
    } else if fields_error(fields.drop_last()) is Some {
        fields_error(fields.drop_last())
    } else if fields.last().attrs.skip {
        None
    } else {
        map_error(fields.last().ty)
    }
}

/// The fields can all be mapped exactly when no field error is found.
pub proof fn lemma_fields_error(fields: Seq<ParsedField>)
    ensures
        (fields_error(fields) is None) == fields_mappable(fields),
    decreases fields.len(),
{
    if fields.len() > 0 {
        let init = fields.drop_last();
        lemma_fields_error(init);
        if fields_mappable(fields) {
            assert forall|i: int| 0 <= i < init.len() && !init[i].attrs.skip implies mappable(
                #[trigger] init[i].ty,
            ) by {
                assert(fields[i] == init[i]);
            }
            assert(!fields.last().attrs.skip ==> mappable(fields[fields.len() - 1].ty));
        }
        if fields_error(fields) is None {
            assert forall|i: int| 0 <= i < fields.len() && !fields[i].attrs.skip implies mappable(
                #[trigger] fields[i].ty,
            ) by {
                if i < init.len() {
                    assert(fields[i] == init[i]);
                }
            }
        }
    }
}

/// The first reason, in field order, why the type of a field that is not
/// skipped cannot be mapped; `None` when [`gen_struct`] can map them all.
pub fn fields_map_error(fields: &Vec<ParsedField>) -> (r: Option<MapError>)
    ensures
        r == fields_error(fields@),
{
    let mut i: usize = 0;
    while i < fields.len()
        invariant
            i <= fields.len(),
            fields_error(fields@.take(i as int)) is None,
        decreases fields.len() - i,
    {
        assert(fields@.take(i + 1).drop_last() =~= fields@.take(i as int));
        if !fields[i].attrs.skip {
            let e = type_map_error(&fields[i].ty);
            if e.is_some() {
                proof {
                    lemma_fields_error_prefix(fields@, i + 1);
                }
                return e;
            }
        }
        i = i + 1;
    }
    assert(fields@.take(fields.len() as int) =~= fields@);
    None
}

proof fn lemma_fields_error_prefix(fields: Seq<ParsedField>, n: int)
    requires
        0 <= n <= fields.len(),
        fields_error(fields.take(n)) is Some,
    ensures
        fields_error(fields) == fields_error(fields.take(n)),
    decreases fields.len() - n,
{
    if n < fields.len() {
        assert(fields.take(n + 1).drop_last() =~= fields.take(n));
        lemma_fields_error_prefix(fields, n + 1);
    } else {
        assert(fields.take(n) =~= fields);
    }
}

/// The binding file of a struct: the disclaimer, the imports its fields need,
/// and an interface with one member per field that is not skipped.
pub open spec fn struct_binding(
    derive_attrs: DeriveAttrsView,
    config: Config,
    fields: Seq<ParsedField>,
) -> Seq<char> {
    let r = struct_fields(fields, derive_attrs, config);
    let body = "\nexport interface "@ + derive_attrs.name + " {\n"@ + r.0 + "}"@;
    let text = imports_text(r.1, derive_attrs.name) + "\n"@ + body;
    let text = if contains_seq(text, "import"@) {
        "\n"@ + text
    } else {
        text
    };
    FILE_DISCLAIMER@ + "\n"@ + text
}

/// The binding file of a struct with the given fields.
pub fn gen_struct(struct_attrs: &DeriveAttrs, config: &Config, fields: &Vec<ParsedField>) -> (r:
    String)
    requires
        fields_mappable(fields@),
    ensures
        r@ == struct_binding(struct_attrs@, *config, fields@),
{
    let mut ts_bind = "\nexport interface ".to_owned();
    ts_bind.append(struct_attrs.get_name().as_str());
    ts_bind.append(" {\n");
    let mut lines = String::new();
    let mut imports: Vec<String> = Vec::new();
    let mut i: usize = 0;
    while i < fields.len()
        invariant
            i <= fields.len(),
            fields_mappable(fields@),
            (lines@, imports.deep_view()) == struct_fields(fields@.take(i as int), struct_attrs@, *config),
        decreases fields.len() - i,
    {
        assert(fields@.take(i + 1).drop_last() =~= fields@.take(i as int));
        let field = &fields[i];
        if !field.attrs.skip {
            let map_result = ts_rs_map(&field.ty, &mut imports);
            lines.append("   ");
            let name = apply_name_attr(field.ident.clone(), struct_attrs, config, &field.attrs);
            lines.append(name.as_str());
            lines.append(": ");
            lines.append(map_result.as_str());
            lines.append(";\n");
        }
        i = i + 1;
    }
    assert(fields@.take(fields.len() as int) =~= fields@);
    ts_bind.append(lines.as_str());
    ts_bind.append("}");
    let mut text = gen_imports(imports, struct_attrs.get_name());
    text.append("\n");
    text.append(ts_bind.as_str());
    if str_contains(text.as_str(), "import") {
        let mut t = "\n".to_owned();
        t.append(text.as_str());
        text = t;
    }
    let mut out = FILE_DISCLAIMER.to_owned();
    out.append("\n");
    out.append(text.as_str());
    out
}


/// Appending a field to a struct appends its member line when the field is
/// not skipped, and nothing when it is. The line is three spaces, the name
/// the field is exported under (its own rename, else the struct's own
/// convention, else the project's default convention, else its name), `": "`,
/// its TypeScript type and `";\n"`; the imports of its type follow those of
/// the earlier fields.
pub proof fn struct_member_lines(
    fields: Seq<ParsedField>,
    f: ParsedField,
    derive_attrs: DeriveAttrsView,
    config: Config,
)
    ensures
        f.attrs.skip ==> struct_fields(fields.push(f), derive_attrs, config) == struct_fields(
            fields,
            derive_attrs,
            config,
        ),
        !f.attrs.skip ==> struct_fields(fields.push(f), derive_attrs, config).0 == struct_fields(
            fields,
            derive_attrs,
            config,
        ).0 + "   "@ + match f.attrs.rename {
            Some(r) => r@,
            None => match derive_attrs.rename_all {
                Some(c) => case_text(c, f.ident@),
                None => match config.default_case {
                    Some(c) => case_text(c, f.ident@),
                    None => f.ident@,
                },
            },
        } + ": "@ + ts_map(f.ty).0 + ";\n"@,
        !f.attrs.skip ==> struct_fields(fields.push(f), derive_attrs, config).1 == struct_fields(
            fields,
            derive_attrs,
            config,
        ).1 + ts_map(f.ty).1,
{
    assert(fields.push(f).drop_last() =~= fields);
}

/// A struct with no fields, or only skipped ones, has no member lines and
/// needs no import.
pub proof fn struct_without_members(fields: Seq<ParsedField>, derive_attrs: DeriveAttrsView, config: Config)
    requires
        forall|i: int| 0 <= i < fields.len() ==> (#[trigger] fields[i]).attrs.skip,
    ensures
        struct_fields(fields, derive_attrs, config) == (Seq::<char>::empty(), Seq::<Seq<char>>::empty()),
    decreases fields.len(),
{
    if fields.len() > 0 {
        let init = fields.drop_last();
        assert forall|i: int| 0 <= i < init.len() implies (#[trigger] init[i]).attrs.skip by {
            assert(init[i] == fields[i]);
        }
        struct_without_members(init, derive_attrs, config);
        assert(fields[fields.len() - 1] == fields.last());
    }
}

/// A struct's file starts with the disclaimer line and ends with its
/// interface: `export interface <name> {`, the member lines, and `}`.
pub proof fn struct_file_shape(derive_attrs: DeriveAttrsView, config: Config, fields: Seq<ParsedField>)
    ensures
        ({
            let text = struct_binding(derive_attrs, config, fields);
            let tail = "\nexport interface "@ + derive_attrs.name + " {\n"@ + struct_fields(
                fields,
                derive_attrs,
                config,
            ).0 + "}"@;
            let head = FILE_DISCLAIMER@ + "\n"@;
            &&& text.len() >= head.len() + tail.len()
            &&& text.take(head.len() as int) == head
            &&& text.skip(text.len() - tail.len()) == tail
        }),
{
    let r = struct_fields(fields, derive_attrs, config);
    let body = "\nexport interface "@ + derive_attrs.name + " {\n"@ + r.0 + "}"@;
    let t1 = imports_text(r.1, derive_attrs.name) + "\n"@ + body;
    let t2 = if contains_seq(t1, "import"@) {
        "\n"@ + t1
    } else {
        t1
    };
    let head = FILE_DISCLAIMER@ + "\n"@;
    let pre = if contains_seq(t1, "import"@) {
        "\n"@ + imports_text(r.1, derive_attrs.name) + "\n"@
    } else {
        imports_text(r.1, derive_attrs.name) + "\n"@
    };
    assert(t2 =~= pre + body);
    let text = struct_binding(derive_attrs, config, fields);
    assert(text =~= head + pre + body);
    assert(text.take(head.len() as int) =~= head);
    assert(text.skip(text.len() - body.len()) =~= body);
}

} // verus!
