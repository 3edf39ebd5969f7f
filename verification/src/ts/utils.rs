//! Import statements and exported names.

use vstd::prelude::*;
use crate::config::Config;
use crate::derive_attrs::{DeriveAttrs, DeriveAttrsView};
use crate::order::{
    eq_string, lemma_lt_total, lemma_lt_transitive, lemma_sorted_unique, seq_lt, sorted_distinct,
    str_lt, strictly_sorted,
};
use crate::parsers::FieldAttributes;
use crate::rename_all::case_text;
use crate::text::eq_str;

verus! {

/// The strings of `imports` in increasing order, each once, as sorting and
/// then removing adjacent duplicates gives them.
pub fn sorter(imports: Vec<String>) -> (r: Vec<String>)
    ensures
        strictly_sorted(r.deep_view()),
        r.deep_view().to_set() == imports.deep_view().to_set(),
        r.deep_view() == sorted_distinct(imports.deep_view()),
{
    let ghost src = imports.deep_view();
    let mut r: Vec<String> = Vec::new();
    let mut i: usize = 0;
    while i < imports.len()
        invariant
            i <= imports.len(),
            src == imports.deep_view(),
            strictly_sorted(r.deep_view()),
            r.deep_view().to_set() == src.take(i as int).to_set(),
        decreases imports.len() - i,
    {
        let x = &imports[i];
        let ghost rv = r.deep_view();
        let mut p: usize = 0;
        while p < r.len() && str_lt(r[p].as_str(), x.as_str())
            invariant
                p <= r.len(),
                rv == r.deep_view(),
                forall|k: int| 0 <= k < p ==> seq_lt(#[trigger] rv[k], x@),
            decreases r.len() - p,
        {
            p = p + 1;
        }
        assert(src.take(i + 1) =~= src.take(i as int).push(x@));
        proof {
            src.take(i as int).lemma_push_to_set_commute(x@);
        }
        if p < r.len() && eq_string(&r[p], x) {
            assert(rv[p as int] == x@);
            assert(rv.to_set().contains(x@));
            assert(src.take(i + 1).to_set() =~= src.take(i as int).to_set().insert(x@));
        } else {
            proof {
                if p < rv.len() {
                    lemma_lt_total(rv[p as int], x@);
                }
            }
            r.insert(p, x.clone());
            let ghost nv = r.deep_view();
            assert(nv =~= rv.insert(p as int, x@));
            assert forall|a: int, b: int| 0 <= a < b < nv.len() implies seq_lt(
                #[trigger] nv[a],
                #[trigger] nv[b],
            ) by {
                if b < p {
                } else if b == p {
                } else if a < p {
                    assert(nv[b] == rv[b - 1]);
                    if b - 1 > p {
                        assert(seq_lt(rv[p as int], rv[b - 1]));
                        lemma_lt_transitive(x@, rv[p as int], rv[b - 1]);
                    }
                    lemma_lt_transitive(nv[a], x@, nv[b]);
                } else if a == p {
                    if b - 1 > p {
                        assert(seq_lt(rv[p as int], rv[b - 1]));
                        lemma_lt_transitive(x@, rv[p as int], rv[b - 1]);
                    }
                } else {
                    assert(nv[a] == rv[a - 1]);
                    assert(nv[b] == rv[b - 1]);
                }
            }
            assert forall|y: Seq<char>| nv.to_set().contains(y) == rv.to_set().insert(x@).contains(
                y,
            ) by {
                if nv.to_set().contains(y) {
                    let k = choose|k: int| 0 <= k < nv.len() && nv[k] == y;
                    if k < p {
                        assert(rv[k] == y);
                    } else if k > p {
                        assert(rv[k - 1] == y);
                    }
                }
                if rv.to_set().contains(y) {
                    let k = choose|k: int| 0 <= k < rv.len() && rv[k] == y;
                    if k < p {
                        assert(nv[k] == y);
                    } else {
                        assert(nv[k + 1] == y);
                    }
                }
                if y == x@ {
                    assert(nv[p as int] == y);
                }
            }
            assert(nv.to_set() =~= rv.to_set().insert(x@));
            assert(src.take(i + 1).to_set() =~= src.take(i as int).to_set().insert(x@));
        }
        i = i + 1;
    }
    assert(src.take(imports.len() as int) =~= src);
    proof {
        let c = sorted_distinct(src);
        assert(strictly_sorted(r.deep_view()) && r.deep_view().to_set() == src.to_set());
        lemma_sorted_unique(c, r.deep_view());
    }
    r
}

/// The import statement for the type `name`.
pub open spec fn import_line(name: Seq<char>) -> Seq<char> {
    "import type { "@ + name + " } from \"./"@ + name + "\";\n"@
}

/// The import statements for the names in `names`, in order, leaving out
/// `current`.
pub open spec fn import_lines(names: Seq<Seq<char>>, current: Seq<char>) -> Seq<char>
    decreases names.len(),
{
    if names.len() == 0 {
        Seq::empty()
    } else {
        import_lines(names.drop_last(), current) + if names.last() == current {
            Seq::empty()
        } else {
            import_line(names.last())
        }
    }
}

/// The import statements that [`gen_imports`] writes: one for each distinct
/// name of `imports` other than `current`, in increasing order.
pub open spec fn imports_text(imports: Seq<Seq<char>>, current: Seq<char>) -> Seq<char> {
    import_lines(sorted_distinct(imports), current)
}

/// The import statements for the types in `imports`, for use in the binding
/// of `current`: one per distinct name, in sorted order, without one for
/// `current` itself.
pub fn gen_imports(imports: Vec<String>, current: &String) -> (r: String)
    ensures
        r@ == imports_text(imports.deep_view(), current@),
{
    let names = sorter(imports);
    let ghost nv = names.deep_view();
    let mut output = String::new();
    let mut i: usize = 0;
    while i < names.len()
        invariant
            i <= names.len(),
            nv == names.deep_view(),
            output@ == import_lines(nv.take(i as int), current@),
        decreases names.len() - i,
    {
        assert(nv.take(i + 1).drop_last() =~= nv.take(i as int));
        assert(nv[i as int] == names[i as int]@);
        let to_import = &names[i];
        if !eq_str(to_import.as_str(), current.as_str()) {
            output.append("import type { ");
            output.append(to_import.as_str());
            output.append(" } from \"./");
            output.append(to_import.as_str());
            output.append("\";\n");
        }
        i = i + 1;
    }
    assert(nv.take(names.len() as int) =~= nv);
    output
}

/// The name that a field or variant called `name` is exported under: its own
/// `rename` if it has one, else `name` in the type's naming convention, else
/// in the project's default convention, else `name` unchanged.
pub open spec fn applied_name(
    name: Seq<char>,
    derive_attrs: DeriveAttrsView,
    config: Config,
    attrs: FieldAttributes,
) -> Seq<char> {
    match attrs.rename {
        Some(r) => r@,
        None => match derive_attrs.rename_all {
            Some(case) => case_text(case, name),
            None => match config.default_case {
                Some(case) => case_text(case, name),
                None => name,
            },
        },
    }
}

/// The name that a field or variant called `name` is exported under.
pub fn apply_name_attr(
    name: String,
    derive_attrs: &DeriveAttrs,
    config: &Config,
    attrs: &FieldAttributes,
) -> (r: String)
    ensures
        r@ == applied_name(name@, derive_attrs@, *config, *attrs),
{
    match &attrs.rename {
        Some(rename) => rename.clone(),
        None => match derive_attrs.get_rename_all() {
            Some(rename_all) => rename_all.to_case(name.as_str()),
            None => match &config.default_case {
                Some(rename_all) => rename_all.to_case(name.as_str()),
                None => name,
            },
        },
    }
}

/// How a field or variant is named: its own `rename` wins over every
/// convention; without one, the type's own convention wins over the
/// project's default, whatever that is; the project's default applies only
/// when the type names no convention; with no convention at all the name is
/// kept as it is.
pub proof fn naming_rule(
    name: Seq<char>,
    derive_attrs: DeriveAttrsView,
    config: Config,
    attrs: FieldAttributes,
)
    ensures
        attrs.rename matches Some(r) ==> applied_name(name, derive_attrs, config, attrs) == r@,
        attrs.rename is None && derive_attrs.rename_all is Some ==> applied_name(
            name,
            derive_attrs,
            config,
            attrs,
        ) == case_text(derive_attrs.rename_all->0, name),
        attrs.rename is None && derive_attrs.rename_all is None && config.default_case is Some
            ==> applied_name(name, derive_attrs, config, attrs) == case_text(
            config.default_case->0,
            name,
        ),
        attrs.rename is None && derive_attrs.rename_all is None && config.default_case is None
            ==> applied_name(name, derive_attrs, config, attrs) == name,
{
}

/// The import statements depend only on which names are to be imported: not
/// on their order, nor on how often each is named.
pub proof fn imports_depend_only_on_names(a: Seq<Seq<char>>, b: Seq<Seq<char>>, current: Seq<char>)
    requires
        a.to_set() == b.to_set(),
    ensures
        imports_text(a, current) == imports_text(b, current),
{
}

} // verus!
