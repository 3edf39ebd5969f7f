//! Naming conventions that field, variant and constant names can be
//! converted to.

use vstd::prelude::*;
use convert_case::{Case, Casing};
use crate::text::{eq_str, replace_char, replace_char_seq};

verus! {

/// The case conventions of the case-conversion crate that the library uses.
#[derive(PartialEq, Eq, Structural, Clone, Copy, Debug)]
pub enum CaseStyle {
    Camel,
    Snake,
    Upper,
    Lower,
    Pascal,
    Kebab,
}

/// What the case-conversion crate makes of `s` in the convention `style`.
pub uninterp spec fn converted_case(s: Seq<char>, style: CaseStyle) -> Seq<char>;

/// Converts `s` to the convention `style`.
///
/// Trusted: calls `convert_case::Casing::to_case` with the matching
/// `convert_case::Case`. The contract only names the result: it is a
/// function of the text and the convention, and nothing more is claimed of
/// how the crate splits words or changes letters.
#[verifier::external_body]
fn convert_case(s: &str, style: CaseStyle) -> (r: String)
    ensures
        r@ == converted_case(s@, style),
{
    let case = match style {
        CaseStyle::Camel => Case::Camel,
        CaseStyle::Snake => Case::Snake,
        CaseStyle::Upper => Case::Upper,
        CaseStyle::Lower => Case::Lower,
        CaseStyle::Pascal => Case::Pascal,
        CaseStyle::Kebab => Case::Kebab,
    };
    s.to_case(case)
}

/// A naming convention that names can be converted to.
#[derive(PartialEq, Eq, Structural, Clone, Copy, Debug)]
pub enum RenameAll {
    CamelCase,
    SnakeCase,
    UpperCase,
    LowerCase,
    PascalCase,
    KebabCase,
}

/// `s` converted to the convention `case`. The kebab convention uses `_` in
/// place of `-`, so that the result is a valid identifier.
pub open spec fn case_text(case: RenameAll, s: Seq<char>) -> Seq<char> {
    match case {
        RenameAll::CamelCase => converted_case(s, CaseStyle::Camel),
        RenameAll::SnakeCase => converted_case(s, CaseStyle::Snake),
        RenameAll::UpperCase => converted_case(s, CaseStyle::Upper),
        RenameAll::LowerCase => converted_case(s, CaseStyle::Lower),
        RenameAll::PascalCase => converted_case(s, CaseStyle::Pascal),
        RenameAll::KebabCase => replace_char_seq(converted_case(s, CaseStyle::Kebab), '-', '_'),
    }
}

/// The convention that the attribute value `value` names, if any.
pub open spec fn case_from_name(value: Seq<char>) -> Option<RenameAll> {
    if value == "camelCase"@ {
        Some(RenameAll::CamelCase)
    } else if value == "snake_case"@ {
        Some(RenameAll::SnakeCase)
    } else if value == "UPPERCASE"@ {
        Some(RenameAll::UpperCase)
    } else if value == "lowercase"@ {
        Some(RenameAll::LowerCase)
    } else if value == "PascalCase"@ {
        Some(RenameAll::PascalCase)
    } else if value == "kebab_case"@ {
        Some(RenameAll::KebabCase)
    } else {
        None
    }
}

/// Whether `value` names a known convention.
pub fn is_case_name(value: &str) -> (r: bool)
    ensures
        r == (case_from_name(value@) is Some),
{
    eq_str(value, "camelCase") || eq_str(value, "snake_case") || eq_str(value, "UPPERCASE")
        || eq_str(value, "lowercase") || eq_str(value, "PascalCase") || eq_str(value, "kebab_case")
}

impl RenameAll {
    /// Converts `s` to this convention.
    pub fn to_case(&self, s: &str) -> (r: String)
        ensures
            r@ == case_text(*self, s@),
    {
        match self {
            RenameAll::CamelCase => convert_case(s, CaseStyle::Camel),
            RenameAll::SnakeCase => convert_case(s, CaseStyle::Snake),
            RenameAll::UpperCase => convert_case(s, CaseStyle::Upper),
            RenameAll::LowerCase => convert_case(s, CaseStyle::Lower),
            RenameAll::PascalCase => convert_case(s, CaseStyle::Pascal),
            RenameAll::KebabCase => {
                let k = convert_case(s, CaseStyle::Kebab);
                replace_char(k.as_str(), '-', '_')
            },
        }
    }

    /// The convention named by an attribute value: `camelCase`,
    /// `snake_case`, `UPPERCASE`, `lowercase`, `PascalCase` or `kebab_case`.
    /// Any other value is refused (see [`is_case_name`]).
    pub fn from_string(value: &str) -> (r: Option<Self>)
        requires
            case_from_name(value@) is Some,
        ensures
            r == case_from_name(value@),
    {
        if eq_str(value, "camelCase") {
            Some(RenameAll::CamelCase)
        } else if eq_str(value, "snake_case") {
            Some(RenameAll::SnakeCase)
        } else if eq_str(value, "UPPERCASE") {
            Some(RenameAll::UpperCase)
        } else if eq_str(value, "lowercase") {
            Some(RenameAll::LowerCase)
        } else if eq_str(value, "PascalCase") {
            Some(RenameAll::PascalCase)
        } else {
            Some(RenameAll::KebabCase)
        }
    }
}

/// Different attribute values never name the same convention.
pub proof fn case_names_are_distinct(a: Seq<char>, b: Seq<char>)
    requires
        case_from_name(a) is Some,
        case_from_name(a) == case_from_name(b),
    ensures
        a == b,
{
}

/// Every convention has a name, and that name reads back as it.
pub proof fn every_convention_has_a_name(case: RenameAll)
    ensures
        exists|v: Seq<char>| case_from_name(v) == Some(case),
{
    reveal_strlit("camelCase");
    reveal_strlit("snake_case");
    reveal_strlit("UPPERCASE");
    reveal_strlit("lowercase");
    reveal_strlit("PascalCase");
    reveal_strlit("kebab_case");
    assert("snake_case"@[0] != "camelCase"@[0]);
    assert("UPPERCASE"@[0] != "camelCase"@[0]);
    assert("UPPERCASE"@[0] != "snake_case"@[0]);
    assert("lowercase"@[0] != "camelCase"@[0]);
    assert("lowercase"@[0] != "snake_case"@[0]);
    assert("lowercase"@[0] != "UPPERCASE"@[0]);
    assert("PascalCase"@[0] != "camelCase"@[0]);
    assert("PascalCase"@[0] != "snake_case"@[0]);
    assert("PascalCase"@[0] != "UPPERCASE"@[0]);
    assert("PascalCase"@[0] != "lowercase"@[0]);
    assert("kebab_case"@[0] != "camelCase"@[0]);
    assert("kebab_case"@[0] != "snake_case"@[0]);
    assert("kebab_case"@[0] != "UPPERCASE"@[0]);
    assert("kebab_case"@[0] != "lowercase"@[0]);
    assert("kebab_case"@[0] != "PascalCase"@[0]);
    match case {
        RenameAll::CamelCase => assert(case_from_name("camelCase"@) == Some(case)),
        RenameAll::SnakeCase => assert(case_from_name("snake_case"@) == Some(case)),
        RenameAll::UpperCase => assert(case_from_name("UPPERCASE"@) == Some(case)),
        RenameAll::LowerCase => assert(case_from_name("lowercase"@) == Some(case)),
        RenameAll::PascalCase => assert(case_from_name("PascalCase"@) == Some(case)),
        RenameAll::KebabCase => assert(case_from_name("kebab_case"@) == Some(case)),
    }
}

/// A name converted to the kebab convention holds no `-`: every `-` that the
/// conversion writes becomes `_`.
pub proof fn kebab_names_have_no_dash(s: Seq<char>)
    ensures
        forall|i: int| 0 <= i < case_text(RenameAll::KebabCase, s).len()
            ==> case_text(RenameAll::KebabCase, s)[i] != '-',
{
}

} // verus!
