//! Whole-enumeration renaming rules for variant names.
use vstd::prelude::*;
use crate::text::str_eq;
use vstd::string::StrSliceExecFns;

verus! {

/// A case-conversion rule applied to every variant identifier.
#[derive(Clone, Copy, Debug, PartialEq, Eq, Structural)]
pub enum RenameRule {
    Lower,
    Upper,
    Pascal,
    Camel,
    Snake,
    ScreamingSnake,
    Kebab,
    ScreamingKebab,
}

/// The rule written as `s` in a declaration.
pub open spec fn rule_named(s: Seq<char>) -> Option<RenameRule> {
    if s == "lowercase"@ {
        Some(RenameRule::Lower)
    } else if s == "UPPERCASE"@ {
        Some(RenameRule::Upper)
    } else if s == "PascalCase"@ {
        Some(RenameRule::Pascal)
    } else if s == "camelCase"@ {
        Some(RenameRule::Camel)
    } else if s == "snake_case"@ {
        Some(RenameRule::Snake)
    } else if s == "SCREAMING_SNAKE_CASE"@ {
        Some(RenameRule::ScreamingSnake)
    } else if s == "kebab-case"@ {
        Some(RenameRule::Kebab)
    } else if s == "SCREAMING-KEBAB-CASE"@ {
        Some(RenameRule::ScreamingKebab)
    } else {
        None
    }
}

/// What `str::to_lowercase` gives.
pub uninterp spec fn lower_of(s: Seq<char>) -> Seq<char>;

/// What `str::to_uppercase` gives.
pub uninterp spec fn upper_of(s: Seq<char>) -> Seq<char>;

/// What Inflector's `to_pascal_case` gives.
pub uninterp spec fn pascal_of(s: Seq<char>) -> Seq<char>;

/// What Inflector's `to_camel_case` gives.
pub uninterp spec fn camel_of(s: Seq<char>) -> Seq<char>;

/// What Inflector's `to_snake_case` gives.
pub uninterp spec fn snake_of(s: Seq<char>) -> Seq<char>;

/// What Inflector's `to_screaming_snake_case` gives.
pub uninterp spec fn screaming_snake_of(s: Seq<char>) -> Seq<char>;

/// What Inflector's `to_kebab_case` gives.
pub uninterp spec fn kebab_of(s: Seq<char>) -> Seq<char>;

/// Every underscore of `s` turned into a hyphen.
pub open spec fn underscores_to_hyphens(s: Seq<char>) -> Seq<char> {
    s.map_values(|c: char| if c == '_' { '-' } else { c })
}

/// The name that `rule` gives to the identifier `s`.
pub open spec fn renamed(rule: RenameRule, s: Seq<char>) -> Seq<char> {
    match rule {
        RenameRule::Lower => lower_of(s),
        RenameRule::Upper => upper_of(s),
        RenameRule::Pascal => pascal_of(s),
        RenameRule::Camel => camel_of(s),
        RenameRule::Snake => snake_of(s),
        RenameRule::ScreamingSnake => screaming_snake_of(s),
        RenameRule::Kebab => kebab_of(s),
        RenameRule::ScreamingKebab => underscores_to_hyphens(screaming_snake_of(s)),
    }
}

/// The name of a variant under an optional whole-enumeration rule.
pub open spec fn rule_applied(rule: Option<RenameRule>, s: Seq<char>) -> Seq<char> {
    match rule {
        Some(r) => renamed(r, s),
        None => s,
    }
}

/// Relies on `str::to_lowercase`: the result depends on the characters alone.
#[verifier::external_body]
fn to_lower(s: &str) -> (r: String)
    ensures
        r@ == lower_of(s@),
{
    s.to_lowercase()
}

/// Relies on `str::to_uppercase`: the result depends on the characters alone.
#[verifier::external_body]
fn to_upper(s: &str) -> (r: String)
    ensures
        r@ == upper_of(s@),
{
    s.to_uppercase()
}

/// Relies on Inflector's `to_pascal_case`: the result depends on the characters alone.
#[verifier::external_body]
fn to_pascal(s: &str) -> (r: String)
    ensures
        r@ == pascal_of(s@),
{
    inflector::cases::pascalcase::to_pascal_case(s)
}

/// Relies on Inflector's `to_camel_case`: the result depends on the characters alone.
#[verifier::external_body]
fn to_camel(s: &str) -> (r: String)
    ensures
        r@ == camel_of(s@),
{
    inflector::cases::camelcase::to_camel_case(s)
}

/// Relies on Inflector's `to_snake_case`: the result depends on the characters alone.
#[verifier::external_body]
fn to_snake(s: &str) -> (r: String)
    ensures
        r@ == snake_of(s@),
{
    inflector::cases::snakecase::to_snake_case(s)
}

/// Relies on Inflector's `to_screaming_snake_case`: the result depends on the
/// characters alone.
#[verifier::external_body]
fn to_screaming_snake(s: &str) -> (r: String)
    ensures
        r@ == screaming_snake_of(s@),
{
    inflector::cases::screamingsnakecase::to_screaming_snake_case(s)
}

/// Relies on Inflector's `to_kebab_case`: the result depends on the characters alone.
#[verifier::external_body]
fn to_kebab(s: &str) -> (r: String)
    ensures
        r@ == kebab_of(s@),
{
    inflector::cases::kebabcase::to_kebab_case(s)
}

/// Turns every underscore into a hyphen.
fn hyphenate(s: &str) -> (r: String)
    ensures
        r@ == underscores_to_hyphens(s@),
{
    let n = s.unicode_len();
    let mut out = String::new();
    let mut i: usize = 0;
    proof {
        reveal_strlit("-");
    }
    while i < n
        invariant
            n == s@.len(),
            i <= n,
            out@ =~= underscores_to_hyphens(s@.subrange(0, i as int)),
            "-"@ == seq!['-'],
        decreases n - i,
    {
        let c = s.get_char(i);
        if c == '_' {
            out.append("-");
        } else {
            out.append(s.substring_char(i, i + 1));
        }
        assert(s@.subrange(0, i + 1) =~= s@.subrange(0, i as int).push(c));
        assert(s@.subrange(i as int, i + 1) =~= seq![c]);
        i = i + 1;
    }
    assert(s@.subrange(0, n as int) =~= s@);
    out
}

impl RenameRule {
    /// Reads a rule from the name a declaration writes it with.
    pub fn from_name(s: &str) -> (r: Option<RenameRule>)
        ensures
            r == rule_named(s@),
    {
        if str_eq(s, "lowercase") {
            Some(RenameRule::Lower)
        } else if str_eq(s, "UPPERCASE") {
            Some(RenameRule::Upper)
        } else if str_eq(s, "PascalCase") {
            Some(RenameRule::Pascal)
        } else if str_eq(s, "camelCase") {
            Some(RenameRule::Camel)
        } else if str_eq(s, "snake_case") {
            Some(RenameRule::Snake)
        } else if str_eq(s, "SCREAMING_SNAKE_CASE") {
            Some(RenameRule::ScreamingSnake)
        } else if str_eq(s, "kebab-case") {
            Some(RenameRule::Kebab)
        } else if str_eq(s, "SCREAMING-KEBAB-CASE") {
            Some(RenameRule::ScreamingKebab)
        } else {
            None
        }
    }

    /// Applies the rule to an identifier.
    pub fn rename(&self, name: &str) -> (r: String)
        ensures
            r@ == renamed(*self, name@),
    {
        match self {
            RenameRule::Lower => to_lower(name),
            RenameRule::Upper => to_upper(name),
            RenameRule::Pascal => to_pascal(name),
            RenameRule::Camel => to_camel(name),
            RenameRule::Snake => to_snake(name),
            RenameRule::ScreamingSnake => to_screaming_snake(name),
            RenameRule::Kebab => to_kebab(name),
            RenameRule::ScreamingKebab => {
                let s = to_screaming_snake(name);
                hyphenate(s.as_str())
            },
        }
    }
}

/// Applies an optional whole-enumeration rule to a variant identifier.
pub fn apply_rename_rule_variant(rule: Option<RenameRule>, variant: String) -> (r: String)
    ensures
        r@ == rule_applied(rule, variant@),
{
    match rule {
        Some(rule) => rule.rename(variant.as_str()),
        None => variant,
    }
}

} // verus!
