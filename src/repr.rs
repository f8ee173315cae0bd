//! Resolution of the wire representation: string-keyed, or one of four
//! integer kinds.
use vstd::prelude::*;
use crate::text::str_eq;

verus! {

/// An integer kind in which variants travel on the wire.
#[derive(Clone, Copy, Debug, PartialEq, Eq, Structural)]
pub enum EnumRepr {
    I32,
    U32,
    I64,
    U64,
}

/// What a declaration attribute reads as, as far as representation
/// detection cares: a list attribute `path(nested, ...)` records its path
/// (when it is a single identifier) and the single-identifier path of each
/// nested item that could be read, in order; any other attribute is `Other`.
#[derive(Debug)]
pub enum AttrMeta {
    List { path: Option<String>, nested: Vec<Option<String>> },
    Other,
}

/// The integer kind named by `s`, if any.
pub open spec fn repr_named(s: Seq<char>) -> Option<EnumRepr> {
    if s == "i32"@ {
        Some(EnumRepr::I32)
    } else if s == "i64"@ {
        Some(EnumRepr::I64)
    } else if s == "u32"@ {
        Some(EnumRepr::U32)
    } else if s == "u64"@ {
        Some(EnumRepr::U64)
    } else {
        None
    }
}

/// The integer kind of an explicit override, if it names one.
pub open spec fn override_repr(s: Option<String>) -> Option<EnumRepr> {
    match s {
        Some(s) => repr_named(s@),
        None => None,
    }
}

/// The kind named by a nested item, if any.
pub open spec fn nested_repr(item: Option<String>) -> Option<EnumRepr> {
    match item {
        Some(s) => repr_named(s@),
        None => None,
    }
}

/// The last integer kind named among the nested items.
pub open spec fn last_nested_repr(nested: Seq<Option<String>>) -> Option<EnumRepr>
    decreases nested.len(),
{
    if nested.len() == 0 {
        None
    } else {
        match nested_repr(nested.last()) {
            Some(r) => Some(r),
            None => last_nested_repr(nested.drop_last()),
        }
    }
}

/// The kind that one attribute declares: a `repr(...)` list naming a kind.
pub open spec fn attr_repr(a: AttrMeta) -> Option<EnumRepr> {
    match a {
        AttrMeta::List { path, nested } => match path {
            Some(p) => if p@ == "repr"@ {
                last_nested_repr(nested@)
            } else {
                None
            },
            None => None,
        },
        AttrMeta::Other => None,
    }
}

/// The kind declared by the first attribute that declares one.
pub open spec fn native_repr(attrs: Seq<AttrMeta>) -> Option<EnumRepr>
    decreases attrs.len(),
{
    if attrs.len() == 0 {
        None
    } else {
        match attr_repr(attrs[0]) {
            Some(r) => Some(r),
            None => native_repr(attrs.skip(1)),
        }
    }
}

/// The representation: the explicit override wins, then the native
/// representation attribute; `None` means string-keyed.
pub open spec fn resolved_repr(over: Option<String>, attrs: Seq<AttrMeta>) -> Option<EnumRepr> {
    match override_repr(over) {
        Some(r) => Some(r),
        None => native_repr(attrs),
    }
}

/// Reads an integer kind from its name.
pub fn repr_from_name(s: &str) -> (r: Option<EnumRepr>)
    ensures
        r == repr_named(s@),
{
    if str_eq(s, "i32") {
        Some(EnumRepr::I32)
    } else if str_eq(s, "i64") {
        Some(EnumRepr::I64)
    } else if str_eq(s, "u32") {
        Some(EnumRepr::U32)
    } else if str_eq(s, "u64") {
        Some(EnumRepr::U64)
    } else {
        None
    }
}

/// Reads the explicit representation override (`"i32"`, `"i64"`, `"u32"`,
/// `"u64"`); anything else gives no override.
pub fn parse_oai_enum_repr(string: &Option<String>) -> (r: Option<EnumRepr>)
    ensures
        r == override_repr(*string),
{
    match string {
        Some(s) => repr_from_name(s.as_str()),
        None => None,
    }
}

fn last_repr_in(nested: &Vec<Option<String>>) -> (r: Option<EnumRepr>)
    ensures
        r == last_nested_repr(nested@),
{
    let mut found: Option<EnumRepr> = None;
    let mut i: usize = 0;
    while i < nested.len()
        invariant
            i <= nested@.len(),
            found == last_nested_repr(nested@.subrange(0, i as int)),
        decreases nested.len() - i,
    {
        let ghost pre = nested@.subrange(0, i as int);
        assert(nested@.subrange(0, i + 1).drop_last() =~= pre);
        match &nested[i] {
            Some(s) => {
                let k = repr_from_name(s.as_str());
                if k.is_some() {
                    found = k;
                }
            },
            None => {},
        }
        i = i + 1;
    }
    assert(nested@.subrange(0, nested@.len() as int) =~= nested@);
    found
}

/// Detects the native representation attribute: the first `repr(...)` list
/// that names an integer kind; within it, the last kind named.
pub fn detect_rust_repr(attrs: &Vec<AttrMeta>) -> (r: Option<EnumRepr>)
    ensures
        r == native_repr(attrs@),
{
    let mut i: usize = 0;
    assert(attrs@.skip(0) =~= attrs@);
    while i < attrs.len()
        invariant
            i <= attrs@.len(),
            native_repr(attrs@) == native_repr(attrs@.skip(i as int)),
        decreases attrs.len() - i,
    {
        assert(attrs@.skip(i as int)[0] == attrs@[i as int]);
        assert(attrs@.skip(i as int).skip(1) =~= attrs@.skip(i + 1));
        match &attrs[i] {
            AttrMeta::List { path, nested } => {
                match path {
                    Some(p) => {
                        if str_eq(p.as_str(), "repr") {
                            let found = last_repr_in(nested);
                            if found.is_some() {
                                return found;
                            }
                        }
                    },
                    None => {},
                }
            },
            AttrMeta::Other => {},
        }
        i = i + 1;
    }
    assert(attrs@.skip(i as int).len() == 0);
    None
}

/// Resolves the representation from the explicit override and the
/// declaration's attributes.
pub fn resolve_repr(over: &Option<String>, attrs: &Vec<AttrMeta>) -> (r: Option<EnumRepr>)
    ensures
        r == resolved_repr(*over, attrs@),
{
    match parse_oai_enum_repr(over) {
        Some(k) => Some(k),
        None => detect_rust_repr(attrs),
    }
}

} // verus!
