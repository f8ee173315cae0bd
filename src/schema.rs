//! The schema descriptor of an enumeration.
use vstd::prelude::*;
use crate::catalog::Catalog;
use crate::json::JsonValue;
use crate::repr::EnumRepr;

verus! {

/// A link to external documentation.
#[derive(Clone, Debug, PartialEq, Eq)]
pub struct ExternalDocument {
    pub url: String,
    pub description: Option<String>,
}

/// The schema of an enumeration type. Bounds are integers; they are whole
/// numbers on the wire.
#[derive(Clone, Debug)]
pub struct SchemaDescriptor {
    pub ty: String,
    pub format: Option<String>,
    pub enum_items: Vec<JsonValue>,
    pub minimum: Option<u64>,
    pub maximum: Option<u64>,
    pub description: Option<String>,
    pub deprecated: bool,
    pub external_docs: Option<ExternalDocument>,
}

pub open spec fn opt_view(o: Option<String>) -> Option<Seq<char>> {
    match o {
        Some(s) => Some(s@),
        None => None,
    }
}

pub open spec fn same_docs(a: Option<ExternalDocument>, b: Option<ExternalDocument>) -> bool {
    match (a, b) {
        (Some(x), Some(y)) => x.url@ == y.url@ && opt_view(x.description) == opt_view(y.description),
        (None, None) => true,
        _ => false,
    }
}

/// The format label of an integer kind. OpenAPI 3.0 has no unsigned
/// formats, so unsigned kinds travel as `int64`.
pub open spec fn format_label(k: EnumRepr) -> Seq<char> {
    match k {
        EnumRepr::I32 => "int32"@,
        _ => "int64"@,
    }
}

/// The lower bound: zero for unsigned kinds.
pub open spec fn min_bound(repr: Option<EnumRepr>) -> Option<u64> {
    match repr {
        Some(EnumRepr::U32) => Some(0u64),
        Some(EnumRepr::U64) => Some(0u64),
        _ => None,
    }
}

/// The upper bound: only for `u32`. The `u64` range exceeds what `int64`
/// can express, and no bound is invented for it.
pub open spec fn max_bound(repr: Option<EnumRepr>) -> Option<u64> {
    match repr {
        Some(EnumRepr::U32) => Some(4294967295u64),
        _ => None,
    }
}

impl SchemaDescriptor {
    /// The descriptor of catalog `c`, with the given pass-through metadata.
    pub open spec fn describes(
        &self,
        c: Catalog,
        description: Option<String>,
        deprecated: bool,
        external_docs: Option<ExternalDocument>,
    ) -> bool {
        &&& self.ty@ == if c.repr is Some {
            "integer"@
        } else {
            "string"@
        }
        &&& opt_view(self.format) == match c.repr {
            Some(k) => Some(format_label(k)),
            None => None,
        }
        &&& self.enum_items@.len() == c.variants@.len()
        &&& forall|i: int|
            0 <= i < c.variants@.len() ==> c.is_encoding(i, #[trigger] self.enum_items@[i])
        &&& self.minimum == min_bound(c.repr)
        &&& self.maximum == max_bound(c.repr)
        &&& opt_view(self.description) == opt_view(description)
        &&& self.deprecated == deprecated
        &&& same_docs(self.external_docs, external_docs)
    }
}

pub fn clone_opt(o: &Option<String>) -> (r: Option<String>)
    ensures
        opt_view(r) == opt_view(*o),
{
    match o {
        Some(s) => Some(s.clone()),
        None => None,
    }
}

pub fn clone_docs(o: &Option<ExternalDocument>) -> (r: Option<ExternalDocument>)
    ensures
        same_docs(r, *o),
{
    match o {
        Some(d) => Some(ExternalDocument { url: d.url.clone(), description: clone_opt(&d.description) }),
        None => None,
    }
}

/// Builds the schema descriptor of a catalog: the enumerated values in
/// declaration order, the format and bounds of the integer kind, and the
/// metadata passed through.
pub fn build_schema(
    c: &Catalog,
    description: &Option<String>,
    deprecated: bool,
    external_docs: &Option<ExternalDocument>,
) -> (r: SchemaDescriptor)
    requires
        c.wf(),
    ensures
        r.describes(*c, *description, deprecated, *external_docs),
{
    let mut items: Vec<JsonValue> = Vec::new();
    let mut i: usize = 0;
    while i < c.variants.len()
        invariant
            c.wf(),
            i <= c.variants@.len(),
            items@.len() == i,
            forall|j: int| 0 <= j < i ==> c.is_encoding(j, #[trigger] items@[j]),
        decreases c.variants.len() - i,
    {
        let v = c.encode_json(i);
        items.push(v);
        i = i + 1;
    }
    let (ty, format, minimum, maximum) = match c.repr {
        Some(k) => {
            let f = match k {
                EnumRepr::I32 => String::from_str("int32"),
                _ => String::from_str("int64"),
            };
            let (lo, hi) = match k {
                EnumRepr::U32 => (Some(0u64), Some(4294967295u64)),
                EnumRepr::U64 => (Some(0u64), None),
                _ => (None, None),
            };
            (String::from_str("integer"), Some(f), lo, hi)
        },
        None => (String::from_str("string"), None, None, None),
    };
    SchemaDescriptor {
        ty,
        format,
        enum_items: items,
        minimum,
        maximum,
        description: clone_opt(description),
        deprecated,
        external_docs: clone_docs(external_docs),
    }
}

} // verus!
