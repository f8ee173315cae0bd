//! Generation of everything an enumeration type needs from its definition:
//! catalog, schema descriptor, and optional bridge.
use vstd::prelude::*;
use crate::bridge::{RemoteBridge, bridge_outcome, names_view};
use crate::catalog::{
    Catalog, GenerateError, VariantSource, canonical_name, is_first_fault, no_variant_fault,
    resolved_disc, wrap,
};
use crate::json::{is_json_string, json_int};
use crate::registry::{Registry, create_outcome};
use crate::rename::RenameRule;
use crate::repr::{AttrMeta, resolve_repr, resolved_repr};
use crate::schema::{
    ExternalDocument, SchemaDescriptor, build_schema, clone_docs, clone_opt, opt_view, same_docs,
};

verus! {

/// An enumeration type as declared.
#[derive(Debug)]
pub struct EnumDefinition {
    /// The type's identifier.
    pub ident: String,
    /// The full path of the type, which tells two types of one name apart.
    pub path: String,
    /// The variants, in declaration order.
    pub variants: Vec<VariantSource>,
    /// An explicit name for the type.
    pub rename: Option<String>,
    pub rename_all: Option<RenameRule>,
    /// An explicit representation override (`"i32"`, `"i64"`, `"u32"`, `"u64"`).
    pub repr: Option<String>,
    /// The declaration's attributes, read for a native representation.
    pub attrs: Vec<AttrMeta>,
    pub description: Option<String>,
    pub deprecated: bool,
    pub external_docs: Option<ExternalDocument>,
    /// The variant identifiers of a structurally identical external type.
    pub remote: Option<Vec<String>>,
}

/// What generation gives for one enumeration type.
#[derive(Debug)]
pub struct GeneratedEnum {
    /// The canonical type name.
    pub name: String,
    pub path: String,
    pub catalog: Catalog,
    pub description: Option<String>,
    pub deprecated: bool,
    pub external_docs: Option<ExternalDocument>,
    pub bridge: Option<RemoteBridge>,
}

/// The identifiers of the declared variants.
pub open spec fn source_idents(srcs: Seq<VariantSource>) -> Seq<Seq<char>> {
    srcs.map_values(|v: VariantSource| v.ident@)
}

/// The canonical type name: the explicit name, else the identifier.
pub open spec fn canonical_type_name(def: EnumDefinition) -> Seq<char> {
    match def.rename {
        Some(n) => n@,
        None => def.ident@,
    }
}

pub open spec fn def_repr(def: EnumDefinition) -> Option<crate::repr::EnumRepr> {
    resolved_repr(def.repr, def.attrs@)
}

/// `g` is what generation makes of `def` when it succeeds.
pub open spec fn generated_from(def: EnumDefinition, g: GeneratedEnum) -> bool {
    &&& g.name@ == canonical_type_name(def)
    &&& g.path@ == def.path@
    &&& g.catalog.built_from(def.variants@, def.rename_all, def_repr(def))
    &&& g.catalog.wf()
    &&& opt_view(g.description) == opt_view(def.description)
    &&& g.deprecated == def.deprecated
    &&& same_docs(g.external_docs, def.external_docs)
    &&& match def.remote {
        Some(rem) => match g.bridge {
            Some(b) => bridge_outcome(
                source_idents(def.variants@),
                names_view(rem@),
                Ok::<RemoteBridge, GenerateError>(b),
            ),
            None => false,
        },
        None => g.bridge is None,
    }
}

/// The result of generation: the first faulty variant's error; else, with
/// an external type, its bridge outcome; else the generated parts.
pub open spec fn generation_outcome(def: EnumDefinition, r: Result<GeneratedEnum, GenerateError>) -> bool {
    if !no_variant_fault(def.variants@, def_repr(def)) {
        match r {
            Ok(_) => false,
            Err(e) => is_first_fault(def.variants@, def_repr(def), e),
        }
    } else {
        match r {
            Ok(g) => generated_from(def, g),
            Err(e) => match def.remote {
                Some(rem) => bridge_outcome(
                    source_idents(def.variants@),
                    names_view(rem@),
                    Err::<RemoteBridge, GenerateError>(e),
                ),
                None => false,
            },
        }
    }
}

fn variant_idents(srcs: &Vec<VariantSource>) -> (r: Vec<String>)
    ensures
        names_view(r@) == source_idents(srcs@),
{
    let mut out: Vec<String> = Vec::new();
    let mut i: usize = 0;
    while i < srcs.len()
        invariant
            i <= srcs@.len(),
            out@.len() == i,
            forall|k: int| 0 <= k < i ==> (#[trigger] out@[k])@ == srcs@[k].ident@,
        decreases srcs.len() - i,
    {
        out.push(srcs[i].ident.clone());
        i = i + 1;
    }
    assert(names_view(out@) =~= source_idents(srcs@));
    out
}

/// Generates the catalog, schema descriptor and optional bridge of an
/// enumeration type, or the fault that stops generation.
pub fn generate(def: &EnumDefinition) -> (r: Result<GeneratedEnum, GenerateError>)
    ensures
        generation_outcome(*def, r),
{
    let repr = resolve_repr(&def.repr, &def.attrs);
    let catalog = match Catalog::build(&def.variants, def.rename_all, repr) {
        Ok(c) => c,
        Err(e) => {
            return Err(e);
        },
    };
    let bridge = match &def.remote {
        Some(rem) => {
            let local = variant_idents(&def.variants);
            match RemoteBridge::new(&local, rem) {
                Ok(b) => Some(b),
                Err(e) => {
                    return Err(e);
                },
            }
        },
        None => None,
    };
    let name = match &def.rename {
        Some(n) => n.clone(),
        None => def.ident.clone(),
    };
    Ok(
        GeneratedEnum {
            name,
            path: def.path.clone(),
            catalog,
            description: clone_opt(&def.description),
            deprecated: def.deprecated,
            external_docs: clone_docs(&def.external_docs),
            bridge,
        },
    )
}

impl GeneratedEnum {
    /// The schema descriptor of the type.
    pub fn schema(&self) -> (r: SchemaDescriptor)
        requires
            self.catalog.wf(),
        ensures
            r.describes(self.catalog, self.description, self.deprecated, self.external_docs),
    {
        build_schema(&self.catalog, &self.description, self.deprecated, &self.external_docs)
    }

    /// Registers the type's schema under its canonical name.
    pub fn register(&self, registry: &mut Registry) -> (r: Result<(), GenerateError>)
        requires
            self.catalog.wf(),
        ensures
            exists|s: SchemaDescriptor|
                s.describes(self.catalog, self.description, self.deprecated, self.external_docs)
                    && create_outcome(*old(registry), self.name@, self.path@, s, *final(registry), r),
    {
        let schema = self.schema();
        registry.create_schema(self.name.as_str(), self.path.as_str(), schema)
    }
}

/// Encoding is defined for every declared variant: at each declaration
/// position a generated catalog meets the encoder's precondition.
pub proof fn encode_total(def: EnumDefinition, g: GeneratedEnum, i: int)
    requires
        generated_from(def, g),
        0 <= i < def.variants@.len(),
    ensures
        g.catalog.wf(),
        0 <= i < g.catalog.variants@.len(),
{
}

/// The enumerated values of the schema follow declaration order: position
/// `i` holds the `i`-th declared variant's discriminant cast to the integer
/// kind (integer representation) or canonical name (string representation).
pub proof fn enum_values_in_declaration_order(
    def: EnumDefinition,
    g: GeneratedEnum,
    s: SchemaDescriptor,
    i: int,
)
    requires
        generated_from(def, g),
        s.describes(g.catalog, g.description, g.deprecated, g.external_docs),
        0 <= i < def.variants@.len(),
    ensures
        s.enum_items@.len() == def.variants@.len(),
        match def_repr(def) {
            Some(k) => s.enum_items@[i] == json_int(wrap(k, resolved_disc(def.variants@, i))),
            None => is_json_string(s.enum_items@[i], canonical_name(def.variants@[i], def.rename_all)),
        },
{
    assert(g.catalog.is_encoding(i, s.enum_items@[i]));
}

} // verus!
