//! The variant catalog: the ordered, validated variants with their
//! canonical names and discriminants.
use vstd::prelude::*;
use vstd::arithmetic::div_mod::{
    lemma_fundamental_div_mod, lemma_fundamental_div_mod_converse, lemma_mod_multiples_vanish,
    lemma_small_mod,
};
use crate::repr::EnumRepr;
use crate::rename::{RenameRule, apply_rename_rule_variant, rule_applied};

verus! {

/// A fault that stops generation. Variant faults carry the position of the
/// offending variant in declaration order.
#[derive(Clone, Copy, Debug, PartialEq, Eq, Structural)]
pub enum GenerateError {
    /// The variant carries fields; only unit variants are allowed.
    NonUnitVariant(usize),
    /// The local variant at this position has no counterpart in the
    /// external enumeration.
    RemoteMissing(usize),
    /// The external variant at this position has no counterpart in the
    /// local enumeration.
    RemoteExtra(usize),
    /// Another enumeration type is already registered under the name.
    DuplicateName,
}

/// A variant as declared.
#[derive(Clone, Debug)]
pub struct VariantSource {
    pub ident: String,
    pub rename: Option<String>,
    /// The value of an explicit discriminant expression, if any.
    pub discriminant: Option<i128>,
    pub has_fields: bool,
}

/// A catalog entry. Under an integer representation the discriminant is
/// the declared one cast to the integer kind; otherwise it is zero and
/// unused.
#[derive(Clone, Debug)]
pub struct Variant {
    pub ident: String,
    pub name: String,
    pub discriminant: i128,
}

/// The variants of one enumeration, in declaration order, with its
/// representation (`None`: string-keyed).
#[derive(Clone, Debug)]
pub struct Catalog {
    pub repr: Option<EnumRepr>,
    pub variants: Vec<Variant>,
}

/// Smallest value of the integer kind.
pub open spec fn repr_min(k: EnumRepr) -> int {
    match k {
        EnumRepr::I32 => i32::MIN as int,
        EnumRepr::I64 => i64::MIN as int,
        EnumRepr::U32 => 0,
        EnumRepr::U64 => 0,
    }
}

/// Largest value of the integer kind.
pub open spec fn repr_max(k: EnumRepr) -> int {
    match k {
        EnumRepr::I32 => i32::MAX as int,
        EnumRepr::I64 => i64::MAX as int,
        EnumRepr::U32 => u32::MAX as int,
        EnumRepr::U64 => u64::MAX as int,
    }
}

pub open spec fn fits(k: EnumRepr, v: int) -> bool {
    repr_min(k) <= v <= repr_max(k)
}

pub open spec fn is_signed(k: EnumRepr) -> bool {
    k is I32 || k is I64
}

/// The number of values of the integer kind.
pub open spec fn modulus(k: EnumRepr) -> int {
    match k {
        EnumRepr::I32 | EnumRepr::U32 => 0x1_0000_0000,
        EnumRepr::I64 | EnumRepr::U64 => 0x1_0000_0000_0000_0000,
    }
}

/// `v` cast to kind `k` as an `as` cast does: the value of the kind that is
/// congruent to `v` modulo the kind's number of values.
pub open spec fn wrap(k: EnumRepr, v: int) -> int {
    let r = v % modulus(k);
    if is_signed(k) && r >= modulus(k) / 2 {
        r - modulus(k)
    } else {
        r
    }
}

/// A cast value fits its kind.
pub proof fn lemma_wrap_fits(k: EnumRepr, v: int)
    ensures
        fits(k, wrap(k, v)),
{
    lemma_fundamental_div_mod(v, modulus(k));
    vstd::arithmetic::div_mod::lemma_mod_bound(v, modulus(k));
}

/// Casting a value that fits leaves it as it is.
pub proof fn lemma_wrap_fitting(k: EnumRepr, v: int)
    requires
        fits(k, v),
    ensures
        wrap(k, v) == v,
{
    let m = modulus(k);
    if v >= 0 {
        lemma_small_mod(v as nat, m as nat);
    } else {
        lemma_fundamental_div_mod_converse(v, m, -1, v + m);
    }
}

/// Casting the successor of a cast value is casting the successor.
proof fn lemma_wrap_succ(k: EnumRepr, a: int)
    ensures
        wrap(k, wrap(k, a) + 1) == wrap(k, a + 1),
{
    let m = modulus(k);
    lemma_fundamental_div_mod(a, m);
    let s: int = if is_signed(k) && a % m >= m / 2 {
        1
    } else {
        0
    };
    let j: int = -(a / m) - s;
    assert(wrap(k, a) + 1 == m * j + (a + 1)) by (nonlinear_arith)
        requires
            a == m * (a / m) + (a % m),
            wrap(k, a) == a % m - s * m,
            j == -(a / m) - s,
    ;
    lemma_mod_multiples_vanish(j, a + 1, m);
}

/// The Euclidean remainder of `d` by `m`.
fn euclid_mod(d: i128, m: i128) -> (r: i128)
    requires
        0 < m <= 0x1_0000_0000_0000_0000,
    ensures
        r == d as int % m as int,
{
    if d >= 0 {
        d % m
    } else {
        let p: i128 = -(d + 1);
        let t: i128 = p % m;
        proof {
            lemma_fundamental_div_mod(p as int, m as int);
            let q: int = p as int / m as int;
            assert(d as int == (-q - 1) * m + (m - 1 - t)) by (nonlinear_arith)
                requires
                    p as int == m * q + t,
                    p == -(d + 1),
            ;
            lemma_fundamental_div_mod_converse(d as int, m as int, -q - 1, m - 1 - t);
        }
        m - 1 - t
    }
}

/// Casts `v` to kind `k`.
pub fn wrap_to(k: EnumRepr, v: i128) -> (r: i128)
    ensures
        r == wrap(k, v as int),
        fits(k, r as int),
{
    proof {
        lemma_wrap_fits(k, v as int);
    }
    let (m, half, signed): (i128, i128, bool) = match k {
        EnumRepr::I32 => (0x1_0000_0000, 0x8000_0000, true),
        EnumRepr::U32 => (0x1_0000_0000, 0x8000_0000, false),
        EnumRepr::I64 => (0x1_0000_0000_0000_0000, 0x8000_0000_0000_0000, true),
        EnumRepr::U64 => (0x1_0000_0000_0000_0000, 0x8000_0000_0000_0000, false),
    };
    let r = euclid_mod(v, m);
    if signed && r >= half {
        r - m
    } else {
        r
    }
}

/// The discriminant of variant `i`: its explicit value, else one more than
/// the previous variant's, else zero for the first.
pub open spec fn resolved_disc(srcs: Seq<VariantSource>, i: int) -> int
    decreases i,
{
    if i < 0 {
        0
    } else {
        match srcs[i].discriminant {
            Some(d) => d as int,
            None => if i == 0 {
                0
            } else {
                resolved_disc(srcs, i - 1) + 1
            },
        }
    }
}

/// The canonical name of a variant: its own rename, else the
/// whole-enumeration rule applied to its identifier.
pub open spec fn canonical_name(src: VariantSource, rule: Option<RenameRule>) -> Seq<char> {
    match src.rename {
        Some(n) => n@,
        None => rule_applied(rule, src.ident@),
    }
}

/// The fault of variant `i`, if it has one.
pub open spec fn variant_fault(srcs: Seq<VariantSource>, repr: Option<EnumRepr>, i: int) -> Option<
    GenerateError,
> {
    if srcs[i].has_fields {
        Some(GenerateError::NonUnitVariant(i as usize))
    } else {
        None
    }
}

/// No variant has a fault.
pub open spec fn no_variant_fault(srcs: Seq<VariantSource>, repr: Option<EnumRepr>) -> bool {
    forall|i: int| 0 <= i < srcs.len() ==> (#[trigger] variant_fault(srcs, repr, i)) is None
}

/// `e` is the fault of the first faulty variant.
pub open spec fn is_first_fault(srcs: Seq<VariantSource>, repr: Option<EnumRepr>, e: GenerateError) -> bool {
    exists|i: int|
        0 <= i < srcs.len() && #[trigger] variant_fault(srcs, repr, i) == Some(e) && forall|j: int|
            0 <= j < i ==> (#[trigger] variant_fault(srcs, repr, j)) is None
}

impl Catalog {
    /// Under an integer representation every discriminant fits its kind.
    pub open spec fn wf(&self) -> bool {
        forall|i: int|
            0 <= i < self.variants@.len() ==> match self.repr {
                Some(k) => fits(k, #[trigger] self.variants@[i].discriminant as int),
                None => true,
            }
    }

    /// The catalog that `srcs` gives, entry by entry.
    pub open spec fn built_from(
        &self,
        srcs: Seq<VariantSource>,
        rule: Option<RenameRule>,
        repr: Option<EnumRepr>,
    ) -> bool {
        &&& self.repr == repr
        &&& self.variants@.len() == srcs.len()
        &&& forall|i: int|
            0 <= i < srcs.len() ==> {
                &&& (#[trigger] self.variants@[i]).ident@ == srcs[i].ident@
                &&& self.variants@[i].name@ == canonical_name(srcs[i], rule)
                &&& self.variants@[i].discriminant == match repr {
                    Some(k) => wrap(k, resolved_disc(srcs, i)),
                    None => 0,
                }
            }
    }

    /// Builds the catalog of the declared variants, in declaration order,
    /// or names the first variant that cannot stand in it.
    pub fn build(srcs: &Vec<VariantSource>, rule: Option<RenameRule>, repr: Option<EnumRepr>) -> (r:
        Result<Catalog, GenerateError>)
        ensures
            match r {
                Ok(c) => no_variant_fault(srcs@, repr) && c.built_from(srcs@, rule, repr) && c.wf(),
                Err(e) => is_first_fault(srcs@, repr, e),
            },
    {
        let mut variants: Vec<Variant> = Vec::new();
        let mut prev: i128 = 0;
        let mut i: usize = 0;
        while i < srcs.len()
            invariant
                i <= srcs@.len(),
                variants@.len() == i,
                forall|j: int| 0 <= j < i ==> (#[trigger] variant_fault(srcs@, repr, j)) is None,
                i > 0 && repr is Some ==> prev == wrap(repr->0, resolved_disc(srcs@, i - 1)),
                i > 0 && repr is Some ==> fits(repr->0, prev as int),
                forall|j: int|
                    0 <= j < i ==> {
                        &&& (#[trigger] variants@[j]).ident@ == srcs@[j].ident@
                        &&& variants@[j].name@ == canonical_name(srcs@[j], rule)
                        &&& variants@[j].discriminant == match repr {
                            Some(k) => wrap(k, resolved_disc(srcs@, j)),
                            None => 0,
                        }
                        &&& match repr {
                            Some(k) => fits(k, variants@[j].discriminant as int),
                            None => true,
                        }
                    },
            decreases srcs.len() - i,
        {
            let src = &srcs[i];
            if src.has_fields {
                assert(variant_fault(srcs@, repr, i as int) == Some(GenerateError::NonUnitVariant(i)));
                return Err(GenerateError::NonUnitVariant(i));
            }
            let mut disc: i128 = 0;
            match repr {
                Some(k) => {
                    disc = match src.discriminant {
                        Some(d) => wrap_to(k, d),
                        None => if i == 0 {
                            proof {
                                lemma_small_mod(0, modulus(k) as nat);
                            }
                            0
                        } else {
                            proof {
                                lemma_wrap_succ(k, resolved_disc(srcs@, i - 1));
                            }
                            wrap_to(k, prev + 1)
                        },
                    };
                    proof {
                        lemma_wrap_fits(k, resolved_disc(srcs@, i as int));
                    }
                    assert(disc == wrap(k, resolved_disc(srcs@, i as int)));
                    prev = disc;
                },
                None => {},
            }
            let name = match &src.rename {
                Some(n) => n.clone(),
                None => apply_rename_rule_variant(rule, src.ident.clone()),
            };
            variants.push(Variant { ident: src.ident.clone(), name, discriminant: disc });
            assert(variant_fault(srcs@, repr, i as int) is None);
            i = i + 1;
        }
        Ok(Catalog { repr, variants })
    }
}

} // verus!
