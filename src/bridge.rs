//! Total conversions between an enumeration and a structurally identical
//! external one, by shared variant identifier.
use vstd::prelude::*;
use crate::catalog::GenerateError;
use crate::text::str_eq;

verus! {

/// The views of a list of identifiers.
pub open spec fn names_view(v: Seq<String>) -> Seq<Seq<char>> {
    v.map_values(|s: String| s@)
}

/// `j` is the first position of `s` in `names`.
pub open spec fn first_pos(names: Seq<Seq<char>>, s: Seq<char>, j: int) -> bool {
    &&& 0 <= j < names.len()
    &&& names[j] == s
    &&& forall|k: int| 0 <= k < j ==> names[k] != s
}

pub open spec fn has_name(names: Seq<Seq<char>>, s: Seq<char>) -> bool {
    exists|j: int| 0 <= j < names.len() && names[j] == s
}

/// Every name of `a` occurs in `b`.
pub open spec fn covered(a: Seq<Seq<char>>, b: Seq<Seq<char>>) -> bool {
    forall|i: int| 0 <= i < a.len() ==> has_name(b, #[trigger] a[i])
}

/// No name occurs twice.
pub open spec fn distinct_names(a: Seq<Seq<char>>) -> bool {
    forall|i: int, j: int| 0 <= i < a.len() && 0 <= j < a.len() && i != j ==> a[i] != a[j]
}

/// For each variant position on one side, the position of the variant with
/// the same identifier on the other.
#[derive(Clone, Debug)]
pub struct RemoteBridge {
    pub to_remote: Vec<usize>,
    pub to_local: Vec<usize>,
}

/// What building a bridge between `local` and `remote` gives: a bridge
/// when each side's identifiers all occur in the other, else the first
/// local identifier missing remotely, else the first remote one missing
/// locally.
pub open spec fn bridge_outcome(
    local: Seq<Seq<char>>,
    remote: Seq<Seq<char>>,
    r: Result<RemoteBridge, GenerateError>,
) -> bool {
    match r {
        Ok(b) => covered(local, remote) && covered(remote, local) && b.joins(local, remote),
        Err(GenerateError::RemoteMissing(i)) => {
            &&& i < local.len()
            &&& !has_name(remote, local[i as int])
            &&& forall|k: int| 0 <= k < i ==> has_name(remote, #[trigger] local[k])
        },
        Err(GenerateError::RemoteExtra(j)) => {
            &&& covered(local, remote)
            &&& j < remote.len()
            &&& !has_name(local, remote[j as int])
            &&& forall|k: int| 0 <= k < j ==> has_name(local, #[trigger] remote[k])
        },
        Err(_) => false,
    }
}

fn position(names: &Vec<String>, s: &str) -> (r: Option<usize>)
    ensures
        match r {
            Some(j) => first_pos(names_view(names@), s@, j as int),
            None => !has_name(names_view(names@), s@),
        },
{
    let ghost nv = names_view(names@);
    let mut j: usize = 0;
    while j < names.len()
        invariant
            nv == names_view(names@),
            j <= names@.len(),
            forall|k: int| 0 <= k < j ==> nv[k] != s@,
        decreases names.len() - j,
    {
        if str_eq(names[j].as_str(), s) {
            return Some(j);
        }
        j = j + 1;
    }
    None
}

fn map_positions(from: &Vec<String>, to: &Vec<String>) -> (r: Result<Vec<usize>, usize>)
    ensures
        match r {
            Ok(m) => m@.len() == from@.len() && forall|i: int|
                0 <= i < from@.len() ==> first_pos(
                    names_view(to@),
                    names_view(from@)[i],
                    #[trigger] m@[i] as int,
                ),
            Err(i) => {
                &&& i < from@.len()
                &&& !has_name(names_view(to@), names_view(from@)[i as int])
                &&& forall|k: int|
                    0 <= k < i ==> has_name(names_view(to@), #[trigger] names_view(from@)[k])
            },
        },
{
    let ghost fv = names_view(from@);
    let ghost tv = names_view(to@);
    let mut m: Vec<usize> = Vec::new();
    let mut i: usize = 0;
    while i < from.len()
        invariant
            fv == names_view(from@),
            tv == names_view(to@),
            i <= from@.len(),
            m@.len() == i,
            forall|k: int| 0 <= k < i ==> first_pos(tv, fv[k], #[trigger] m@[k] as int),
        decreases from.len() - i,
    {
        match position(to, from[i].as_str()) {
            Some(j) => {
                m.push(j);
            },
            None => {
                assert forall|k: int| 0 <= k < i implies has_name(tv, #[trigger] fv[k]) by {
                    assert(first_pos(tv, fv[k], m@[k] as int));
                }
                return Err(i);
            },
        }
        i = i + 1;
    }
    Ok(m)
}

impl RemoteBridge {
    /// The bridge maps each variant to the first one of the same identifier
    /// on the other side.
    pub open spec fn joins(&self, local: Seq<Seq<char>>, remote: Seq<Seq<char>>) -> bool {
        &&& self.to_remote@.len() == local.len()
        &&& self.to_local@.len() == remote.len()
        &&& forall|i: int|
            0 <= i < local.len() ==> first_pos(remote, local[i], #[trigger] self.to_remote@[i] as int)
        &&& forall|j: int|
            0 <= j < remote.len() ==> first_pos(local, remote[j], #[trigger] self.to_local@[j] as int)
    }

    /// Builds the bridge, or names the first identifier without a
    /// counterpart.
    pub fn new(local: &Vec<String>, remote: &Vec<String>) -> (r: Result<RemoteBridge, GenerateError>)
        ensures
            bridge_outcome(names_view(local@), names_view(remote@), r),
    {
        let ghost lv = names_view(local@);
        let ghost rv = names_view(remote@);
        let to_remote = match map_positions(local, remote) {
            Ok(m) => m,
            Err(i) => {
                return Err(GenerateError::RemoteMissing(i));
            },
        };
        assert forall|i: int| 0 <= i < lv.len() implies has_name(rv, #[trigger] lv[i]) by {
            assert(first_pos(rv, lv[i], to_remote@[i] as int));
        }
        let to_local = match map_positions(remote, local) {
            Ok(m) => m,
            Err(j) => {
                return Err(GenerateError::RemoteExtra(j));
            },
        };
        assert forall|j: int| 0 <= j < rv.len() implies has_name(lv, #[trigger] rv[j]) by {
            assert(first_pos(lv, rv[j], to_local@[j] as int));
        }
        Ok(RemoteBridge { to_remote, to_local })
    }

    /// The external variant position for local position `i`.
    pub fn local_to_remote(&self, i: usize) -> (r: usize)
        requires
            i < self.to_remote@.len(),
        ensures
            r == self.to_remote@[i as int],
    {
        self.to_remote[i]
    }

    /// The local variant position for external position `j`.
    pub fn remote_to_local(&self, j: usize) -> (r: usize)
        requires
            j < self.to_local@.len(),
        ensures
            r == self.to_local@[j as int],
    {
        self.to_local[j]
    }
}

/// Converting a local variant to the external enumeration and back gives
/// the variant itself, and so does the round trip from the external side,
/// when neither side declares an identifier twice.
pub proof fn bridge_round_trip(
    b: RemoteBridge,
    local: Seq<Seq<char>>,
    remote: Seq<Seq<char>>,
    i: int,
    j: int,
)
    requires
        b.joins(local, remote),
        distinct_names(local),
        distinct_names(remote),
        0 <= i < local.len(),
        0 <= j < remote.len(),
    ensures
        b.to_local@[b.to_remote@[i] as int] == i,
        b.to_remote@[b.to_local@[j] as int] == j,
{
    let ri = b.to_remote@[i] as int;
    assert(first_pos(remote, local[i], ri));
    assert(first_pos(local, remote[ri], b.to_local@[ri] as int));
    let lj = b.to_local@[j] as int;
    assert(first_pos(local, remote[j], lj));
    assert(first_pos(remote, local[lj], b.to_remote@[lj] as int));
}

} // verus!
