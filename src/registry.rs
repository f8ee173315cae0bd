//! A schema registry that is written once per name.
use vstd::prelude::*;
use crate::catalog::GenerateError;
use crate::schema::SchemaDescriptor;
use crate::text::str_eq;

verus! {

/// A registered schema, with the name it is registered under and the path
/// of the type that registered it.
#[derive(Clone, Debug)]
pub struct SchemaEntry {
    pub name: String,
    pub type_path: String,
    pub schema: SchemaDescriptor,
}

/// The registered schemas, in order of registration.
#[derive(Clone, Debug)]
pub struct Registry {
    pub entries: Vec<SchemaEntry>,
}

/// `i` is the first entry registered under `name`.
pub open spec fn first_entry(entries: Seq<SchemaEntry>, name: Seq<char>, i: int) -> bool {
    &&& 0 <= i < entries.len()
    &&& entries[i].name@ == name
    &&& forall|k: int| 0 <= k < i ==> (#[trigger] entries[k]).name@ != name
}

pub open spec fn no_entry(entries: Seq<SchemaEntry>, name: Seq<char>) -> bool {
    forall|k: int| 0 <= k < entries.len() ==> (#[trigger] entries[k]).name@ != name
}

/// What registering `schema` under `name` for the type at `path` does: a
/// new name is added at the end; a name that the same type registered is
/// left as it is; a name that another type registered is a duplicate, and
/// the registry is left as it is.
pub open spec fn create_outcome(
    before: Registry,
    name: Seq<char>,
    path: Seq<char>,
    schema: SchemaDescriptor,
    after: Registry,
    r: Result<(), GenerateError>,
) -> bool {
    if no_entry(before.entries@, name) {
        &&& r is Ok
        &&& after.entries@.len() == before.entries@.len() + 1
        &&& after.entries@.drop_last() == before.entries@
        &&& after.entries@.last().name@ == name
        &&& after.entries@.last().type_path@ == path
        &&& after.entries@.last().schema == schema
    } else {
        &&& after.entries@ == before.entries@
        &&& exists|i: int|
            first_entry(before.entries@, name, i) && if before.entries@[i].type_path@ == path {
                r is Ok
            } else {
                r == Err::<(), GenerateError>(GenerateError::DuplicateName)
            }
    }
}

impl Registry {
    /// An empty registry.
    pub fn new() -> (r: Registry)
        ensures
            r.entries@.len() == 0,
    {
        Registry { entries: Vec::new() }
    }

    fn find(&self, name: &str) -> (r: Option<usize>)
        ensures
            match r {
                Some(i) => first_entry(self.entries@, name@, i as int),
                None => no_entry(self.entries@, name@),
            },
    {
        let mut i: usize = 0;
        while i < self.entries.len()
            invariant
                i <= self.entries@.len(),
                forall|k: int| 0 <= k < i ==> (#[trigger] self.entries@[k]).name@ != name@,
            decreases self.entries.len() - i,
        {
            if str_eq(self.entries[i].name.as_str(), name) {
                return Some(i);
            }
            i = i + 1;
        }
        None
    }

    /// Registers `schema` under `name` for the type at `path`, unless the
    /// name is taken; a name taken by another type is an error.
    pub fn create_schema(&mut self, name: &str, path: &str, schema: SchemaDescriptor) -> (r: Result<
        (),
        GenerateError,
    >)
        ensures
            create_outcome(*old(self), name@, path@, schema, *final(self), r),
    {
        match self.find(name) {
            Some(i) => {
                if str_eq(self.entries[i].type_path.as_str(), path) {
                    Ok(())
                } else {
                    Err(GenerateError::DuplicateName)
                }
            },
            None => {
                let entry = SchemaEntry { name: name.to_owned(), type_path: path.to_owned(), schema };
                self.entries.push(entry);
                assert(self.entries@.drop_last() =~= old(self).entries@);
                Ok(())
            },
        }
    }

    /// The schema registered under `name`, if any.
    pub fn schema(&self, name: &str) -> (r: Option<&SchemaDescriptor>)
        ensures
            match r {
                Some(s) => exists|i: int|
                    first_entry(self.entries@, name@, i) && *s == self.entries@[i].schema,
                None => no_entry(self.entries@, name@),
            },
    {
        match self.find(name) {
            Some(i) => Some(&self.entries[i].schema),
            None => None,
        }
    }
}

/// Once one type has registered a name successfully, another type cannot
/// register under it: the second registration fails and leaves the registry unchanged.
pub proof fn duplicate_name_rejected(
    r0: Registry,
    name: Seq<char>,
    path1: Seq<char>,
    s1: SchemaDescriptor,
    r1: Registry,
    res1: Result<(), GenerateError>,
    path2: Seq<char>,
    s2: SchemaDescriptor,
    r2: Registry,
    res2: Result<(), GenerateError>,
)
    requires
        create_outcome(r0, name, path1, s1, r1, res1),
        res1 is Ok,
        create_outcome(r1, name, path2, s2, r2, res2),
        path1 != path2,
    ensures
        res2 == Err::<(), GenerateError>(GenerateError::DuplicateName),
        r2.entries@ == r1.entries@,
{
    if no_entry(r0.entries@, name) {
        let n = r0.entries@.len() as int;
        assert(r1.entries@[n].name@ == name);
        assert(!no_entry(r1.entries@, name));
        let i = choose|i: int|
            first_entry(r1.entries@, name, i) && if r1.entries@[i].type_path@ == path2 {
                res2 is Ok
            } else {
                res2 == Err::<(), GenerateError>(GenerateError::DuplicateName)
            };
        if i < n {
            assert(r1.entries@[i] == r0.entries@[i]);
        }
        assert(i == n);
    } else {
        let i0 = choose|i: int|
            first_entry(r0.entries@, name, i) && if r0.entries@[i].type_path@ == path1 {
                res1 is Ok
            } else {
                res1 == Err::<(), GenerateError>(GenerateError::DuplicateName)
            };
        assert(!no_entry(r1.entries@, name));
        let i = choose|i: int|
            first_entry(r1.entries@, name, i) && if r1.entries@[i].type_path@ == path2 {
                res2 is Ok
            } else {
                res2 == Err::<(), GenerateError>(GenerateError::DuplicateName)
            };
        assert(i == i0);
    }
}

} // verus!
