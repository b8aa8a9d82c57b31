//! The document-store backend's shape, modelled in memory.
//!
//! One item is stored whole as a single document keyed by its name.
//! Insert is a single create call whose "already exists" answer is
//! tolerated; a read is a single lookup.

use vstd::prelude::*;
use crate::models::{PackageData, PackageView};
use crate::storage::{StorageError, assoc_lookup};
use crate::hash_store::pkg_res_view;

verus! {

/// The store: one document per name. A create never overwrites.
#[derive(Debug)]
pub struct DocStore {
    pub docs: Vec<(String, PackageData)>,
}

impl View for DocStore {
    type V = Seq<(Seq<char>, PackageView)>;

    open spec fn view(&self) -> Seq<(Seq<char>, PackageView)> {
        self.docs@.map_values(|p: (String, PackageData)| (p.0@, p.1@))
    }
}

/// What reading a document yields.
pub open spec fn spec_doc_get(s: Seq<(Seq<char>, PackageView)>, name: Seq<char>)
    -> Result<PackageView, StorageError> {
    match assoc_lookup(s, name) {
        Some(p) => Ok(p),
        None => Err(StorageError::NotFound),
    }
}

impl DocStore {
    /// An empty store.
    pub fn new() -> (r: DocStore)
        ensures
            r@ =~= Seq::<(Seq<char>, PackageView)>::empty(),
    {
        DocStore { docs: Vec::new() }
    }

    /// The in-memory store is always reachable.
    pub fn health_check(&self) -> (r: Result<(), StorageError>)
        ensures
            r is Ok,
    {
        Ok(())
    }

    /// Creates the document, or reports the one that already exists.
    fn create(&mut self, pkg: &PackageData) -> (r: Result<(), StorageError>)
        ensures
            assoc_lookup(old(self)@, pkg@.basic.name) is Some
                ==> r == Err::<(), StorageError>(StorageError::AlreadyExists)
                    && final(self)@ == old(self)@,
            assoc_lookup(old(self)@, pkg@.basic.name) is None
                ==> r is Ok && final(self)@ == old(self)@.push((pkg@.basic.name, pkg@)),
    {
        if find_doc_index(&self.docs, &pkg.basic).is_some() {
            return Err(StorageError::AlreadyExists);
        }
        let ghost before = self@;
        self.docs.push((pkg.basic.name.clone(), pkg.duplicate()));
        assert(self@ =~= before.push((pkg@.basic.name, pkg@)));
        Ok(())
    }

    /// Inserts the document, tolerating a create that reports an
    /// already existing one: a duplicate create leaves the stored
    /// document as it is and raises no error.
    pub fn insert(&mut self, pkg: &PackageData) -> (r: Result<(), StorageError>)
        ensures
            assoc_lookup(old(self)@, pkg@.basic.name) is Some ==> final(self)@ == old(self)@,
            assoc_lookup(old(self)@, pkg@.basic.name) is None
                ==> final(self)@ == old(self)@.push((pkg@.basic.name, pkg@)),
            r == Ok::<(), StorageError>(()),
    {
        let res = self.create(pkg);
        crate::storage::tolerate_existing(res)
    }

    /// Reads the document stored under a name.
    pub fn get(&self, name: &str) -> (r: Result<PackageData, StorageError>)
        ensures
            pkg_res_view(r) == spec_doc_get(self@, name@),
    {
        let mut i: usize = self.docs.len();
        assert(self@.take(i as int) =~= self@);
        while i > 0
            invariant
                self@.len() == self.docs@.len(),
                i <= self.docs@.len(),
                assoc_lookup(self@, name@) == assoc_lookup(self@.take(i as int), name@),
            decreases i,
        {
            assert(self@.take(i as int).last() == self@[i - 1]);
            assert(self@.take(i as int).drop_last() =~= self@.take(i as int - 1));
            let e = &self.docs[i - 1];
            if crate::text::str_eq(e.0.as_str(), name) {
                return Ok(e.1.duplicate());
            }
            i -= 1;
        }
        assert(self@.take(0) =~= Seq::<(Seq<char>, PackageView)>::empty());
        Err(StorageError::NotFound)
    }
}

/// Whether a document with this item's name exists.
fn find_doc_index(l: &Vec<(String, PackageData)>, basic: &crate::models::BasicPackageData)
    -> (r: Option<usize>)
    ensures
        r is Some ==> assoc_lookup(
            l@.map_values(|p: (String, PackageData)| (p.0@, p.1@)), basic@.name) is Some,
        r is None ==> assoc_lookup(
            l@.map_values(|p: (String, PackageData)| (p.0@, p.1@)), basic@.name) is None,
{
    let ghost lv = l@.map_values(|p: (String, PackageData)| (p.0@, p.1@));
    let mut i: usize = l.len();
    assert(lv.take(i as int) =~= lv);
    while i > 0
        invariant
            lv == l@.map_values(|p: (String, PackageData)| (p.0@, p.1@)),
            lv.len() == l@.len(),
            i <= l@.len(),
            assoc_lookup(lv, basic@.name) == assoc_lookup(lv.take(i as int), basic@.name),
        decreases i,
    {
        assert(lv.take(i as int).last() == lv[i - 1]);
        assert(lv.take(i as int).drop_last() =~= lv.take(i as int - 1));
        let e = &l[i - 1];
        if crate::text::str_eq(e.0.as_str(), basic.name.as_str()) {
            return Some(i - 1);
        }
        i -= 1;
    }
    assert(lv.take(0) =~= Seq::<(Seq<char>, PackageView)>::empty());
    None
}

/// Reading a document back right after inserting it under a fresh name
/// returns it whole.
pub proof fn lemma_doc_round_trip(s: Seq<(Seq<char>, PackageView)>, p: PackageView)
    requires
        assoc_lookup(s, p.basic.name) is None,
    ensures
        spec_doc_get(s.push((p.basic.name, p)), p.basic.name)
            == Ok::<PackageView, StorageError>(p),
{
}

} // verus!
