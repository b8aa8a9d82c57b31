//! The multi-keyspace table backend's shape, modelled in memory.
//!
//! One item is split on write across four independent tables — basic,
//! additional, comments, dependencies — each keyed by the item's name.
//! The tables must be created once before first use; creating them
//! again is tolerated. A read joins the four tables back together.

use vstd::prelude::*;
use crate::models::{
    AdditionalPackageData, AdditionalView, BasicPackageData, BasicView, Comment, CommentView,
    DependencyView, PackageData, PackageDependency, PackageView,
};
use crate::storage::{StorageError, assoc_lookup};
use crate::hash_store::pkg_res_view;

verus! {

/// The four tables and the created flag.
#[derive(Debug)]
pub struct TableStore {
    pub tables_created: bool,
    pub basic: Vec<(String, BasicPackageData)>,
    pub additional: Vec<(String, AdditionalPackageData)>,
    pub comments: Vec<(String, Vec<Comment>)>,
    pub dependencies: Vec<(String, Vec<PackageDependency>)>,
}

#[verifier::ext_equal]
pub ghost struct TableStoreView {
    pub tables_created: bool,
    pub basic: Seq<(Seq<char>, BasicView)>,
    pub additional: Seq<(Seq<char>, AdditionalView)>,
    pub comments: Seq<(Seq<char>, Seq<CommentView>)>,
    pub dependencies: Seq<(Seq<char>, Seq<DependencyView>)>,
}

impl View for TableStore {
    type V = TableStoreView;

    open spec fn view(&self) -> TableStoreView {
        TableStoreView {
            tables_created: self.tables_created,
            basic: self.basic@.map_values(|p: (String, BasicPackageData)| (p.0@, p.1@)),
            additional: self.additional@.map_values(
                |p: (String, AdditionalPackageData)| (p.0@, p.1@)),
            comments: self.comments@.map_values(
                |p: (String, Vec<Comment>)| (p.0@, p.1@.map_values(|c: Comment| c@))),
            dependencies: self.dependencies@.map_values(
                |p: (String, Vec<PackageDependency>)|
                    (p.0@, p.1@.map_values(|d: PackageDependency| d@))),
        }
    }
}

/// What inserting an item does once the tables exist: one row per
/// table under the item's name, shadowing earlier rows.
pub open spec fn spec_table_insert(t: TableStoreView, p: PackageView) -> TableStoreView {
    TableStoreView {
        tables_created: true,
        basic: t.basic.push((p.basic.name, p.basic)),
        additional: t.additional.push((p.basic.name, p.additional)),
        comments: t.comments.push((p.basic.name, p.comments)),
        dependencies: t.dependencies.push((p.basic.name, p.dependencies)),
    }
}

/// What reading an item back yields: the four rows joined; a name that
/// is not present in all four tables is not found.
pub open spec fn spec_table_get(t: TableStoreView, name: Seq<char>)
    -> Result<PackageView, StorageError> {
    if !t.tables_created {
        Err(StorageError::Unavailable)
    } else {
        match (assoc_lookup(t.basic, name), assoc_lookup(t.additional, name),
            assoc_lookup(t.comments, name), assoc_lookup(t.dependencies, name)) {
            (Some(b), Some(a), Some(cs), Some(ds)) => Ok(PackageView {
                basic: b,
                additional: a,
                dependencies: ds,
                comments: cs,
            }),
            _ => Err(StorageError::NotFound),
        }
    }
}

impl TableStore {
    /// A fresh store whose tables are not yet created.
    pub fn new() -> (r: TableStore)
        ensures
            !r@.tables_created,
            r@.basic =~= Seq::<(Seq<char>, BasicView)>::empty(),
            r@.additional =~= Seq::<(Seq<char>, AdditionalView)>::empty(),
            r@.comments =~= Seq::<(Seq<char>, Seq<CommentView>)>::empty(),
            r@.dependencies =~= Seq::<(Seq<char>, Seq<DependencyView>)>::empty(),
    {
        TableStore {
            tables_created: false,
            basic: Vec::new(),
            additional: Vec::new(),
            comments: Vec::new(),
            dependencies: Vec::new(),
        }
    }

    /// The in-memory store is always reachable.
    pub fn health_check(&self) -> (r: Result<(), StorageError>)
        ensures
            r is Ok,
    {
        Ok(())
    }

    /// Creates the keyspace and its four tables. Creating them a
    /// second time reports the existing ones, which is tolerated, so
    /// the call is idempotent.
    pub fn create_tables(&mut self) -> (r: Result<(), StorageError>)
        ensures
            final(self)@ == (TableStoreView { tables_created: true, ..old(self)@ }),
            r is Ok,
    {
        let r = if self.tables_created {
            crate::storage::tolerate_existing(Err(StorageError::AlreadyExists))
        } else {
            Ok(())
        };
        self.tables_created = true;
        assert(self@ =~= (TableStoreView { tables_created: true, ..old(self)@ }));
        r
    }

    /// Upserts an item by name: one row in each of the four tables.
    /// Fails when the tables were never created.
    pub fn insert(&mut self, pkg: &PackageData) -> (r: Result<(), StorageError>)
        ensures
            !old(self)@.tables_created ==> r == Err::<(), StorageError>(StorageError::Unavailable)
                && final(self)@ == old(self)@,
            old(self)@.tables_created ==> r == Ok::<(), StorageError>(())
                && final(self)@ == spec_table_insert(old(self)@, pkg@),
    {
        if !self.tables_created {
            return Err(StorageError::Unavailable);
        }
        self.basic.push((pkg.basic.name.clone(), pkg.basic.duplicate()));
        self.additional.push((pkg.basic.name.clone(), pkg.additional.duplicate()));
        self.comments.push((pkg.basic.name.clone(), crate::models::clone_comments(&pkg.comments)));
        self.dependencies.push(
            (pkg.basic.name.clone(), crate::models::clone_dependencies(&pkg.dependencies)));
        assert(self@ =~= spec_table_insert(old(self)@, pkg@));
        Ok(())
    }

    /// Reads an item back by joining its four rows.
    pub fn get(&self, name: &str) -> (r: Result<PackageData, StorageError>)
        ensures
            pkg_res_view(r) == spec_table_get(self@, name@),
    {
        if !self.tables_created {
            return Err(StorageError::Unavailable);
        }
        let basic = match find_basic(&self.basic, name) {
            Some(b) => b,
            None => {
                return Err(StorageError::NotFound);
            },
        };
        let additional = match find_additional(&self.additional, name) {
            Some(a) => a,
            None => {
                return Err(StorageError::NotFound);
            },
        };
        let comments = match find_comments(&self.comments, name) {
            Some(cs) => cs,
            None => {
                return Err(StorageError::NotFound);
            },
        };
        let dependencies = match find_dependencies(&self.dependencies, name) {
            Some(ds) => ds,
            None => {
                return Err(StorageError::NotFound);
            },
        };
        Ok(PackageData { basic, additional, dependencies, comments })
    }
}

/// Scans the basic table for a name, latest row first.
fn find_basic(l: &Vec<(String, BasicPackageData)>, name: &str) -> (r: Option<BasicPackageData>)
    ensures
        match r {
            Some(b) => assoc_lookup(
                l@.map_values(|p: (String, BasicPackageData)| (p.0@, p.1@)), name@) == Some(b@),
            None => assoc_lookup(
                l@.map_values(|p: (String, BasicPackageData)| (p.0@, p.1@)), name@) is None,
        },
{
    let ghost lv = l@.map_values(|p: (String, BasicPackageData)| (p.0@, p.1@));
    let mut i: usize = l.len();
    assert(lv.take(i as int) =~= lv);
    while i > 0
        invariant
            lv == l@.map_values(|p: (String, BasicPackageData)| (p.0@, p.1@)),
            lv.len() == l@.len(),
            i <= l@.len(),
            assoc_lookup(lv, name@) == assoc_lookup(lv.take(i as int), name@),
        decreases i,
    {
        assert(lv.take(i as int).last() == lv[i - 1]);
        assert(lv.take(i as int).drop_last() =~= lv.take(i as int - 1));
        let e = &l[i - 1];
        if crate::text::str_eq(e.0.as_str(), name) {
            return Some(e.1.duplicate());
        }
        i -= 1;
    }
    assert(lv.take(0) =~= Seq::<(Seq<char>, BasicView)>::empty());
    None
}

/// Scans the additional table for a name, latest row first.
fn find_additional(l: &Vec<(String, AdditionalPackageData)>, name: &str)
    -> (r: Option<AdditionalPackageData>)
    ensures
        match r {
            Some(a) => assoc_lookup(
                l@.map_values(|p: (String, AdditionalPackageData)| (p.0@, p.1@)), name@)
                == Some(a@),
            None => assoc_lookup(
                l@.map_values(|p: (String, AdditionalPackageData)| (p.0@, p.1@)), name@) is None,
        },
{
    let ghost lv = l@.map_values(|p: (String, AdditionalPackageData)| (p.0@, p.1@));
    let mut i: usize = l.len();
    assert(lv.take(i as int) =~= lv);
    while i > 0
        invariant
            lv == l@.map_values(|p: (String, AdditionalPackageData)| (p.0@, p.1@)),
            lv.len() == l@.len(),
            i <= l@.len(),
            assoc_lookup(lv, name@) == assoc_lookup(lv.take(i as int), name@),
        decreases i,
    {
        assert(lv.take(i as int).last() == lv[i - 1]);
        assert(lv.take(i as int).drop_last() =~= lv.take(i as int - 1));
        let e = &l[i - 1];
        if crate::text::str_eq(e.0.as_str(), name) {
            return Some(e.1.duplicate());
        }
        i -= 1;
    }
    assert(lv.take(0) =~= Seq::<(Seq<char>, AdditionalView)>::empty());
    None
}

/// Scans the comments table for a name, latest row first.
fn find_comments(l: &Vec<(String, Vec<Comment>)>, name: &str) -> (r: Option<Vec<Comment>>)
    ensures
        match r {
            Some(cs) => assoc_lookup(
                l@.map_values(
                    |p: (String, Vec<Comment>)| (p.0@, p.1@.map_values(|c: Comment| c@))),
                name@) == Some(cs@.map_values(|c: Comment| c@)),
            None => assoc_lookup(
                l@.map_values(
                    |p: (String, Vec<Comment>)| (p.0@, p.1@.map_values(|c: Comment| c@))),
                name@) is None,
        },
{
    let ghost lv = l@.map_values(
        |p: (String, Vec<Comment>)| (p.0@, p.1@.map_values(|c: Comment| c@)));
    let mut i: usize = l.len();
    assert(lv.take(i as int) =~= lv);
    while i > 0
        invariant
            lv == l@.map_values(
                |p: (String, Vec<Comment>)| (p.0@, p.1@.map_values(|c: Comment| c@))),
            lv.len() == l@.len(),
            i <= l@.len(),
            assoc_lookup(lv, name@) == assoc_lookup(lv.take(i as int), name@),
        decreases i,
    {
        assert(lv.take(i as int).last() == lv[i - 1]);
        assert(lv.take(i as int).drop_last() =~= lv.take(i as int - 1));
        let e = &l[i - 1];
        if crate::text::str_eq(e.0.as_str(), name) {
            return Some(crate::models::clone_comments(&e.1));
        }
        i -= 1;
    }
    assert(lv.take(0) =~= Seq::<(Seq<char>, Seq<CommentView>)>::empty());
    None
}

/// Scans the dependencies table for a name, latest row first.
fn find_dependencies(l: &Vec<(String, Vec<PackageDependency>)>, name: &str)
    -> (r: Option<Vec<PackageDependency>>)
    ensures
        match r {
            Some(ds) => assoc_lookup(
                l@.map_values(|p: (String, Vec<PackageDependency>)|
                    (p.0@, p.1@.map_values(|d: PackageDependency| d@))),
                name@) == Some(ds@.map_values(|d: PackageDependency| d@)),
            None => assoc_lookup(
                l@.map_values(|p: (String, Vec<PackageDependency>)|
                    (p.0@, p.1@.map_values(|d: PackageDependency| d@))),
                name@) is None,
        },
{
    let ghost lv = l@.map_values(|p: (String, Vec<PackageDependency>)|
        (p.0@, p.1@.map_values(|d: PackageDependency| d@)));
    let mut i: usize = l.len();
    assert(lv.take(i as int) =~= lv);
    while i > 0
        invariant
            lv == l@.map_values(|p: (String, Vec<PackageDependency>)|
                (p.0@, p.1@.map_values(|d: PackageDependency| d@))),
            lv.len() == l@.len(),
            i <= l@.len(),
            assoc_lookup(lv, name@) == assoc_lookup(lv.take(i as int), name@),
        decreases i,
    {
        assert(lv.take(i as int).last() == lv[i - 1]);
        assert(lv.take(i as int).drop_last() =~= lv.take(i as int - 1));
        let e = &l[i - 1];
        if crate::text::str_eq(e.0.as_str(), name) {
            return Some(crate::models::clone_dependencies(&e.1));
        }
        i -= 1;
    }
    assert(lv.take(0) =~= Seq::<(Seq<char>, Seq<DependencyView>)>::empty());
    None
}

/// Reading an item back right after inserting it into created tables
/// returns it whole, into any prior store state.
pub proof fn lemma_table_round_trip(t: TableStoreView, p: PackageView)
    ensures
        spec_table_get(spec_table_insert(t, p), p.basic.name)
            == Ok::<PackageView, StorageError>(p),
{
    let t2 = spec_table_insert(t, p);
    assert(assoc_lookup(t2.basic, p.basic.name) == Some(p.basic));
    assert(assoc_lookup(t2.additional, p.basic.name) == Some(p.additional));
    assert(assoc_lookup(t2.comments, p.basic.name) == Some(p.comments));
    assert(assoc_lookup(t2.dependencies, p.basic.name) == Some(p.dependencies));
    match spec_table_get(t2, p.basic.name) {
        Ok(got) => {
            assert(got =~= p);
        },
        Err(_) => {
            assert(false);
        },
    }
}

} // verus!
