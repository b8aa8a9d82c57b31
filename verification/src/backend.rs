//! The uniform storage contract over the closed set of backends.
//!
//! Callers depend only on this dispatcher: health check, upsert by
//! name, reconstruction by name, and a static identity string for
//! diagnostics. Each variant carries one backend shape.

use vstd::prelude::*;
use crate::doc_store::{DocStore, spec_doc_get};
use crate::hash_store::{
    HashItemView, HashStore, groups_distinct, pkg_res_view, spec_hash_get, spec_hash_insert,
};
use crate::models::{PackageData, PackageView};
use crate::storage::{StorageError, assoc_lookup};
use crate::table_store::{TableStore, TableStoreView, spec_table_get, spec_table_insert};

verus! {

/// One storage backend: a hash-oriented key/value store, a
/// multi-keyspace table store, or a document store.
#[derive(Debug)]
pub enum StorageBackend {
    Hash(HashStore),
    Table(TableStore),
    Document(DocStore),
}

#[verifier::ext_equal]
pub ghost enum BackendView {
    Hash(Seq<(Seq<char>, HashItemView)>),
    Table(TableStoreView),
    Document(Seq<(Seq<char>, PackageView)>),
}

impl View for StorageBackend {
    type V = BackendView;

    open spec fn view(&self) -> BackendView {
        match self {
            StorageBackend::Hash(s) => BackendView::Hash(s@),
            StorageBackend::Table(s) => BackendView::Table(s@),
            StorageBackend::Document(s) => BackendView::Document(s@),
        }
    }
}

/// What one insert does to a backend, and what it answers.
pub open spec fn spec_backend_insert(b: BackendView, p: PackageView)
    -> (BackendView, Result<(), StorageError>) {
    match b {
        BackendView::Hash(s) => (BackendView::Hash(spec_hash_insert(s, p)), Ok(())),
        BackendView::Table(t) => if t.tables_created {
            (BackendView::Table(spec_table_insert(t, p)), Ok(()))
        } else {
            (b, Err(StorageError::Unavailable))
        },
        BackendView::Document(s) => if assoc_lookup(s, p.basic.name) is Some {
            (b, Ok(()))
        } else {
            (BackendView::Document(s.push((p.basic.name, p))), Ok(()))
        },
    }
}

/// What reading a name from a backend yields.
pub open spec fn spec_backend_get(b: BackendView, name: Seq<char>)
    -> Result<PackageView, StorageError> {
    match b {
        BackendView::Hash(s) => spec_hash_get(s, name),
        BackendView::Table(t) => spec_table_get(t, name),
        BackendView::Document(s) => spec_doc_get(s, name),
    }
}

impl StorageBackend {
    /// Verifies connectivity; the in-memory shapes are always
    /// reachable.
    pub fn health_check(&self) -> (r: Result<(), StorageError>)
        ensures
            r is Ok,
    {
        match self {
            StorageBackend::Hash(s) => s.health_check(),
            StorageBackend::Table(s) => s.health_check(),
            StorageBackend::Document(s) => s.health_check(),
        }
    }

    /// Upserts an item by name. Safe to call repeatedly for the same
    /// name; a backend that cannot upsert natively has its "already
    /// exists" answer absorbed, never surfaced.
    pub fn insert(&mut self, pkg: &PackageData) -> (r: Result<(), StorageError>)
        ensures
            (final(self)@, r) == spec_backend_insert(old(self)@, pkg@),
    {
        match self {
            StorageBackend::Hash(s) => {
                let r = s.insert(pkg);
                assert(self@ =~= BackendView::Hash(s@));
                r
            },
            StorageBackend::Table(s) => {
                let r = s.insert(pkg);
                assert(self@ =~= BackendView::Table(s@));
                r
            },
            StorageBackend::Document(s) => {
                let r = s.insert(pkg);
                assert(self@ =~= BackendView::Document(s@));
                r
            },
        }
    }

    /// Reconstructs a complete item from the backend's native shape.
    pub fn get(&self, name: &str) -> (r: Result<PackageData, StorageError>)
        ensures
            pkg_res_view(r) == spec_backend_get(self@, name@),
    {
        match self {
            StorageBackend::Hash(s) => s.get(name),
            StorageBackend::Table(s) => s.get(name),
            StorageBackend::Document(s) => s.get(name),
        }
    }

    /// The backend's identity, for diagnostics and logging.
    pub fn get_name(&self) -> (r: &'static str)
        ensures
            self@ is Hash ==> r@ == "redis"@,
            self@ is Table ==> r@ == "skytable"@,
            self@ is Document ==> r@ == "surrealdb"@,
    {
        match self {
            StorageBackend::Hash(_) => "redis",
            StorageBackend::Table(_) => "skytable",
            StorageBackend::Document(_) => "surrealdb",
        }
    }
}

/// The conditions under which a stored item reconstructs exactly: its
/// numeric texts parse, its votes fit the stored integer width, its
/// dependency groups are distinct within the item, and — for the
/// document backend, whose create never overwrites — its name is not
/// already taken.
pub open spec fn round_trips_into(b: BackendView, p: PackageView) -> bool {
    &&& crate::numbers::is_float_text(p.basic.popularity)
    &&& crate::numbers::is_float_text(p.additional.popularity)
    &&& i32::MIN <= p.basic.votes <= i32::MAX
    &&& groups_distinct(p.dependencies)
    &&& (b is Table ==> b->Table_0.tables_created)
    &&& (b is Document ==> assoc_lookup(b->Document_0, p.basic.name) is None)
}

/// Idempotent insert: inserting the same item twice into any backend
/// raises no error on either insert, and a following read returns a
/// record equal to the one inserted.
pub proof fn lemma_insert_idempotent(b: BackendView, p: PackageView)
    requires
        round_trips_into(b, p),
    ensures
        spec_backend_insert(b, p).1 is Ok,
        spec_backend_insert(spec_backend_insert(b, p).0, p).1 is Ok,
        spec_backend_get(
            spec_backend_insert(spec_backend_insert(b, p).0, p).0,
            p.basic.name,
        ) == Ok::<PackageView, StorageError>(p),
{
    let b1 = spec_backend_insert(b, p).0;
    let b2 = spec_backend_insert(b1, p).0;
    match b {
        BackendView::Hash(s) => {
            crate::hash_store::lemma_hash_round_trip(spec_hash_insert(s, p), p);
        },
        BackendView::Table(t) => {
            crate::table_store::lemma_table_round_trip(spec_table_insert(t, p), p);
        },
        BackendView::Document(s) => {
            let s1 = s.push((p.basic.name, p));
            assert(assoc_lookup(s1, p.basic.name) == Some(p));
            crate::doc_store::lemma_doc_round_trip(s, p);
        },
    }
}

} // verus!
