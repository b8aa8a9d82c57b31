//! The hash-oriented key/value backend's shape, modelled in memory.
//!
//! One item is denormalized on write into a flat field hash, one
//! sub-hash per comment with its index tracked in a companion set, and
//! one ordered list per dependency group with the group names tracked
//! in a companion set. A read re-derives the structure the other way:
//! companion sets first, then every referenced sub-key, then the
//! fallible reconstruction of the records from their string fields.

use vstd::prelude::*;
use crate::models::{
    Comment, CommentView, DependencyView, FieldBag, ModelError, PackageData, PackageDependency,
    PackageView, bag_lookup, spec_comment_from_bag, spec_package_from_flat,
};
use crate::numbers::int_str;
use crate::storage::StorageError;

verus! {

/// Everything the store holds for one item.
#[derive(Debug)]
pub struct HashItemRecord {
    pub hash: FieldBag,
    pub comment_keys: Vec<usize>,
    pub comment_hashes: Vec<(usize, FieldBag)>,
    pub dep_groups: Vec<String>,
    pub dep_lists: Vec<(String, Vec<String>)>,
}

#[verifier::ext_equal]
pub ghost struct HashItemView {
    pub hash: Seq<(Seq<char>, Seq<char>)>,
    pub comment_keys: Seq<int>,
    pub comment_hashes: Seq<(int, Seq<(Seq<char>, Seq<char>)>)>,
    pub dep_groups: Seq<Seq<char>>,
    pub dep_lists: Seq<(Seq<char>, Seq<Seq<char>>)>,
}

impl View for HashItemRecord {
    type V = HashItemView;

    open spec fn view(&self) -> HashItemView {
        HashItemView {
            hash: self.hash@,
            comment_keys: self.comment_keys@.map_values(|k: usize| k as int),
            comment_hashes: self.comment_hashes@.map_values(
                |p: (usize, FieldBag)| (p.0 as int, p.1@)),
            dep_groups: self.dep_groups@.map_values(|g: String| g@),
            dep_lists: self.dep_lists@.map_values(
                |p: (String, Vec<String>)| (p.0@, p.1@.map_values(|s: String| s@))),
        }
    }
}

/// The whole store: one record per item name; a later record for a
/// name shadows an earlier one.
#[derive(Debug)]
pub struct HashStore {
    pub items: Vec<(String, HashItemRecord)>,
}

impl View for HashStore {
    type V = Seq<(Seq<char>, HashItemView)>;

    open spec fn view(&self) -> Seq<(Seq<char>, HashItemView)> {
        self.items@.map_values(|p: (String, HashItemRecord)| (p.0@, p.1@))
    }
}

/// The latest record stored under a name, if any.
pub open spec fn store_lookup(s: Seq<(Seq<char>, HashItemView)>, name: Seq<char>)
    -> Option<HashItemView>
    decreases s.len(),
{
    if s.len() == 0 {
        None
    } else if s.last().0 == name {
        Some(s.last().1)
    } else {
        store_lookup(s.drop_last(), name)
    }
}

/// The latest sub-hash stored under an integer key, if any.
pub open spec fn ilist_lookup(l: Seq<(int, Seq<(Seq<char>, Seq<char>)>)>, k: int)
    -> Option<Seq<(Seq<char>, Seq<char>)>>
    decreases l.len(),
{
    if l.len() == 0 {
        None
    } else if l.last().0 == k {
        Some(l.last().1)
    } else {
        ilist_lookup(l.drop_last(), k)
    }
}

/// The latest list stored under a group name, if any.
pub open spec fn slist_lookup(l: Seq<(Seq<char>, Seq<Seq<char>>)>, k: Seq<char>)
    -> Option<Seq<Seq<char>>>
    decreases l.len(),
{
    if l.len() == 0 {
        None
    } else if l.last().0 == k {
        Some(l.last().1)
    } else {
        slist_lookup(l.drop_last(), k)
    }
}

pub open spec fn opt_entry(k: Seq<char>, o: Option<Seq<char>>) -> Seq<(Seq<char>, Seq<char>)> {
    match o {
        Some(v) => seq![(k, v)],
        None => Seq::empty(),
    }
}

/// The optional detail fields, present in the hash exactly when the
/// record has them.
pub open spec fn spec_opt_bag(p: PackageView) -> Seq<(Seq<char>, Seq<char>)> {
    opt_entry("conflicts"@, p.additional.conflicts)
        + opt_entry("provides"@, p.additional.provides)
        + opt_entry("keywords"@, p.additional.keywords)
        + opt_entry("license"@, p.additional.license)
}

/// The required basic and detail fields, flattened to strings. The
/// item's name is not stored: the key carries it.
pub open spec fn spec_req_bag(p: PackageView) -> Seq<(Seq<char>, Seq<char>)> {
    seq![
        ("popularity"@, p.basic.popularity),
        ("last_updated"@, p.basic.last_updated),
        ("description"@, p.basic.description),
        ("maintainer"@, p.basic.maintainer),
        ("version"@, p.basic.version),
        ("votes"@, int_str(p.basic.votes)),
        ("path_to_additional_data"@, p.basic.path_to_additional_data),
        ("firstsubmitted"@, p.additional.first_submitted),
        ("gitcloneurl"@, p.additional.git_clone_url),
        ("submitter"@, p.additional.submitter),
        ("detailpopularity"@, p.additional.popularity),
    ]
}

pub open spec fn spec_flat_bag(p: PackageView) -> Seq<(Seq<char>, Seq<char>)> {
    spec_opt_bag(p) + spec_req_bag(p)
}

pub open spec fn spec_comment_bag(c: CommentView) -> Seq<(Seq<char>, Seq<char>)> {
    seq![("header"@, c.header), ("content"@, c.content)]
}

/// The comment indices an item with `n` comments tracks: 1 through `n`.
pub open spec fn spec_comment_keys(n: int) -> Seq<int> {
    Seq::new(n as nat, |i: int| i + 1)
}

pub open spec fn spec_comment_hashes(cs: Seq<CommentView>)
    -> Seq<(int, Seq<(Seq<char>, Seq<char>)>)> {
    Seq::new(cs.len(), |i: int| (i + 1, spec_comment_bag(cs[i])))
}

pub open spec fn spec_dep_groups(ds: Seq<DependencyView>) -> Seq<Seq<char>> {
    ds.map_values(|d: DependencyView| d.group)
}

pub open spec fn spec_dep_lists(ds: Seq<DependencyView>) -> Seq<(Seq<char>, Seq<Seq<char>>)> {
    ds.map_values(|d: DependencyView| (d.group, d.packages))
}

/// The record one insert writes for an item.
pub open spec fn spec_hash_record(p: PackageView) -> HashItemView {
    HashItemView {
        hash: spec_flat_bag(p),
        comment_keys: spec_comment_keys(p.comments.len() as int),
        comment_hashes: spec_comment_hashes(p.comments),
        dep_groups: spec_dep_groups(p.dependencies),
        dep_lists: spec_dep_lists(p.dependencies),
    }
}

/// What inserting an item does to the store: its record is written
/// whole under its name, shadowing any earlier record.
pub open spec fn spec_hash_insert(s: Seq<(Seq<char>, HashItemView)>, p: PackageView)
    -> Seq<(Seq<char>, HashItemView)> {
    s.push((p.basic.name, spec_hash_record(p)))
}

/// Rebuilding the comments: each tracked index must lead to a sub-hash
/// that reconstructs; a missing sub-hash reads as an empty one.
pub open spec fn rebuild_comments(
    chs: Seq<(int, Seq<(Seq<char>, Seq<char>)>)>,
    keys: Seq<int>,
) -> Result<Seq<CommentView>, ModelError>
    decreases keys.len(),
{
    if keys.len() == 0 {
        Ok(Seq::empty())
    } else {
        match rebuild_comments(chs, keys.drop_last()) {
            Err(e) => Err(e),
            Ok(s) => {
                let bag = match ilist_lookup(chs, keys.last()) {
                    Some(b) => b,
                    None => Seq::empty(),
                };
                match spec_comment_from_bag(bag) {
                    Err(e) => Err(e),
                    Ok(c) => Ok(s.push(c)),
                }
            },
        }
    }
}

/// Rebuilding the dependency groups: each tracked group name gets the
/// list stored for it; a missing list reads as empty.
pub open spec fn rebuild_deps(
    dls: Seq<(Seq<char>, Seq<Seq<char>>)>,
    groups: Seq<Seq<char>>,
) -> Seq<DependencyView>
    decreases groups.len(),
{
    if groups.len() == 0 {
        Seq::empty()
    } else {
        rebuild_deps(dls, groups.drop_last()).push(DependencyView {
            group: groups.last(),
            packages: match slist_lookup(dls, groups.last()) {
                Some(ps) => ps,
                None => Seq::empty(),
            },
        })
    }
}

/// What reading an item back yields: nothing stored under the name is
/// `NotFound`; stored fields that cannot be reconstructed are a decode
/// failure; otherwise the fully re-derived record.
pub open spec fn spec_hash_get(s: Seq<(Seq<char>, HashItemView)>, name: Seq<char>)
    -> Result<PackageView, StorageError> {
    match store_lookup(s, name) {
        None => Err(StorageError::NotFound),
        Some(rec) => {
            let bag = rec.hash.push(("name"@, name));
            match spec_package_from_flat(bag) {
                Err(e) => Err(StorageError::Decode { cause: e }),
                Ok(ba) => match rebuild_comments(rec.comment_hashes, rec.comment_keys) {
                    Err(e) => Err(StorageError::Decode { cause: e }),
                    Ok(cs) => Ok(PackageView {
                        basic: ba.0,
                        additional: ba.1,
                        dependencies: rebuild_deps(rec.dep_lists, rec.dep_groups),
                        comments: cs,
                    }),
                },
            }
        },
    }
}

pub open spec fn pkg_res_view(r: Result<PackageData, StorageError>)
    -> Result<PackageView, StorageError> {
    match r {
        Ok(p) => Ok(p@),
        Err(e) => Err(e),
    }
}

/// Flattens the required and optional fields of an item into one
/// string-valued hash.
#[verifier::rlimit(60)]
pub fn flat_bag_of(pkg: &PackageData) -> (r: FieldBag)
    ensures
        r@ == spec_flat_bag(pkg@),
{
    let mut hash = FieldBag::new();
    match &pkg.additional.conflicts {
        Some(v) => {
            hash.insert("conflicts".to_owned(), v.clone());
        },
        None => {},
    }
    match &pkg.additional.provides {
        Some(v) => {
            hash.insert("provides".to_owned(), v.clone());
        },
        None => {},
    }
    match &pkg.additional.keywords {
        Some(v) => {
            hash.insert("keywords".to_owned(), v.clone());
        },
        None => {},
    }
    match &pkg.additional.license {
        Some(v) => {
            hash.insert("license".to_owned(), v.clone());
        },
        None => {},
    }
    assert(hash@ =~= spec_opt_bag(pkg@));
    hash.insert("popularity".to_owned(), pkg.basic.popularity.clone());
    hash.insert("last_updated".to_owned(), pkg.basic.last_updated.clone());
    hash.insert("description".to_owned(), pkg.basic.description.clone());
    hash.insert("maintainer".to_owned(), pkg.basic.maintainer.clone());
    hash.insert("version".to_owned(), pkg.basic.version.clone());
    hash.insert("votes".to_owned(), crate::numbers::i32_to_dec_string(pkg.basic.votes));
    hash.insert("path_to_additional_data".to_owned(),
        pkg.basic.path_to_additional_data.clone());
    hash.insert("firstsubmitted".to_owned(), pkg.additional.first_submitted.clone());
    hash.insert("gitcloneurl".to_owned(), pkg.additional.git_clone_url.clone());
    hash.insert("submitter".to_owned(), pkg.additional.submitter.clone());
    hash.insert("detailpopularity".to_owned(), pkg.additional.popularity.clone());
    assert(hash@ =~= spec_flat_bag(pkg@));
    hash
}

/// Builds the comment sub-hashes and their companion index set.
pub fn comment_records_of(comments: &Vec<Comment>) -> (r: (Vec<usize>, Vec<(usize, FieldBag)>))
    ensures
        r.0@.map_values(|k: usize| k as int) == spec_comment_keys(
            comments@.map_values(|c: Comment| c@).len() as int),
        r.1@.map_values(|p: (usize, FieldBag)| (p.0 as int, p.1@)) == spec_comment_hashes(
            comments@.map_values(|c: Comment| c@)),
{
    let ghost csv = comments@.map_values(|c: Comment| c@);
    let mut comment_keys: Vec<usize> = Vec::new();
    let mut comment_hashes: Vec<(usize, FieldBag)> = Vec::new();
    let mut i: usize = 0;
    while i < comments.len()
        invariant
            i <= comments@.len(),
            csv == comments@.map_values(|c: Comment| c@),
            csv.len() == comments@.len(),
            comment_keys@.len() == i,
            forall|q: int| 0 <= q < i ==> comment_keys@[q] == q + 1,
            comment_hashes@.len() == i,
            forall|q: int| 0 <= q < i
                ==> #[trigger] comment_hashes@[q].0 == q + 1
                    && comment_hashes@[q].1@ == spec_comment_bag(csv[q]),
        decreases comments@.len() - i,
    {
        let c = &comments[i];
        let mut bag = FieldBag::new();
        bag.insert("header".to_owned(), c.header.clone());
        bag.insert("content".to_owned(), c.content.clone());
        assert(csv[i as int] == comments@[i as int]@);
        assert(bag@ =~= spec_comment_bag(csv[i as int]));
        comment_keys.push(i + 1);
        comment_hashes.push((i + 1, bag));
        i += 1;
    }
    let r = (comment_keys, comment_hashes);
    proof {
        let kf = |k: usize| k as int;
        let hf = |p: (usize, FieldBag)| (p.0 as int, p.1@);
        assert(r.0@.map_values(kf) =~= spec_comment_keys(csv.len() as int)) by {
            assert(forall|q: int| 0 <= q < r.0@.len()
                ==> #[trigger] r.0@.map_values(kf)[q] == r.0@[q] as int);
        }
        assert(r.1@.map_values(hf) =~= spec_comment_hashes(csv)) by {
            assert(forall|q: int| 0 <= q < r.1@.len()
                ==> #[trigger] r.1@.map_values(hf)[q] == (r.1@[q].0 as int, r.1@[q].1@));
        }
    }
    r
}

/// Builds the per-group dependency lists and their companion name set.
pub fn dep_records_of(deps: &Vec<PackageDependency>)
    -> (r: (Vec<String>, Vec<(String, Vec<String>)>))
    ensures
        r.0@.map_values(|g: String| g@) == spec_dep_groups(
            deps@.map_values(|d: PackageDependency| d@)),
        r.1@.map_values(|p: (String, Vec<String>)| (p.0@, p.1@.map_values(|s: String| s@)))
            == spec_dep_lists(deps@.map_values(|d: PackageDependency| d@)),
{
    let ghost dsv = deps@.map_values(|d: PackageDependency| d@);
    let mut dep_groups: Vec<String> = Vec::new();
    let mut dep_lists: Vec<(String, Vec<String>)> = Vec::new();
    let mut j: usize = 0;
    while j < deps.len()
        invariant
            j <= deps@.len(),
            dsv == deps@.map_values(|d: PackageDependency| d@),
            dsv.len() == deps@.len(),
            dep_groups@.len() == j,
            forall|q: int| 0 <= q < j ==> dep_groups@[q]@ == dsv[q].group,
            dep_lists@.len() == j,
            forall|q: int| 0 <= q < j
                ==> #[trigger] dep_lists@[q].0@ == dsv[q].group
                    && dep_lists@[q].1@.map_values(|s: String| s@) == dsv[q].packages,
        decreases deps@.len() - j,
    {
        let d = &deps[j];
        assert(dsv[j as int] == deps@[j as int]@);
        dep_groups.push(d.group.clone());
        dep_lists.push((d.group.clone(), crate::models::clone_strings(&d.packages)));
        j += 1;
    }
    let r = (dep_groups, dep_lists);
    proof {
        let gf = |g: String| g@;
        let lf = |p: (String, Vec<String>)| (p.0@, p.1@.map_values(|s: String| s@));
        assert(r.0@.map_values(gf) =~= spec_dep_groups(dsv)) by {
            assert(forall|q: int| 0 <= q < r.0@.len()
                ==> #[trigger] r.0@.map_values(gf)[q] == r.0@[q]@);
        }
        assert(r.1@.map_values(lf) =~= spec_dep_lists(dsv)) by {
            assert(forall|q: int| 0 <= q < r.1@.len()
                ==> #[trigger] r.1@.map_values(lf)[q]
                    == (r.1@[q].0@, r.1@[q].1@.map_values(|s: String| s@)));
        }
    }
    r
}

impl HashStore {
    /// An empty store.
    pub fn new() -> (r: HashStore)
        ensures
            r@ =~= Seq::<(Seq<char>, HashItemView)>::empty(),
    {
        HashStore { items: Vec::new() }
    }

    /// The in-memory store is always reachable.
    pub fn health_check(&self) -> (r: Result<(), StorageError>)
        ensures
            r is Ok,
    {
        Ok(())
    }

    /// Upserts an item by name: denormalizes it into the flat hash,
    /// the comment sub-hashes with their companion index set, and the
    /// per-group dependency lists with their companion name set.
    pub fn insert(&mut self, pkg: &PackageData) -> (r: Result<(), StorageError>)
        ensures
            final(self)@ == spec_hash_insert(old(self)@, pkg@),
            r == Ok::<(), StorageError>(()),
    {
        let hash = flat_bag_of(pkg);
        let (comment_keys, comment_hashes) = comment_records_of(&pkg.comments);
        let (dep_groups, dep_lists) = dep_records_of(&pkg.dependencies);
        let record = HashItemRecord { hash, comment_keys, comment_hashes, dep_groups, dep_lists };
        assert(record@ =~= spec_hash_record(pkg@));
        let ghost before = self@;
        self.items.push((pkg.basic.name.clone(), record));
        assert(self@ =~= before.push((pkg@.basic.name, spec_hash_record(pkg@))));
        Ok(())
    }

    fn find_record(&self, name: &str) -> (r: Option<&HashItemRecord>)
        ensures
            match r {
                Some(rec) => store_lookup(self@, name@) == Some(rec@),
                None => store_lookup(self@, name@) is None,
            },
    {
        let mut i: usize = self.items.len();
        assert(self@.take(i as int) =~= self@);
        while i > 0
            invariant
                self@.len() == self.items@.len(),
                i <= self.items@.len(),
                store_lookup(self@, name@) == store_lookup(self@.take(i as int), name@),
            decreases i,
        {
            assert(self@.take(i as int).last() == self@[i - 1]);
            assert(self@.take(i as int).drop_last() =~= self@.take(i as int - 1));
            let e = &self.items[i - 1];
            if crate::text::str_eq(e.0.as_str(), name) {
                return Some(&e.1);
            }
            i -= 1;
        }
        assert(self@.take(0) =~= Seq::<(Seq<char>, HashItemView)>::empty());
        None
    }

    /// Reads an item back: the companion sets first, then every
    /// referenced sub-key, then the fallible reconstruction.
    pub fn get(&self, name: &str) -> (r: Result<PackageData, StorageError>)
        ensures
            pkg_res_view(r) == spec_hash_get(self@, name@),
    {
        let rec = match self.find_record(name) {
            Some(rec) => rec,
            None => {
                return Err(StorageError::NotFound);
            },
        };
        let mut bag = rec.hash.duplicate();
        bag.insert("name".to_owned(), name.to_owned());
        assert(bag@ =~= rec@.hash.push(("name"@, name@)));
        let (basic, additional) = match crate::models::package_from_flat_bag(&bag) {
            Ok(p) => p,
            Err(e) => {
                return Err(StorageError::Decode { cause: e });
            },
        };

        let ghost chs = rec@.comment_hashes;
        let ghost keys = rec@.comment_keys;
        let mut comments: Vec<Comment> = Vec::new();
        let mut i: usize = 0;
        assert(keys.take(0) =~= Seq::<int>::empty());
        assert(comments@.map_values(|c: Comment| c@) =~= Seq::<CommentView>::empty());
        while i < rec.comment_keys.len()
            invariant
                i <= rec.comment_keys@.len(),
                keys == rec@.comment_keys,
                chs == rec@.comment_hashes,
                keys.len() == rec.comment_keys@.len(),
                chs.len() == rec.comment_hashes@.len(),
                store_lookup(self@, name@) == Some(rec@),
                spec_package_from_flat(rec@.hash.push(("name"@, name@)))
                    == Ok::<_, ModelError>((basic@, additional@)),
                rebuild_comments(chs, keys.take(i as int)) == Ok::<Seq<CommentView>, ModelError>(
                    comments@.map_values(|c: Comment| c@)),
            decreases rec.comment_keys@.len() - i,
        {
            let k = rec.comment_keys[i];
            assert(keys[i as int] == k as int);
            let bag = match find_comment_bag(&rec.comment_hashes, k) {
                Some(b) => b,
                None => FieldBag::new(),
            };
            proof {
                assert(keys.take(i + 1).drop_last() =~= keys.take(i as int));
                assert(keys.take(i + 1).last() == keys[i as int]);
            }
            let ghost before = comments@;
            match Comment::try_from_bag(&bag) {
                Ok(c) => {
                    let ghost cv = c@;
                    comments.push(c);
                    assert(comments@.map_values(|c: Comment| c@)
                        =~= before.map_values(|c: Comment| c@).push(cv));
                },
                Err(e) => {
                    proof {
                        lemma_rebuild_comments_error_stable(chs, keys, i + 1, e);
                    }
                    return Err(StorageError::Decode { cause: e });
                },
            }
            i += 1;
        }
        assert(keys.take(rec.comment_keys@.len() as int) =~= keys);

        let ghost dls = rec@.dep_lists;
        let ghost groups = rec@.dep_groups;
        let mut dependencies: Vec<PackageDependency> = Vec::new();
        let mut j: usize = 0;
        assert(groups.take(0) =~= Seq::<Seq<char>>::empty());
        assert(dependencies@.map_values(|d: PackageDependency| d@)
            =~= rebuild_deps(dls, groups.take(0)));
        while j < rec.dep_groups.len()
            invariant
                j <= rec.dep_groups@.len(),
                groups == rec@.dep_groups,
                dls == rec@.dep_lists,
                groups.len() == rec.dep_groups@.len(),
                dependencies@.map_values(|d: PackageDependency| d@)
                    == rebuild_deps(dls, groups.take(j as int)),
            decreases rec.dep_groups@.len() - j,
        {
            let g = &rec.dep_groups[j];
            assert(groups[j as int] == g@);
            let packages = match find_dep_list(&rec.dep_lists, g.as_str()) {
                Some(ps) => ps,
                None => Vec::new(),
            };
            let ghost before = dependencies@;
            let ghost dv = DependencyView {
                group: g@,
                packages: match slist_lookup(dls, groups[j as int]) {
                    Some(ps) => ps,
                    None => Seq::empty(),
                },
            };
            assert(packages@.map_values(|s: String| s@) == dv.packages);
            dependencies.push(PackageDependency { group: g.clone(), packages });
            proof {
                assert(groups.take(j + 1).drop_last() =~= groups.take(j as int));
                assert(groups.take(j + 1).last() == groups[j as int]);
                assert(dependencies@.map_values(|d: PackageDependency| d@)
                    =~= before.map_values(|d: PackageDependency| d@).push(dv));
            }
            j += 1;
        }
        assert(groups.take(rec.dep_groups@.len() as int) =~= groups);

        let r = PackageData { basic, additional, dependencies, comments };
        assert(pkg_res_view(Ok(r)) == spec_hash_get(self@, name@));
        Ok(r)
    }
}

/// Scans the comment sub-hashes for an index, latest entry first.
fn find_comment_bag(l: &Vec<(usize, FieldBag)>, k: usize) -> (r: Option<FieldBag>)
    ensures
        match r {
            Some(b) => ilist_lookup(
                l@.map_values(|p: (usize, FieldBag)| (p.0 as int, p.1@)), k as int) == Some(b@),
            None => ilist_lookup(
                l@.map_values(|p: (usize, FieldBag)| (p.0 as int, p.1@)), k as int) is None,
        },
{
    let ghost lv = l@.map_values(|p: (usize, FieldBag)| (p.0 as int, p.1@));
    let mut i: usize = l.len();
    assert(lv.take(i as int) =~= lv);
    while i > 0
        invariant
            lv == l@.map_values(|p: (usize, FieldBag)| (p.0 as int, p.1@)),
            lv.len() == l@.len(),
            i <= l@.len(),
            ilist_lookup(lv, k as int) == ilist_lookup(lv.take(i as int), k as int),
        decreases i,
    {
        assert(lv.take(i as int).last() == lv[i - 1]);
        assert(lv.take(i as int).drop_last() =~= lv.take(i as int - 1));
        let e = &l[i - 1];
        if e.0 == k {
            return Some(e.1.duplicate());
        }
        i -= 1;
    }
    assert(lv.take(0) =~= Seq::<(int, Seq<(Seq<char>, Seq<char>)>)>::empty());
    None
}

/// Scans the dependency lists for a group name, latest entry first.
fn find_dep_list(l: &Vec<(String, Vec<String>)>, g: &str) -> (r: Option<Vec<String>>)
    ensures
        match r {
            Some(ps) => slist_lookup(
                l@.map_values(|p: (String, Vec<String>)| (p.0@, p.1@.map_values(|s: String| s@))),
                g@) == Some(ps@.map_values(|s: String| s@)),
            None => slist_lookup(
                l@.map_values(|p: (String, Vec<String>)| (p.0@, p.1@.map_values(|s: String| s@))),
                g@) is None,
        },
{
    let ghost lv = l@.map_values(
        |p: (String, Vec<String>)| (p.0@, p.1@.map_values(|s: String| s@)));
    let mut i: usize = l.len();
    assert(lv.take(i as int) =~= lv);
    while i > 0
        invariant
            lv == l@.map_values(
                |p: (String, Vec<String>)| (p.0@, p.1@.map_values(|s: String| s@))),
            lv.len() == l@.len(),
            i <= l@.len(),
            slist_lookup(lv, g@) == slist_lookup(lv.take(i as int), g@),
        decreases i,
    {
        assert(lv.take(i as int).last() == lv[i - 1]);
        assert(lv.take(i as int).drop_last() =~= lv.take(i as int - 1));
        let e = &l[i - 1];
        if crate::text::str_eq(e.0.as_str(), g) {
            return Some(crate::models::clone_strings(&e.1));
        }
        i -= 1;
    }
    assert(lv.take(0) =~= Seq::<(Seq<char>, Seq<Seq<char>>)>::empty());
    None
}

/// Once a comment fails to rebuild, the whole read fails the same way.
proof fn lemma_rebuild_comments_error_stable(
    chs: Seq<(int, Seq<(Seq<char>, Seq<char>)>)>,
    keys: Seq<int>,
    k: int,
    e: ModelError,
)
    requires
        0 <= k <= keys.len(),
        rebuild_comments(chs, keys.take(k)) == Err::<Seq<CommentView>, ModelError>(e),
    ensures
        rebuild_comments(chs, keys) == Err::<Seq<CommentView>, ModelError>(e),
    decreases keys.len() - k,
{
    if k < keys.len() {
        assert(keys.take(k + 1).drop_last() =~= keys.take(k));
        lemma_rebuild_comments_error_stable(chs, keys, k + 1, e);
    } else {
        assert(keys.take(k) =~= keys);
    }
}

/// The flattened hash, with the name injected back, reconstructs the
/// records it was written from.
#[verifier::rlimit(100)]
proof fn lemma_flat_round_trip(p: PackageView)
    requires
        crate::numbers::is_float_text(p.basic.popularity),
        crate::numbers::is_float_text(p.additional.popularity),
        i32::MIN <= p.basic.votes <= i32::MAX,
    ensures
        spec_package_from_flat(spec_flat_bag(p).push(("name"@, p.basic.name)))
            == Ok::<(crate::models::BasicView, crate::models::AdditionalView), ModelError>(
                (p.basic, p.additional)),
{
    reveal_with_fuel(bag_lookup, 13);
    reveal_strlit("name");
    reveal_strlit("version");
    reveal_strlit("path_to_additional_data");
    reveal_strlit("votes");
    reveal_strlit("popularity");
    reveal_strlit("description");
    reveal_strlit("maintainer");
    reveal_strlit("last_updated");
    reveal_strlit("gitcloneurl");
    reveal_strlit("submitter");
    reveal_strlit("detailpopularity");
    reveal_strlit("firstsubmitted");
    reveal_strlit("keywords");
    reveal_strlit("license");
    reveal_strlit("conflicts");
    reveal_strlit("provides");

    assert("name"@.len() == 4);
    assert("version"@.len() == 7);
    assert("path_to_additional_data"@.len() == 23);
    assert("votes"@.len() == 5);
    assert("popularity"@.len() == 10);
    assert("description"@.len() == 11);
    assert("maintainer"@.len() == 10);
    assert("last_updated"@.len() == 12);
    assert("gitcloneurl"@.len() == 11);
    assert("submitter"@.len() == 9);
    assert("detailpopularity"@.len() == 16);
    assert("firstsubmitted"@.len() == 14);
    assert("keywords"@.len() == 8);
    assert("license"@.len() == 7);
    assert("conflicts"@.len() == 9);
    assert("provides"@.len() == 8);
    assert("version"@[0] != "license"@[0]);
    assert("popularity"@[0] != "maintainer"@[0]);
    assert("description"@[0] != "gitcloneurl"@[0]);
    assert("submitter"@[0] != "conflicts"@[0]);
    assert("keywords"@[0] != "provides"@[0]);

    let opt = spec_opt_bag(p);
    let req = spec_req_bag(p);
    let nm = seq![("name"@, p.basic.name)];
    let bag = spec_flat_bag(p).push(("name"@, p.basic.name));
    assert(bag =~= (opt + req) + nm);

    assert forall|k: Seq<char>| true implies #[trigger] bag_lookup(bag, k)
        == if bag_lookup(nm, k) is Some { bag_lookup(nm, k) }
            else if bag_lookup(req, k) is Some { bag_lookup(req, k) }
            else { bag_lookup(opt, k) } by {
        crate::models::lemma_bag_lookup_append(opt + req, nm, k);
        crate::models::lemma_bag_lookup_append(opt, req, k);
    }

    assert(bag_lookup(bag, "name"@) == Some(p.basic.name));
    assert(bag_lookup(bag, "version"@) == Some(p.basic.version));
    assert(bag_lookup(bag, "path_to_additional_data"@)
        == Some(p.basic.path_to_additional_data));
    assert(bag_lookup(bag, "votes"@) == Some(int_str(p.basic.votes)));
    assert(bag_lookup(bag, "popularity"@) == Some(p.basic.popularity));
    assert(bag_lookup(bag, "description"@) == Some(p.basic.description));
    assert(bag_lookup(bag, "maintainer"@) == Some(p.basic.maintainer));
    assert(bag_lookup(bag, "last_updated"@) == Some(p.basic.last_updated));
    assert(bag_lookup(bag, "gitcloneurl"@) == Some(p.additional.git_clone_url));
    assert(bag_lookup(bag, "submitter"@) == Some(p.additional.submitter));
    assert(bag_lookup(bag, "detailpopularity"@) == Some(p.additional.popularity));
    assert(bag_lookup(bag, "firstsubmitted"@) == Some(p.additional.first_submitted));
    assert(bag_lookup(bag, "keywords"@) == p.additional.keywords);
    assert(bag_lookup(bag, "license"@) == p.additional.license);
    assert(bag_lookup(bag, "conflicts"@) == p.additional.conflicts);
    assert(bag_lookup(bag, "provides"@) == p.additional.provides);

    crate::numbers::lemma_parse_int_str(p.basic.votes);

    match spec_package_from_flat(bag) {
        Ok(ba) => {
            assert(ba.0 =~= p.basic);
            assert(ba.1 =~= p.additional);
        },
        Err(_) => {
            assert(false);
        },
    }
}

/// Every tracked comment index leads back to the sub-hash written for
/// it.
proof fn lemma_comment_hash_lookup(cs: Seq<CommentView>, k: int)
    requires
        1 <= k <= cs.len(),
    ensures
        ilist_lookup(spec_comment_hashes(cs), k) == Some(spec_comment_bag(cs[k - 1])),
    decreases cs.len(),
{
    let chs = spec_comment_hashes(cs);
    assert(chs.last() == (cs.len() as int, spec_comment_bag(cs[cs.len() - 1])));
    if k < cs.len() {
        assert(chs.drop_last() =~= spec_comment_hashes(cs.drop_last()));
        lemma_comment_hash_lookup(cs.drop_last(), k);
    }
}

/// A comment's stored pair reconstructs the comment.
proof fn lemma_comment_from_bag(c: CommentView)
    ensures
        spec_comment_from_bag(spec_comment_bag(c)) == Ok::<CommentView, ModelError>(c),
{
    reveal_with_fuel(bag_lookup, 3);
    reveal_strlit("header");
    reveal_strlit("content");
    let b = spec_comment_bag(c);
    assert(b.drop_last() =~= seq![("header"@, c.header)]);
    assert("content"@.len() == 7 && "header"@.len() == 6);
    assert(bag_lookup(b, "header"@) == Some(c.header));
    assert(bag_lookup(b, "content"@) == Some(c.content));
}

/// Rebuilding the first `m` tracked comments returns them unchanged.
proof fn lemma_rebuild_comments_prefix(cs: Seq<CommentView>, m: int)
    requires
        0 <= m <= cs.len(),
    ensures
        rebuild_comments(spec_comment_hashes(cs), spec_comment_keys(m))
            == Ok::<Seq<CommentView>, ModelError>(cs.take(m)),
    decreases m,
{
    let keys = spec_comment_keys(m);
    if m == 0 {
        assert(keys =~= Seq::<int>::empty());
        assert(cs.take(0) =~= Seq::<CommentView>::empty());
    } else {
        lemma_rebuild_comments_prefix(cs, m - 1);
        assert(keys.drop_last() =~= spec_comment_keys(m - 1));
        assert(keys.last() == m);
        lemma_comment_hash_lookup(cs, m);
        lemma_comment_from_bag(cs[m - 1]);
        assert(cs.take(m) =~= cs.take(m - 1).push(cs[m - 1]));
    }
}

/// The dependency groups of one item carry distinct names.
pub open spec fn groups_distinct(ds: Seq<DependencyView>) -> bool {
    forall|i: int, j: int| 0 <= i < j < ds.len() ==> ds[i].group != ds[j].group
}

/// With distinct group names, every tracked group leads back to the
/// list written for it.
proof fn lemma_dep_list_lookup(ds: Seq<DependencyView>, k: int)
    requires
        groups_distinct(ds),
        0 <= k < ds.len(),
    ensures
        slist_lookup(spec_dep_lists(ds), ds[k].group) == Some(ds[k].packages),
    decreases ds.len(),
{
    let dls = spec_dep_lists(ds);
    assert(dls.last() == (ds.last().group, ds.last().packages));
    if k < ds.len() - 1 {
        assert(ds[k].group != ds[ds.len() - 1].group);
        assert(dls.drop_last() =~= spec_dep_lists(ds.drop_last()));
        assert(groups_distinct(ds.drop_last()));
        lemma_dep_list_lookup(ds.drop_last(), k);
    }
}

/// Rebuilding the first `m` tracked groups returns them unchanged.
proof fn lemma_rebuild_deps_prefix(ds: Seq<DependencyView>, m: int)
    requires
        groups_distinct(ds),
        0 <= m <= ds.len(),
    ensures
        rebuild_deps(spec_dep_lists(ds), spec_dep_groups(ds).take(m)) == ds.take(m),
    decreases m,
{
    let groups = spec_dep_groups(ds);
    if m == 0 {
        assert(groups.take(0) =~= Seq::<Seq<char>>::empty());
        assert(ds.take(0) =~= Seq::<DependencyView>::empty());
    } else {
        lemma_rebuild_deps_prefix(ds, m - 1);
        assert(groups.take(m).drop_last() =~= groups.take(m - 1));
        assert(groups.take(m).last() == ds[m - 1].group);
        lemma_dep_list_lookup(ds, m - 1);
        let rebuilt = DependencyView {
            group: ds[m - 1].group,
            packages: ds[m - 1].packages,
        };
        assert(rebuilt =~= ds[m - 1]);
        assert(ds.take(m) =~= ds.take(m - 1).push(ds[m - 1]));
    }
}

/// Reading an item back right after inserting it returns it whole,
/// into any prior store state: the write shadows everything older
/// under the same name, and every sub-structure is re-derived exactly.
pub proof fn lemma_hash_round_trip(s: Seq<(Seq<char>, HashItemView)>, p: PackageView)
    requires
        crate::numbers::is_float_text(p.basic.popularity),
        crate::numbers::is_float_text(p.additional.popularity),
        i32::MIN <= p.basic.votes <= i32::MAX,
        groups_distinct(p.dependencies),
    ensures
        spec_hash_get(spec_hash_insert(s, p), p.basic.name)
            == Ok::<PackageView, StorageError>(p),
{
    let s2 = spec_hash_insert(s, p);
    assert(store_lookup(s2, p.basic.name) == Some(spec_hash_record(p)));
    lemma_flat_round_trip(p);
    lemma_rebuild_comments_prefix(p.comments, p.comments.len() as int);
    assert(p.comments.take(p.comments.len() as int) =~= p.comments);
    lemma_rebuild_deps_prefix(p.dependencies, p.dependencies.len() as int);
    assert(spec_dep_groups(p.dependencies).take(p.dependencies.len() as int)
        =~= spec_dep_groups(p.dependencies));
    assert(p.dependencies.take(p.dependencies.len() as int) =~= p.dependencies);
    match spec_hash_get(s2, p.basic.name) {
        Ok(got) => {
            assert(got =~= p);
        },
        Err(_) => {
            assert(false);
        },
    }
}

} // verus!
