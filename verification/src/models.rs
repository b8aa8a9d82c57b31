//! Normalized record types for one crawled package, and their fallible
//! construction from loosely-typed field data.

use vstd::prelude::*;

verus! {

/// Identity and summary fields taken from one listing row.
///
/// `popularity` holds the numeric text as scraped; it is validated to
/// parse as a decimal number but never interpreted further.
#[derive(Debug, Clone, PartialEq, Eq)]
pub struct BasicPackageData {
    pub name: String,
    pub version: String,
    pub path_to_additional_data: String,
    pub votes: i32,
    pub popularity: String,
    pub description: String,
    pub maintainer: String,
    pub last_updated: String,
}

/// Detail-page attributes. Optional fields are absent when the detail
/// table omits the row.
#[derive(Debug, Clone, PartialEq, Eq)]
pub struct AdditionalPackageData {
    pub git_clone_url: String,
    pub keywords: Option<String>,
    pub license: Option<String>,
    pub conflicts: Option<String>,
    pub provides: Option<String>,
    pub submitter: String,
    pub popularity: String,
    pub first_submitted: String,
}

/// A named dependency group and its ordered member packages.
#[derive(Debug, Clone, PartialEq, Eq)]
pub struct PackageDependency {
    pub group: String,
    pub packages: Vec<String>,
}

/// One comment: a free-text byline and body, both HTML-stripped.
#[derive(Debug, Clone, PartialEq, Eq)]
pub struct Comment {
    pub header: String,
    pub content: String,
}

/// The fully assembled record for one package.
#[derive(Debug, Clone, PartialEq, Eq)]
pub struct PackageData {
    pub basic: BasicPackageData,
    pub additional: AdditionalPackageData,
    pub dependencies: Vec<PackageDependency>,
    pub comments: Vec<Comment>,
}

/// The fields a record can fail on during construction.
#[derive(Debug, Clone, Copy, PartialEq, Eq, Structural)]
pub enum PackageField {
    Name,
    Version,
    PathToAdditionalData,
    Votes,
    Popularity,
    Description,
    Maintainer,
    LastUpdated,
    GitCloneUrl,
    Submitter,
    FirstSubmitted,
    Header,
    Content,
    AttributeLabel,
}

impl PackageField {
    /// The field's name, for diagnostics.
    pub fn name(&self) -> &'static str {
        match self {
            PackageField::Name => "name",
            PackageField::Version => "version",
            PackageField::PathToAdditionalData => "path_to_additional_data",
            PackageField::Votes => "votes",
            PackageField::Popularity => "popularity",
            PackageField::Description => "description",
            PackageField::Maintainer => "maintainer",
            PackageField::LastUpdated => "last_updated",
            PackageField::GitCloneUrl => "git_clone_url",
            PackageField::Submitter => "submitter",
            PackageField::FirstSubmitted => "first_submitted",
            PackageField::Header => "header",
            PackageField::Content => "content",
            PackageField::AttributeLabel => "attribute_label",
        }
    }
}

/// A construction failure: a required field absent, or a field whose
/// text does not parse.
#[derive(Debug, Clone, Copy, PartialEq, Eq, Structural)]
pub enum ModelError {
    MissingSourceData { field: PackageField },
    ParseError { field: PackageField },
}

#[verifier::ext_equal]
pub ghost struct BasicView {
    pub name: Seq<char>,
    pub version: Seq<char>,
    pub path_to_additional_data: Seq<char>,
    pub votes: int,
    pub popularity: Seq<char>,
    pub description: Seq<char>,
    pub maintainer: Seq<char>,
    pub last_updated: Seq<char>,
}

#[verifier::ext_equal]
pub ghost struct AdditionalView {
    pub git_clone_url: Seq<char>,
    pub keywords: Option<Seq<char>>,
    pub license: Option<Seq<char>>,
    pub conflicts: Option<Seq<char>>,
    pub provides: Option<Seq<char>>,
    pub submitter: Seq<char>,
    pub popularity: Seq<char>,
    pub first_submitted: Seq<char>,
}

#[verifier::ext_equal]
pub ghost struct DependencyView {
    pub group: Seq<char>,
    pub packages: Seq<Seq<char>>,
}

#[verifier::ext_equal]
pub ghost struct CommentView {
    pub header: Seq<char>,
    pub content: Seq<char>,
}

#[verifier::ext_equal]
pub ghost struct PackageView {
    pub basic: BasicView,
    pub additional: AdditionalView,
    pub dependencies: Seq<DependencyView>,
    pub comments: Seq<CommentView>,
}

pub open spec fn opt_view(o: Option<String>) -> Option<Seq<char>> {
    match o {
        Some(s) => Some(s@),
        None => None,
    }
}

impl View for BasicPackageData {
    type V = BasicView;

    open spec fn view(&self) -> BasicView {
        BasicView {
            name: self.name@,
            version: self.version@,
            path_to_additional_data: self.path_to_additional_data@,
            votes: self.votes as int,
            popularity: self.popularity@,
            description: self.description@,
            maintainer: self.maintainer@,
            last_updated: self.last_updated@,
        }
    }
}

impl View for AdditionalPackageData {
    type V = AdditionalView;

    open spec fn view(&self) -> AdditionalView {
        AdditionalView {
            git_clone_url: self.git_clone_url@,
            keywords: opt_view(self.keywords),
            license: opt_view(self.license),
            conflicts: opt_view(self.conflicts),
            provides: opt_view(self.provides),
            submitter: self.submitter@,
            popularity: self.popularity@,
            first_submitted: self.first_submitted@,
        }
    }
}

impl View for PackageDependency {
    type V = DependencyView;

    open spec fn view(&self) -> DependencyView {
        DependencyView {
            group: self.group@,
            packages: self.packages@.map_values(|p: String| p@),
        }
    }
}

impl View for Comment {
    type V = CommentView;

    open spec fn view(&self) -> CommentView {
        CommentView { header: self.header@, content: self.content@ }
    }
}

impl View for PackageData {
    type V = PackageView;

    open spec fn view(&self) -> PackageView {
        PackageView {
            basic: self.basic@,
            additional: self.additional@,
            dependencies: self.dependencies@.map_values(|d: PackageDependency| d@),
            comments: self.comments@.map_values(|c: Comment| c@),
        }
    }
}

/// A loosely-typed key/value bag, as scraped from a table. A later
/// entry for a key shadows an earlier one.
#[derive(Debug, Clone)]
pub struct FieldBag {
    pub entries: Vec<(String, String)>,
}

impl View for FieldBag {
    type V = Seq<(Seq<char>, Seq<char>)>;

    open spec fn view(&self) -> Seq<(Seq<char>, Seq<char>)> {
        self.entries@.map_values(|p: (String, String)| (p.0@, p.1@))
    }
}

/// The value of the latest entry for `k`, if any.
pub open spec fn bag_lookup(b: Seq<(Seq<char>, Seq<char>)>, k: Seq<char>) -> Option<Seq<char>>
    decreases b.len(),
{
    if b.len() == 0 {
        None
    } else if b.last().0 == k {
        Some(b.last().1)
    } else {
        bag_lookup(b.drop_last(), k)
    }
}

/// A lookup in a concatenation prefers the later part.
pub proof fn lemma_bag_lookup_append(
    b1: Seq<(Seq<char>, Seq<char>)>,
    b2: Seq<(Seq<char>, Seq<char>)>,
    k: Seq<char>,
)
    ensures
        bag_lookup(b1 + b2, k) == if bag_lookup(b2, k) is Some {
            bag_lookup(b2, k)
        } else {
            bag_lookup(b1, k)
        },
    decreases b2.len(),
{
    if b2.len() == 0 {
        assert(b1 + b2 =~= b1);
    } else {
        assert((b1 + b2).last() == b2.last());
        assert((b1 + b2).drop_last() =~= b1 + b2.drop_last());
        if b2.last().0 != k {
            lemma_bag_lookup_append(b1, b2.drop_last(), k);
        }
    }
}

impl FieldBag {
    pub fn new() -> (r: FieldBag)
        ensures
            r@ =~= Seq::<(Seq<char>, Seq<char>)>::empty(),
    {
        FieldBag { entries: Vec::new() }
    }

    /// Adds an entry, shadowing any earlier entry for the same key.
    pub fn insert(&mut self, k: String, v: String)
        ensures
            final(self)@ =~= old(self)@.push((k@, v@)),
    {
        self.entries.push((k, v));
    }

    /// A copy holding the same entries.
    pub fn duplicate(&self) -> (r: FieldBag)
        ensures
            r@ == self@,
    {
        let mut entries: Vec<(String, String)> = Vec::new();
        let mut i: usize = 0;
        while i < self.entries.len()
            invariant
                i <= self.entries@.len(),
                entries@.len() == i,
                forall|q: int| 0 <= q < i
                    ==> entries@[q].0@ == self.entries@[q].0@
                        && entries@[q].1@ == self.entries@[q].1@,
            decreases self.entries@.len() - i,
        {
            let e = &self.entries[i];
            entries.push((e.0.clone(), e.1.clone()));
            i += 1;
        }
        let r = FieldBag { entries };
        assert(r@ =~= self@) by {
            let pf = |p: (String, String)| (p.0@, p.1@);
            assert(forall|q: int| 0 <= q < r@.len()
                ==> #[trigger] r.entries@.map_values(pf)[q] == pf(r.entries@[q]));
            assert(forall|q: int| 0 <= q < self@.len()
                ==> #[trigger] self.entries@.map_values(pf)[q] == pf(self.entries@[q]));
        }
        r
    }

    /// Looks the key up, latest entry first.
    pub fn get(&self, k: &str) -> (r: Option<String>)
        ensures
            r matches Some(v) ==> bag_lookup(self@, k@) == Some(v@),
            r is None ==> bag_lookup(self@, k@) is None,
    {
        let mut i: usize = self.entries.len();
        assert(self@.take(i as int) =~= self@);
        while i > 0
            invariant
                self@.len() == self.entries@.len(),
                i <= self.entries@.len(),
                bag_lookup(self@, k@) == bag_lookup(self@.take(i as int), k@),
            decreases i,
        {
            assert(self@.take(i as int).last() == self@[i - 1]);
            assert(self@.take(i as int).drop_last() =~= self@.take(i as int - 1));
            let e = &self.entries[i - 1];
            if crate::text::str_eq(e.0.as_str(), k) {
                return Some(e.1.clone());
            }
            i -= 1;
        }
        assert(self@.take(0) =~= Seq::<(Seq<char>, Seq<char>)>::empty());
        None
    }
}

/// A captured detail path keeps only its trailing segment, from the
/// last path separator on.
pub open spec fn normalized_path(s: Seq<char>) -> Seq<char> {
    if crate::text::last_pos(s, '/') >= 0 {
        s.skip(crate::text::last_pos(s, '/'))
    } else {
        s
    }
}

/// Truncates everything before the last `'/'`, keeping the separator.
pub fn normalize_detail_path(p: &str) -> (r: String)
    ensures
        r@ == normalized_path(p@),
{
    let v = crate::text::str_chars(p);
    let n = v.len();
    let mut k = n;
    while k > 0
        invariant
            k <= n,
            n == v@.len(),
            v@ == p@,
            forall|j: int| k <= j < n ==> v@[j] != '/',
        decreases k,
    {
        if v[k - 1] == '/' {
            proof {
                crate::text::lemma_last_pos_at(p@, '/', k - 1);
            }
            let mut out: Vec<char> = Vec::new();
            let mut i = k - 1;
            assert(out@ =~= v@.subrange(k as int - 1, k as int - 1));
            while i < n
                invariant
                    1 <= k,
                    k - 1 <= i <= n,
                    n == v@.len(),
                    v@ == p@,
                    out@ == v@.subrange(k as int - 1, i as int),
                decreases n - i,
            {
                out.push(v[i]);
                i += 1;
                assert(out@ =~= v@.subrange(k as int - 1, i as int));
            }
            assert(out@ =~= p@.skip(k as int - 1));
            return crate::text::chars_to_string(&out);
        }
        k -= 1;
    }
    proof {
        crate::text::lemma_last_pos_absent(p@, '/');
    }
    crate::text::chars_to_string(&v)
}

pub open spec fn basic_res_view(r: Result<BasicPackageData, ModelError>)
    -> Result<BasicView, ModelError> {
    match r {
        Ok(b) => Ok(b@),
        Err(e) => Err(e),
    }
}

/// What constructing basic data from an ordered field sequence yields:
/// the first absent field fails the construction, a numeric field that
/// does not parse fails it, and otherwise every field is taken over
/// unchanged but for the detail path, which is normalized.
pub open spec fn spec_basic_from_fields(f: Seq<Seq<char>>)
    -> Result<BasicView, ModelError> {
    if f.len() < 1 {
        Err(ModelError::MissingSourceData { field: PackageField::Name })
    } else if f.len() < 2 {
        Err(ModelError::MissingSourceData { field: PackageField::PathToAdditionalData })
    } else if f.len() < 3 {
        Err(ModelError::MissingSourceData { field: PackageField::Version })
    } else if f.len() < 4 {
        Err(ModelError::MissingSourceData { field: PackageField::Votes })
    } else if crate::numbers::spec_parse_i32(f[3]) is None {
        Err(ModelError::ParseError { field: PackageField::Votes })
    } else if f.len() < 5 {
        Err(ModelError::MissingSourceData { field: PackageField::Popularity })
    } else if !crate::numbers::is_float_text(f[4]) {
        Err(ModelError::ParseError { field: PackageField::Popularity })
    } else if f.len() < 6 {
        Err(ModelError::MissingSourceData { field: PackageField::Description })
    } else if f.len() < 7 {
        Err(ModelError::MissingSourceData { field: PackageField::Maintainer })
    } else if f.len() < 8 {
        Err(ModelError::MissingSourceData { field: PackageField::LastUpdated })
    } else {
        Ok(BasicView {
            name: f[0],
            version: f[2],
            path_to_additional_data: normalized_path(f[1]),
            votes: crate::numbers::spec_parse_i32(f[3]).unwrap() as int,
            popularity: f[4],
            description: f[5],
            maintainer: f[6],
            last_updated: f[7],
        })
    }
}

impl BasicPackageData {
    /// The record is well formed: its popularity text parses as a
    /// number.
    pub open spec fn wf(&self) -> bool {
        crate::numbers::is_float_text(self.popularity@)
    }

    /// Builds basic data from one listing row's ordered field sequence:
    /// name, detail path, version, votes, popularity, description,
    /// maintainer, last updated. Fails on the first absent field and on
    /// a numeric field that does not parse.
    pub fn try_from_fields(fields: &Vec<String>) -> (r: Result<BasicPackageData, ModelError>)
        ensures
            basic_res_view(r) == spec_basic_from_fields(fields@.map_values(|s: String| s@)),
            r matches Ok(b) ==> b.wf(),
    {
        let ghost fv = fields@.map_values(|s: String| s@);
        if fields.len() < 1 {
            return Err(ModelError::MissingSourceData { field: PackageField::Name });
        }
        if fields.len() < 2 {
            return Err(ModelError::MissingSourceData { field: PackageField::PathToAdditionalData });
        }
        if fields.len() < 3 {
            return Err(ModelError::MissingSourceData { field: PackageField::Version });
        }
        if fields.len() < 4 {
            return Err(ModelError::MissingSourceData { field: PackageField::Votes });
        }
        let votes = match crate::numbers::parse_i32(fields[3].as_str()) {
            Some(v) => v,
            None => {
                return Err(ModelError::ParseError { field: PackageField::Votes });
            },
        };
        if fields.len() < 5 {
            return Err(ModelError::MissingSourceData { field: PackageField::Popularity });
        }
        if !crate::numbers::is_float_literal(fields[4].as_str()) {
            return Err(ModelError::ParseError { field: PackageField::Popularity });
        }
        if fields.len() < 6 {
            return Err(ModelError::MissingSourceData { field: PackageField::Description });
        }
        if fields.len() < 7 {
            return Err(ModelError::MissingSourceData { field: PackageField::Maintainer });
        }
        if fields.len() < 8 {
            return Err(ModelError::MissingSourceData { field: PackageField::LastUpdated });
        }
        Ok(BasicPackageData {
            name: fields[0].clone(),
            version: fields[2].clone(),
            path_to_additional_data: normalize_detail_path(fields[1].as_str()),
            votes,
            popularity: fields[4].clone(),
            description: fields[5].clone(),
            maintainer: fields[6].clone(),
            last_updated: fields[7].clone(),
        })
    }
}

/// The field a sequence of `n` fields is first missing.
pub open spec fn first_missing_field(n: int) -> PackageField {
    if n < 1 { PackageField::Name }
    else if n < 2 { PackageField::PathToAdditionalData }
    else if n < 3 { PackageField::Version }
    else if n < 4 { PackageField::Votes }
    else if n < 5 { PackageField::Popularity }
    else if n < 6 { PackageField::Description }
    else if n < 7 { PackageField::Maintainer }
    else { PackageField::LastUpdated }
}

/// For every field sequence of exactly the expected column count whose
/// numeric fields parse, construction succeeds, and name, detail path,
/// votes and popularity are taken over unchanged — the path exactly
/// when it has nothing before its last separator.
pub proof fn lemma_basic_construction_round_trip(f: Seq<Seq<char>>)
    requires
        f.len() == 8,
        crate::numbers::spec_parse_i32(f[3]) is Some,
        crate::numbers::is_float_text(f[4]),
        crate::text::last_pos(f[1], '/') <= 0,
    ensures
        spec_basic_from_fields(f) matches Ok(b)
            && b.name == f[0]
            && b.path_to_additional_data == f[1]
            && b.votes == crate::numbers::spec_parse_i32(f[3]).unwrap() as int
            && b.popularity == f[4],
{
    assert(normalized_path(f[1]) =~= f[1]);
}

/// Every field sequence shorter than the expected column count fails
/// with a missing-field error naming the first absent field, as long
/// as the numeric fields that are present parse.
pub proof fn lemma_basic_construction_missing_field(f: Seq<Seq<char>>)
    requires
        f.len() < 8,
        f.len() > 3 ==> crate::numbers::spec_parse_i32(f[3]) is Some,
        f.len() > 4 ==> crate::numbers::is_float_text(f[4]),
    ensures
        spec_basic_from_fields(f) == Err::<BasicView, ModelError>(
            ModelError::MissingSourceData { field: first_missing_field(f.len() as int) }),
{
}

pub open spec fn additional_res_view(r: Result<AdditionalPackageData, ModelError>)
    -> Result<AdditionalView, ModelError> {
    match r {
        Ok(a) => Ok(a@),
        Err(e) => Err(e),
    }
}

/// What constructing detail data from a normalized key/value bag
/// yields. Source URL, submitter, popularity and first-submitted are
/// required; keyword list, license, conflicts and provides default to
/// absent.
pub open spec fn spec_additional_from_bag(b: Seq<(Seq<char>, Seq<char>)>)
    -> Result<AdditionalView, ModelError> {
    if bag_lookup(b, "gitcloneurl"@) is None {
        Err(ModelError::MissingSourceData { field: PackageField::GitCloneUrl })
    } else if bag_lookup(b, "submitter"@) is None {
        Err(ModelError::MissingSourceData { field: PackageField::Submitter })
    } else if bag_lookup(b, "popularity"@) is None {
        Err(ModelError::MissingSourceData { field: PackageField::Popularity })
    } else if !crate::numbers::is_float_text(bag_lookup(b, "popularity"@).unwrap()) {
        Err(ModelError::ParseError { field: PackageField::Popularity })
    } else if bag_lookup(b, "firstsubmitted"@) is None {
        Err(ModelError::MissingSourceData { field: PackageField::FirstSubmitted })
    } else {
        Ok(AdditionalView {
            git_clone_url: bag_lookup(b, "gitcloneurl"@).unwrap(),
            keywords: bag_lookup(b, "keywords"@),
            license: bag_lookup(b, "licenses"@),
            conflicts: bag_lookup(b, "conflicts"@),
            provides: bag_lookup(b, "provides"@),
            submitter: bag_lookup(b, "submitter"@).unwrap(),
            popularity: bag_lookup(b, "popularity"@).unwrap(),
            first_submitted: bag_lookup(b, "firstsubmitted"@).unwrap(),
        })
    }
}

impl AdditionalPackageData {
    /// The record is well formed: its popularity text parses as a
    /// number.
    pub open spec fn wf(&self) -> bool {
        crate::numbers::is_float_text(self.popularity@)
    }

    /// Builds detail data from the key/value bag scraped off a detail
    /// page's attribute table.
    pub fn try_from_bag(bag: &FieldBag) -> (r: Result<AdditionalPackageData, ModelError>)
        ensures
            additional_res_view(r) == spec_additional_from_bag(bag@),
            r matches Ok(a) ==> a.wf(),
    {
        let git_clone_url = match bag.get("gitcloneurl") {
            Some(v) => v,
            None => {
                return Err(ModelError::MissingSourceData { field: PackageField::GitCloneUrl });
            },
        };
        let submitter = match bag.get("submitter") {
            Some(v) => v,
            None => {
                return Err(ModelError::MissingSourceData { field: PackageField::Submitter });
            },
        };
        let popularity = match bag.get("popularity") {
            Some(v) => v,
            None => {
                return Err(ModelError::MissingSourceData { field: PackageField::Popularity });
            },
        };
        if !crate::numbers::is_float_literal(popularity.as_str()) {
            return Err(ModelError::ParseError { field: PackageField::Popularity });
        }
        let first_submitted = match bag.get("firstsubmitted") {
            Some(v) => v,
            None => {
                return Err(ModelError::MissingSourceData { field: PackageField::FirstSubmitted });
            },
        };
        Ok(AdditionalPackageData {
            git_clone_url,
            keywords: bag.get("keywords"),
            license: bag.get("licenses"),
            conflicts: bag.get("conflicts"),
            provides: bag.get("provides"),
            submitter,
            popularity,
            first_submitted,
        })
    }
}

pub open spec fn comment_res_view(r: Result<Comment, ModelError>)
    -> Result<CommentView, ModelError> {
    match r {
        Ok(c) => Ok(c@),
        Err(e) => Err(e),
    }
}

/// What reconstructing one comment from a key/value bag yields.
pub open spec fn spec_comment_from_bag(b: Seq<(Seq<char>, Seq<char>)>)
    -> Result<CommentView, ModelError> {
    if bag_lookup(b, "header"@) is None {
        Err(ModelError::MissingSourceData { field: PackageField::Header })
    } else if bag_lookup(b, "content"@) is None {
        Err(ModelError::MissingSourceData { field: PackageField::Content })
    } else {
        Ok(CommentView {
            header: bag_lookup(b, "header"@).unwrap(),
            content: bag_lookup(b, "content"@).unwrap(),
        })
    }
}

impl Comment {
    /// Rebuilds one comment from its stored key/value pair.
    pub fn try_from_bag(bag: &FieldBag) -> (r: Result<Comment, ModelError>)
        ensures
            comment_res_view(r) == spec_comment_from_bag(bag@),
    {
        let header = match bag.get("header") {
            Some(v) => v,
            None => {
                return Err(ModelError::MissingSourceData { field: PackageField::Header });
            },
        };
        let content = match bag.get("content") {
            Some(v) => v,
            None => {
                return Err(ModelError::MissingSourceData { field: PackageField::Content });
            },
        };
        Ok(Comment { header, content })
    }
}

/// Copies a string vector, keeping every element's text.
pub fn clone_strings(v: &Vec<String>) -> (r: Vec<String>)
    ensures
        r@.map_values(|s: String| s@) == v@.map_values(|s: String| s@),
{
    let ghost sf = |s: String| s@;
    let mut r: Vec<String> = Vec::new();
    let mut i: usize = 0;
    while i < v.len()
        invariant
            i <= v@.len(),
            r@.len() == i,
            forall|q: int| 0 <= q < i ==> r@[q]@ == v@[q]@,
        decreases v@.len() - i,
    {
        r.push(v[i].clone());
        i += 1;
    }
    assert(r@.map_values(sf) =~= v@.map_values(sf)) by {
        assert(forall|q: int| 0 <= q < r@.len()
            ==> #[trigger] r@.map_values(sf)[q] == r@[q]@);
        assert(forall|q: int| 0 <= q < v@.len()
            ==> #[trigger] v@.map_values(sf)[q] == v@[q]@);
    }
    r
}

fn clone_opt_string(o: &Option<String>) -> (r: Option<String>)
    ensures
        opt_view(r) == opt_view(*o),
{
    match o {
        Some(s) => Some(s.clone()),
        None => None,
    }
}

impl BasicPackageData {
    /// A copy holding the same values.
    pub fn duplicate(&self) -> (r: Self)
        ensures
            r@ == self@,
    {
        BasicPackageData {
            name: self.name.clone(),
            version: self.version.clone(),
            path_to_additional_data: self.path_to_additional_data.clone(),
            votes: self.votes,
            popularity: self.popularity.clone(),
            description: self.description.clone(),
            maintainer: self.maintainer.clone(),
            last_updated: self.last_updated.clone(),
        }
    }
}

impl AdditionalPackageData {
    /// A copy holding the same values.
    pub fn duplicate(&self) -> (r: Self)
        ensures
            r@ == self@,
    {
        AdditionalPackageData {
            git_clone_url: self.git_clone_url.clone(),
            keywords: clone_opt_string(&self.keywords),
            license: clone_opt_string(&self.license),
            conflicts: clone_opt_string(&self.conflicts),
            provides: clone_opt_string(&self.provides),
            submitter: self.submitter.clone(),
            popularity: self.popularity.clone(),
            first_submitted: self.first_submitted.clone(),
        }
    }
}

impl PackageDependency {
    /// A copy holding the same values.
    pub fn duplicate(&self) -> (r: Self)
        ensures
            r@ == self@,
    {
        let r = PackageDependency {
            group: self.group.clone(),
            packages: clone_strings(&self.packages),
        };
        assert(r@ =~= self@);
        r
    }
}

impl Comment {
    /// A copy holding the same values.
    pub fn duplicate(&self) -> (r: Self)
        ensures
            r@ == self@,
    {
        Comment { header: self.header.clone(), content: self.content.clone() }
    }
}

/// Copies a dependency vector, keeping every group and member.
pub fn clone_dependencies(v: &Vec<PackageDependency>) -> (r: Vec<PackageDependency>)
    ensures
        r@.map_values(|d: PackageDependency| d@)
            == v@.map_values(|d: PackageDependency| d@),
{
    let ghost df = |d: PackageDependency| d@;
    let mut r: Vec<PackageDependency> = Vec::new();
    let mut i: usize = 0;
    while i < v.len()
        invariant
            i <= v@.len(),
            r@.len() == i,
            forall|q: int| 0 <= q < i ==> r@[q]@ == v@[q]@,
        decreases v@.len() - i,
    {
        r.push(v[i].duplicate());
        i += 1;
    }
    assert(r@.map_values(df) =~= v@.map_values(df)) by {
        assert(forall|q: int| 0 <= q < r@.len()
            ==> #[trigger] r@.map_values(df)[q] == r@[q]@);
        assert(forall|q: int| 0 <= q < v@.len()
            ==> #[trigger] v@.map_values(df)[q] == v@[q]@);
    }
    r
}

/// Copies a comment vector, keeping every header and body.
pub fn clone_comments(v: &Vec<Comment>) -> (r: Vec<Comment>)
    ensures
        r@.map_values(|c: Comment| c@) == v@.map_values(|c: Comment| c@),
{
    let ghost cf = |c: Comment| c@;
    let mut r: Vec<Comment> = Vec::new();
    let mut i: usize = 0;
    while i < v.len()
        invariant
            i <= v@.len(),
            r@.len() == i,
            forall|q: int| 0 <= q < i ==> r@[q]@ == v@[q]@,
        decreases v@.len() - i,
    {
        r.push(v[i].duplicate());
        i += 1;
    }
    assert(r@.map_values(cf) =~= v@.map_values(cf)) by {
        assert(forall|q: int| 0 <= q < r@.len()
            ==> #[trigger] r@.map_values(cf)[q] == r@[q]@);
        assert(forall|q: int| 0 <= q < v@.len()
            ==> #[trigger] v@.map_values(cf)[q] == v@[q]@);
    }
    r
}

impl PackageData {
    /// A copy holding the same values.
    pub fn duplicate(&self) -> (r: Self)
        ensures
            r@ == self@,
    {
        let r = PackageData {
            basic: self.basic.duplicate(),
            additional: self.additional.duplicate(),
            dependencies: clone_dependencies(&self.dependencies),
            comments: clone_comments(&self.comments),
        };
        assert(r@ =~= self@);
        r
    }
}

/// What reconstructing basic and detail data from one flattened field
/// hash yields: every required field must be present and parse; the
/// optional fields are absent exactly when their keys are.
pub open spec fn spec_package_from_flat(b: Seq<(Seq<char>, Seq<char>)>)
    -> Result<(BasicView, AdditionalView), ModelError> {
    if bag_lookup(b, "name"@) is None {
        Err(ModelError::MissingSourceData { field: PackageField::Name })
    } else if bag_lookup(b, "version"@) is None {
        Err(ModelError::MissingSourceData { field: PackageField::Version })
    } else if bag_lookup(b, "path_to_additional_data"@) is None {
        Err(ModelError::MissingSourceData { field: PackageField::PathToAdditionalData })
    } else if bag_lookup(b, "votes"@) is None {
        Err(ModelError::MissingSourceData { field: PackageField::Votes })
    } else if crate::numbers::spec_parse_i32(bag_lookup(b, "votes"@).unwrap()) is None {
        Err(ModelError::ParseError { field: PackageField::Votes })
    } else if bag_lookup(b, "popularity"@) is None {
        Err(ModelError::MissingSourceData { field: PackageField::Popularity })
    } else if !crate::numbers::is_float_text(bag_lookup(b, "popularity"@).unwrap()) {
        Err(ModelError::ParseError { field: PackageField::Popularity })
    } else if bag_lookup(b, "description"@) is None {
        Err(ModelError::MissingSourceData { field: PackageField::Description })
    } else if bag_lookup(b, "maintainer"@) is None {
        Err(ModelError::MissingSourceData { field: PackageField::Maintainer })
    } else if bag_lookup(b, "last_updated"@) is None {
        Err(ModelError::MissingSourceData { field: PackageField::LastUpdated })
    } else if bag_lookup(b, "gitcloneurl"@) is None {
        Err(ModelError::MissingSourceData { field: PackageField::GitCloneUrl })
    } else if bag_lookup(b, "submitter"@) is None {
        Err(ModelError::MissingSourceData { field: PackageField::Submitter })
    } else if bag_lookup(b, "detailpopularity"@) is None {
        Err(ModelError::MissingSourceData { field: PackageField::Popularity })
    } else if !crate::numbers::is_float_text(bag_lookup(b, "detailpopularity"@).unwrap()) {
        Err(ModelError::ParseError { field: PackageField::Popularity })
    } else if bag_lookup(b, "firstsubmitted"@) is None {
        Err(ModelError::MissingSourceData { field: PackageField::FirstSubmitted })
    } else {
        Ok((
            BasicView {
                name: bag_lookup(b, "name"@).unwrap(),
                version: bag_lookup(b, "version"@).unwrap(),
                path_to_additional_data: bag_lookup(b, "path_to_additional_data"@).unwrap(),
                votes: crate::numbers::spec_parse_i32(
                    bag_lookup(b, "votes"@).unwrap()).unwrap() as int,
                popularity: bag_lookup(b, "popularity"@).unwrap(),
                description: bag_lookup(b, "description"@).unwrap(),
                maintainer: bag_lookup(b, "maintainer"@).unwrap(),
                last_updated: bag_lookup(b, "last_updated"@).unwrap(),
            },
            AdditionalView {
                git_clone_url: bag_lookup(b, "gitcloneurl"@).unwrap(),
                keywords: bag_lookup(b, "keywords"@),
                license: bag_lookup(b, "license"@),
                conflicts: bag_lookup(b, "conflicts"@),
                provides: bag_lookup(b, "provides"@),
                submitter: bag_lookup(b, "submitter"@).unwrap(),
                popularity: bag_lookup(b, "detailpopularity"@).unwrap(),
                first_submitted: bag_lookup(b, "firstsubmitted"@).unwrap(),
            },
        ))
    }
}

pub open spec fn flat_res_view(r: Result<(BasicPackageData, AdditionalPackageData), ModelError>)
    -> Result<(BasicView, AdditionalView), ModelError> {
    match r {
        Ok(p) => Ok((p.0@, p.1@)),
        Err(e) => Err(e),
    }
}

/// Rebuilds the basic and detail records from one flattened field
/// hash, as a hash-oriented store keeps them.
pub fn package_from_flat_bag(bag: &FieldBag)
    -> (r: Result<(BasicPackageData, AdditionalPackageData), ModelError>)
    ensures
        flat_res_view(r) == spec_package_from_flat(bag@),
{
    let name = match bag.get("name") {
        Some(v) => v,
        None => {
            return Err(ModelError::MissingSourceData { field: PackageField::Name });
        },
    };
    let version = match bag.get("version") {
        Some(v) => v,
        None => {
            return Err(ModelError::MissingSourceData { field: PackageField::Version });
        },
    };
    let path_to_additional_data = match bag.get("path_to_additional_data") {
        Some(v) => v,
        None => {
            return Err(ModelError::MissingSourceData {
                field: PackageField::PathToAdditionalData,
            });
        },
    };
    let votes_text = match bag.get("votes") {
        Some(v) => v,
        None => {
            return Err(ModelError::MissingSourceData { field: PackageField::Votes });
        },
    };
    let votes = match crate::numbers::parse_i32(votes_text.as_str()) {
        Some(v) => v,
        None => {
            return Err(ModelError::ParseError { field: PackageField::Votes });
        },
    };
    let popularity = match bag.get("popularity") {
        Some(v) => v,
        None => {
            return Err(ModelError::MissingSourceData { field: PackageField::Popularity });
        },
    };
    if !crate::numbers::is_float_literal(popularity.as_str()) {
        return Err(ModelError::ParseError { field: PackageField::Popularity });
    }
    let description = match bag.get("description") {
        Some(v) => v,
        None => {
            return Err(ModelError::MissingSourceData { field: PackageField::Description });
        },
    };
    let maintainer = match bag.get("maintainer") {
        Some(v) => v,
        None => {
            return Err(ModelError::MissingSourceData { field: PackageField::Maintainer });
        },
    };
    let last_updated = match bag.get("last_updated") {
        Some(v) => v,
        None => {
            return Err(ModelError::MissingSourceData { field: PackageField::LastUpdated });
        },
    };
    let git_clone_url = match bag.get("gitcloneurl") {
        Some(v) => v,
        None => {
            return Err(ModelError::MissingSourceData { field: PackageField::GitCloneUrl });
        },
    };
    let submitter = match bag.get("submitter") {
        Some(v) => v,
        None => {
            return Err(ModelError::MissingSourceData { field: PackageField::Submitter });
        },
    };
    let detail_popularity = match bag.get("detailpopularity") {
        Some(v) => v,
        None => {
            return Err(ModelError::MissingSourceData { field: PackageField::Popularity });
        },
    };
    if !crate::numbers::is_float_literal(detail_popularity.as_str()) {
        return Err(ModelError::ParseError { field: PackageField::Popularity });
    }
    let first_submitted = match bag.get("firstsubmitted") {
        Some(v) => v,
        None => {
            return Err(ModelError::MissingSourceData { field: PackageField::FirstSubmitted });
        },
    };
    Ok((
        BasicPackageData {
            name,
            version,
            path_to_additional_data,
            votes,
            popularity,
            description,
            maintainer,
            last_updated,
        },
        AdditionalPackageData {
            git_clone_url,
            keywords: bag.get("keywords"),
            license: bag.get("license"),
            conflicts: bag.get("conflicts"),
            provides: bag.get("provides"),
            submitter,
            popularity: detail_popularity,
            first_submitted,
        },
    ))
}

} // verus!
