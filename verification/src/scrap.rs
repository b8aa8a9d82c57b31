//! Extraction of records from plain document models.
//!
//! A fetched page is handed in as plain values: a listing page as rows
//! of cells, a detail page as labelled attribute rows and dependency
//! list items, a comment page as parallel header and body fragments.
//! Everything from there on — field sequencing, key normalization,
//! fallible construction, the pinned-comment skip and pagination
//! arithmetic — is verified here.

use vstd::prelude::*;
use crate::models::{
    AdditionalPackageData, BasicPackageData, BasicView, Comment, CommentView, DependencyView,
    FieldBag, ModelError, PackageDependency, PackageField,
    additional_res_view, basic_res_view, spec_additional_from_bag, spec_basic_from_fields,
};
use crate::text::{stripped_text, trim_seq};

verus! {

/// One column of a listing row: a hyperlink, or plain cell text.
#[derive(Debug, Clone)]
pub enum ListingCell {
    Link { text: String, target: String },
    Text { text: String },
}

#[verifier::ext_equal]
pub ghost enum CellView {
    Link { text: Seq<char>, target: Seq<char> },
    Text { text: Seq<char> },
}

impl View for ListingCell {
    type V = CellView;

    open spec fn view(&self) -> CellView {
        match self {
            ListingCell::Link { text, target } => CellView::Link {
                text: text@,
                target: target@,
            },
            ListingCell::Text { text } => CellView::Text { text: text@ },
        }
    }
}

/// One row of the listing's results table.
#[derive(Debug, Clone)]
pub struct ListingRow {
    pub cells: Vec<ListingCell>,
}

impl View for ListingRow {
    type V = Seq<CellView>;

    open spec fn view(&self) -> Seq<CellView> {
        self.cells@.map_values(|c: ListingCell| c@)
    }
}

/// The rows of one listing page, in page order.
#[derive(Debug, Clone)]
pub struct ListingPage {
    pub rows: Vec<ListingRow>,
}

impl View for ListingPage {
    type V = Seq<Seq<CellView>>;

    open spec fn view(&self) -> Seq<Seq<CellView>> {
        self.rows@.map_values(|r: ListingRow| r@)
    }
}

/// The fields one cell contributes: a hyperlink yields its trimmed
/// text and its raw target, any other cell its trimmed text alone.
pub open spec fn cell_fields(c: CellView) -> Seq<Seq<char>> {
    match c {
        CellView::Link { text, target } => seq![trim_seq(text), target],
        CellView::Text { text } => seq![trim_seq(text)],
    }
}

/// The ordered field sequence of a whole row.
pub open spec fn row_fields_spec(cells: Seq<CellView>) -> Seq<Seq<char>>
    decreases cells.len(),
{
    if cells.len() == 0 {
        Seq::empty()
    } else {
        row_fields_spec(cells.drop_last()) + cell_fields(cells.last())
    }
}

/// Flattens one row into its ordered field sequence. Column order is
/// the contract with the source site and is preserved exactly.
pub fn row_fields(row: &ListingRow) -> (r: Vec<String>)
    ensures
        r@.map_values(|s: String| s@) == row_fields_spec(row@),
{
    let ghost f = |s: String| s@;
    let mut r: Vec<String> = Vec::new();
    let mut i: usize = 0;
    assert(row@.take(0) =~= Seq::<CellView>::empty());
    assert(r@.map_values(f) =~= row_fields_spec(row@.take(0)));
    while i < row.cells.len()
        invariant
            i <= row.cells@.len(),
            row@.len() == row.cells@.len(),
            f == (|s: String| s@),
            r@.map_values(f) == row_fields_spec(row@.take(i as int)),
        decreases row.cells@.len() - i,
    {
        let ghost before = r@;
        match &row.cells[i] {
            ListingCell::Link { text, target } => {
                r.push(crate::text::trim_string(text.as_str()));
                r.push(target.clone());
            },
            ListingCell::Text { text } => {
                r.push(crate::text::trim_string(text.as_str()));
            },
        }
        proof {
            assert(row@[i as int] == row.cells@[i as int]@);
            assert(r@.map_values(f) =~= before.map_values(f) + cell_fields(row@[i as int]));
            assert(row@.take(i + 1).drop_last() =~= row@.take(i as int));
            assert(row@.take(i + 1).last() == row@[i as int]);
        }
        i += 1;
    }
    assert(row@.take(row.cells@.len() as int) =~= row@);
    r
}

/// What scraping a whole listing page yields: the rows' records in
/// page order, or the first row's construction error (the page is
/// abandoned on the first bad row).
pub open spec fn scrap_rows_spec(rows: Seq<Seq<CellView>>)
    -> Result<Seq<BasicView>, ModelError>
    decreases rows.len(),
{
    if rows.len() == 0 {
        Ok(Seq::empty())
    } else {
        match scrap_rows_spec(rows.drop_last()) {
            Err(e) => Err(e),
            Ok(s) => match spec_basic_from_fields(row_fields_spec(rows.last())) {
                Err(e) => Err(e),
                Ok(b) => Ok(s.push(b)),
            },
        }
    }
}

/// Extracts one listing row's basic record from its field sequence.
pub fn scrap_package_basic_data(row: &ListingRow) -> (r: Result<BasicPackageData, ModelError>)
    ensures
        basic_res_view(r) == spec_basic_from_fields(row_fields_spec(row@)),
        r matches Ok(b) ==> b.wf(),
{
    let fields = row_fields(row);
    BasicPackageData::try_from_fields(&fields)
}

/// The records of the rows whose construction succeeds, in page order.
pub open spec fn scrap_rows_lenient_spec(rows: Seq<Seq<CellView>>) -> Seq<BasicView>
    decreases rows.len(),
{
    if rows.len() == 0 {
        Seq::empty()
    } else {
        let rest = scrap_rows_lenient_spec(rows.drop_last());
        match spec_basic_from_fields(row_fields_spec(rows.last())) {
            Ok(b) => rest.push(b),
            Err(_) => rest,
        }
    }
}

/// Extracts every row's basic record best-effort: a row that fails
/// construction is skipped, the rest of the page is kept.
pub fn scrap_packages_best_effort(page: &ListingPage) -> (r: Vec<BasicPackageData>)
    ensures
        r@.map_values(|b: BasicPackageData| b@) == scrap_rows_lenient_spec(page@),
{
    let ghost f = |b: BasicPackageData| b@;
    let mut out: Vec<BasicPackageData> = Vec::new();
    let mut i: usize = 0;
    assert(page@.take(0) =~= Seq::<Seq<CellView>>::empty());
    assert(out@.map_values(f) =~= scrap_rows_lenient_spec(page@.take(0)));
    while i < page.rows.len()
        invariant
            i <= page.rows@.len(),
            page@.len() == page.rows@.len(),
            f == (|b: BasicPackageData| b@),
            out@.map_values(f) == scrap_rows_lenient_spec(page@.take(i as int)),
        decreases page.rows@.len() - i,
    {
        proof {
            assert(page@[i as int] == page.rows@[i as int]@);
            assert(page@.take(i + 1).drop_last() =~= page@.take(i as int));
            assert(page@.take(i + 1).last() == page@[i as int]);
        }
        let ghost before = out@;
        match scrap_package_basic_data(&page.rows[i]) {
            Ok(b) => {
                let ghost bv = b@;
                out.push(b);
                assert(out@.map_values(f) =~= before.map_values(f).push(bv));
            },
            Err(_) => {},
        }
        i += 1;
    }
    assert(page@.take(page.rows@.len() as int) =~= page@);
    out
}

/// Once a prefix of the rows fails, the whole page fails the same way.
proof fn lemma_scrap_rows_error_stable(rows: Seq<Seq<CellView>>, k: int, e: ModelError)
    requires
        0 <= k <= rows.len(),
        scrap_rows_spec(rows.take(k)) == Err::<Seq<BasicView>, ModelError>(e),
    ensures
        scrap_rows_spec(rows) == Err::<Seq<BasicView>, ModelError>(e),
    decreases rows.len() - k,
{
    if k < rows.len() {
        assert(rows.take(k + 1).drop_last() =~= rows.take(k));
        lemma_scrap_rows_error_stable(rows, k + 1, e);
    } else {
        assert(rows.take(k) =~= rows);
    }
}

pub open spec fn basics_res_view(r: Result<Vec<BasicPackageData>, ModelError>)
    -> Result<Seq<BasicView>, ModelError> {
    match r {
        Ok(v) => Ok(v@.map_values(|b: BasicPackageData| b@)),
        Err(e) => Err(e),
    }
}

/// Extracts every row's basic record from one listing page, aborting
/// on the first row that fails construction.
pub fn scrap_packages_from_page(page: &ListingPage)
    -> (r: Result<Vec<BasicPackageData>, ModelError>)
    ensures
        basics_res_view(r) == scrap_rows_spec(page@),
        r matches Ok(v) ==> forall|j: int| 0 <= j < v@.len() ==> #[trigger] v@[j].wf(),
{
    let ghost f = |b: BasicPackageData| b@;
    let mut out: Vec<BasicPackageData> = Vec::new();
    let mut i: usize = 0;
    assert(page@.take(0) =~= Seq::<Seq<CellView>>::empty());
    assert(out@.map_values(f) =~= Seq::<BasicView>::empty());
    while i < page.rows.len()
        invariant
            i <= page.rows@.len(),
            page@.len() == page.rows@.len(),
            f == (|b: BasicPackageData| b@),
            scrap_rows_spec(page@.take(i as int)) == Ok::<Seq<BasicView>, ModelError>(
                out@.map_values(f)),
            forall|j: int| 0 <= j < out@.len() ==> #[trigger] out@[j].wf(),
        decreases page.rows@.len() - i,
    {
        let fields = row_fields(&page.rows[i]);
        let ghost before = out@;
        proof {
            assert(page@[i as int] == page.rows@[i as int]@);
            assert(page@.take(i + 1).drop_last() =~= page@.take(i as int));
            assert(page@.take(i + 1).last() == page@[i as int]);
        }
        match BasicPackageData::try_from_fields(&fields) {
            Ok(b) => {
                let ghost bv = b@;
                out.push(b);
                assert(out@.map_values(f) =~= before.map_values(f).push(bv));
            },
            Err(e) => {
                assert(scrap_rows_spec(page@.take(i + 1)) == Err::<Seq<BasicView>, ModelError>(e));
                proof {
                    lemma_scrap_rows_error_stable(page@, i + 1, e);
                }
                return Err(e);
            },
        }
        i += 1;
    }
    assert(page@.take(page.rows@.len() as int) =~= page@);
    Ok(out)
}

/// One value cell of a detail-page attribute row: a set of hyperlink
/// texts, or plain cell text.
#[derive(Debug, Clone)]
pub enum DetailCell {
    Links { texts: Vec<String> },
    Text { text: String },
}

#[verifier::ext_equal]
pub ghost enum DetailCellView {
    Links { texts: Seq<Seq<char>> },
    Text { text: Seq<char> },
}

impl View for DetailCell {
    type V = DetailCellView;

    open spec fn view(&self) -> DetailCellView {
        match self {
            DetailCell::Links { texts } => DetailCellView::Links {
                texts: texts@.map_values(|t: String| t@),
            },
            DetailCell::Text { text } => DetailCellView::Text { text: text@ },
        }
    }
}

/// One row of the detail page's attribute table: a label cell and its
/// value cells.
#[derive(Debug, Clone)]
pub struct DetailRow {
    pub label: String,
    pub cells: Vec<DetailCell>,
}

#[verifier::ext_equal]
pub ghost struct DetailRowView {
    pub label: Seq<char>,
    pub cells: Seq<DetailCellView>,
}

impl View for DetailRow {
    type V = DetailRowView;

    open spec fn view(&self) -> DetailRowView {
        DetailRowView {
            label: self.label@,
            cells: self.cells@.map_values(|c: DetailCell| c@),
        }
    }
}

/// The trimmed link texts joined with commas.
pub open spec fn comma_join(ts: Seq<Seq<char>>) -> Seq<char>
    decreases ts.len(),
{
    if ts.len() == 0 {
        Seq::empty()
    } else if ts.len() == 1 {
        trim_seq(ts[0])
    } else {
        comma_join(ts.drop_last()) + seq![','] + trim_seq(ts.last())
    }
}

/// The stored value of one detail cell.
pub open spec fn cell_value(c: DetailCellView) -> Seq<char> {
    match c {
        DetailCellView::Links { texts } => comma_join(texts),
        DetailCellView::Text { text } => trim_seq(text),
    }
}

/// Joins the trimmed link texts of a link cell with commas.
pub fn join_link_texts(texts: &Vec<String>) -> (r: String)
    ensures
        r@ == comma_join(texts@.map_values(|t: String| t@)),
{
    let ghost tv = texts@.map_values(|t: String| t@);
    let mut out = String::new();
    let mut i: usize = 0;
    while i < texts.len()
        invariant
            i <= texts@.len(),
            tv == texts@.map_values(|t: String| t@),
            out@ == comma_join(tv.take(i as int)),
        decreases texts@.len() - i,
    {
        let t = crate::text::trim_string(texts[i].as_str());
        if i > 0 {
            out.append(",");
            proof {
                reveal_strlit(",");
            }
        }
        out.append(t.as_str());
        i += 1;
        proof {
            assert(tv.take(i as int).drop_last() =~= tv.take(i as int - 1));
            assert(tv.take(i as int).last() == tv[i - 1]);
            if i == 1 {
                assert(tv.take(1) =~= seq![tv[0]]);
            }
        }
    }
    assert(tv.take(texts@.len() as int) =~= tv);
    out
}

/// What `str::to_lowercase` returns for a given character sequence.
/// The result depends on the characters alone.
pub uninterp spec fn lower_of(s: Seq<char>) -> Seq<char>;

/// Relies on `str::to_lowercase`: the Unicode lowercase mapping of the
/// text, a function of the characters alone.
#[verifier::external_body]
fn lowercase(s: &str) -> (r: String)
    ensures
        r@ == lower_of(s@),
{
    s.to_lowercase()
}

/// The label's space-separated segments, each lowercased, joined
/// without a separator. `cur` is the segment being read.
pub open spec fn lower_nospace(s: Seq<char>, cur: Seq<char>) -> Seq<char>
    decreases s.len(),
{
    if s.len() == 0 {
        lower_of(cur)
    } else if s[0] == ' ' {
        lower_of(cur) + lower_nospace(s.drop_first(), Seq::empty())
    } else {
        lower_nospace(s.drop_first(), cur.push(s[0]))
    }
}

/// What normalizing an attribute label yields: the trimmed label must
/// end in a colon; the colon is stripped and the rest is lowercased
/// with its spaces removed.
pub open spec fn normalized_key(l: Seq<char>) -> Option<Seq<char>> {
    let t = trim_seq(l);
    if t.len() > 0 && t.last() == ':' {
        Some(lower_nospace(t.drop_last(), Seq::empty()))
    } else {
        None
    }
}

/// Normalizes one attribute label into a bag key.
pub fn normalize_key(label: &str) -> (r: Result<String, ModelError>)
    ensures
        r matches Ok(k) ==> normalized_key(label@) == Some(k@),
        r is Err ==> normalized_key(label@) is None
            && r == Err::<String, ModelError>(ModelError::ParseError {
                field: PackageField::AttributeLabel,
            }),
{
    let t = crate::text::trim_chars(&crate::text::str_chars(label));
    if t.len() == 0 || t[t.len() - 1] != ':' {
        return Err(ModelError::ParseError { field: PackageField::AttributeLabel });
    }
    let ghost body = trim_seq(label@).drop_last();
    let n = t.len() - 1;
    assert(body =~= t@.take(n as int));
    let mut out = String::new();
    let mut seg: Vec<char> = Vec::new();
    let mut i: usize = 0;
    assert(body.skip(0) =~= body);
    while i < n
        invariant
            i <= n,
            n < t@.len(),
            body == trim_seq(label@).drop_last(),
            body == t@.take(n as int),
            lower_nospace(body, Seq::empty()) == out@ + lower_nospace(body.skip(i as int), seg@),
        decreases n - i,
    {
        let c = t[i];
        assert(body.skip(i as int)[0] == c);
        assert(body.skip(i as int).drop_first() =~= body.skip(i as int + 1));
        if c == ' ' {
            let low = lowercase(crate::text::chars_to_string(&seg).as_str());
            out.append(low.as_str());
            seg.clear();
        } else {
            seg.push(c);
        }
        i += 1;
    }
    assert(body.skip(n as int) =~= Seq::<char>::empty());
    let low = lowercase(crate::text::chars_to_string(&seg).as_str());
    out.append(low.as_str());
    Ok(out)
}

/// The bag entries one attribute row contributes: one entry per value
/// cell, all under the row's normalized key.
pub open spec fn row_entries(k: Seq<char>, cells: Seq<DetailCellView>)
    -> Seq<(Seq<char>, Seq<char>)> {
    Seq::new(cells.len(), |i: int| (k, cell_value(cells[i])))
}

/// What walking the attribute table yields: the accumulated bag, or
/// nothing when a label cannot be normalized.
pub open spec fn detail_bag_spec(rows: Seq<DetailRowView>)
    -> Option<Seq<(Seq<char>, Seq<char>)>>
    decreases rows.len(),
{
    if rows.len() == 0 {
        Some(Seq::empty())
    } else {
        match detail_bag_spec(rows.drop_last()) {
            None => None,
            Some(b) => match normalized_key(rows.last().label) {
                None => None,
                Some(k) => Some(b + row_entries(k, rows.last().cells)),
            },
        }
    }
}

/// What scraping a detail page's attribute table yields.
pub open spec fn spec_scrap_additional(rows: Seq<DetailRowView>)
    -> Result<crate::models::AdditionalView, ModelError> {
    match detail_bag_spec(rows) {
        None => Err(ModelError::ParseError { field: PackageField::AttributeLabel }),
        Some(b) => spec_additional_from_bag(b),
    }
}

/// Walks the attribute rows of a detail page, accumulating a key/value
/// bag, and constructs the detail record from it.
pub fn scrap_package_additional_data(rows: &Vec<DetailRow>)
    -> (r: Result<AdditionalPackageData, ModelError>)
    ensures
        additional_res_view(r) == spec_scrap_additional(
            rows@.map_values(|x: DetailRow| x@)),
        r matches Ok(a) ==> a.wf(),
{
    let ghost rv = rows@.map_values(|x: DetailRow| x@);
    let mut bag = FieldBag::new();
    let mut i: usize = 0;
    assert(rv.take(0) =~= Seq::<DetailRowView>::empty());
    while i < rows.len()
        invariant
            i <= rows@.len(),
            rv == rows@.map_values(|x: DetailRow| x@),
            detail_bag_spec(rv.take(i as int)) == Some(bag@),
        decreases rows@.len() - i,
    {
        let row = &rows[i];
        assert(rv[i as int] == rows@[i as int]@);
        let key = match normalize_key(row.label.as_str()) {
            Ok(k) => k,
            Err(e) => {
                proof {
                    assert(rv.take(i + 1).drop_last() =~= rv.take(i as int));
                    assert(rv.take(i + 1).last() == rv[i as int]);
                    lemma_detail_bag_none_stable(rv, i + 1);
                }
                return Err(e);
            },
        };
        let ghost base = bag@;
        let ghost cv = rv[i as int].cells;
        let mut j: usize = 0;
        assert(bag@ =~= base + row_entries(key@, cv).take(0));
        while j < row.cells.len()
            invariant
                j <= row.cells@.len(),
                cv.len() == row.cells@.len(),
                cv == row.cells@.map_values(|c: DetailCell| c@),
                bag@ == base + row_entries(key@, cv).take(j as int),
            decreases row.cells@.len() - j,
        {
            let value = match &row.cells[j] {
                DetailCell::Links { texts } => join_link_texts(texts),
                DetailCell::Text { text } => crate::text::trim_string(text.as_str()),
            };
            assert(cv[j as int] == row.cells@[j as int]@);
            bag.insert(key.clone(), value);
            j += 1;
            assert(bag@ =~= base + row_entries(key@, cv).take(j as int));
        }
        assert(row_entries(key@, cv).take(cv.len() as int) =~= row_entries(key@, cv));
        proof {
            assert(rv.take(i + 1).drop_last() =~= rv.take(i as int));
            assert(rv.take(i + 1).last() == rv[i as int]);
        }
        i += 1;
    }
    assert(rv.take(rows@.len() as int) =~= rv);
    AdditionalPackageData::try_from_bag(&bag)
}

/// Once a label fails to normalize, the whole table yields no bag.
proof fn lemma_detail_bag_none_stable(rows: Seq<DetailRowView>, k: int)
    requires
        0 <= k <= rows.len(),
        detail_bag_spec(rows.take(k)) is None,
    ensures
        detail_bag_spec(rows) is None,
    decreases rows.len() - k,
{
    if k < rows.len() {
        assert(rows.take(k + 1).drop_last() =~= rows.take(k));
        lemma_detail_bag_none_stable(rows, k + 1);
    } else {
        assert(rows.take(k) =~= rows);
    }
}

/// Extracts a detail page's structured attributes together with its
/// dependency groups.
pub fn scrap_package_details(rows: &Vec<DetailRow>, items: &Vec<DepListItem>)
    -> (r: Result<(AdditionalPackageData, Vec<PackageDependency>), ModelError>)
    ensures
        r matches Ok(p) ==> spec_scrap_additional(rows@.map_values(|x: DetailRow| x@))
            == Ok::<crate::models::AdditionalView, ModelError>(p.0@)
            && p.1@.map_values(|d: PackageDependency| d@)
                == deps_spec(items@.map_values(|x: DepListItem| x@))
            && p.0.wf(),
        r matches Err(e) ==> spec_scrap_additional(rows@.map_values(|x: DetailRow| x@))
            == Err::<crate::models::AdditionalView, ModelError>(e),
{
    let additional = match scrap_package_additional_data(rows) {
        Ok(a) => a,
        Err(e) => {
            return Err(e);
        },
    };
    let dependencies = scrap_package_dependencies(items);
    Ok((additional, dependencies))
}

/// One top-level item of the dependency list: the group named by its
/// first hyperlink, if any, and the nested member package names.
#[derive(Debug, Clone)]
pub struct DepListItem {
    pub group: Option<String>,
    pub packages: Vec<String>,
}

#[verifier::ext_equal]
pub ghost struct DepListItemView {
    pub group: Option<Seq<char>>,
    pub packages: Seq<Seq<char>>,
}

impl View for DepListItem {
    type V = DepListItemView;

    open spec fn view(&self) -> DepListItemView {
        DepListItemView {
            group: crate::models::opt_view(self.group),
            packages: self.packages@.map_values(|p: String| p@),
        }
    }
}

/// What walking the dependency list yields: one named group per item
/// that has a group link, with its member names trimmed, in order.
pub open spec fn deps_spec(items: Seq<DepListItemView>) -> Seq<DependencyView>
    decreases items.len(),
{
    if items.len() == 0 {
        Seq::empty()
    } else {
        let rest = deps_spec(items.drop_last());
        match items.last().group {
            Some(g) => rest.push(DependencyView {
                group: trim_seq(g),
                packages: items.last().packages.map_values(|p: Seq<char>| trim_seq(p)),
            }),
            None => rest,
        }
    }
}

/// Extracts the dependency groups of a detail page.
pub fn scrap_package_dependencies(items: &Vec<DepListItem>) -> (r: Vec<PackageDependency>)
    ensures
        r@.map_values(|d: PackageDependency| d@) == deps_spec(
            items@.map_values(|x: DepListItem| x@)),
{
    let ghost iv = items@.map_values(|x: DepListItem| x@);
    let ghost f = |d: PackageDependency| d@;
    let mut out: Vec<PackageDependency> = Vec::new();
    let mut i: usize = 0;
    assert(iv.take(0) =~= Seq::<DepListItemView>::empty());
    assert(out@.map_values(f) =~= deps_spec(iv.take(0)));
    while i < items.len()
        invariant
            i <= items@.len(),
            iv == items@.map_values(|x: DepListItem| x@),
            f == (|d: PackageDependency| d@),
            out@.map_values(f) == deps_spec(iv.take(i as int)),
        decreases items@.len() - i,
    {
        let item = &items[i];
        assert(iv[i as int] == items@[i as int]@);
        let ghost before = out@;
        match &item.group {
            Some(g) => {
                let group = crate::text::trim_string(g.as_str());
                let ghost pv = iv[i as int].packages;
                let ghost sf = |s: String| s@;
                let ghost target = pv.map_values(|p: Seq<char>| trim_seq(p));
                let mut packages: Vec<String> = Vec::new();
                let mut j: usize = 0;
                while j < item.packages.len()
                    invariant
                        j <= item.packages@.len(),
                        pv.len() == item.packages@.len(),
                        pv == item.packages@.map_values(|p: String| p@),
                        target == pv.map_values(|p: Seq<char>| trim_seq(p)),
                        packages@.len() == j,
                        forall|q: int| 0 <= q < j ==> packages@[q]@ == target[q],
                    decreases item.packages@.len() - j,
                {
                    let t = crate::text::trim_string(item.packages[j].as_str());
                    assert(pv[j as int] == item.packages@[j as int]@);
                    assert(t@ == target[j as int]);
                    packages.push(t);
                    j += 1;
                }
                assert(packages@.map_values(sf) =~= target) by {
                    assert(forall|q: int| 0 <= q < target.len()
                        ==> #[trigger] packages@.map_values(sf)[q] == packages@[q]@);
                }
                let ghost dv = DependencyView {
                    group: trim_seq(g@),
                    packages: target,
                };
                out.push(PackageDependency { group, packages });
                assert(out@.map_values(f) =~= before.map_values(f).push(dv));
            },
            None => {},
        }
        proof {
            assert(iv.take(i + 1).drop_last() =~= iv.take(i as int));
            assert(iv.take(i + 1).last() == iv[i as int]);
        }
        i += 1;
    }
    assert(iv.take(items@.len() as int) =~= iv);
    out
}

/// One comment page's raw fragments: the comment headers and bodies,
/// in page order, as parallel sequences.
#[derive(Debug, Clone)]
pub struct CommentPage {
    pub headers: Vec<String>,
    pub contents: Vec<String>,
}

/// What extracting one comment page yields: headers and bodies paired
/// off positionally and HTML-stripped, with the leading pair dropped
/// only when the page is the thread's first (it holds the pinned
/// comment there).
pub open spec fn comments_of_page(hs: Seq<Seq<char>>, cs: Seq<Seq<char>>, skip_pinned: bool)
    -> Seq<CommentView> {
    let n = if hs.len() <= cs.len() { hs.len() as int } else { cs.len() as int };
    let s: int = if skip_pinned { 1 } else { 0 };
    if n <= s {
        Seq::empty()
    } else {
        Seq::new((n - s) as nat, |i: int| CommentView {
            header: stripped_text(hs[i + s]),
            content: stripped_text(cs[i + s]),
        })
    }
}

/// Extracts the comments of the page fetched at `offset`. The pinned
/// comment is skipped only at offset `0`; later pages keep every pair.
pub fn scrap_package_comments(page: &CommentPage, offset: usize) -> (r: Vec<Comment>)
    ensures
        r@.map_values(|c: Comment| c@) == comments_of_page(
            page.headers@.map_values(|s: String| s@),
            page.contents@.map_values(|s: String| s@),
            offset == 0,
        ),
        // pages past the first keep every extracted pair
        offset > 0 ==> r@.len() == if page.headers@.len() <= page.contents@.len() {
            page.headers@.len()
        } else {
            page.contents@.len()
        },
{
    let ghost hs = page.headers@.map_values(|s: String| s@);
    let ghost cs = page.contents@.map_values(|s: String| s@);
    let ghost target = comments_of_page(hs, cs, offset == 0);
    let n = if page.headers.len() <= page.contents.len() {
        page.headers.len()
    } else {
        page.contents.len()
    };
    let start: usize = if offset == 0 { 1 } else { 0 };
    let mut out: Vec<Comment> = Vec::new();
    let mut i = start;
    while i < n
        invariant
            start <= i || start > n,
            i <= n || i == start,
            start <= 1,
            n == if hs.len() <= cs.len() { hs.len() } else { cs.len() },
            hs == page.headers@.map_values(|s: String| s@),
            cs == page.contents@.map_values(|s: String| s@),
            target == comments_of_page(hs, cs, start == 1),
            out@.len() == i - start,
            forall|q: int| 0 <= q < out@.len() ==> out@[q]@ == target[q],
        decreases n - i,
    {
        let header = crate::text::delete_tags(page.headers[i].clone());
        let content = crate::text::delete_tags(page.contents[i].clone());
        assert(hs[i as int] == page.headers@[i as int]@);
        assert(cs[i as int] == page.contents@[i as int]@);
        out.push(Comment { header, content });
        i += 1;
    }
    proof {
        if n <= start {
            assert(target =~= Seq::<CommentView>::empty());
        }
        let cf = |c: Comment| c@;
        assert(out@.map_values(cf) =~= target) by {
            assert(forall|q: int| 0 <= q < out@.len()
                ==> #[trigger] out@.map_values(cf)[q] == out@[q]@);
        }
    }
    out
}

/// The comment-page navigation, when the page shows one: the `href`
/// targets of its page links, in document order.
pub open spec fn nav_view(o: Option<Vec<String>>) -> Option<Seq<Seq<char>>> {
    match o {
        Some(v) => Some(v@.map_values(|s: String| s@)),
        None => None,
    }
}

/// What reading the highest comment-page offset yields: no pagination
/// control means offset `0`; otherwise the digits after the last `'='`
/// of the last page link, rejected when they do not parse as a
/// non-negative number.
pub open spec fn spec_last_offset(nav: Option<Seq<Seq<char>>>) -> Option<int> {
    match nav {
        None => Some(0),
        Some(hs) => if hs.len() == 0 {
            None
        } else {
            let h = hs.last();
            let suffix = if crate::text::last_pos(h, '=') >= 0 {
                h.skip(crate::text::last_pos(h, '=') + 1)
            } else {
                h
            };
            match crate::numbers::spec_parse_i32(suffix) {
                Some(v) => if v >= 0 {
                    Some(v as int)
                } else {
                    None
                },
                None => None,
            }
        },
    }
}

/// Reads the highest page offset out of the pagination control's last
/// link, or `0` when the thread has a single page.
pub fn get_last_comment_offset(nav_hrefs: &Option<Vec<String>>) -> (r: Option<usize>)
    ensures
        r matches Some(v) ==> spec_last_offset(nav_view(*nav_hrefs)) == Some(v as int),
        r is None ==> spec_last_offset(nav_view(*nav_hrefs)) is None,
{
    match nav_hrefs {
        None => Some(0),
        Some(hs) => {
            if hs.len() == 0 {
                return None;
            }
            let ghost hsv = hs@.map_values(|s: String| s@);
            let last = &hs[hs.len() - 1];
            assert(hsv.last() == last@);
            let suffix = crate::text::suffix_after_last(last.as_str(), '=');
            match crate::numbers::parse_i32(suffix.as_str()) {
                Some(v) => {
                    if v >= 0 {
                        Some(v as usize)
                    } else {
                        None
                    }
                },
                None => None,
            }
        },
    }
}

} // verus!
