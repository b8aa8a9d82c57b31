use aur_crawler::models::{ModelError, PackageField};
use aur_crawler::scrap::{
    CommentPage, DepListItem, DetailCell, DetailRow, ListingCell, ListingPage, ListingRow,
    get_last_comment_offset, normalize_key, row_fields, scrap_package_additional_data,
    scrap_package_basic_data, scrap_package_comments, scrap_package_dependencies,
    scrap_packages_best_effort, scrap_packages_from_page,
};

fn link(text: &str, target: &str) -> ListingCell {
    ListingCell::Link { text: text.to_string(), target: target.to_string() }
}

fn cell(text: &str) -> ListingCell {
    ListingCell::Text { text: text.to_string() }
}

fn test_row() -> ListingRow {
    ListingRow {
        cells: vec![
            link(" Test ", "/packages/test"),
            cell("1.2"),
            cell(" 100 "),
            cell("6.2"),
            cell("Sample description"),
            cell("Tester"),
            cell("2012"),
        ],
    }
}

#[test]
fn row_fields_follow_column_order() {
    let f = row_fields(&test_row());
    assert_eq!(
        f,
        vec![
            "Test".to_string(),
            "/packages/test".to_string(),
            "1.2".to_string(),
            "100".to_string(),
            "6.2".to_string(),
            "Sample description".to_string(),
            "Tester".to_string(),
            "2012".to_string(),
        ]
    );
}

#[test]
fn basic_data_scraped_from_row() {
    let b = scrap_package_basic_data(&test_row()).unwrap();
    assert_eq!(b.name, "Test");
    assert_eq!(b.path_to_additional_data, "/test");
    assert_eq!(b.votes, 100);
    assert_eq!(b.popularity, "6.2");
}

#[test]
fn page_scrape_aborts_on_first_bad_row() {
    let bad = ListingRow { cells: vec![link("Broken", "/packages/broken")] };
    let page = ListingPage { rows: vec![bad, test_row()] };
    let r = scrap_packages_from_page(&page);
    assert_eq!(
        r,
        Err(ModelError::MissingSourceData { field: PackageField::Version })
    );
}

#[test]
fn page_scrape_best_effort_skips_bad_rows() {
    let bad = ListingRow { cells: vec![link("Broken", "/packages/broken")] };
    let page = ListingPage { rows: vec![bad, test_row()] };
    let r = scrap_packages_best_effort(&page);
    assert_eq!(r.len(), 1);
    assert_eq!(r[0].name, "Test");
}

#[test]
fn page_scrape_collects_rows_in_order() {
    let mut second = test_row();
    second.cells[0] = link("Other", "/packages/other");
    let page = ListingPage { rows: vec![test_row(), second] };
    let r = scrap_packages_from_page(&page).unwrap();
    assert_eq!(r.len(), 2);
    assert_eq!(r[0].name, "Test");
    assert_eq!(r[1].name, "Other");
}

#[test]
fn normalize_key_lowercases_and_strips() {
    assert_eq!(normalize_key(" Git Clone URL: ").unwrap(), "gitcloneurl");
    assert_eq!(normalize_key("Submitter:").unwrap(), "submitter");
    assert_eq!(normalize_key("First Submitted:").unwrap(), "firstsubmitted");
    assert_eq!(
        normalize_key("No colon"),
        Err(ModelError::ParseError { field: PackageField::AttributeLabel })
    );
}

fn text_row(label: &str, value: &str) -> DetailRow {
    DetailRow {
        label: label.to_string(),
        cells: vec![DetailCell::Text { text: value.to_string() }],
    }
}

#[test]
fn detail_table_builds_additional_data() {
    let rows = vec![
        DetailRow {
            label: "Git Clone URL:".to_string(),
            cells: vec![DetailCell::Links { texts: vec![" some git url ".to_string()] }],
        },
        text_row("Submitter:", "Tester"),
        text_row("Popularity:", "6.2"),
        text_row("First Submitted:", "2011"),
        DetailRow {
            label: "Keywords:".to_string(),
            cells: vec![DetailCell::Links {
                texts: vec![" fast ".to_string(), "small".to_string()],
            }],
        },
    ];
    let a = scrap_package_additional_data(&rows).unwrap();
    assert_eq!(a.git_clone_url, "some git url");
    assert_eq!(a.submitter, "Tester");
    assert_eq!(a.popularity, "6.2");
    assert_eq!(a.first_submitted, "2011");
    assert_eq!(a.keywords, Some("fast,small".to_string()));
    assert_eq!(a.license, None);
}

#[test]
fn detail_table_requires_source_url() {
    let rows = vec![
        text_row("Submitter:", "Tester"),
        text_row("Popularity:", "6.2"),
        text_row("First Submitted:", "2011"),
    ];
    assert_eq!(
        scrap_package_additional_data(&rows),
        Err(ModelError::MissingSourceData { field: PackageField::GitCloneUrl })
    );
}

#[test]
fn dependency_list_keeps_named_groups() {
    let items = vec![
        DepListItem {
            group: Some(" depends ".to_string()),
            packages: vec![" aaa ".to_string(), "bbb".to_string()],
        },
        DepListItem { group: None, packages: vec!["ignored".to_string()] },
        DepListItem { group: Some("makedepends".to_string()), packages: vec![] },
    ];
    let deps = scrap_package_dependencies(&items);
    assert_eq!(deps.len(), 2);
    assert_eq!(deps[0].group, "depends");
    assert_eq!(deps[0].packages, vec!["aaa".to_string(), "bbb".to_string()]);
    assert_eq!(deps[1].group, "makedepends");
    assert!(deps[1].packages.is_empty());
}

fn comment_page() -> CommentPage {
    CommentPage {
        headers: vec![
            "<h4>Pinned poster</h4>".to_string(),
            "<h4>Someone wrote at 14:15</h4>".to_string(),
        ],
        contents: vec![
            "<p>Pinned body</p>".to_string(),
            "<p>Cool package</p>".to_string(),
        ],
    }
}

#[test]
fn pinned_comment_skipped_only_on_first_page() {
    let first = scrap_package_comments(&comment_page(), 0);
    assert_eq!(first.len(), 1);
    assert_eq!(first[0].header, "Someone wrote at 14:15");
    assert_eq!(first[0].content, "Cool package");

    let later = scrap_package_comments(&comment_page(), 10);
    assert_eq!(later.len(), 2);
    assert_eq!(later[0].header, "Pinned poster");
    assert_eq!(later[1].header, "Someone wrote at 14:15");
}

#[test]
fn comment_pairs_follow_shorter_side() {
    let page = CommentPage {
        headers: vec!["a".to_string(), "b".to_string(), "c".to_string()],
        contents: vec!["x".to_string(), "y".to_string()],
    };
    let r = scrap_package_comments(&page, 10);
    assert_eq!(r.len(), 2);
}

#[test]
fn last_comment_offset_read_from_navigation() {
    assert_eq!(get_last_comment_offset(&None), Some(0));
    let nav = Some(vec![
        "?O=10".to_string(),
        "?PP=10&O=30".to_string(),
    ]);
    assert_eq!(get_last_comment_offset(&nav), Some(30));
    assert_eq!(get_last_comment_offset(&Some(vec![])), None);
    assert_eq!(get_last_comment_offset(&Some(vec!["?O=ten".to_string()])), None);
}
