use aur_crawler::crawl::{
    assemble_packages, comment_offsets, listing_offset, listing_page_indices, load_page_numbers,
    merge_comment_pages,
};
use aur_crawler::models::{
    AdditionalPackageData, BasicPackageData, Comment, PackageDependency,
};

fn comment(h: &str, c: &str) -> Comment {
    Comment { header: h.to_string(), content: c.to_string() }
}

fn basic(name: &str) -> BasicPackageData {
    BasicPackageData {
        name: name.to_string(),
        version: "1.2".to_string(),
        path_to_additional_data: "/test".to_string(),
        votes: 100,
        popularity: "6.2".to_string(),
        description: "Sample description".to_string(),
        maintainer: "Tester".to_string(),
        last_updated: "2012".to_string(),
    }
}

fn additional() -> AdditionalPackageData {
    AdditionalPackageData {
        git_clone_url: "some git url".to_string(),
        keywords: None,
        license: None,
        conflicts: None,
        provides: None,
        submitter: "Tester".to_string(),
        popularity: "6.2".to_string(),
        first_submitted: "2011".to_string(),
    }
}

#[test]
fn comment_offsets_step_by_pagination_unit() {
    assert_eq!(comment_offsets(37), vec![0, 10, 20, 30]);
    assert_eq!(comment_offsets(0), vec![0]);
    assert_eq!(comment_offsets(30), vec![0, 10, 20, 30]);
    assert_eq!(comment_offsets(9), vec![0]);
}

#[test]
fn merge_restores_page_order() {
    let pages = vec![
        (20, vec![comment("h3", "c3")]),
        (0, vec![comment("h0", "c0"), comment("h1", "c1")]),
        (10, vec![comment("h2", "c2")]),
    ];
    let merged = merge_comment_pages(pages);
    let headers: Vec<String> = merged.into_iter().map(|c| c.header).collect();
    assert_eq!(headers, vec!["h0", "h1", "h2", "h3"]);
}

#[test]
fn merge_keeps_submission_order_for_equal_offsets() {
    let pages = vec![
        (10, vec![comment("first", "x")]),
        (10, vec![comment("second", "y")]),
    ];
    let merged = merge_comment_pages(pages);
    let headers: Vec<String> = merged.into_iter().map(|c| c.header).collect();
    assert_eq!(headers, vec!["first", "second"]);
}

#[test]
fn merge_of_no_pages_is_empty() {
    assert!(merge_comment_pages(vec![]).is_empty());
}

#[test]
fn assembly_keeps_listing_order_and_drops_failures() {
    let basics = vec![basic("first"), basic("second"), basic("third")];
    let fetched = vec![
        Some((additional(), vec![], vec![comment("h", "c")])),
        None,
        Some((additional(), vec![PackageDependency {
            group: "depends".to_string(),
            packages: vec!["aaa".to_string()],
        }], vec![])),
    ];
    let packages = assemble_packages(basics, fetched);
    assert_eq!(packages.len(), 2);
    assert_eq!(packages[0].basic.name, "first");
    assert_eq!(packages[0].comments.len(), 1);
    assert_eq!(packages[1].basic.name, "third");
    assert_eq!(packages[1].dependencies.len(), 1);
}

#[test]
fn page_ranges_match_the_command_line_contract() {
    assert_eq!(listing_page_indices(1, None), (0, 1));
    assert_eq!(listing_page_indices(2, Some(5)), (1, 5));
    assert_eq!(load_page_numbers(1, None), (1, 2));
    assert_eq!(load_page_numbers(3, Some(7)), (3, 8));
    assert_eq!(listing_offset(0), 0);
    assert_eq!(listing_offset(2), 500);
}
