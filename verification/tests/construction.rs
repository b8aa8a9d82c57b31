use aur_crawler::models::{
    AdditionalPackageData, BasicPackageData, Comment, FieldBag, ModelError, PackageField,
    normalize_detail_path, package_from_flat_bag,
};

fn fields(v: &[&str]) -> Vec<String> {
    v.iter().map(|s| s.to_string()).collect()
}

#[test]
fn basic_construction_round_trips_valid_fields() {
    let f = fields(&[
        "Test", "/test", "1.2", "100", "6.2", "Sample description", "Tester", "2012",
    ]);
    let b = BasicPackageData::try_from_fields(&f).unwrap();
    assert_eq!(b.name, "Test");
    assert_eq!(b.path_to_additional_data, "/test");
    assert_eq!(b.version, "1.2");
    assert_eq!(b.votes, 100);
    assert_eq!(b.popularity, "6.2");
    assert_eq!(b.description, "Sample description");
    assert_eq!(b.maintainer, "Tester");
    assert_eq!(b.last_updated, "2012");
}

#[test]
fn basic_construction_normalizes_detail_path() {
    let f = fields(&[
        "Test", "packages/sub/test", "1.2", "100", "6.2", "d", "m", "2012",
    ]);
    let b = BasicPackageData::try_from_fields(&f).unwrap();
    assert_eq!(b.path_to_additional_data, "/test");
}

#[test]
fn basic_construction_names_first_absent_field() {
    let cases: &[(&[&str], PackageField)] = &[
        (&[], PackageField::Name),
        (&["Test"], PackageField::PathToAdditionalData),
        (&["Test", "/test"], PackageField::Version),
        (&["Test", "/test", "1.2"], PackageField::Votes),
        (&["Test", "/test", "1.2", "100"], PackageField::Popularity),
        (&["Test", "/test", "1.2", "100", "6.2"], PackageField::Description),
        (&["Test", "/test", "1.2", "100", "6.2", "d"], PackageField::Maintainer),
        (&["Test", "/test", "1.2", "100", "6.2", "d", "m"], PackageField::LastUpdated),
    ];
    for (input, expected) in cases {
        let r = BasicPackageData::try_from_fields(&fields(input));
        match r {
            Err(ModelError::MissingSourceData { field }) => assert_eq!(field, *expected),
            other => panic!("expected a missing-field error, got {:?}", other),
        }
    }
}

#[test]
fn basic_construction_rejects_bad_numbers() {
    let f = fields(&["Test", "/test", "1.2", "many", "6.2", "d", "m", "2012"]);
    assert_eq!(
        BasicPackageData::try_from_fields(&f),
        Err(ModelError::ParseError { field: PackageField::Votes })
    );
    let f = fields(&["Test", "/test", "1.2", "100", "high", "d", "m", "2012"]);
    assert_eq!(
        BasicPackageData::try_from_fields(&f),
        Err(ModelError::ParseError { field: PackageField::Popularity })
    );
}

fn detail_bag() -> FieldBag {
    let mut bag = FieldBag::new();
    bag.insert("gitcloneurl".to_string(), "some git url".to_string());
    bag.insert("submitter".to_string(), "Tester".to_string());
    bag.insert("popularity".to_string(), "6.2".to_string());
    bag.insert("firstsubmitted".to_string(), "2011".to_string());
    bag
}

#[test]
fn additional_construction_defaults_optional_fields() {
    let a = AdditionalPackageData::try_from_bag(&detail_bag()).unwrap();
    assert_eq!(a.git_clone_url, "some git url");
    assert_eq!(a.submitter, "Tester");
    assert_eq!(a.popularity, "6.2");
    assert_eq!(a.first_submitted, "2011");
    assert_eq!(a.keywords, None);
    assert_eq!(a.license, None);
    assert_eq!(a.conflicts, None);
    assert_eq!(a.provides, None);
}

#[test]
fn additional_construction_reads_optional_fields() {
    let mut bag = detail_bag();
    bag.insert("keywords".to_string(), "fast,small".to_string());
    bag.insert("licenses".to_string(), "MIT".to_string());
    let a = AdditionalPackageData::try_from_bag(&bag).unwrap();
    assert_eq!(a.keywords, Some("fast,small".to_string()));
    assert_eq!(a.license, Some("MIT".to_string()));
}

#[test]
fn additional_construction_requires_submitter() {
    let mut bag = FieldBag::new();
    bag.insert("gitcloneurl".to_string(), "url".to_string());
    bag.insert("popularity".to_string(), "0".to_string());
    bag.insert("firstsubmitted".to_string(), "2011".to_string());
    assert_eq!(
        AdditionalPackageData::try_from_bag(&bag),
        Err(ModelError::MissingSourceData { field: PackageField::Submitter })
    );
}

#[test]
fn additional_construction_rejects_bad_popularity() {
    let mut bag = FieldBag::new();
    bag.insert("gitcloneurl".to_string(), "url".to_string());
    bag.insert("submitter".to_string(), "t".to_string());
    bag.insert("popularity".to_string(), "none".to_string());
    bag.insert("firstsubmitted".to_string(), "2011".to_string());
    assert_eq!(
        AdditionalPackageData::try_from_bag(&bag),
        Err(ModelError::ParseError { field: PackageField::Popularity })
    );
}

#[test]
fn field_bag_later_entry_shadows_earlier() {
    let mut bag = FieldBag::new();
    bag.insert("k".to_string(), "old".to_string());
    bag.insert("k".to_string(), "new".to_string());
    assert_eq!(bag.get("k"), Some("new".to_string()));
    assert_eq!(bag.get("missing"), None);
}

#[test]
fn comment_reconstruction_requires_both_fields() {
    let mut bag = FieldBag::new();
    bag.insert("header".to_string(), "h".to_string());
    assert_eq!(
        Comment::try_from_bag(&bag),
        Err(ModelError::MissingSourceData { field: PackageField::Content })
    );
    bag.insert("content".to_string(), "c".to_string());
    let c = Comment::try_from_bag(&bag).unwrap();
    assert_eq!(c.header, "h");
    assert_eq!(c.content, "c");
}

#[test]
fn detail_path_normalization_keeps_trailing_segment() {
    assert_eq!(normalize_detail_path("a/b/c"), "/c");
    assert_eq!(normalize_detail_path("/test"), "/test");
    assert_eq!(normalize_detail_path("test"), "test");
    assert_eq!(normalize_detail_path(""), "");
}

#[test]
fn flat_bag_reconstruction_round_trips() {
    let mut bag = FieldBag::new();
    bag.insert("name".to_string(), "Test".to_string());
    bag.insert("version".to_string(), "1.2".to_string());
    bag.insert("path_to_additional_data".to_string(), "/test".to_string());
    bag.insert("votes".to_string(), "100".to_string());
    bag.insert("popularity".to_string(), "6.2".to_string());
    bag.insert("description".to_string(), "d".to_string());
    bag.insert("maintainer".to_string(), "m".to_string());
    bag.insert("last_updated".to_string(), "2012".to_string());
    bag.insert("gitcloneurl".to_string(), "url".to_string());
    bag.insert("submitter".to_string(), "t".to_string());
    bag.insert("detailpopularity".to_string(), "6.2".to_string());
    bag.insert("firstsubmitted".to_string(), "2011".to_string());
    let (b, a) = package_from_flat_bag(&bag).unwrap();
    assert_eq!(b.name, "Test");
    assert_eq!(b.votes, 100);
    assert_eq!(a.git_clone_url, "url");
    assert_eq!(a.keywords, None);
}
