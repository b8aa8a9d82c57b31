use aur_crawler::backend::StorageBackend;
use aur_crawler::doc_store::DocStore;
use aur_crawler::hash_store::{HashItemRecord, HashStore};
use aur_crawler::models::{
    AdditionalPackageData, BasicPackageData, Comment, FieldBag, PackageData, PackageDependency,
};
use aur_crawler::storage::{StorageError, classify_backend_error, tolerate_existing};
use aur_crawler::table_store::TableStore;
use aur_crawler::crawl::{assemble_packages, merge_comment_pages};
use aur_crawler::scrap::{
    CommentPage, DepListItem, DetailCell, DetailRow, ListingCell, ListingPage, ListingRow,
    scrap_package_additional_data, scrap_package_comments, scrap_package_dependencies,
    scrap_packages_from_page,
};

fn create_package_data() -> PackageData {
    PackageData {
        basic: BasicPackageData {
            name: "Test".into(),
            votes: 100,
            version: "1.2".into(),
            popularity: "6.2".into(),
            maintainer: "Tester".into(),
            description: "Sample description".into(),
            last_updated: "2012".into(),
            path_to_additional_data: "/test".into(),
        },
        additional: AdditionalPackageData {
            license: None,
            keywords: None,
            provides: None,
            conflicts: None,
            submitter: "Tester".into(),
            git_clone_url: "some git url".into(),
            popularity: "6.2".into(),
            first_submitted: "2011".into(),
        },
        comments: vec![
            Comment {
                header: "Someone wrote at 14:15".into(),
                content: "Cool package".into(),
            },
            Comment {
                header: "Foo wrote at 20:30".into(),
                content: "Not bad".into(),
            },
        ],
        dependencies: vec![PackageDependency {
            group: "abc".into(),
            packages: vec!["aaa".into(), "bbb".into(), "ccc".into()],
        }],
    }
}

fn assert_pkg(retrieved: &PackageData, generated: &PackageData) {
    assert_eq!(retrieved.basic.name, generated.basic.name);
    assert_eq!(retrieved.comments.len(), generated.comments.len());
    assert_eq!(retrieved.dependencies.len(), generated.dependencies.len());
}

#[test]
fn redis_io_insert_data() {
    let mut store = HashStore::new();
    let pkg = create_package_data();
    store.insert(&pkg).unwrap();
    let got = store.get("Test").unwrap();
    assert_eq!(got.basic.name, "Test");
    assert!(got.comments.len() == 2);
    assert!(got.dependencies.len() == 1);
    assert_eq!(got, pkg);
}

#[test]
fn skytable_io_insert_data() {
    let mut store = TableStore::new();
    store.create_tables().unwrap();
    let pkg = create_package_data();
    store.insert(&pkg).unwrap();
    let got = store.get("Test").unwrap();
    assert_pkg(&got, &pkg);
    assert_eq!(got, pkg);
}

#[test]
fn surreal_io_insert_data() {
    let mut store = DocStore::new();
    let pkg = create_package_data();
    store.insert(&pkg).unwrap();
    let got = store.get("Test").unwrap();
    assert_pkg(&got, &pkg);
    assert_eq!(got, pkg);
}

#[test]
fn insert_twice_is_idempotent_on_every_backend() {
    let mut table = TableStore::new();
    table.create_tables().unwrap();
    let backends = vec![
        StorageBackend::Hash(HashStore::new()),
        StorageBackend::Table(table),
        StorageBackend::Document(DocStore::new()),
    ];
    for mut backend in backends {
        let pkg = create_package_data();
        backend.insert(&pkg).unwrap();
        backend.insert(&pkg).unwrap();
        let got = backend.get("Test").unwrap();
        assert_eq!(got, pkg, "round trip through {}", backend.get_name());
    }
}

#[test]
fn end_to_end_scenario_round_trips_every_backend() {
    let mut table = TableStore::new();
    table.create_tables().unwrap();
    let backends = vec![
        StorageBackend::Hash(HashStore::new()),
        StorageBackend::Table(table),
        StorageBackend::Document(DocStore::new()),
    ];
    for mut backend in backends {
        let pkg = create_package_data();
        backend.insert(&pkg).unwrap();
        let got = backend.get("Test").unwrap();
        assert_eq!(got.basic.name, "Test");
        assert_eq!(got.comments.len(), 2);
        assert_eq!(got.dependencies.len(), 1);
        assert_eq!(got.dependencies[0].group, "abc");
        assert_eq!(
            got.dependencies[0].packages,
            vec!["aaa".to_string(), "bbb".to_string(), "ccc".to_string()]
        );
    }
}

#[test]
fn end_to_end_scenario_from_listing_row() {
    let page = ListingPage {
        rows: vec![ListingRow {
            cells: vec![
                ListingCell::Link { text: "Test".into(), target: "/packages/test".into() },
                ListingCell::Text { text: "1.2".into() },
                ListingCell::Text { text: "100".into() },
                ListingCell::Text { text: "6.2".into() },
                ListingCell::Text { text: "Sample description".into() },
                ListingCell::Text { text: "Tester".into() },
                ListingCell::Text { text: "2012".into() },
            ],
        }],
    };
    let basics = scrap_packages_from_page(&page).unwrap();
    assert_eq!(basics.len(), 1);

    let detail_rows = vec![
        DetailRow {
            label: "Git Clone URL:".into(),
            cells: vec![DetailCell::Links { texts: vec!["some git url".into()] }],
        },
        DetailRow {
            label: "Submitter:".into(),
            cells: vec![DetailCell::Text { text: "Tester".into() }],
        },
        DetailRow {
            label: "Popularity:".into(),
            cells: vec![DetailCell::Text { text: "6.2".into() }],
        },
        DetailRow {
            label: "First Submitted:".into(),
            cells: vec![DetailCell::Text { text: "2011".into() }],
        },
    ];
    let additional = scrap_package_additional_data(&detail_rows).unwrap();
    let dependencies = scrap_package_dependencies(&vec![DepListItem {
        group: Some("abc".into()),
        packages: vec!["aaa".into(), "bbb".into(), "ccc".into()],
    }]);

    let first_page = CommentPage {
        headers: vec![
            "<h4>Pinned</h4>".into(),
            "<h4>Someone wrote at 14:15</h4>".into(),
        ],
        contents: vec!["<p>Sticky</p>".into(), "<p>Cool package</p>".into()],
    };
    let second_page = CommentPage {
        headers: vec!["<h4>Foo wrote at 20:30</h4>".into()],
        contents: vec!["<p>Not bad</p>".into()],
    };
    let comments = merge_comment_pages(vec![
        (10, scrap_package_comments(&second_page, 10)),
        (0, scrap_package_comments(&first_page, 0)),
    ]);

    let packages = assemble_packages(basics, vec![Some((additional, dependencies, comments))]);
    assert_eq!(packages.len(), 1);

    let mut table = TableStore::new();
    table.create_tables().unwrap();
    let backends = vec![
        StorageBackend::Hash(HashStore::new()),
        StorageBackend::Table(table),
        StorageBackend::Document(DocStore::new()),
    ];
    for mut backend in backends {
        backend.insert(&packages[0]).unwrap();
        let got = backend.get("Test").unwrap();
        assert_eq!(got.basic.name, "Test");
        assert_eq!(got.comments.len(), 2);
        assert_eq!(got.comments[0].header, "Someone wrote at 14:15");
        assert_eq!(got.comments[1].content, "Not bad");
        assert_eq!(got.dependencies.len(), 1);
        assert_eq!(got.dependencies[0].group, "abc");
        assert_eq!(got.dependencies[0].packages.len(), 3);
        assert_eq!(got, packages[0]);
    }
}

#[test]
fn get_of_absent_name_is_not_found() {
    let mut table = TableStore::new();
    table.create_tables().unwrap();
    let backends = vec![
        StorageBackend::Hash(HashStore::new()),
        StorageBackend::Table(table),
        StorageBackend::Document(DocStore::new()),
    ];
    for backend in backends {
        assert!(matches!(backend.get("missing"), Err(StorageError::NotFound)));
        assert!(backend.health_check().is_ok());
    }
}

#[test]
fn table_backend_requires_created_tables() {
    let mut store = TableStore::new();
    let pkg = create_package_data();
    assert!(matches!(store.insert(&pkg), Err(StorageError::Unavailable)));
    store.create_tables().unwrap();
    store.create_tables().unwrap();
    store.insert(&pkg).unwrap();
    assert_eq!(store.get("Test").unwrap(), pkg);
}

#[test]
fn document_backend_keeps_first_record_for_a_name() {
    let mut store = DocStore::new();
    let pkg = create_package_data();
    let mut changed = create_package_data();
    changed.basic.version = "9.9".into();
    store.insert(&pkg).unwrap();
    store.insert(&changed).unwrap();
    let got = store.get("Test").unwrap();
    assert_eq!(got.basic.version, "1.2");
}

#[test]
fn hash_backend_reports_decode_failures() {
    let mut bad_hash = FieldBag::new();
    bad_hash.insert("version".to_string(), "1.2".to_string());
    let record = HashItemRecord {
        hash: bad_hash,
        comment_keys: vec![],
        comment_hashes: vec![],
        dep_groups: vec![],
        dep_lists: vec![],
    };
    let store = HashStore { items: vec![("Broken".to_string(), record)] };
    assert!(matches!(store.get("Broken"), Err(StorageError::Decode { .. })));
}

#[test]
fn already_exists_answers_are_absorbed() {
    assert!(tolerate_existing(Ok(())).is_ok());
    assert!(tolerate_existing(Err(StorageError::AlreadyExists)).is_ok());
    match tolerate_existing(Err(StorageError::NotFound)) {
        Err(StorageError::NotFound) => {},
        other => panic!("expected the error unchanged, got {:?}", other),
    }
    match tolerate_existing(Err(StorageError::Backend { message: "boom".to_string() })) {
        Err(StorageError::Backend { message }) => assert_eq!(message, "boom"),
        other => panic!("expected the error unchanged, got {:?}", other),
    }
}

#[test]
fn backend_error_messages_are_classified() {
    assert!(matches!(
        classify_backend_error("err: already-exists".to_string()),
        StorageError::AlreadyExists
    ));
    assert!(matches!(
        classify_backend_error("the table already exists".to_string()),
        StorageError::AlreadyExists
    ));
    match classify_backend_error("connection refused".to_string()) {
        StorageError::Backend { message } => assert_eq!(message, "connection refused"),
        other => panic!("expected the message carried through, got {:?}", other),
    }
}

#[test]
fn backend_names_identify_the_paradigm() {
    let mut table = TableStore::new();
    table.create_tables().unwrap();
    assert_eq!(StorageBackend::Hash(HashStore::new()).get_name(), "redis");
    assert_eq!(StorageBackend::Table(table).get_name(), "skytable");
    assert_eq!(StorageBackend::Document(DocStore::new()).get_name(), "surrealdb");
}
