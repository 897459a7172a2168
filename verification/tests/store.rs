use odcrawler_discovery::db::{new_id, Database, Link, OpenDirectory, SaveResult};
use odcrawler_discovery::scans::OdScanFile;

fn files(urls: &[&str]) -> Vec<OdScanFile> {
    urls.iter().map(|u| OdScanFile { url: u.to_string() }).collect()
}

#[test]
fn root_is_created_once() {
    let mut db = Database::new(10).unwrap();
    let first = db.save_scan_result("https://example.com/", files(&["https://example.com/a"]), true);
    assert_eq!(first, SaveResult::Success);
    let second = db.save_scan_result("https://example.com/", files(&["https://example.com/b"]), true);
    assert_eq!(second, SaveResult::DuplicateOd);
    let rows: Vec<OpenDirectory> = db
        .get_opendirectories(true)
        .into_iter()
        .filter(|od| od.url == "https://example.com/")
        .collect();
    assert_eq!(rows.len(), 1);
    assert_eq!(db.get_links("https://example.com/").len(), 1);
}

#[test]
fn threshold_below_one_is_refused() {
    assert!(Database::new(0).is_none());
    assert!(Database::new(-1).is_none());
    assert!(Database::new(i32::MIN).is_none());
    assert!(Database::new(1).is_some());
    assert!(Database::new(i32::MAX).is_some());
}

#[test]
fn streak_outside_the_range_is_not_written() {
    let mut db = Database::new(10).unwrap();
    assert_eq!(db.save_scan_result("http://a/", files(&[]), true), SaveResult::Success);
    let mut od = db.get_opendirectories(true).remove(0);
    od.unreachable = 11;
    assert!(!db.save_opendirectory(&od));
    od.unreachable = -1;
    assert!(!db.save_opendirectory(&od));
    assert_eq!(db.get_opendirectories(true)[0].unreachable, 0);
    od.unreachable = 10;
    assert!(db.save_opendirectory(&od));
    assert_eq!(db.get_opendirectories(true)[0].unreachable, 10);
    od.unreachable = 0;
    assert!(db.save_opendirectory(&od));
    assert_eq!(db.get_opendirectories(true)[0].unreachable, 0);
}

#[test]
fn a_cycle_keeps_every_streak_in_range() {
    let opt = odcrawler_discovery::Opt::default();
    let mut db = Database::new(opt.dead_threshold).unwrap();
    for url in ["http://a/", "http://b/", "http://c/"] {
        assert_eq!(db.save_scan_result(url, files(&[]), url != "http://c/"), SaveResult::Success);
    }
    for round in 0..30 {
        let observed: Vec<(OpenDirectory, bool)> = db
            .get_opendirectories(true)
            .into_iter()
            .map(|od| {
                let reachable = match od.url.as_str() {
                    "http://a/" => true,
                    "http://b/" => false,
                    _ => round % 13 == 12,
                };
                (od, reachable)
            })
            .collect();
        for checked in odcrawler_discovery::check_links::check_opendirectories(&opt, observed) {
            assert!(0 <= checked.od.unreachable && checked.od.unreachable <= 10);
            if checked.transition.persist {
                assert!(db.save_opendirectory(&checked.od));
            }
        }
    }
    let streaks: Vec<i32> = db.get_opendirectories(true).into_iter().map(|od| od.unreachable).collect();
    assert_eq!(streaks, vec![0, 10, 4]);
    let alive: Vec<String> = db.get_opendirectories(false).into_iter().map(|od| od.url).collect();
    assert_eq!(alive, vec!["http://a/", "http://c/"]);
}

#[test]
fn new_store_is_empty() {
    let db = Database::new(10).unwrap();
    assert!(db.get_opendirectories(true).is_empty());
    assert!(db.get_opendirectories(false).is_empty());
    assert!(db.get_links("https://example.com/").is_empty());
}

#[test]
fn saved_documents_get_the_identifier_of_their_place() {
    let mut db = Database::new(10).unwrap();
    assert_eq!(db.save_scan_result("http://a/", files(&["http://a/1", "http://a/2"]), true), SaveResult::Success);
    assert_eq!(db.save_scan_result("http://b/", files(&["http://b/1"]), false), SaveResult::Success);
    let ods = db.get_opendirectories(true);
    assert_eq!(
        ods,
        vec![
            OpenDirectory {
                id: Some("000000000000000000000000".to_string()),
                url: "http://a/".to_string(),
                unreachable: 0
            },
            OpenDirectory {
                id: Some("000000000000000000000001".to_string()),
                url: "http://b/".to_string(),
                unreachable: 0
            },
        ]
    );
    assert_eq!(
        db.get_links("http://b/"),
        vec![Link {
            id: Some("000000000000000000000002".to_string()),
            opendirectory: "http://b/".to_string(),
            url: "http://b/1".to_string()
        }]
    );
    let of_a: Vec<String> = db.get_links("http://a/").into_iter().map(|l| l.url).collect();
    assert_eq!(of_a, vec!["http://a/1", "http://a/2"]);
}

#[test]
fn identifiers_are_24_hex_digits() {
    assert_eq!(new_id(0), "000000000000000000000000");
    assert_eq!(new_id(255), "0000000000000000000000ff");
    assert_eq!(new_id(0x1234abcd), "00000000000000001234abcd");
    assert_eq!(new_id(usize::MAX), format!("{:024x}", usize::MAX));
    assert_ne!(new_id(16), new_id(1));
}

#[test]
fn every_root_starts_with_a_streak_of_zero() {
    let mut db = Database::new(5).unwrap();
    assert_eq!(db.save_scan_result("http://gone/", files(&[]), false), SaveResult::Success);
    assert_eq!(db.save_scan_result("http://here/", files(&[]), true), SaveResult::Success);
    let streaks: Vec<i32> = db.get_opendirectories(true).into_iter().map(|od| od.unreachable).collect();
    assert_eq!(streaks, vec![0, 0]);
    assert_eq!(db.get_opendirectories(false).len(), 2);
    assert_eq!(OpenDirectory::first_seen("http://gone/"), OpenDirectory {
        id: None,
        url: "http://gone/".to_string(),
        unreachable: 0
    });
}

#[test]
fn duplicate_link_under_an_unknown_root_is_refused() {
    let mut db = Database::new(10).unwrap();
    db.insert_links("http://a/", &files(&["http://a/1", "http://a/2"]));
    assert_eq!(
        db.save_scan_result("http://a/", files(&["http://a/0", "http://a/2"]), true),
        SaveResult::DuplicateLinks
    );
    assert!(db.get_opendirectories(true).is_empty());
    assert_eq!(db.get_links("http://a/").len(), 2);
    assert_eq!(
        db.save_scan_result("http://a/", files(&["http://a/3"]), true),
        SaveResult::Success
    );
    assert_eq!(db.get_opendirectories(true).len(), 1);
    assert_eq!(db.get_links("http://a/").len(), 3);
}

#[test]
fn known_root_is_reported_before_known_links() {
    let mut db = Database::new(10).unwrap();
    assert_eq!(db.save_scan_result("http://a/", files(&["http://a/1"]), true), SaveResult::Success);
    assert_eq!(
        db.save_scan_result("http://a/", files(&["http://a/1"]), true),
        SaveResult::DuplicateOd
    );
    assert_eq!(
        db.save_scan_result("http://b/", files(&["http://a/1"]), true),
        SaveResult::Success
    );
    assert_eq!(db.get_links("http://b/").len(), 1);
}

#[test]
fn inserted_links_get_identifiers_in_order() {
    let mut db = Database::new(10).unwrap();
    db.insert_links("http://a/", &files(&["http://a/1", "http://a/2"]));
    db.insert_links("http://a/", &files(&[]));
    db.insert_links("http://a/", &files(&["http://a/3"]));
    let ids: Vec<Option<String>> = db.get_links("http://a/").into_iter().map(|l| l.id).collect();
    assert_eq!(
        ids,
        vec![
            Some("000000000000000000000000".to_string()),
            Some("000000000000000000000001".to_string()),
            Some("000000000000000000000002".to_string()),
        ]
    );
}

#[test]
fn listing_without_dead_roots_leaves_them_out() {
    let mut db = Database::new(10).unwrap();
    for url in ["http://a/", "http://b/", "http://c/"] {
        assert_eq!(db.save_scan_result(url, files(&[]), true), SaveResult::Success);
    }
    let mut b = db.get_opendirectories(true).remove(1);
    b.unreachable = 10;
    assert!(db.save_opendirectory(&b));
    let mut c = db.get_opendirectories(true).remove(2);
    c.unreachable = 9;
    assert!(db.save_opendirectory(&c));
    let alive: Vec<(String, i32)> =
        db.get_opendirectories(false).into_iter().map(|od| (od.url, od.unreachable)).collect();
    assert_eq!(alive, vec![("http://a/".to_string(), 0), ("http://c/".to_string(), 9)]);
    let all: Vec<i32> = db.get_opendirectories(true).into_iter().map(|od| od.unreachable).collect();
    assert_eq!(all, vec![0, 10, 9]);
}

#[test]
fn saving_an_unknown_root_writes_nothing() {
    let mut db = Database::new(10).unwrap();
    assert_eq!(db.save_scan_result("http://a/", files(&[]), true), SaveResult::Success);
    let stranger = OpenDirectory { id: None, url: "http://zzz/".to_string(), unreachable: 3 };
    assert!(!db.save_opendirectory(&stranger));
    assert_eq!(db.get_opendirectories(true).len(), 1);
    assert_eq!(db.get_opendirectories(true)[0].unreachable, 0);
}

#[test]
fn links_are_listed_by_root() {
    let mut db = Database::new(10).unwrap();
    assert_eq!(db.save_scan_result("http://a/", files(&["http://a/1"]), true), SaveResult::Success);
    assert_eq!(db.save_scan_result("http://b/", files(&["http://b/1", "http://b/2"]), true), SaveResult::Success);
    assert_eq!(db.get_links("http://a/").len(), 1);
    assert_eq!(db.get_links("http://b/").len(), 2);
    assert!(db.get_links("http://c/").is_empty());
    assert!(db.get_links("http://a").is_empty());
}
