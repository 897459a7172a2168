use std::collections::BTreeMap;
use std::path::Path;

use odcrawler_discovery::db::Link;
use odcrawler_discovery::elastic::{
    add_bulk, add_links_from_db, bulk_accepted, bulk_request, export_all, extension,
    push_delete_lines, push_index_lines, remove_bulk, requests_of, BulkAction, BulkBody,
    BulkRequest, ElasticLink, BULK_CHUNK_SIZE,
};
use odcrawler_discovery::Opt;

fn link(id: Option<&str>, root: &str, url: &str) -> Link {
    Link { id: id.map(|s| s.to_string()), opendirectory: root.to_string(), url: url.to_string() }
}

fn entry(n: usize) -> ElasticLink {
    ElasticLink {
        id: format!("{:024x}", n),
        url: format!("https://example.com/f{}.bin", n),
        filename: format!("f{}.bin", n),
        extension: Some("bin".to_string()),
    }
}

fn apply(index: &mut BTreeMap<String, ElasticLink>, requests: &[BulkRequest]) {
    for request in requests {
        for action in &request.body.items {
            match action {
                BulkAction::Delete(id) => {
                    index.remove(id);
                }
                BulkAction::Index(e) => {
                    index.insert(e.id.clone(), e.clone());
                }
            }
        }
    }
}

#[test]
fn projection_takes_the_file_name_from_the_address() {
    let e = ElasticLink::from(link(
        Some("5f7c1b2e9d3a4c0012345678"),
        "https://example.com/pub/",
        "https://example.com/pub/music/song.final.mp3",
    ));
    assert_eq!(
        e,
        ElasticLink {
            id: "5f7c1b2e9d3a4c0012345678".to_string(),
            url: "https://example.com/pub/music/song.final.mp3".to_string(),
            filename: "song.final.mp3".to_string(),
            extension: Some("mp3".to_string()),
        }
    );
}

#[test]
fn projection_without_extension() {
    let e = ElasticLink::from(link(Some("1"), "r", "https://example.com/pub/README"));
    assert_eq!(e.filename, "README");
    assert_eq!(e.extension, None);
    let e = ElasticLink::from(link(Some("1"), "r", "https://example.com/pub/.hidden"));
    assert_eq!(e.filename, ".hidden");
    assert_eq!(e.extension, None);
    let e = ElasticLink::from(link(Some("1"), "r", "https://example.com/pub/dir/"));
    assert_eq!(e.filename, "dir");
    assert_eq!(e.extension, None);
}

#[test]
fn project_is_none_without_id_or_file_name() {
    assert_eq!(ElasticLink::project(link(None, "r", "https://example.com/a.txt")), None);
    assert_eq!(ElasticLink::project(link(Some("1"), "r", "https://example.com/a/..")), None);
    assert_eq!(ElasticLink::project(link(Some("1"), "r", "")), None);
    assert!(!ElasticLink::projects(&link(Some("1"), "r", "/")));
    assert!(ElasticLink::projects(&link(Some("1"), "r", "a")));
    let e = ElasticLink::project(link(Some("1"), "r", "https://example.com/a.txt")).unwrap();
    assert_eq!(e.filename, "a.txt");
    assert_eq!(e.extension, Some("txt".to_string()));
}

#[test]
fn extension_agrees_with_std() {
    let names = [
        "", "a", "a.b", "a.", ".a", ".a.b", "archive.tar.gz", "..a", "a..", "no dots here",
        "ünï.cödé", ".", "x.y.z.", "trailing.dot.",
    ];
    for name in names {
        let expected = Path::new(name).extension().map(|e| e.to_string_lossy().into_owned());
        if Path::new(name).file_name().map(|f| f.to_string_lossy().into_owned())
            == Some(name.to_string())
        {
            assert_eq!(extension(name), expected, "{:?}", name);
        }
    }
    assert_eq!(extension("archive.tar.gz"), Some("gz".to_string()));
    assert_eq!(extension("a."), Some(String::new()));
    assert_eq!(extension(".profile"), None);
    assert_eq!(extension("Makefile"), None);
}

#[test]
fn with_file_name_derives_the_extension() {
    let e = ElasticLink::with_file_name("7".to_string(), "u".to_string(), "x.iso".to_string());
    assert_eq!(e.extension, Some("iso".to_string()));
    assert_eq!(e.id, "7");
    assert_eq!(e.url, "u");
    assert_eq!(e.filename, "x.iso");
}

#[test]
fn empty_body_has_no_text() {
    assert_eq!(BulkBody::default().items, Vec::new());
    assert_eq!(BulkBody::default().to_string(), "");
}

#[test]
fn delete_action_text() {
    let body = BulkBody { items: vec![BulkAction::Delete("abc".to_string())] };
    assert_eq!(body.to_string(), "{\"delete\":{\"_id\":\"abc\"}}\n\n");
}

#[test]
fn index_action_text() {
    let body = BulkBody {
        items: vec![BulkAction::Index(ElasticLink {
            id: "abc".to_string(),
            url: "http://h/a b.txt".to_string(),
            filename: "a b.txt".to_string(),
            extension: Some("txt".to_string()),
        })],
    };
    assert_eq!(
        body.to_string(),
        "{\"index\":{\"_id\":\"abc\"}}\n{\"url\":\"http://h/a b.txt\",\"filename\":\"a b.txt\",\"extension\":\"txt\"}\n"
    );
}

#[test]
fn index_action_text_without_extension() {
    let body = BulkBody {
        items: vec![BulkAction::Index(ElasticLink {
            id: "1".to_string(),
            url: "u".to_string(),
            filename: "f".to_string(),
            extension: None,
        })],
    };
    assert_eq!(
        body.to_string(),
        "{\"index\":{\"_id\":\"1\"}}\n{\"url\":\"u\",\"filename\":\"f\",\"extension\":null}\n"
    );
}

#[test]
fn strings_are_escaped_as_json() {
    let body = BulkBody { items: vec![BulkAction::Delete("a\"b\\c\nd".to_string())] };
    assert_eq!(body.to_string(), "{\"delete\":{\"_id\":\"a\\\"b\\\\c\\nd\"}}\n\n");
}

#[test]
fn body_text_is_the_actions_in_order_and_parses_as_json() {
    let tricky = ElasticLink {
        id: "id-1".to_string(),
        url: "http://h/\"quoted\"/tab\there/é.txt".to_string(),
        filename: "é.txt".to_string(),
        extension: Some("txt".to_string()),
    };
    let body = BulkBody {
        items: vec![
            BulkAction::Index(tricky.clone()),
            BulkAction::Delete("id-2".to_string()),
            BulkAction::Index(entry(3)),
        ],
    };
    let text = body.to_string();
    let lines: Vec<&str> = text.split('\n').collect();
    assert_eq!(lines.len(), 7);
    assert_eq!(lines[3], "");
    assert_eq!(lines[6], "");
    let head: serde_json::Value = serde_json::from_str(lines[0]).unwrap();
    assert_eq!(head["index"]["_id"].as_str(), Some("id-1"));
    let doc: serde_json::Value = serde_json::from_str(lines[1]).unwrap();
    assert_eq!(doc["url"].as_str(), Some(tricky.url.as_str()));
    assert_eq!(doc["filename"].as_str(), Some("é.txt"));
    assert_eq!(doc["extension"].as_str(), Some("txt"));
    assert_eq!(doc.as_object().unwrap().len(), 3);
    let del: serde_json::Value = serde_json::from_str(lines[2]).unwrap();
    assert_eq!(del["delete"]["_id"].as_str(), Some("id-2"));
    let head: serde_json::Value = serde_json::from_str(lines[4]).unwrap();
    assert_eq!(head["index"]["_id"].as_str(), Some(entry(3).id.as_str()));
}

#[test]
fn framing_of_quoted_fields() {
    let mut buffer = "x".to_string();
    push_delete_lines(&mut buffer, "\"q\"");
    assert_eq!(buffer, "x{\"delete\":{\"_id\":\"q\"}}\n\n");
    let mut buffer = String::new();
    push_index_lines(&mut buffer, "1", "2", "3", Some("4"));
    assert_eq!(buffer, "{\"index\":{\"_id\":1}}\n{\"url\":2,\"filename\":3,\"extension\":4}\n");
    let mut buffer = String::new();
    push_index_lines(&mut buffer, "1", "2", "3", None);
    assert_eq!(buffer, "{\"index\":{\"_id\":1}}\n{\"url\":2,\"filename\":3,\"extension\":null}\n");
}

#[test]
fn bulk_request_addresses_the_bulk_interface() {
    let mut opt = Opt::default();
    opt.elastic_pass = "SECRET-REDACTED".to_string();
    let request = bulk_request(&opt, BulkBody { items: vec![BulkAction::Delete("1".to_string())] });
    assert_eq!(request.url, "http://127.0.0.1:9200/links/_bulk");
    assert_eq!(request.content_type, "application/json");
    assert_eq!(request.username, "elastic");
    assert_eq!(request.password, "SECRET-REDACTED");
    assert_eq!(request.body.items, vec![BulkAction::Delete("1".to_string())]);
}

#[test]
fn bulk_answer_is_accepted_on_success_only() {
    assert!(bulk_accepted(200));
    assert!(bulk_accepted(201));
    assert!(bulk_accepted(299));
    assert!(!bulk_accepted(199));
    assert!(!bulk_accepted(300));
    assert!(!bulk_accepted(401));
    assert!(!bulk_accepted(500));
}

#[test]
fn chunk_size_is_five_thousand() {
    assert_eq!(BULK_CHUNK_SIZE, 5000);
}

#[test]
fn add_bulk_issues_one_request_per_chunk() {
    let opt = Opt::default();
    let links: Vec<ElasticLink> = (0..12_001).map(entry).collect();
    let requests = add_bulk(&opt, &links);
    let sizes: Vec<usize> = requests.iter().map(|r| r.body.items.len()).collect();
    assert_eq!(sizes, vec![5000, 5000, 2001]);
    let carried: Vec<BulkAction> = requests.into_iter().flat_map(|r| r.body.items).collect();
    let expected: Vec<BulkAction> = links.into_iter().map(BulkAction::Index).collect();
    assert_eq!(carried, expected);
}

#[test]
fn chunk_counts_at_the_edges() {
    let opt = Opt::default();
    for (n, expected) in [(0, 0), (1, 1), (4999, 1), (5000, 1), (5001, 2), (10_000, 2), (10_001, 3)] {
        let ids: Vec<String> = (0..n).map(|i| i.to_string()).collect();
        let requests = remove_bulk(&opt, &ids);
        assert_eq!(requests.len(), expected, "{}", n);
        assert!(requests.iter().all(|r| !r.body.items.is_empty() && r.body.items.len() <= 5000));
        let carried: Vec<BulkAction> = requests.into_iter().flat_map(|r| r.body.items).collect();
        let wanted: Vec<BulkAction> = ids.into_iter().map(BulkAction::Delete).collect();
        assert_eq!(carried, wanted);
    }
}

#[test]
fn requests_of_with_other_chunk_sizes() {
    let opt = Opt::default();
    for size in [1usize, 2, 3, 7, 10, 11] {
        let actions: Vec<BulkAction> = (0..10).map(|i| BulkAction::Delete(i.to_string())).collect();
        let requests = requests_of(&opt, actions, size);
        assert_eq!(requests.len(), (10 + size - 1) / size);
        let carried: Vec<BulkAction> = requests.into_iter().flat_map(|r| r.body.items).collect();
        let wanted: Vec<BulkAction> = (0..10).map(|i| BulkAction::Delete(i.to_string())).collect();
        assert_eq!(carried, wanted);
    }
}

#[test]
fn removal_and_addition_are_idempotent() {
    let opt = Opt::default();
    let mut index = BTreeMap::new();
    let entries: Vec<ElasticLink> = (0..7).map(entry).collect();
    let add = add_bulk(&opt, &entries);
    apply(&mut index, &add);
    let once = index.clone();
    assert_eq!(once.len(), 7);
    apply(&mut index, &add);
    assert_eq!(index, once);

    let ids: Vec<String> = vec![entry(2).id, entry(5).id, "unknown".to_string(), entry(2).id];
    let remove = remove_bulk(&opt, &ids);
    apply(&mut index, &remove);
    let once = index.clone();
    assert_eq!(once.len(), 5);
    assert!(!once.contains_key(&entry(2).id));
    apply(&mut index, &remove);
    assert_eq!(index, once);
}

#[test]
fn add_links_from_db_passes_over_links_without_projection() {
    let opt = Opt::default();
    let links = vec![
        link(Some("a"), "r", "http://h/one.txt"),
        link(None, "r", "http://h/two.txt"),
        link(Some("c"), "r", "http://h/.."),
        link(Some("d"), "r", "http://h/four"),
    ];
    let requests = add_links_from_db(&opt, &links);
    assert_eq!(requests.len(), 1);
    assert_eq!(
        requests[0].body.items,
        vec![
            BulkAction::Index(ElasticLink {
                id: "a".to_string(),
                url: "http://h/one.txt".to_string(),
                filename: "one.txt".to_string(),
                extension: Some("txt".to_string()),
            }),
            BulkAction::Index(ElasticLink {
                id: "d".to_string(),
                url: "http://h/four".to_string(),
                filename: "four".to_string(),
                extension: None,
            }),
        ]
    );
    assert!(add_links_from_db(&opt, &Vec::new()).is_empty());
}

#[test]
fn export_indexes_links_of_alive_roots_and_deletes_the_others() {
    let opt = Opt::default();
    let alive = vec!["http://alive/".to_string()];
    let links = vec![
        link(Some("1"), "http://alive/", "http://alive/a.txt"),
        link(Some("2"), "http://dead/", "http://dead/b.txt"),
        link(None, "http://alive/", "http://alive/c.txt"),
        link(Some("4"), "http://alive/", "http://alive/d"),
    ];
    let requests = export_all(&opt, &alive, &links);
    assert_eq!(requests.len(), 1);
    assert_eq!(
        requests[0].body.items,
        vec![
            BulkAction::Index(ElasticLink {
                id: "1".to_string(),
                url: "http://alive/a.txt".to_string(),
                filename: "a.txt".to_string(),
                extension: Some("txt".to_string()),
            }),
            BulkAction::Delete("2".to_string()),
            BulkAction::Index(ElasticLink {
                id: "4".to_string(),
                url: "http://alive/d".to_string(),
                filename: "d".to_string(),
                extension: None,
            }),
        ]
    );
}
