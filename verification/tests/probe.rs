use odcrawler_discovery::check_links::{
    link_is_reachable, probe_request, ProbeOutcome, ProbeRequest, ALIAS_DOMAIN, CANONICAL_DOMAIN,
};
use odcrawler_discovery::text::{
    chars_of, contains, ends_with, find, replace, starts_with, text_between,
};

#[test]
fn plain_address_is_probed_as_it_is() {
    let request = probe_request("https://example.com/pub/", 20);
    assert_eq!(
        request,
        ProbeRequest {
            uri: "https://example.com/pub/".to_string(),
            referer: None,
            timeout: 20,
            accept_invalid_certs: true,
        }
    );
}

#[test]
fn spaces_are_percent_encoded() {
    let request = probe_request("http://example.com/my files/a b.txt", 30);
    assert_eq!(request.uri, "http://example.com/my%20files/a%20b.txt");
    assert_eq!(request.referer, None);
    assert_eq!(request.timeout, 30);
}

#[test]
fn alias_is_rewritten_with_the_address_as_referer() {
    let request = probe_request("https://td.driveindex.ga/0:/some dir/", 20);
    assert_eq!(request.uri, "https://td.hashhackers.com/0:/some%20dir/");
    assert_eq!(request.referer, Some("https://td.driveindex.ga/0:/some%20dir/".to_string()));
    assert!(request.accept_invalid_certs);
}

#[test]
fn alias_is_rewritten_in_the_host_only() {
    let request = probe_request("http://driveindex.ga/?next=driveindex.ga", 1);
    assert_eq!(request.uri, "http://hashhackers.com/?next=driveindex.ga");
    assert_eq!(request.referer, Some("http://driveindex.ga/?next=driveindex.ga".to_string()));
    let request = probe_request("https://a.driveindex.ga:8080/driveindex.ga/x#driveindex.ga", 1);
    assert_eq!(request.uri, "https://a.hashhackers.com:8080/driveindex.ga/x#driveindex.ga");
    assert_eq!(
        request.referer,
        Some("https://a.driveindex.ga:8080/driveindex.ga/x#driveindex.ga".to_string())
    );
}

#[test]
fn alias_outside_the_host_changes_nothing() {
    for link in [
        "http://h/driveindex.ga",
        "http://h/?mirror=driveindex.ga",
        "http://h?driveindex.ga",
        "http://h#driveindex.ga",
        "http://example.com/a/driveindex.ga/b",
        "driveindex.ga",
        "driveindex.ga/files/",
        "http:/driveindex.ga/",
        "",
    ] {
        let request = probe_request(link, 20);
        assert_eq!(request.uri, link, "{:?}", link);
        assert_eq!(request.referer, None, "{:?}", link);
    }
}

#[test]
fn host_ends_at_the_first_slash_question_mark_or_hash() {
    let request = probe_request("http://driveindex.ga", 1);
    assert_eq!(request.uri, "http://hashhackers.com");
    let request = probe_request("http://driveindex.ga?x=1", 1);
    assert_eq!(request.uri, "http://hashhackers.com?x=1");
    let request = probe_request("http://driveindex.ga#top", 1);
    assert_eq!(request.uri, "http://hashhackers.com#top");
    let request = probe_request("a://b://driveindex.ga/", 1);
    assert_eq!(request.uri, "a://b://driveindex.ga/");
    assert_eq!(request.referer, None);
}

#[test]
fn spaces_are_encoded_before_the_host_is_read() {
    let request = probe_request("http://driveindex.ga/a b/c d", 1);
    assert_eq!(request.uri, "http://hashhackers.com/a%20b/c%20d");
    assert_eq!(request.referer, Some("http://driveindex.ga/a%20b/c%20d".to_string()));
}

#[test]
fn alias_and_canonical_domain() {
    assert_eq!(ALIAS_DOMAIN, "driveindex.ga");
    assert_eq!(CANONICAL_DOMAIN, "hashhackers.com");
}

#[test]
fn success_and_redirection_count_as_reachable() {
    for status in [200, 204, 299, 300, 301, 302, 399] {
        assert!(link_is_reachable(ProbeOutcome::Status(status)), "{}", status);
    }
}

#[test]
fn everything_else_counts_as_unreachable() {
    for status in [0, 100, 199, 400, 401, 403, 404, 429, 500, 503, 999, u16::MAX] {
        assert!(!link_is_reachable(ProbeOutcome::Status(status)), "{}", status);
    }
    assert!(!link_is_reachable(ProbeOutcome::Failed));
    assert!(!link_is_reachable(ProbeOutcome::Malformed));
}

#[test]
fn replace_agrees_with_std() {
    let cases = [
        ("", "a", "b"),
        ("aaa", "a", "bb"),
        ("aaa", "aa", "b"),
        ("abcabc", "bc", ""),
        ("a b  c ", " ", "%20"),
        ("abab", "aba", "x"),
        ("héllo wörld", "ö", "oe"),
        ("short", "much longer", "x"),
        ("xdriveindex.gdriveindex.ga", "driveindex.ga", "hashhackers.com"),
    ];
    for (s, pat, to) in cases {
        assert_eq!(replace(s, pat, to), s.replace(pat, to), "{:?} {:?} {:?}", s, pat, to);
    }
}

#[test]
fn replace_with_empty_pattern_changes_nothing() {
    assert_eq!(replace("abc", "", "x"), "abc");
}

#[test]
fn search_agrees_with_std() {
    let texts = ["", "a", "scan.json", "scan.json.gz", "https___drive.google.com_x.json", "äöü"];
    let pats = ["", "a", ".json", ".json.gz", "https___drive.google.com", "ö", "json.gz.more"];
    for s in texts {
        for pat in pats {
            assert_eq!(contains(s, pat), s.contains(pat), "{:?} {:?}", s, pat);
            assert_eq!(starts_with(s, pat), s.starts_with(pat), "{:?} {:?}", s, pat);
            assert_eq!(ends_with(s, pat), s.ends_with(pat), "{:?} {:?}", s, pat);
        }
    }
}

#[test]
fn find_gives_the_first_index_at_or_after_the_start() {
    let s = chars_of("a://b://c");
    let pat = chars_of("://");
    assert_eq!(find(&s, &pat, 0), Some(1));
    assert_eq!(find(&s, &pat, 1), Some(1));
    assert_eq!(find(&s, &pat, 2), Some(5));
    assert_eq!(find(&s, &pat, 6), None);
    assert_eq!(find(&s, &pat, 9), None);
    assert_eq!(find(&s, &pat, 100), None);
    assert_eq!(find(&s, &chars_of(""), 9), Some(9));
    assert_eq!(find(&chars_of(""), &pat, 0), None);
    assert_eq!(find(&s, &chars_of("a://b://c"), 0), Some(0));
    assert_eq!(find(&s, &chars_of("a://b://cd"), 0), None);
}

#[test]
fn text_between_two_indices() {
    let s = chars_of("héllo");
    assert_eq!(text_between(&s, 0, 5), "héllo");
    assert_eq!(text_between(&s, 1, 3), "él");
    assert_eq!(text_between(&s, 2, 2), "");
    assert_eq!(text_between(&s, 5, 5), "");
}
