use odeon::frontend::{server_setting, token_setting, bearer, format_duration, page_directory, read_setting, server_url, setting, token, DEFAULT_SERVER};

#[test]
fn the_default_server_is_the_directory_of_the_page() {
    let origin = "https://team-ananke.fr";
    assert_eq!(page_directory(origin, "/"), origin);
    assert_eq!(page_directory(origin, "/index.html"), origin);
    assert_eq!(page_directory(origin, "/odeon/"), "https://team-ananke.fr/odeon");
    assert_eq!(page_directory(origin, "/odeon/index.html"), "https://team-ananke.fr/odeon");
    assert_eq!(page_directory(origin, ""), origin);
}

#[test]
fn page_directory_drops_the_trailing_slashes_of_the_origin() {
    assert_eq!(page_directory("https://h.example//", "/a/b/c.html"), "https://h.example/a/b");
    assert_eq!(page_directory("http://x", "no-slash"), "http://x");
}

#[test]
fn a_setting_prefers_the_query_and_remembers_it() {
    let (v, store) = setting(Some("https://q".to_string()), Some("https://r".to_string()));
    assert_eq!(v.as_deref(), Some("https://q"));
    assert!(store);
    let (v, store) = setting(None, Some("https://r".to_string()));
    assert_eq!(v.as_deref(), Some("https://r"));
    assert!(!store);
    let (v, store) = setting(None, None);
    assert_eq!(v, None);
    assert!(!store);
}

#[test]
fn readings_are_trimmed_and_blank_means_unset() {
    assert_eq!(read_setting(Some("  https://my-mac.example.net \n")).as_deref(), Some("https://my-mac.example.net"));
    assert_eq!(read_setting(Some(" \t ")), None);
    assert_eq!(read_setting(Some("\u{a0}tok\u{3000}")).as_deref(), Some("tok"));
    assert_eq!(read_setting(None), None);
    assert_eq!(bearer("  s3cret "), Some("s3cret".to_string()));
    assert_eq!(bearer("   "), None);
}

#[test]
fn the_server_url_falls_back_to_the_page_then_the_default() {
    assert_eq!(server_url(Some("https://s".to_string()), Some(("https://o", "/odeon/"))), "https://s");
    assert_eq!(server_url(None, Some(("https://o", "/odeon/index.html"))), "https://o/odeon");
    assert_eq!(server_url(None, None), "http://127.0.0.1:8787");
    assert_eq!(DEFAULT_SERVER, "http://127.0.0.1:8787");
    assert_eq!(token(Some("abc".to_string())), "abc");
    assert_eq!(token(None), "");
}

#[test]
fn durations_are_human_readable() {
    assert_eq!(format_duration(0), "0 s");
    assert_eq!(format_duration(42), "42 s");
    assert_eq!(format_duration(59), "59 s");
    assert_eq!(format_duration(60), "1 min 00 s");
    assert_eq!(format_duration(185), "3 min 05 s");
    assert_eq!(format_duration(3599), "59 min 59 s");
    assert_eq!(format_duration(3600), "1 h 00 min");
    assert_eq!(format_duration(4320), "1 h 12 min");
    assert_eq!(format_duration(90061), "25 h 01 min");
}

#[test]
fn the_query_wins_and_is_remembered() {
    assert_eq!(token_setting(Some(" abc "), Some("old")), ("abc".to_string(), Some("abc".to_string())));
    assert_eq!(token_setting(Some("  "), Some(" old ")), ("old".to_string(), None));
    assert_eq!(token_setting(None, None), (String::new(), None));
    assert_eq!(
        server_setting(None, None, Some(("https://host", "/odeon/index.html"))),
        ("https://host/odeon".to_string(), None)
    );
    assert_eq!(server_setting(None, None, None), ("http://127.0.0.1:8787".to_string(), None));
    assert_eq!(
        server_setting(Some("http://x:1"), Some("http://y:2"), None),
        ("http://x:1".to_string(), Some("http://x:1".to_string()))
    );
}
