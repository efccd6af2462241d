use odeon::protocol::{accepts_binary, output_url, run_url, runs_url, twin_runs_url, NewRun, BINARY};

#[test]
fn routes_are_built_on_the_base_without_its_trailing_slashes() {
    assert_eq!(runs_url("http://127.0.0.1:8787"), "http://127.0.0.1:8787/runs");
    assert_eq!(runs_url("http://127.0.0.1:8787//"), "http://127.0.0.1:8787/runs");
    assert_eq!(twin_runs_url("https://h/odeon/"), "https://h/odeon/twin-runs");
    assert_eq!(run_url("http://h", 0), "http://h/runs/0");
    assert_eq!(run_url("http://h/", 42), "http://h/runs/42");
    assert_eq!(run_url("http://h", u64::MAX), "http://h/runs/18446744073709551615");
    assert_eq!(output_url("http://h/", 7), "http://h/runs/7/output");
}

#[test]
fn the_binary_encoding_is_asked_for_by_accept() {
    assert_eq!(BINARY, "application/octet-stream");
    assert!(accepts_binary(Some("application/octet-stream")));
    assert!(accepts_binary(Some("application/json, application/octet-stream;q=0.9")));
    assert!(!accepts_binary(Some("application/json")));
    assert!(!accepts_binary(None));
}

#[test]
fn a_new_run_carries_its_id() {
    let r = NewRun { id: 3 };
    assert_eq!(r, NewRun { id: 3 });
    assert_ne!(r, NewRun { id: 4 });
}
