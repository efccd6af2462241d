use odeon::client::{answer_error, total_steps, RunState, StatusReport, POLL_INTERVAL_MS};

fn report(done: usize, finished: bool, error: Option<&str>) -> Result<StatusReport, String> {
    Ok(StatusReport { done, finished, error: error.map(str::to_string) })
}

#[test]
fn a_run_is_polled_then_its_output_fetched() {
    let mut s = RunState::new();
    assert_eq!(s.poll(0), None, "no id yet");
    s.on_created(Ok(5));
    assert_eq!(s.poll(1000), Some(5));
    assert!(s.in_flight);
    assert_eq!(s.poll(2000), None, "a request is in flight");
    assert!(!s.on_status(report(3, false, None)));
    assert_eq!(s.done, 3);
    assert!(!s.in_flight);
    assert_eq!(s.poll(1000 + POLL_INTERVAL_MS - 1), None, "too early");
    assert_eq!(s.poll(1000 + POLL_INTERVAL_MS), Some(5));
    assert!(s.on_status(report(10, true, None)), "finished: fetch the output");
    assert!(s.finished);
    assert!(s.in_flight);
    assert_eq!(s.poll(100_000), None);
    s.on_output(Ok(()));
    assert!(!s.in_flight);
    assert!(s.take_output());
    assert!(!s.take_output());
    assert_eq!(s.error(), None);
}

#[test]
fn the_first_error_is_kept_and_stops_the_polls() {
    let mut s = RunState::new();
    s.on_created(Err("server answered 400 Bad Request: the configuration has 1 variables, the spring model 2".into()));
    assert!(s.error().unwrap().contains("400"));
    s.on_created(Ok(1));
    assert_eq!(s.poll(0), None);
    s.record_error("later".into());
    assert!(s.error().unwrap().contains("1 variables"));

    let mut s = RunState::new();
    s.on_created(Ok(2));
    assert_eq!(s.poll(0), Some(2));
    assert!(!s.on_status(report(4, true, Some("the job panicked"))));
    assert_eq!(s.error().as_deref(), Some("the server's run failed: the job panicked"));
    assert_eq!(s.done, 4);
    assert_eq!(s.poll(1000), None);

    let mut s = RunState::new();
    s.on_created(Ok(2));
    assert_eq!(s.poll(0), Some(2));
    assert!(!s.on_status(Err("no answer from the server: refused".into())));
    assert!(!s.in_flight);
    assert_eq!(s.poll(1000), None);
    assert_eq!(s.error().as_deref(), Some("no answer from the server: refused"));
}

#[test]
fn a_failed_output_is_an_error() {
    let mut s = RunState::new();
    s.on_created(Ok(9));
    s.poll(0);
    assert!(s.on_status(report(1, true, None)));
    s.on_output(Err("cannot decode the server's answer: eof".into()));
    assert!(!s.take_output());
    assert_eq!(s.error().as_deref(), Some("cannot decode the server's answer: eof"));
}

#[test]
fn non_success_answers_name_the_status_and_the_text() {
    assert_eq!(answer_error(404, "Not Found", Some("no run 999")), "server answered 404 Not Found: no run 999");
    assert_eq!(answer_error(401, "Unauthorized", Some("  \n")), "server answered 401 Unauthorized");
    assert_eq!(answer_error(500, "Internal Server Error", None), "server answered 500 Internal Server Error");
    assert_eq!(total_steps(0), 1);
    assert_eq!(total_steps(20), 20);
}
