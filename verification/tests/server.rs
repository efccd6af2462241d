use odeon::admission::{
    admit_checked, admit_job, authorized, require_token, check_job, check_twin, limit_setting, settings_from,
    sweep_period_ns, web_dir_choice, Refusal, Settings, WebDir,
};
use odeon::grid::{memory_estimate, checked_output_floats, nodes, output_floats, Estimator, GridConfig, VarGrid};
use odeon::model::ModelSpec;
use odeon::runs::RunTable;

/// The spring chain's configuration of the server's tests: two directions,
/// the (0, 1) plane kept, three snapshots.
fn spring_config() -> GridConfig {
    let v = VarGrid { n_el: 10, p_ord: 2, win_n_el: 6, periodic: false, dirichlet: false };
    GridConfig { vars: vec![v, v], pairs: vec![((0, 1), true)], n_snapshots: 3, n_particles: 100 }
}

fn refusal(s: &Settings, e: Estimator, config: &GridConfig, steps: usize, dim: usize, busy: usize) -> Refusal {
    admit_job(s, e, config, steps, dim, busy).expect_err("refused")
}

#[test]
fn oversized_jobs_are_refused() {
    let settings = Settings { max_steps: 10, max_dofs: 100, max_particles: 50, max_output: 1_000, ..Settings::default() };
    let err = refusal(&settings, Estimator::Tracker, &spring_config(), 11, 2, 0);
    assert_eq!(err.status(), 400);
    assert!(err.message().contains("11 steps"), "{}", err.message());
    let mut config = spring_config();
    config.vars.iter_mut().for_each(|v| (v.n_el, v.p_ord) = (5, 4));
    let err = refusal(&settings, Estimator::Filter, &config, 5, 2, 0);
    assert!(err.message().contains("441 grid points"), "{}", err.message());
    let mut config = spring_config();
    config.n_particles = 60;
    let err = refusal(&settings, Estimator::Particles, &config, 5, 2, 0);
    assert!(err.message().contains("60 particles"), "{}", err.message());
    let mut config = spring_config();
    config.n_particles = 50;
    let err = refusal(&settings, Estimator::Particles, &config, 10, 2, 0);
    assert!(err.message().contains("output of 2200 values"), "{}", err.message());
    assert_eq!(admit_job(&settings, Estimator::Tracker, &spring_config(), 5, 2, 0), Ok(()));
}

#[test]
fn refusal_messages_name_the_limit() {
    let s = Settings::default();
    assert_eq!(
        Refusal::Steps { steps: 11, max: 10 }.message(),
        "11 steps, the server accepts at most 10"
    );
    assert_eq!(
        Refusal::GridPoints { dofs: 441, max: 100 }.message(),
        "441 grid points, the server accepts at most 100"
    );
    assert_eq!(
        Refusal::Particles { particles: 60, max: 50 }.message(),
        "60 particles, the server accepts at most 50"
    );
    assert_eq!(
        Refusal::Output { floats: 2200, max: 1000 }.message(),
        "an output of 2200 values (snapshots, population or covariances), the server accepts at most 1000"
    );
    let busy = Refusal::Busy { busy: 2 };
    assert_eq!(busy.message(), "the server is busy: 2 run(s) in progress, its limit — try again later");
    assert_eq!(busy.status(), 429);
    assert_eq!(s.max_runs, 2);
}

#[test]
fn a_busy_server_answers_429() {
    let settings = Settings { max_runs: 1, ..Settings::default() };
    let err = refusal(&settings, Estimator::Tracker, &spring_config(), 5, 2, 1);
    assert_eq!(err.status(), 429);
    assert!(err.message().contains("busy"));
    assert_eq!(admit_job(&settings, Estimator::Tracker, &spring_config(), 5, 2, 0), Ok(()));
}

#[test]
fn grid_sizes_follow_the_boundaries() {
    let c = GridConfig {
        vars: vec![
            VarGrid { n_el: 4, p_ord: 3, win_n_el: 2, periodic: false, dirichlet: false },
            VarGrid { n_el: 4, p_ord: 3, win_n_el: 2, periodic: true, dirichlet: true },
            VarGrid { n_el: 4, p_ord: 3, win_n_el: 0, periodic: false, dirichlet: true },
        ],
        pairs: vec![((0, 1), true), ((1, 2), false), ((0, 7), true), ((0, 2), true)],
        n_snapshots: 100,
        n_particles: 10,
    };
    assert_eq!(nodes(&c, Estimator::Filter), vec![13, 12, 11]);
    assert_eq!(nodes(&c, Estimator::Window), vec![5, 5, 0]);
    // 4 steps: 5 records; estimates 5·3, snapshots min(100, 5) · (13·12 + 0 + 13·11).
    assert_eq!(output_floats(&c, Estimator::Filter, 4, 3), 15 + 5 * (156 + 143));
    assert_eq!(output_floats(&c, Estimator::Particles, 4, 3), 5 * 10 * 5);
    assert_eq!(output_floats(&c, Estimator::Tracker, 4, 3), 5 * (3 + 9));
    assert_eq!(checked_output_floats(&c, Estimator::Tracker, 4, 3), Some(60));
    assert_eq!(checked_output_floats(&c, Estimator::Tracker, usize::MAX, 3), None);
    let huge = GridConfig { n_particles: usize::MAX, ..c.clone() };
    assert_eq!(checked_output_floats(&huge, Estimator::Particles, 0, 3), Some(usize::MAX));
    assert_eq!(checked_output_floats(&huge, Estimator::Particles, 1, 3), None);
}

#[test]
fn an_admission_whose_sizes_overflow_is_flagged() {
    let s = Settings::default();
    let mut c = spring_config();
    c.vars[0].n_el = usize::MAX;
    assert_eq!(admit_checked(&s, Estimator::Filter, &c, 5, 2, 0), None);
    assert_eq!(admit_checked(&s, Estimator::Tracker, &c, 5, 2, 0), Some(Ok(())));
    assert_eq!(
        admit_checked(&s, Estimator::Filter, &c, 300_000, 2, 0),
        Some(Err(Refusal::Steps { steps: 300_000, max: 200_000 }))
    );
}

#[test]
fn bad_jobs_are_refused() {
    let spring = ModelSpec::Spring { n: 1, obs: 0 };
    let (code, err) = check_job(&spring, 1, 2).expect_err("an error was expected");
    assert_eq!(code, 400);
    assert!(err.contains("1 variables"), "{err}");
    assert_eq!(err, "the configuration has 1 variables, the spring model 2");
    assert_eq!(check_job(&spring, 2, 3).unwrap_err(), (400, "the reference has 3 components, the spring model 2".to_string()));
    assert_eq!(check_job(&spring, 2, 2), Ok(()));
    assert_eq!(check_twin(&ModelSpec::Lamppost, 3, 2).unwrap_err(), (400, "x0 has 3 entries, the lamppost model 2".to_string()));
    assert_eq!(check_twin(&ModelSpec::Pendulum, 4, 3).unwrap_err(), (400, "the configuration has 3 variables, the pendulum model 4".to_string()));
    assert_eq!(check_twin(&ModelSpec::Pendulum, 4, 4), Ok(()));
    let table = RunTable::new();
    assert_eq!(table.get(999), None);
}

#[test]
fn the_token_guards_the_api() {
    assert!(authorized(None, None));
    assert!(authorized(None, Some("Bearer whatever")));
    assert!(!authorized(Some("s3cret"), None));
    assert!(!authorized(Some("s3cret"), Some("Bearer wrong")));
    assert!(!authorized(Some("s3cret"), Some("s3cret")));
    assert!(!authorized(Some("s3cret"), Some("bearer s3cret")));
    assert!(authorized(Some("s3cret"), Some("Bearer s3cret")));
    assert!(authorized(Some("s3cret"), Some("Bearer   s3cret  ")));
    assert_eq!(require_token(Some("s3cret"), Some("Bearer wrong")), Err(401));
    assert_eq!(require_token(Some("s3cret"), Some("Bearer s3cret")), Ok(()));
    assert_eq!(require_token(None, None), Ok(()));
}

#[test]
fn idle_runs_expire() {
    let mut t = RunTable::new();
    let a = t.start(200_000, 0);
    let b = t.start(10, 0);
    assert_eq!((a, b), (1, 2));
    assert!(t.touch(b, 500_000_000));
    assert!(t.get(a).is_some());
    let gone = t.sweep(600_000_000, 200_000_000);
    assert_eq!(gone, vec![1]);
    assert_eq!(t.get(a), None, "the idle run was not dropped");
    assert!(t.get(b).is_some());
    assert_eq!(t.start(5, 700_000_000), 3, "ids are never reused");
}

#[test]
fn dropping_the_handle_cancels_the_run() {
    let mut t = RunTable::new();
    let id = t.start(200_000, 0);
    assert_eq!(t.in_progress(), 1);
    assert!(!t.job_cancelled(id));
    assert_eq!(t.cancel(id), 204);
    assert!(t.job_cancelled(id));
    assert!(t.get(id).is_none());
    assert_eq!(t.cancel(id), 404);
    assert!(!t.remove(id));
    assert_eq!(t.in_progress(), 0);
}

#[test]
fn swept_runs_are_cancelled() {
    let mut t = RunTable::new();
    let a = t.start(10, 0);
    let b = t.start(10, 400);
    let gone = t.sweep(600, 300);
    assert_eq!(gone, vec![a]);
    assert!(t.job_cancelled(a));
    assert!(!t.job_cancelled(b));
}

#[test]
fn output_answers_follow_the_run() {
    let mut t = RunTable::new();
    let a = t.start(10, 0);
    let b = t.start(10, 0);
    assert_eq!(t.output_status(99, 5), 404);
    assert_eq!(t.output_status(a, 5), 409);
    assert_eq!(t.get(a).unwrap().last_seen_ns, 5);
    assert!(t.mark_finished(a, false));
    assert!(t.mark_finished(b, true));
    assert_eq!(t.output_status(a, 6), 200);
    assert_eq!(t.output_status(b, 7), 500);
    assert_eq!(t.get(b).unwrap().last_seen_ns, 7);
    let st = t.status(b, 9).expect("held");
    assert!(st.finished && st.failed);
    assert_eq!(st.last_seen_ns, 9);
    assert_eq!(t.status(99, 9), None);
}

#[test]
fn finished_runs_do_not_count_as_in_progress() {
    let mut t = RunTable::new();
    let a = t.start(0, 0);
    let _b = t.start(3, 0);
    assert_eq!(t.get(a).unwrap().total, 1);
    assert_eq!(t.in_progress(), 2);
    assert!(t.mark_finished(a, false));
    assert!(!t.mark_finished(77, false));
    assert_eq!(t.in_progress(), 1);
    assert!(!t.touch(77, 5));
}

#[test]
fn settings_come_from_the_environment_values() {
    let s = settings_from(None, None, None, None, None, None, None).unwrap();
    assert_eq!(s.token, None);
    assert_eq!((s.max_runs, s.max_steps, s.max_dofs, s.max_particles, s.max_output, s.ttl_ns), (2, 200_000, 2_000_000, 200_000, 50_000_000, 600_000_000_000));
    let s = settings_from(Some(" s3cret "), Some("4"), Some(" "), None, Some("+7"), None, Some("1")).unwrap();
    assert_eq!(s.token.as_deref(), Some("s3cret"));
    assert_eq!((s.max_runs, s.max_steps, s.max_particles, s.ttl_ns), (4, 200_000, 7, 1_000_000_000));
    let err = settings_from(None, Some("many"), None, None, None, None, None).unwrap_err();
    assert_eq!(err, "ODEON_MAX_RUNS=many is not a number");
    let err = settings_from(None, None, Some(" x "), None, Some("y"), None, Some("-3")).unwrap_err();
    assert_eq!(err, "ODEON_MAX_STEPS=x is not a number");
    assert_eq!(limit_setting("ODEON_MAX_STEPS", Some(" 12 "), 3), Ok(12));
    assert_eq!(limit_setting("ODEON_MAX_STEPS", Some("-1"), 3), Err("ODEON_MAX_STEPS=-1 is not a number".to_string()));
}

#[test]
fn the_web_page_directory_setting() {
    assert!(matches!(web_dir_choice(None), WebDir::Default));
    assert!(matches!(web_dir_choice(Some("  ")), WebDir::Default));
    assert!(matches!(web_dir_choice(Some("NoNe")), WebDir::Disabled));
    match web_dir_choice(Some(" dist ")) {
        WebDir::Named(d) => assert_eq!(d, "dist"),
        _ => panic!("a named directory was expected"),
    }
    assert_eq!(sweep_period_ns(600_000_000_000), 30_000_000_000);
    assert_eq!(sweep_period_ns(200_000_000), 50_000_000);
    assert_eq!(sweep_period_ns(1_000_000_000), 250_000_000);
}

#[test]
fn only_the_estimators_own_grid_must_fit() {
    let s = Settings::default();
    let v = VarGrid { n_el: 10, p_ord: 2, win_n_el: usize::MAX, periodic: false, dirichlet: false };
    let filter = GridConfig { vars: vec![v], pairs: vec![], n_snapshots: 0, n_particles: 0 };
    assert_eq!(admit_checked(&s, Estimator::Filter, &filter, 5, 1, 0), Some(Ok(())));
    assert_eq!(admit_checked(&s, Estimator::Window, &filter, 5, 1, 0), None);
    let w = VarGrid { n_el: usize::MAX, p_ord: 1, win_n_el: 3, periodic: true, dirichlet: false };
    let periodic = GridConfig { vars: vec![w], pairs: vec![], n_snapshots: 0, n_particles: 0 };
    assert_eq!(nodes(&periodic, Estimator::Filter), vec![usize::MAX]);
    let win = admit_checked(&s, Estimator::Window, &periodic, 5, 1, 0);
    assert_eq!(win, Some(Ok(())));
    match admit_checked(&s, Estimator::Filter, &periodic, 5, 1, 0) {
        Some(Err(r)) => assert_eq!(r.status(), 400),
        other => panic!("{:?}", other.is_some()),
    }
}

#[test]
fn the_memory_estimate_of_a_grid_run() {
    let c = spring_config();
    assert_eq!(memory_estimate(&c, Estimator::Filter, 10), Some((17_640, 10_760)));
    assert_eq!(memory_estimate(&c, Estimator::Window, 10), Some((4_840, 3_080)));
    assert_eq!(memory_estimate(&c, Estimator::Tracker, 10), None);
    let mut big = spring_config();
    big.vars[0].n_el = usize::MAX;
    assert_eq!(memory_estimate(&big, Estimator::Filter, 10), None);
}
