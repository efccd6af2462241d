use odeon::grid::Estimator;
use odeon::viewer::{can_run, collect_step, needs_default_config, CentralView, Collected, EstimatorSlot};

type Slot = EstimatorSlot<Vec<f64>, u32, String, u8>;

#[test]
fn a_finished_run_is_collected_and_shown() {
    let mut s = Slot::new();
    assert!(!s.estimating());
    assert!(!s.tabs_shown());
    s.estimator = Estimator::Tracker;
    s.start_run();
    assert!(s.estimating() && s.tracker_run);
    assert!(matches!(collect_step::<u32>(s.tracker_run, None, None), Collected::Waiting));
    let c = collect_step(s.tracker_run, None, Some(7u32));
    assert!(s.collect_tracker(c), "a new output restarts the playback");
    assert!(!s.estimating());
    assert_eq!(s.tracker_out, Some(7));
    assert_eq!(s.view, CentralView::Tracker);
    assert!(s.tabs_shown());
    assert!(s.view_available(CentralView::Tracker));
    assert!(!s.view_available(CentralView::Filter));
    assert!(s.view_available(CentralView::Scene));
}

#[test]
fn a_failed_run_is_dropped_with_its_message() {
    let mut s = Slot::new();
    s.start_run();
    assert!(s.filter_run);
    let c = collect_step::<Vec<f64>>(true, Some("server down".to_string()), None);
    assert!(!s.collect_filter(c));
    assert!(!s.filter_run);
    assert_eq!(s.run_error.as_deref(), Some("server down"));
    assert_eq!(s.view, CentralView::Scene);
    s.start_run();
    assert_eq!(s.run_error, None, "a new run clears the failure");
    assert!(matches!(collect_step::<u8>(false, Some("x".to_string()), Some(1)), Collected::Idle));
}

#[test]
fn an_edit_clears_runs_and_outputs() {
    let mut s = Slot::new();
    s.estimator = Estimator::Window;
    s.start_run();
    assert!(s.collect_box(Collected::Done("density".to_string())));
    assert_eq!(s.view, CentralView::Window);
    s.estimator = Estimator::Particles;
    s.start_run();
    s.clear_estimator_state();
    assert!(!s.estimating());
    assert_eq!(s.box_out, None);
    assert_eq!(s.view, CentralView::Scene);
    assert_eq!(s.estimator, Estimator::Particles);
}

#[test]
fn the_run_button_and_the_defaults() {
    assert!(can_run(true, false, true, true, true, false, Estimator::Tracker));
    assert!(!can_run(true, false, true, true, true, false, Estimator::Filter));
    assert!(!can_run(true, true, true, true, true, true, Estimator::Filter));
    assert!(!can_run(false, false, true, true, true, true, Estimator::Filter));
    assert!(needs_default_config(None, 4));
    assert!(needs_default_config(Some(4), 5));
    assert!(!needs_default_config(Some(4), 4));
}
