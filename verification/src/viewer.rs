//! The estimator side of a model slot of the observers viewer: which
//! estimator runs are in flight, the outputs kept, the view of the central
//! panel and the last failure. The viewer's frame loop performs the runs
//! and the drawing; these functions decide what each event changes.

use vstd::prelude::*;
use crate::grid::Estimator;

verus! {

/// What the central panel shows: the model scene, or the result of an
/// estimator.
#[derive(Clone, Copy, Debug, PartialEq, Eq, Structural)]
pub enum CentralView {
    Scene,
    Filter,
    Window,
    Particles,
    Tracker,
}

/// The view showing the result of the estimator `e`.
pub open spec fn view_of(e: Estimator) -> CentralView {
    match e {
        Estimator::Filter => CentralView::Filter,
        Estimator::Window => CentralView::Window,
        Estimator::Particles => CentralView::Particles,
        Estimator::Tracker => CentralView::Tracker,
    }
}

/// What polling a run gives.
pub enum Collected<O> {
    /// No run in flight.
    Idle,
    /// The run goes on.
    Waiting,
    /// The run failed with this message: it is dropped.
    Failed(String),
    /// The run finished with this output: it is dropped.
    Done(O),
}

/// Poll a run: none in flight (`has_run` false) gives nothing; a failure
/// the run reports (`error`) comes first; otherwise the output the run
/// handed over (`taken`, asked for only when no failure was reported), or
/// nothing yet.
pub fn collect_step<O>(has_run: bool, error: Option<String>, taken: Option<O>) -> (r: Collected<O>)
    ensures
        !has_run ==> r is Idle,
        has_run ==> match error {
            Some(e) => r == Collected::<O>::Failed(e),
            None => match taken {
                Some(o) => r == Collected::<O>::Done(o),
                None => r is Waiting,
            },
        },
{
    if !has_run {
        return Collected::Idle;
    }
    match error {
        Some(e) => Collected::Failed(e),
        None => match taken {
            Some(o) => Collected::Done(o),
            None => Collected::Waiting,
        },
    }
}

/// The estimator state of one model slot, over the outputs of the filter
/// (`F`), the tracker (`T`), the translating window (`B`) and the
/// particles (`P`).
pub struct EstimatorSlot<F, T, B, P> {
    /// The estimator the Run button starts.
    pub estimator: Estimator,
    /// A filter run is in flight.
    pub filter_run: bool,
    /// A tracker run is in flight.
    pub tracker_run: bool,
    /// A window run is in flight.
    pub box_run: bool,
    /// A particle run is in flight.
    pub particle_run: bool,
    /// The output of the last completed filter run.
    pub filter_out: Option<F>,
    /// The output of the last completed tracker run.
    pub tracker_out: Option<T>,
    /// The output of the last completed window run.
    pub box_out: Option<B>,
    /// The output of the last completed particle run.
    pub particle_out: Option<P>,
    /// What the central panel shows.
    pub view: CentralView,
    /// Why the last estimator run failed, shown until the next starts.
    pub run_error: Option<String>,
}

/// Whether the Run button is enabled: a completed simulation, no run in
/// flight, a configuration, at least one observation, a valid prior, and
/// valid domains unless the estimator needs none (tracker, window).
pub open spec fn spec_can_run(
    run_done: bool,
    estimating: bool,
    has_config: bool,
    obs_ok: bool,
    prior_ok: bool,
    domains_ok: bool,
    e: Estimator,
) -> bool {
    run_done && !estimating && has_config && obs_ok && prior_ok
        && (domains_ok || e == Estimator::Tracker || e == Estimator::Window)
}

/// [`spec_can_run`].
pub fn can_run(
    run_done: bool,
    estimating: bool,
    has_config: bool,
    obs_ok: bool,
    prior_ok: bool,
    domains_ok: bool,
    e: Estimator,
) -> (r: bool)
    ensures
        r == spec_can_run(run_done, estimating, has_config, obs_ok, prior_ok, domains_ok, e),
{
    run_done && !estimating && has_config && obs_ok && prior_ok
        && (domains_ok || e == Estimator::Tracker || e == Estimator::Window)
}

/// After a simulation completed: the configuration's defaults are
/// computed for the first run only, or again when the run's dimension
/// changed (`config_vars` is the dimension of the configuration held).
pub fn needs_default_config(config_vars: Option<usize>, dim: usize) -> (r: bool)
    ensures
        r == match config_vars {
            None => true,
            Some(n) => n != dim,
        },
{
    match config_vars {
        None => true,
        Some(n) => n != dim,
    }
}

impl<F, T, B, P> EstimatorSlot<F, T, B, P> {
    /// Nothing run yet: the filter selected, the scene shown.
    pub fn new() -> (s: Self)
        ensures
            s.estimator == Estimator::Filter,
            !s.filter_run && !s.tracker_run && !s.box_run && !s.particle_run,
            s.filter_out is None && s.tracker_out is None && s.box_out is None && s.particle_out is None,
            s.view == CentralView::Scene,
            s.run_error is None,
    {
        EstimatorSlot {
            estimator: Estimator::Filter,
            filter_run: false,
            tracker_run: false,
            box_run: false,
            particle_run: false,
            filter_out: None,
            tracker_out: None,
            box_out: None,
            particle_out: None,
            view: CentralView::Scene,
            run_error: None,
        }
    }

    /// Whether an estimator run is in flight: the whole panel is then
    /// frozen, its configuration being what the run uses.
    pub fn estimating(&self) -> (r: bool)
        ensures
            r == (self.filter_run || self.tracker_run || self.box_run || self.particle_run),
    {
        self.filter_run || self.tracker_run || self.box_run || self.particle_run
    }

    /// Cancel every run in flight (their handles are dropped); the rest
    /// stays.
    pub fn cancel_estimators(&mut self)
        ensures
            *final(self) == (EstimatorSlot {
                filter_run: false,
                tracker_run: false,
                box_run: false,
                particle_run: false,
                ..*old(self)
            }),
    {
        self.filter_run = false;
        self.tracker_run = false;
        self.box_run = false;
        self.particle_run = false;
    }

    /// After an edit of the model or the run settings: the runs and the
    /// outputs are discarded and the scene is shown; the estimator choice
    /// and the last failure stay.
    pub fn clear_estimator_state(&mut self)
        ensures
            *final(self) == (EstimatorSlot {
                filter_run: false,
                tracker_run: false,
                box_run: false,
                particle_run: false,
                filter_out: None,
                tracker_out: None,
                box_out: None,
                particle_out: None,
                view: CentralView::Scene,
                ..*old(self)
            }),
    {
        self.cancel_estimators();
        self.filter_out = None;
        self.tracker_out = None;
        self.box_out = None;
        self.particle_out = None;
        self.view = CentralView::Scene;
    }

    /// The Run button was clicked: the last failure is cleared and a run
    /// of the selected estimator is in flight.
    pub fn start_run(&mut self)
        ensures
            *final(self) == (EstimatorSlot {
                run_error: None,
                filter_run: old(self).filter_run || old(self).estimator == Estimator::Filter,
                tracker_run: old(self).tracker_run || old(self).estimator == Estimator::Tracker,
                box_run: old(self).box_run || old(self).estimator == Estimator::Window,
                particle_run: old(self).particle_run || old(self).estimator == Estimator::Particles,
                ..*old(self)
            }),
    {
        self.run_error = None;
        match self.estimator {
            Estimator::Filter => self.filter_run = true,
            Estimator::Tracker => self.tracker_run = true,
            Estimator::Window => self.box_run = true,
            Estimator::Particles => self.particle_run = true,
        }
    }

    /// Whether the tab of the view `v` is offered: the scene always, an
    /// estimator's view once its output exists.
    pub fn view_available(&self, v: CentralView) -> (r: bool)
        ensures
            r == match v {
                CentralView::Scene => true,
                CentralView::Filter => self.filter_out is Some,
                CentralView::Window => self.box_out is Some,
                CentralView::Particles => self.particle_out is Some,
                CentralView::Tracker => self.tracker_out is Some,
            },
    {
        match v {
            CentralView::Scene => true,
            CentralView::Filter => self.filter_out.is_some(),
            CentralView::Window => self.box_out.is_some(),
            CentralView::Particles => self.particle_out.is_some(),
            CentralView::Tracker => self.tracker_out.is_some(),
        }
    }

    /// Whether the view tabs are shown: once any estimator output exists.
    pub fn tabs_shown(&self) -> (r: bool)
        ensures
            r == (self.filter_out is Some || self.tracker_out is Some || self.box_out is Some
                || self.particle_out is Some),
    {
        self.filter_out.is_some() || self.tracker_out.is_some() || self.box_out.is_some()
            || self.particle_out.is_some()
    }

    /// The filter run polled: a failure is recorded and the run dropped;
    /// an output is kept, shown, and the run dropped. Returns whether the
    /// playback restarts (a new output).
    pub fn collect_filter(&mut self, c: Collected<F>) -> (restart: bool)
        ensures
            match c {
                Collected::Failed(e) => *final(self) == (EstimatorSlot { filter_run: false, run_error: Some(e), ..*old(self) }) && !restart,
                Collected::Done(o) => *final(self) == (EstimatorSlot {
                    filter_run: false,
                    filter_out: Some(o),
                    view: CentralView::Filter,
                    ..*old(self)
                }) && restart,
                _ => *final(self) == *old(self) && !restart,
            },
    {
        match c {
            Collected::Failed(e) => {
                self.filter_run = false;
                self.run_error = Some(e);
                false
            },
            Collected::Done(o) => {
                self.filter_run = false;
                self.filter_out = Some(o);
                self.view = CentralView::Filter;
                true
            },
            _ => false,
        }
    }

    /// The tracker run polled, as [`collect_filter`](Self::collect_filter).
    pub fn collect_tracker(&mut self, c: Collected<T>) -> (restart: bool)
        ensures
            match c {
                Collected::Failed(e) => *final(self) == (EstimatorSlot { tracker_run: false, run_error: Some(e), ..*old(self) }) && !restart,
                Collected::Done(o) => *final(self) == (EstimatorSlot {
                    tracker_run: false,
                    tracker_out: Some(o),
                    view: CentralView::Tracker,
                    ..*old(self)
                }) && restart,
                _ => *final(self) == *old(self) && !restart,
            },
    {
        match c {
            Collected::Failed(e) => {
                self.tracker_run = false;
                self.run_error = Some(e);
                false
            },
            Collected::Done(o) => {
                self.tracker_run = false;
                self.tracker_out = Some(o);
                self.view = CentralView::Tracker;
                true
            },
            _ => false,
        }
    }

    /// The window run polled, as [`collect_filter`](Self::collect_filter).
    pub fn collect_box(&mut self, c: Collected<B>) -> (restart: bool)
        ensures
            match c {
                Collected::Failed(e) => *final(self) == (EstimatorSlot { box_run: false, run_error: Some(e), ..*old(self) }) && !restart,
                Collected::Done(o) => *final(self) == (EstimatorSlot {
                    box_run: false,
                    box_out: Some(o),
                    view: CentralView::Window,
                    ..*old(self)
                }) && restart,
                _ => *final(self) == *old(self) && !restart,
            },
    {
        match c {
            Collected::Failed(e) => {
                self.box_run = false;
                self.run_error = Some(e);
                false
            },
            Collected::Done(o) => {
                self.box_run = false;
                self.box_out = Some(o);
                self.view = CentralView::Window;
                true
            },
            _ => false,
        }
    }

    /// The particle run polled, as [`collect_filter`](Self::collect_filter).
    pub fn collect_particles(&mut self, c: Collected<P>) -> (restart: bool)
        ensures
            match c {
                Collected::Failed(e) => *final(self) == (EstimatorSlot { particle_run: false, run_error: Some(e), ..*old(self) }) && !restart,
                Collected::Done(o) => *final(self) == (EstimatorSlot {
                    particle_run: false,
                    particle_out: Some(o),
                    view: CentralView::Particles,
                    ..*old(self)
                }) && restart,
                _ => *final(self) == *old(self) && !restart,
            },
    {
        match c {
            Collected::Failed(e) => {
                self.particle_run = false;
                self.run_error = Some(e);
                false
            },
            Collected::Done(o) => {
                self.particle_run = false;
                self.particle_out = Some(o);
                self.view = CentralView::Particles;
                true
            },
            _ => false,
        }
    }
}


/// The Run button is enabled only with a completed simulation, no run in
/// flight, a configuration, at least one selected observation and a valid
/// prior, and with valid domains unless the estimator needs none; with
/// all of these it is enabled.
pub proof fn run_button_conditions(
    run_done: bool,
    estimating: bool,
    has_config: bool,
    obs_ok: bool,
    prior_ok: bool,
    domains_ok: bool,
    e: Estimator,
)
    ensures
        spec_can_run(run_done, estimating, has_config, obs_ok, prior_ok, domains_ok, e)
            ==> run_done && !estimating && has_config && obs_ok && prior_ok,
        !obs_ok ==> !spec_can_run(run_done, estimating, has_config, obs_ok, prior_ok, domains_ok, e),
        spec_can_run(run_done, estimating, has_config, obs_ok, prior_ok, domains_ok, e) && !domains_ok
            ==> e == Estimator::Tracker || e == Estimator::Window,
        run_done && !estimating && has_config && obs_ok && prior_ok && domains_ok
            ==> spec_can_run(run_done, estimating, has_config, obs_ok, prior_ok, domains_ok, e),
{
}

} // verus!
