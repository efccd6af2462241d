//! The client's side of a run executing on the observers server: what it
//! knows about the run and the decisions its request callbacks take. The
//! handle posts the job, learns the run's id, polls the run's status (at
//! most one request in flight, at most one every [`POLL_INTERVAL_MS`]),
//! fetches the output once the run is finished, and keeps the first error
//! met; the requests themselves are made by the caller.

use vstd::prelude::*;
use vstd::string::*;
use crate::text::{decimal, format_u64, trim, trim_str};

verus! {

broadcast use vstd::string::group_string_axioms;

/// Minimum time between two status requests of one run, in milliseconds.
pub const POLL_INTERVAL_MS: u64 = 150;

/// What a status answer (`GET /runs/{id}`) tells the client.
#[derive(Clone, Debug)]
pub struct StatusReport {
    /// Steps done so far.
    pub done: usize,
    /// The job returned (its output can be fetched).
    pub finished: bool,
    /// Why the run failed on the server, if it did.
    pub error: Option<String>,
}

/// What the client knows about its run; updated by the request callbacks.
#[derive(Clone, Debug)]
pub struct RunState {
    /// The server's id of the run, once `POST /runs` answered.
    pub id: Option<u64>,
    /// Steps done, from the last status.
    pub done: usize,
    /// The server reported the run finished.
    pub finished: bool,
    /// A request is in flight (status or output): don't send another.
    pub in_flight: bool,
    /// When the last status request left, in milliseconds of the caller's
    /// monotonic clock.
    pub last_poll_ms: Option<u64>,
    /// The output arrived and waits to be taken.
    pub output_ready: bool,
    /// The first error met (connection, HTTP status, decoding, the
    /// server's own error for the run, an output of the wrong kind).
    pub error: Option<String>,
}

/// The model of a [`RunState`]: the same fields, the error as text.
pub ghost struct RunView {
    pub id: Option<u64>,
    pub done: usize,
    pub finished: bool,
    pub in_flight: bool,
    pub last_poll_ms: Option<u64>,
    pub output_ready: bool,
    pub error: Option<Seq<char>>,
}

/// The text of an optional message.
pub open spec fn text_of(e: Option<String>) -> Option<Seq<char>> {
    match e {
        Some(s) => Some(s@),
        None => None,
    }
}

impl View for RunState {
    type V = RunView;

    open spec fn view(&self) -> RunView {
        RunView {
            id: self.id,
            done: self.done,
            finished: self.finished,
            in_flight: self.in_flight,
            last_poll_ms: self.last_poll_ms,
            output_ready: self.output_ready,
            error: text_of(self.error),
        }
    }
}

/// `e` unless an error is already recorded: the first error stays.
pub open spec fn first_error(current: Option<Seq<char>>, e: Seq<char>) -> Option<Seq<char>> {
    match current {
        Some(old) => Some(old),
        None => Some(e),
    }
}

/// Whether a status request is due at `now`.
pub open spec fn poll_due(s: RunView, now: u64) -> bool {
    &&& s.id is Some
    &&& s.error is None
    &&& !s.output_ready
    &&& !s.finished
    &&& !s.in_flight
    &&& (s.last_poll_ms matches Some(t) ==> now >= t + POLL_INTERVAL_MS)
}

/// The state after a poll at `now`, and the id of the run whose status is
/// to be requested (none when no request is due).
pub open spec fn after_poll(s: RunView, now: u64) -> (RunView, Option<u64>) {
    if poll_due(s, now) {
        (RunView { in_flight: true, last_poll_ms: Some(now), ..s }, s.id)
    } else {
        (s, None)
    }
}

/// The state after the answer to the job's `POST`: the run's id, or the
/// error that prevented its creation.
pub open spec fn after_created(s: RunView, answer: Result<u64, Seq<char>>) -> RunView {
    match answer {
        Ok(id) => RunView { id: Some(id), ..s },
        Err(e) => RunView { error: first_error(s.error, e), ..s },
    }
}

/// The message recorded when the server reports that the run failed.
pub open spec fn server_failure(e: Seq<char>) -> Seq<char> {
    "the server's run failed: "@ + e
}

/// The state after a status answer (its steps done, whether finished, the
/// server's error), and whether the output is to be fetched now.
pub open spec fn after_status(
    s: RunView,
    answer: Result<(usize, bool, Option<Seq<char>>), Seq<char>>,
) -> (RunView, bool) {
    match answer {
        Err(e) => (RunView { error: first_error(s.error, e), in_flight: false, ..s }, false),
        Ok((done, finished, failure)) => match failure {
            Some(e) => (
                RunView { done, error: first_error(s.error, server_failure(e)), in_flight: false, ..s },
                false,
            ),
            None => if finished {
                (RunView { done, finished: true, ..s }, true)
            } else {
                (RunView { done, in_flight: false, ..s }, false)
            },
        },
    }
}

/// The state after the output's answer: the output is ready, or the error
/// is recorded; either way no request is in flight any more.
pub open spec fn after_output(s: RunView, answer: Result<(), Seq<char>>) -> RunView {
    match answer {
        Ok(()) => RunView { output_ready: true, in_flight: false, ..s },
        Err(e) => RunView { error: first_error(s.error, e), in_flight: false, ..s },
    }
}

/// A status answer as the model of [`RunState::on_status`] sees it.
pub open spec fn status_answer(answer: Result<StatusReport, String>) -> Result<(usize, bool, Option<Seq<char>>), Seq<char>> {
    match answer {
        Ok(st) => Ok((st.done, st.finished, text_of(st.error))),
        Err(e) => Err(e@),
    }
}

/// Record `e` unless an error is already recorded.
fn keep_first(error: &mut Option<String>, e: String)
    ensures
        text_of(*final(error)) == first_error(text_of(*old(error)), e@),
{
    if error.is_none() {
        *error = Some(e);
    }
}

impl RunState {
    /// Nothing known yet: no id, nothing done, nothing in flight.
    pub fn new() -> (r: RunState)
        ensures
            r@ == (RunView {
                id: None,
                done: 0,
                finished: false,
                in_flight: false,
                last_poll_ms: None,
                output_ready: false,
                error: None,
            }),
    {
        RunState {
            id: None,
            done: 0,
            finished: false,
            in_flight: false,
            last_poll_ms: None,
            output_ready: false,
            error: None,
        }
    }

    /// The answer to the job's `POST`: the new run's id, or why it was not
    /// created.
    pub fn on_created(&mut self, answer: Result<u64, String>)
        ensures
            final(self)@ == after_created(old(self)@, match answer { Ok(id) => Ok(id), Err(e) => Err(e@) }),
    {
        match answer {
            Ok(id) => self.id = Some(id),
            Err(e) => keep_first(&mut self.error, e),
        }
    }

    /// Decide, at `now` (milliseconds), whether to request the run's
    /// status: returns the run's id when a request is due, and then marks
    /// it in flight.
    pub fn poll(&mut self, now: u64) -> (r: Option<u64>)
        ensures
            (final(self)@, r) == after_poll(old(self)@, now),
    {
        let id = match self.id {
            Some(id) => id,
            None => return None,
        };
        if self.error.is_some() || self.output_ready || self.finished || self.in_flight {
            return None;
        }
        match self.last_poll_ms {
            Some(t) => {
                if now < t || now - t < POLL_INTERVAL_MS {
                    return None;
                }
            },
            None => {},
        }
        self.in_flight = true;
        self.last_poll_ms = Some(now);
        Some(id)
    }

    /// A status answer (or why none came): returns whether the output is
    /// to be requested now.
    pub fn on_status(&mut self, answer: Result<StatusReport, String>) -> (fetch: bool)
        ensures
            (final(self)@, fetch) == after_status(old(self)@, status_answer(answer)),
    {
        match answer {
            Err(e) => {
                keep_first(&mut self.error, e);
                self.in_flight = false;
                false
            },
            Ok(st) => {
                self.done = st.done;
                match st.error {
                    Some(e) => {
                        let mut m = String::from_str("the server's run failed: ");
                        m.append(e.as_str());
                        keep_first(&mut self.error, m);
                        self.in_flight = false;
                        false
                    },
                    None => {
                        if st.finished {
                            self.finished = true;
                            true
                        } else {
                            self.in_flight = false;
                            false
                        }
                    },
                }
            },
        }
    }

    /// The output's answer: `Ok` when it arrived (the caller keeps it),
    /// or why it could not be had.
    pub fn on_output(&mut self, answer: Result<(), String>)
        ensures
            final(self)@ == after_output(old(self)@, match answer { Ok(()) => Ok(()), Err(e) => Err(e@) }),
    {
        match answer {
            Ok(()) => self.output_ready = true,
            Err(e) => keep_first(&mut self.error, e),
        }
        self.in_flight = false;
    }

    /// Take the waiting output, if any: returns whether one was waiting.
    pub fn take_output(&mut self) -> (r: bool)
        ensures
            r == old(self).output_ready,
            final(self)@ == (RunView { output_ready: false, ..old(self)@ }),
    {
        let r = self.output_ready;
        self.output_ready = false;
        r
    }

    /// Record an error met by the caller (an output of the wrong kind).
    pub fn record_error(&mut self, e: String)
        ensures
            final(self)@ == (RunView { error: first_error(old(self)@.error, e@), ..old(self)@ }),
    {
        keep_first(&mut self.error, e);
    }

    /// The first error met, if any: the run is then dead.
    pub fn error(&self) -> (r: Option<String>)
        ensures
            text_of(r) == self@.error,
    {
        self.error.clone()
    }
}

/// One request at a time: once a poll has sent a status request, no
/// further poll sends one until an answer has arrived.
pub proof fn one_request_at_a_time(s: RunView, now1: u64, now2: u64)
    ensures
        after_poll(s, now1).1 is Some ==> after_poll(after_poll(s, now1).0, now2).1 is None,
        s.in_flight ==> after_poll(s, now2).1 is None,
{
}

/// Polls are spaced: after a status request sent at `t1` and answered
/// with a run still in progress, the next status request leaves no
/// earlier than `t1 + POLL_INTERVAL_MS`.
pub proof fn polls_are_spaced(s: RunView, t1: u64, done: usize, t2: u64)
    ensures
        ({
            let (s1, r1) = after_poll(s, t1);
            let (s2, fetch) = after_status(s1, Ok((done, false, None)));
            r1 is Some && after_poll(s2, t2).1 is Some ==> t2 >= t1 + POLL_INTERVAL_MS
        }),
{
}

/// Errors are final: once an error is recorded it is never replaced, and
/// no request is sent any more.
pub proof fn errors_are_final(
    s: RunView,
    now: u64,
    created: Result<u64, Seq<char>>,
    status: Result<(usize, bool, Option<Seq<char>>), Seq<char>>,
    output: Result<(), Seq<char>>,
    e: Seq<char>,
)
    requires
        s.error is Some,
    ensures
        after_poll(s, now) == (s, None::<u64>),
        after_created(s, created).error == s.error,
        after_status(s, status).0.error == s.error,
        after_output(s, output).error == s.error,
        first_error(s.error, e) == s.error,
{
}

/// The output is requested only once the server reported the run
/// finished without a failure, and the request then counts as in flight.
pub proof fn output_only_when_finished(s: RunView, status: Result<(usize, bool, Option<Seq<char>>), Seq<char>>)
    ensures
        after_status(s, status).1 ==> (status matches Ok((d, f, e)) && f && e is None),
        after_status(s, status).1 ==> after_status(s, status).0.finished && after_status(s, status).0.in_flight == s.in_flight,
{
}

/// The error of an answer with a non-success HTTP status: the status, its
/// reason phrase, and the body's text trimmed when there is one.
pub open spec fn answer_text(status: u16, reason: Seq<char>, body: Seq<char>) -> Seq<char> {
    "server answered "@ + decimal(status as nat) + " "@ + reason
        + if trim(body).len() > 0 { ": "@ + trim(body) } else { Seq::empty() }
}

/// The error recorded for an answer with a non-success status (`body` is
/// the answer's text, none when it is not text).
pub fn answer_error(status: u16, reason: &str, body: Option<&str>) -> (r: String)
    ensures
        r@ == answer_text(status, reason@, match body { Some(b) => b@, None => Seq::empty() }),
{
    let text = match body {
        Some(b) => trim_str(b),
        None => "",
    };
    proof {
        reveal_strlit("");
        if body is None {
            assert(trim(Seq::<char>::empty()) =~= Seq::<char>::empty());
        }
    }
    let mut m = String::from_str("server answered ");
    m.append(format_u64(status as u64).as_str());
    m.append(" ");
    m.append(reason);
    if text.unicode_len() > 0 {
        m.append(": ");
        m.append(text);
    }
    m
}

/// The number of steps a progress fraction is taken of: the steps asked
/// for, at least one.
pub fn total_steps(steps: usize) -> (r: usize)
    ensures
        r == (if steps == 0 { 1 } else { steps }),
{
    if steps == 0 { 1 } else { steps }
}


/// Once the server has reported the run finished, no status request is
/// ever sent again: a poll at any time sends none and changes nothing,
/// and no answer clears the finished mark.
pub proof fn finished_runs_are_not_polled(
    s: RunView,
    now: u64,
    created: Result<u64, Seq<char>>,
    status: Result<(usize, bool, Option<Seq<char>>), Seq<char>>,
    output: Result<(), Seq<char>>,
)
    requires
        s.finished,
    ensures
        after_poll(s, now) == (s, None::<u64>),
        after_created(s, created).finished,
        after_status(s, status).0.finished,
        after_output(s, output).finished,
{
}

} // verus!
