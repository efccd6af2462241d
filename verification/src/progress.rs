//! The link between a running job and whoever drives it: a step counter the
//! job bumps once per step (a progress bar) and a cancel flag the driver
//! raises to ask the job to stop. A cancelled job returns early with what
//! it has.

use vstd::prelude::*;

verus! {

/// Steps done so far and whether the job was asked to stop.
pub struct Progress {
    done: usize,
    cancel: bool,
}

impl Progress {
    /// Steps done so far, as the model of the counter.
    pub closed spec fn count(&self) -> usize {
        self.done
    }

    /// Whether the job has been asked to stop, as the model of the flag.
    pub closed spec fn is_cancelled(&self) -> bool {
        self.cancel
    }

    /// The handle after one more step.
    pub closed spec fn stepped(self) -> Progress {
        Progress { done: (if self.done == usize::MAX { 0 } else { (self.done + 1) as usize }), cancel: self.cancel }
    }

    /// The handle after `n` more steps.
    pub open spec fn stepped_n(self, n: nat) -> Progress
        decreases n,
    {
        if n == 0 {
            self
        } else {
            self.stepped_n((n - 1) as nat).stepped()
        }
    }

    /// The handle once cancelled.
    pub closed spec fn cancelled_handle(self) -> Progress {
        Progress { done: self.done, cancel: true }
    }

    /// The fresh handle.
    pub closed spec fn initial() -> Progress {
        Progress { done: 0, cancel: false }
    }

    /// A fresh handle: no step done, not cancelled.
    pub fn new() -> (p: Progress)
        ensures
            p == Progress::initial(),
            p.count() == 0,
            !p.is_cancelled(),
    {
        Progress { done: 0, cancel: false }
    }

    /// One more step done (the counter wraps around at `usize::MAX` like
    /// the atomic counter it models); the flag is untouched.
    pub fn step(&mut self)
        ensures
            *final(self) == old(self).stepped(),
            final(self).count() == (if old(self).count() == usize::MAX { 0 } else { (old(self).count() + 1) as usize }),
            final(self).is_cancelled() == old(self).is_cancelled(),
    {
        self.done = self.done.wrapping_add(1);
    }

    /// Steps done so far.
    pub fn done(&self) -> (r: usize)
        ensures
            r == self.count(),
    {
        self.done
    }

    /// Ask the job to stop at its next check; the counter is untouched.
    pub fn cancel(&mut self)
        ensures
            *final(self) == old(self).cancelled_handle(),
            final(self).is_cancelled(),
            final(self).count() == old(self).count(),
    {
        self.cancel = true;
    }

    /// Has the job been asked to stop?
    pub fn cancelled(&self) -> (r: bool)
        ensures
            r == self.is_cancelled(),
    {
        self.cancel
    }
}

impl Default for Progress {
    fn default() -> (p: Progress)
        ensures
            p == Progress::initial(),
            p.count() == 0,
            !p.is_cancelled(),
    {
        Progress::new()
    }
}

/// Counting: `n` steps on a handle whose counter reads `c` leave it at
/// `c + n` as long as that fits a `usize`, and leave its cancel flag as it
/// was.
pub proof fn steps_add_up(p: Progress, n: nat)
    requires
        p.count() + n <= usize::MAX,
    ensures
        p.stepped_n(n).count() == p.count() + n,
        p.stepped_n(n).is_cancelled() == p.is_cancelled(),
    decreases n,
{
    if n > 0 {
        steps_add_up(p, (n - 1) as nat);
    }
}

/// Cancellation is sticky and does not disturb the count: a cancelled
/// handle stays cancelled through any number of steps and further
/// cancels, and cancelling then stepping is stepping then cancelling.
pub proof fn cancellation_is_sticky(p: Progress, n: nat)
    ensures
        p.cancelled_handle().stepped_n(n).is_cancelled(),
        p.cancelled_handle().cancelled_handle() == p.cancelled_handle(),
        p.stepped().cancelled_handle() == p.cancelled_handle().stepped(),
        p.cancelled_handle().count() == p.count(),
    decreases n,
{
    if n > 0 {
        cancellation_is_sticky(p, (n - 1) as nat);
    }
}


/// One of the operations a progress handle offers.
#[derive(Clone, Copy, Debug, PartialEq, Eq, Structural)]
pub enum ProgressOp {
    /// [`Progress::step`].
    Step,
    /// [`Progress::done`], which only reads.
    Done,
    /// [`Progress::cancel`].
    Cancel,
}

/// The handle after the operations `ops`, in order.
pub open spec fn apply_ops(p: Progress, ops: Seq<ProgressOp>) -> Progress
    decreases ops.len(),
{
    if ops.len() == 0 {
        p
    } else {
        let q = apply_ops(p, ops.drop_last());
        match ops.last() {
            ProgressOp::Step => q.stepped(),
            ProgressOp::Done => q,
            ProgressOp::Cancel => q.cancelled_handle(),
        }
    }
}

/// The cancel flag is raised exactly when a cancel occurred: after any
/// sequence of operations a handle is cancelled if and only if it was
/// already or the sequence holds a cancel; a fresh handle starts
/// uncancelled.
pub proof fn cancelled_iff_cancel_occurred(p: Progress, ops: Seq<ProgressOp>)
    ensures
        apply_ops(p, ops).is_cancelled() <==> (p.is_cancelled() || ops.contains(ProgressOp::Cancel)),
        apply_ops(Progress::initial(), ops).is_cancelled() <==> ops.contains(ProgressOp::Cancel),
    decreases ops.len(),
{
    if ops.len() > 0 {
        let t = ops.drop_last();
        cancelled_iff_cancel_occurred(p, t);
        cancelled_iff_cancel_occurred(Progress::initial(), t);
        if t.contains(ProgressOp::Cancel) {
            let i = choose|i: int| 0 <= i < t.len() && t[i] == ProgressOp::Cancel;
            assert(ops[i] == ProgressOp::Cancel);
        }
        if ops.contains(ProgressOp::Cancel) && ops.last() != ProgressOp::Cancel {
            let i = choose|i: int| 0 <= i < ops.len() && ops[i] == ProgressOp::Cancel;
            assert(i < ops.len() - 1);
            assert(t[i] == ProgressOp::Cancel);
        }
        if ops.last() == ProgressOp::Cancel {
            assert(ops[ops.len() - 1] == ProgressOp::Cancel);
        }
    }
}

} // verus!
