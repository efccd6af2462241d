//! The server's table of runs: their ids, the steps they were asked for,
//! whether their worker returned, and when a client last asked about them.
//! Ids are handed out in increasing order from 1 and never reused; a run
//! nobody asked about for longer than the TTL is swept away.

use vstd::prelude::*;

verus! {

/// What the server knows of one run beside its worker.
#[derive(Clone, Copy, Debug, PartialEq, Eq, Structural)]
pub struct RunEntry {
    pub id: u64,
    /// Steps requested (at least one).
    pub total: usize,
    /// The worker returned (successfully or not).
    pub finished: bool,
    /// The worker returned a failure (the job panicked).
    pub failed: bool,
    /// Last time a client asked about this run, in nanoseconds of the
    /// server's monotonic clock.
    pub last_seen_ns: u128,
}

/// The runs the server holds, in the order they were started (that is, by
/// increasing id). They are kept in a vector ordered by id rather than a
/// hash map: a sweep walks them and returns the ids it forgets in that
/// order, which a hash map's walk, seeded anew in every process, would
/// leave open.
pub struct RunTable {
    runs: Vec<RunEntry>,
    next_id: u64,
}

/// The answer to a request for the output of the run `e`: 409 while it
/// runs, 500 when it failed, 200 otherwise.
pub open spec fn output_code(e: RunEntry) -> u16 {
    if !e.finished {
        409
    } else if e.failed {
        500
    } else {
        200
    }
}

/// Whether a run last seen at `seen` is idle at `now` for the TTL `ttl`:
/// nobody asked about it for longer than that.
pub open spec fn idle(seen: u128, now: u128, ttl: u128) -> bool {
    now > seen && now - seen > ttl
}

/// The runs of `s` that are not idle, in order.
pub open spec fn kept(s: Seq<RunEntry>, now: u128, ttl: u128) -> Seq<RunEntry>
    decreases s.len(),
{
    if s.len() == 0 {
        s
    } else {
        let k = kept(s.drop_last(), now, ttl);
        if idle(s.last().last_seen_ns, now, ttl) { k } else { k.push(s.last()) }
    }
}

/// The ids of the runs of `s` that are idle, in order.
pub open spec fn swept(s: Seq<RunEntry>, now: u128, ttl: u128) -> Seq<u64>
    decreases s.len(),
{
    if s.len() == 0 {
        Seq::empty()
    } else {
        let k = swept(s.drop_last(), now, ttl);
        if idle(s.last().last_seen_ns, now, ttl) { k.push(s.last().id) } else { k }
    }
}

/// The number of runs of `s` whose worker has not returned.
pub open spec fn unfinished(s: Seq<RunEntry>) -> nat
    decreases s.len(),
{
    if s.len() == 0 {
        0
    } else {
        unfinished(s.drop_last()) + if s.last().finished { 0nat } else { 1nat }
    }
}

/// The ids of `s`, in order.
pub open spec fn ids(s: Seq<RunEntry>) -> Seq<u64> {
    s.map_values(|r: RunEntry| r.id)
}

impl RunTable {
    /// The runs held, in the order they were started.
    pub closed spec fn entries(&self) -> Seq<RunEntry> {
        self.runs@
    }

    /// The last id handed out (0 before the first run).
    pub closed spec fn last_id(&self) -> u64 {
        self.next_id
    }

    /// The table is consistent: ids are distinct, between 1 and the last
    /// id handed out, in increasing order.
    pub open spec fn wf(&self) -> bool {
        &&& forall|i: int, j: int| 0 <= i < j < self.entries().len()
            ==> #[trigger] self.entries()[i].id < #[trigger] self.entries()[j].id
        &&& forall|i: int| 0 <= i < self.entries().len()
            ==> 1 <= #[trigger] self.entries()[i].id <= self.last_id()
    }

    /// An empty table.
    pub fn new() -> (t: RunTable)
        ensures
            t.wf(),
            t.entries() == Seq::<RunEntry>::empty(),
            t.last_id() == 0,
    {
        RunTable { runs: Vec::new(), next_id: 0 }
    }

    /// Register a run of `steps` steps started at `now`: its id is the
    /// next one (1, 2, 3, …), larger than every id held.
    pub fn start(&mut self, steps: usize, now: u128) -> (id: u64)
        requires
            old(self).wf(),
            old(self).last_id() < u64::MAX,
        ensures
            final(self).wf(),
            id == old(self).last_id() + 1,
            final(self).last_id() == id,
            final(self).entries() == old(self).entries().push(RunEntry {
                id,
                total: if steps == 0 { 1 } else { steps },
                finished: false,
                failed: false,
                last_seen_ns: now,
            }),
            forall|i: int| 0 <= i < old(self).entries().len() ==> #[trigger] old(self).entries()[i].id < id,
    {
        let id = self.next_id + 1;
        self.next_id = id;
        let total = if steps == 0 { 1 } else { steps };
        self.runs.push(RunEntry { id, total, finished: false, failed: false, last_seen_ns: now });
        id
    }

    /// The position of the run `id`, if held.
    fn position(&self, id: u64) -> (r: Option<usize>)
        ensures
            r matches Some(i) ==> i < self.entries().len() && self.entries()[i as int].id == id,
            r is None ==> forall|i: int| 0 <= i < self.entries().len() ==> #[trigger] self.entries()[i].id != id,
    {
        let mut i: usize = 0;
        while i < self.runs.len()
            invariant
                i <= self.runs@.len(),
                forall|k: int| 0 <= k < i ==> #[trigger] self.runs@[k].id != id,
            decreases self.runs@.len() - i,
        {
            if self.runs[i].id == id {
                return Some(i);
            }
            i = i + 1;
        }
        None
    }

    /// The run `id`, if held.
    pub fn get(&self, id: u64) -> (r: Option<RunEntry>)
        requires
            self.wf(),
        ensures
            r matches Some(e) ==> e.id == id && self.entries().contains(e),
            r is None ==> !ids(self.entries()).contains(id),
    {
        match self.position(id) {
            Some(i) => Some(self.runs[i]),
            None => {
                assert(!ids(self.entries()).contains(id)) by {
                    if ids(self.entries()).contains(id) {
                        let k = choose|k: int| 0 <= k < ids(self.entries()).len() && ids(self.entries())[k] == id;
                        assert(self.entries()[k].id == id);
                    }
                }
                None
            },
        }
    }

    /// A client asked about the run `id` at `now`: returns whether it is
    /// held.
    pub fn touch(&mut self, id: u64, now: u128) -> (found: bool)
        requires
            old(self).wf(),
        ensures
            final(self).wf(),
            final(self).last_id() == old(self).last_id(),
            found == ids(old(self).entries()).contains(id),
            final(self).entries().len() == old(self).entries().len(),
            forall|i: int| 0 <= i < old(self).entries().len() ==> #[trigger] final(self).entries()[i] == if old(self).entries()[i].id == id {
                RunEntry { last_seen_ns: now, ..old(self).entries()[i] }
            } else {
                old(self).entries()[i]
            },
    {
        match self.position(id) {
            Some(i) => {
                let mut e = self.runs[i];
                e.last_seen_ns = now;
                self.runs.set(i, e);
                assert forall|k: int| 0 <= k < old(self).entries().len() && k != i implies old(self).entries()[k].id != id by {
                    if k < i { assert(old(self).entries()[k].id < old(self).entries()[i as int].id); }
                    if k > i { assert(old(self).entries()[i as int].id < old(self).entries()[k].id); }
                }
                assert(ids(old(self).entries())[i as int] == id);
                true
            },
            None => {
                assert(!ids(old(self).entries()).contains(id)) by {
                    if ids(old(self).entries()).contains(id) {
                        let k = choose|k: int| 0 <= k < ids(old(self).entries()).len() && ids(old(self).entries())[k] == id;
                        assert(old(self).entries()[k].id == id);
                    }
                }
                false
            },
        }
    }

    /// The worker of the run `id` returned, with a failure when `failed`:
    /// returns whether it is held.
    pub fn mark_finished(&mut self, id: u64, failed: bool) -> (found: bool)
        requires
            old(self).wf(),
        ensures
            final(self).wf(),
            final(self).last_id() == old(self).last_id(),
            found == ids(old(self).entries()).contains(id),
            final(self).entries().len() == old(self).entries().len(),
            forall|i: int| 0 <= i < old(self).entries().len() ==> #[trigger] final(self).entries()[i] == if old(self).entries()[i].id == id {
                RunEntry { finished: true, failed, ..old(self).entries()[i] }
            } else {
                old(self).entries()[i]
            },
    {
        match self.position(id) {
            Some(i) => {
                let mut e = self.runs[i];
                e.finished = true;
                e.failed = failed;
                self.runs.set(i, e);
                assert forall|k: int| 0 <= k < old(self).entries().len() && k != i implies old(self).entries()[k].id != id by {
                    if k < i { assert(old(self).entries()[k].id < old(self).entries()[i as int].id); }
                    if k > i { assert(old(self).entries()[i as int].id < old(self).entries()[k].id); }
                }
                assert(ids(old(self).entries())[i as int] == id);
                true
            },
            None => {
                assert(!ids(old(self).entries()).contains(id)) by {
                    if ids(old(self).entries()).contains(id) {
                        let k = choose|k: int| 0 <= k < ids(old(self).entries()).len() && ids(old(self).entries())[k] == id;
                        assert(old(self).entries()[k].id == id);
                    }
                }
                false
            },
        }
    }

    /// Runs whose worker has not returned.
    pub fn in_progress(&self) -> (r: usize)
        ensures
            r == unfinished(self.entries()),
    {
        let mut n: usize = 0;
        let mut i: usize = 0;
        while i < self.runs.len()
            invariant
                i <= self.runs@.len(),
                n == unfinished(self.runs@.take(i as int)),
                n <= i,
            decreases self.runs@.len() - i,
        {
            assert(self.runs@.take(i + 1).drop_last() =~= self.runs@.take(i as int));
            if !self.runs[i].finished {
                n = n + 1;
            }
            i = i + 1;
        }
        assert(self.runs@.take(self.runs@.len() as int) =~= self.runs@);
        n
    }

    /// Forget the run `id` (`DELETE /runs/{id}`): returns whether it was
    /// held (204), or not (404).
    pub fn remove(&mut self, id: u64) -> (found: bool)
        requires
            old(self).wf(),
        ensures
            final(self).wf(),
            final(self).last_id() == old(self).last_id(),
            found == ids(old(self).entries()).contains(id),
            !ids(final(self).entries()).contains(id),
            found ==> exists|i: int| 0 <= i < old(self).entries().len() && old(self).entries()[i].id == id
                && final(self).entries() == old(self).entries().remove(i),
            !found ==> final(self).entries() == old(self).entries(),
    {
        match self.position(id) {
            Some(i) => {
                let ghost before = self.runs@;
                self.runs.remove(i);
                assert(self.runs@ == before.remove(i as int));
                assert(ids(before)[i as int] == id);
                assert(!ids(self.entries()).contains(id)) by {
                    if ids(self.entries()).contains(id) {
                        let k = choose|k: int| 0 <= k < ids(self.entries()).len() && ids(self.entries())[k] == id;
                        if k < i {
                            assert(self.entries()[k] == before[k]);
                            assert(before[k].id < before[i as int].id);
                        } else {
                            assert(self.entries()[k] == before[k + 1]);
                            assert(before[i as int].id < before[k + 1].id);
                        }
                    }
                }
                assert forall|a: int, b: int| 0 <= a < b < self.entries().len()
                    implies #[trigger] self.entries()[a].id < #[trigger] self.entries()[b].id by {
                    let a2 = if a < i { a } else { a + 1 };
                    let b2 = if b < i { b } else { b + 1 };
                    assert(self.entries()[a] == before[a2]);
                    assert(self.entries()[b] == before[b2]);
                    assert(before[a2].id < before[b2].id);
                }
                assert forall|a: int| 0 <= a < self.entries().len()
                    implies 1 <= #[trigger] self.entries()[a].id <= self.last_id() by {
                    let a2 = if a < i { a } else { a + 1 };
                    assert(self.entries()[a] == before[a2]);
                }
                true
            },
            None => {
                assert(!ids(old(self).entries()).contains(id)) by {
                    if ids(old(self).entries()).contains(id) {
                        let k = choose|k: int| 0 <= k < ids(old(self).entries()).len() && ids(old(self).entries())[k] == id;
                        assert(old(self).entries()[k].id == id);
                    }
                }
                false
            },
        }
    }

    /// The worker of the run `id` stops at its next iteration: its run is
    /// no longer held (cancelled by `DELETE`, or swept when idle).
    pub fn job_cancelled(&self, id: u64) -> (r: bool)
        ensures
            r == !ids(self.entries()).contains(id),
    {
        match self.position(id) {
            Some(i) => {
                assert(ids(self.entries())[i as int] == id);
                false
            },
            None => {
                assert(!ids(self.entries()).contains(id)) by {
                    if ids(self.entries()).contains(id) {
                        let k = choose|k: int| 0 <= k < ids(self.entries()).len() && ids(self.entries())[k] == id;
                        assert(self.entries()[k].id == id);
                    }
                }
                true
            },
        }
    }

    /// `DELETE /runs/{id}`: ask the run's job to stop at its next
    /// iteration and forget the run; 204 when it was held, 404 otherwise.
    pub fn cancel(&mut self, id: u64) -> (code: u16)
        requires
            old(self).wf(),
        ensures
            final(self).wf(),
            final(self).last_id() == old(self).last_id(),
            code == if ids(old(self).entries()).contains(id) { 204u16 } else { 404u16 },
            !ids(final(self).entries()).contains(id),
            code == 204 ==> exists|i: int| 0 <= i < old(self).entries().len() && old(self).entries()[i].id == id
                && final(self).entries() == old(self).entries().remove(i),
            code == 404 ==> final(self).entries() == old(self).entries(),
    {
        if self.remove(id) {
            204
        } else {
            404
        }
    }

    /// `GET /runs/{id}` at `now`: the run, touched (its steps, whether its
    /// worker returned and whether it failed), or `None` for an unknown run
    /// (404).
    pub fn status(&mut self, id: u64, now: u128) -> (r: Option<RunEntry>)
        requires
            old(self).wf(),
        ensures
            final(self).wf(),
            final(self).last_id() == old(self).last_id(),
            final(self).entries().len() == old(self).entries().len(),
            forall|i: int| 0 <= i < old(self).entries().len() ==> #[trigger] final(self).entries()[i] == if old(self).entries()[i].id == id {
                RunEntry { last_seen_ns: now, ..old(self).entries()[i] }
            } else {
                old(self).entries()[i]
            },
            r is None <==> !ids(old(self).entries()).contains(id),
            forall|i: int| 0 <= i < old(self).entries().len() && old(self).entries()[i].id == id
                ==> r == Some(RunEntry { last_seen_ns: now, ..#[trigger] old(self).entries()[i] }),
    {
        match self.position(id) {
            Some(i) => {
                let e = self.runs[i];
                proof {
                    assert(ids(old(self).entries())[i as int] == id);
                    assert forall|k: int| 0 <= k < old(self).entries().len() && old(self).entries()[k].id == id implies k == i by {
                        if k < i { assert(old(self).entries()[k].id < old(self).entries()[i as int].id); }
                        if k > i { assert(old(self).entries()[i as int].id < old(self).entries()[k].id); }
                    }
                }
                let found = self.touch(id, now);
                Some(RunEntry { last_seen_ns: now, ..e })
            },
            None => {
                let found = self.touch(id, now);
                None
            },
        }
    }

    /// `GET /runs/{id}/output` at `now`: the run is touched, and the answer
    /// is 404 for an unknown run, 409 while it runs, 500 when it failed,
    /// 200 with its output otherwise.
    pub fn output_status(&mut self, id: u64, now: u128) -> (code: u16)
        requires
            old(self).wf(),
        ensures
            final(self).wf(),
            final(self).last_id() == old(self).last_id(),
            final(self).entries().len() == old(self).entries().len(),
            forall|i: int| 0 <= i < old(self).entries().len() ==> #[trigger] final(self).entries()[i] == if old(self).entries()[i].id == id {
                RunEntry { last_seen_ns: now, ..old(self).entries()[i] }
            } else {
                old(self).entries()[i]
            },
            !ids(old(self).entries()).contains(id) ==> code == 404,
            forall|i: int| 0 <= i < old(self).entries().len() && old(self).entries()[i].id == id
                ==> code == output_code(#[trigger] old(self).entries()[i]),
    {
        match self.position(id) {
            Some(i) => {
                let e = self.runs[i];
                proof {
                    assert(ids(old(self).entries())[i as int] == id);
                    assert forall|k: int| 0 <= k < old(self).entries().len() && old(self).entries()[k].id == id implies k == i by {
                        if k < i { assert(old(self).entries()[k].id < old(self).entries()[i as int].id); }
                        if k > i { assert(old(self).entries()[i as int].id < old(self).entries()[k].id); }
                    }
                }
                let found = self.touch(id, now);
                if !e.finished {
                    409
                } else if e.failed {
                    500
                } else {
                    200
                }
            },
            None => {
                let found = self.touch(id, now);
                404
            },
        }
    }

    /// Forget the runs nobody asked about for longer than `ttl`
    /// nanoseconds at `now`; returns their ids. Their jobs are cancelled:
    /// the runs are no longer held ([`job_cancelled`](Self::job_cancelled)).
    pub fn sweep(&mut self, now: u128, ttl: u128) -> (gone: Vec<u64>)
        requires
            old(self).wf(),
        ensures
            final(self).wf(),
            final(self).last_id() == old(self).last_id(),
            final(self).entries() == kept(old(self).entries(), now, ttl),
            gone@ == swept(old(self).entries(), now, ttl),
            forall|k: int| 0 <= k < gone@.len() ==> !ids(final(self).entries()).contains(#[trigger] gone@[k]),
    {
        let ghost before = self.runs@;
        let mut keep: Vec<RunEntry> = Vec::new();
        let mut gone: Vec<u64> = Vec::new();
        let mut i: usize = 0;
        while i < self.runs.len()
            invariant
                i <= self.runs@.len(),
                self.runs@ == before,
                self.wf(),
                keep@ == kept(before.take(i as int), now, ttl),
                gone@ == swept(before.take(i as int), now, ttl),
            decreases self.runs@.len() - i,
        {
            assert(before.take(i + 1).drop_last() =~= before.take(i as int));
            let e = self.runs[i];
            let seen = e.last_seen_ns;
            if now > seen && now - seen > ttl {
                gone.push(e.id);
            } else {
                keep.push(e);
            }
            i = i + 1;
        }
        assert(before.take(before.len() as int) =~= before);
        proof {
            assert forall|a: int, b: int| 0 <= a < b < before.len() implies #[trigger] before[a].id < #[trigger] before[b].id by {
                assert(self.entries()[a].id < self.entries()[b].id);
            }
            assert forall|a: int| 0 <= a < before.len() implies 1 <= #[trigger] before[a].id <= self.next_id by {
                assert(1 <= self.entries()[a].id <= self.last_id());
            }
            lemma_kept_sorted(before, now, ttl, self.next_id);
            lemma_swept_not_kept(before, now, ttl, self.next_id);
        }
        self.runs = keep;
        gone
    }
}

/// A sweep partitions the runs: every run is either kept, and then it is
/// not idle, or swept; and a run asked about at the time of the sweep is
/// never swept.
pub proof fn sweep_partitions(s: Seq<RunEntry>, now: u128, ttl: u128)
    ensures
        kept(s, now, ttl).len() + swept(s, now, ttl).len() == s.len(),
        forall|i: int| 0 <= i < kept(s, now, ttl).len() ==> !idle(#[trigger] kept(s, now, ttl)[i].last_seen_ns, now, ttl),
        !idle(now, now, ttl),
    decreases s.len(),
{
    if s.len() > 0 {
        sweep_partitions(s.drop_last(), now, ttl);
        let k = kept(s.drop_last(), now, ttl);
        if !idle(s.last().last_seen_ns, now, ttl) {
            assert forall|i: int| 0 <= i < k.push(s.last()).len() implies !idle(#[trigger] k.push(s.last())[i].last_seen_ns, now, ttl) by {
                if i < k.len() {
                    assert(k.push(s.last())[i] == k[i]);
                }
            }
        }
    }
}

/// The runs kept by a sweep are runs of the table, in the same order:
/// their ids stay increasing and within the ids handed out.
proof fn lemma_kept_sorted(s: Seq<RunEntry>, now: u128, ttl: u128, last: u64)
    requires
        forall|i: int, j: int| 0 <= i < j < s.len() ==> #[trigger] s[i].id < #[trigger] s[j].id,
        forall|i: int| 0 <= i < s.len() ==> 1 <= #[trigger] s[i].id <= last,
    ensures
        forall|i: int, j: int| 0 <= i < j < kept(s, now, ttl).len()
            ==> #[trigger] kept(s, now, ttl)[i].id < #[trigger] kept(s, now, ttl)[j].id,
        forall|i: int| 0 <= i < kept(s, now, ttl).len() ==> 1 <= #[trigger] kept(s, now, ttl)[i].id <= last,
        forall|i: int| 0 <= i < kept(s, now, ttl).len() ==> #[trigger] s.contains(kept(s, now, ttl)[i]),
    decreases s.len(),
{
    if s.len() > 0 {
        let t = s.drop_last();
        lemma_kept_sorted(t, now, ttl, last);
        let k = kept(t, now, ttl);
        assert forall|i: int| 0 <= i < k.len() implies #[trigger] s.contains(k[i]) by {
            assert(t.contains(k[i]));
            let m = choose|m: int| 0 <= m < t.len() && t[m] == k[i];
            assert(s[m] == k[i]);
        }
        if !idle(s.last().last_seen_ns, now, ttl) {
            let k2 = k.push(s.last());
            assert forall|i: int| 0 <= i < k.len() implies #[trigger] k[i].id < s.last().id by {
                assert(t.contains(k[i]));
                let m = choose|m: int| 0 <= m < t.len() && t[m] == k[i];
                assert(s[m] == k[i]);
                assert(s[m].id < s[s.len() - 1].id);
            }
            assert(s.contains(s.last())) by {
                assert(s[s.len() - 1] == s.last());
            }
            assert forall|i: int| 0 <= i < k2.len() implies #[trigger] s.contains(k2[i]) by {
                if i < k.len() {
                    assert(k2[i] == k[i]);
                }
            }
        }
    }
}


/// Every id a sweep returns is the id of a run of the table.
proof fn lemma_swept_from(s: Seq<RunEntry>, now: u128, ttl: u128)
    ensures
        forall|k: int| 0 <= k < swept(s, now, ttl).len()
            ==> exists|m: int| 0 <= m < s.len() && s[m].id == #[trigger] swept(s, now, ttl)[k],
    decreases s.len(),
{
    if s.len() > 0 {
        let t = s.drop_last();
        lemma_swept_from(t, now, ttl);
        let w = swept(t, now, ttl);
        assert forall|k: int| 0 <= k < w.len() implies exists|m: int| 0 <= m < s.len() && s[m].id == #[trigger] w[k] by {
            let m = choose|m: int| 0 <= m < t.len() && t[m].id == w[k];
            assert(s[m] == t[m]);
        }
        if idle(s.last().last_seen_ns, now, ttl) {
            let w2 = w.push(s.last().id);
            assert forall|k: int| 0 <= k < w2.len() implies exists|m: int| 0 <= m < s.len() && s[m].id == #[trigger] w2[k] by {
                if k < w.len() {
                    assert(w2[k] == w[k]);
                } else {
                    assert(s[s.len() - 1].id == w2[k]);
                }
            }
        }
    }
}

/// The runs a sweep forgets are none of the runs it keeps.
proof fn lemma_swept_not_kept(s: Seq<RunEntry>, now: u128, ttl: u128, last_id: u64)
    requires
        forall|i: int, j: int| 0 <= i < j < s.len() ==> #[trigger] s[i].id < #[trigger] s[j].id,
        forall|i: int| 0 <= i < s.len() ==> 1 <= #[trigger] s[i].id <= last_id,
    ensures
        forall|k: int| 0 <= k < swept(s, now, ttl).len()
            ==> !ids(kept(s, now, ttl)).contains(#[trigger] swept(s, now, ttl)[k]),
    decreases s.len(),
{
    if s.len() > 0 {
        let t = s.drop_last();
        lemma_swept_not_kept(t, now, ttl, last_id);
        lemma_kept_sorted(t, now, ttl, last_id);
        lemma_swept_from(t, now, ttl);
        let k0 = kept(t, now, ttl);
        let w = swept(t, now, ttl);
        let last = s.last();
        assert forall|i: int| 0 <= i < k0.len() implies #[trigger] k0[i].id < last.id by {
            assert(t.contains(k0[i]));
            let m = choose|m: int| 0 <= m < t.len() && t[m] == k0[i];
            assert(s[m] == t[m]);
            assert(s[m].id < s[s.len() - 1].id);
        }
        assert forall|k: int| 0 <= k < w.len() implies #[trigger] w[k] < last.id by {
            let m = choose|m: int| 0 <= m < t.len() && t[m].id == w[k];
            assert(s[m] == t[m]);
            assert(s[m].id < s[s.len() - 1].id);
        }
        if idle(last.last_seen_ns, now, ttl) {
            let w2 = w.push(last.id);
            assert forall|k: int| 0 <= k < w2.len() implies !ids(k0).contains(#[trigger] w2[k]) by {
                if k < w.len() {
                    assert(w2[k] == w[k]);
                } else {
                    if ids(k0).contains(w2[k]) {
                        let j = choose|j: int| 0 <= j < ids(k0).len() && ids(k0)[j] == w2[k];
                        assert(k0[j].id < last.id);
                    }
                }
            }
        } else {
            let k2 = k0.push(last);
            assert forall|k: int| 0 <= k < w.len() implies !ids(k2).contains(#[trigger] w[k]) by {
                if ids(k2).contains(w[k]) {
                    let j = choose|j: int| 0 <= j < ids(k2).len() && ids(k2)[j] == w[k];
                    if j < k0.len() {
                        assert(ids(k2)[j] == ids(k0)[j]);
                        assert(ids(k0).contains(w[k]));
                    } else {
                        assert(k2[j] == last);
                    }
                }
            }
        }
    }
}


/// A run counts as in progress until its worker returns, whatever the
/// outcome: marking an unfinished run finished, failed or not, lowers the
/// count of runs in progress by exactly one; and whether a run failed
/// never changes that count.
pub proof fn returned_runs_are_not_in_progress(s: Seq<RunEntry>, i: int, failed: bool)
    requires
        0 <= i < s.len(),
    ensures
        !s[i].finished ==> unfinished(s.update(i, RunEntry { finished: true, failed, ..s[i] })) + 1 == unfinished(s),
        unfinished(s.update(i, RunEntry { failed, ..s[i] })) == unfinished(s),
        unfinished(s) <= s.len(),
    decreases s.len(),
{
    let t = s.drop_last();
    let a = s.update(i, RunEntry { finished: true, failed, ..s[i] });
    let b = s.update(i, RunEntry { failed, ..s[i] });
    if i == s.len() - 1 {
        assert(a.drop_last() =~= t);
        assert(b.drop_last() =~= t);
        if t.len() > 0 {
            returned_runs_are_not_in_progress(t, 0, failed);
        }
    } else {
        returned_runs_are_not_in_progress(t, i, failed);
        assert(a.drop_last() =~= t.update(i, RunEntry { finished: true, failed, ..s[i] }));
        assert(b.drop_last() =~= t.update(i, RunEntry { failed, ..s[i] }));
        assert(a.last() == s.last());
        assert(b.last() == s.last());
    }
}

} // verus!
