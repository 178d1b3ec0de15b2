//! The run history and the metrics samples of the registry. Times are
//! seconds since the Unix epoch; CPU shares are hundredths of a percent.

use crate::error::Error;
use crate::text::copy_text;
use crate::types::{AppStatus, RunState};
use vstd::prelude::*;
use vstd::string::*;

verus! {

/// One row of the run history.
#[derive(Debug, Clone, Copy, PartialEq, Eq, Structural)]
pub struct RunRecord {
    pub id: u32,
    pub app_id: u32,
    pub pid: Option<u32>,
    pub status: AppStatus,
    pub restarts: u32,
    pub start_time: i64,
    pub stop_time: Option<i64>,
    pub exit_code: Option<i32>,
}

/// The run history: one row per run, in ascending order of id.
pub struct RunsRepository {
    rows: Vec<RunRecord>,
    next: u32,
}

/// The row that a run beginning at `now` in the state `state` adds.
pub open spec fn new_run(id: u32, app_id: u32, state: RunState, now: i64) -> RunRecord {
    RunRecord {
        id,
        app_id,
        pid: state.pid,
        status: state.status,
        restarts: state.restarts,
        start_time: now,
        stop_time: None,
        exit_code: None,
    }
}

/// The rows with the run `run_id` changed by `f`.
pub open spec fn with_run(rows: Seq<RunRecord>, run_id: u32, f: spec_fn(RunRecord) -> RunRecord) -> Seq<
    RunRecord,
> {
    rows.map_values(
        |r: RunRecord|
            if r.id == run_id {
                f(r)
            } else {
                r
            },
    )
}

/// The run with another status.
pub open spec fn run_with_status(r: RunRecord, status: AppStatus) -> RunRecord {
    RunRecord { status, ..r }
}

/// The run, stopped at `now` with `exit_code`.
pub open spec fn run_stopped(r: RunRecord, exit_code: Option<i32>, now: i64) -> RunRecord {
    RunRecord { status: AppStatus::Stopped, stop_time: Some(now), exit_code, ..r }
}

/// The run with one restart more; the count stays at its greatest value.
pub open spec fn run_restarted(r: RunRecord) -> RunRecord {
    RunRecord {
        restarts: if r.restarts < u32::MAX {
            (r.restarts + 1) as u32
        } else {
            r.restarts
        },
        ..r
    }
}

/// The runs of `app_id` among `rows`, newest first.
pub open spec fn runs_of(rows: Seq<RunRecord>, app_id: u32) -> Seq<RunRecord>
    decreases rows.len(),
{
    if rows.len() == 0 {
        Seq::empty()
    } else if rows.last().app_id == app_id {
        seq![rows.last()] + runs_of(rows.drop_last(), app_id)
    } else {
        runs_of(rows.drop_last(), app_id)
    }
}

/// The rows that are not runs of `app_id`, in order.
pub open spec fn runs_without(rows: Seq<RunRecord>, app_id: u32) -> Seq<RunRecord>
    decreases rows.len(),
{
    if rows.len() == 0 {
        Seq::empty()
    } else {
        let rest = runs_without(rows.drop_last(), app_id);
        if rows.last().app_id == app_id {
            rest
        } else {
            rest.push(rows.last())
        }
    }
}

/// The first `n` elements of `s`, or all of `s` if it has fewer.
pub open spec fn first_n<T>(s: Seq<T>, n: nat) -> Seq<T> {
    if s.len() <= n {
        s
    } else {
        s.subrange(0, n as int)
    }
}

/// The greatest id of a run among `rows`, or 0 if there is none.
pub open spec fn greatest_run(rows: Seq<RunRecord>) -> u32
    decreases rows.len(),
{
    if rows.len() == 0 {
        0
    } else {
        let before = greatest_run(rows.drop_last());
        if rows.last().id > before {
            rows.last().id
        } else {
            before
        }
    }
}

/// The id of the run after those of `rows`: one more than the greatest,
/// as far as ids go.
pub open spec fn id_after(rows: Seq<RunRecord>) -> u32 {
    if greatest_run(rows) == u32::MAX {
        u32::MAX
    } else {
        (greatest_run(rows) + 1) as u32
    }
}

impl RunsRepository {
    /// The rows of the history.
    pub closed spec fn rows(&self) -> Seq<RunRecord> {
        self.rows@
    }

    /// The id that the next run gets.
    pub closed spec fn next(&self) -> u32 {
        self.next
    }

    /// The history that holds `rows`, as it was written down; the next run
    /// gets the id after the greatest among them.
    pub fn restore(rows: Vec<RunRecord>) -> (r: RunsRepository)
        ensures
            r.rows() == rows@,
            r.next() == id_after(rows@),
    {
        let mut greatest: u32 = 0;
        let mut i: usize = 0;
        assert(rows@.subrange(0, 0) =~= Seq::<RunRecord>::empty());
        while i < rows.len()
            invariant
                i <= rows.len(),
                greatest == greatest_run(rows@.subrange(0, i as int)),
            decreases rows.len() - i,
        {
            proof {
                let next = rows@.subrange(0, i + 1);
                assert(next.drop_last() =~= rows@.subrange(0, i as int));
                assert(next.last() == rows[i as int]);
            }
            if rows[i].id > greatest {
                greatest = rows[i].id;
            }
            i = i + 1;
        }
        assert(rows@.subrange(0, rows.len() as int) =~= rows@);
        let next: u32 = if greatest == u32::MAX {
            u32::MAX
        } else {
            greatest + 1
        };
        RunsRepository { rows, next }
    }

    /// Every row of the history, in order.
    pub fn all(&self) -> (r: Vec<RunRecord>)
        ensures
            r@ == self.rows(),
    {
        self.rows.clone()
    }

    /// The empty history.
    pub fn new() -> (r: RunsRepository)
        ensures
            r.rows() == Seq::<RunRecord>::empty(),
            r.next() == 1,
    {
        RunsRepository { rows: Vec::new(), next: 1 }
    }

    /// Adds the row of a run of `app_id` that begins at `now` in the state
    /// `state`, and returns its id. Refused with a `DbError` when no id is
    /// left.
    pub fn insert(&mut self, app_id: u32, state: &RunState, now: i64) -> (r: Result<u32, Error>)
        ensures
            old(self).next() < u32::MAX ==> r == Ok::<u32, Error>(old(self).next()) && final(self).rows() == old(self).rows().push(new_run(old(self).next(), app_id, *state, now))
                && final(self).next() == old(self).next() + 1,
            old(self).next() == u32::MAX ==> (r matches Err(Error::DbError(d)) && d@
                == "no run id is left"@) && final(self).rows() == old(self).rows() && final(self).next() == old(self).next(),
    {
        if self.next == 0xffff_ffff {
            return Err(Error::DbError(copy_text("no run id is left")));
        }
        let id = self.next;
        self.rows.push(
            RunRecord {
                id,
                app_id,
                pid: state.pid,
                status: state.status,
                restarts: state.restarts,
                start_time: now,
                stop_time: None,
                exit_code: None,
            },
        );
        self.next = self.next + 1;
        Ok(id)
    }

    /// Sets the status of the run `run_id`.
    pub fn update_status(&mut self, run_id: u32, status: AppStatus)
        ensures
            final(self).next() == old(self).next(),
            final(self).rows() == with_run(
                old(self).rows(),
                run_id,
                |r: RunRecord| run_with_status(r, status),
            ),
    {
        let mut i: usize = 0;
        while i < self.rows.len()
            invariant
                i <= self.rows.len(),
                self.next == old(self).next,
                self.rows.len() == old(self).rows.len(),
                forall|j: int|
                    0 <= j < i ==> self.rows@[j] == (if old(self).rows@[j].id == run_id {
                        run_with_status(old(self).rows@[j], status)
                    } else {
                        old(self).rows@[j]
                    }),
                forall|j: int| i <= j < self.rows.len() ==> self.rows@[j] == old(self).rows@[j],
            decreases self.rows.len() - i,
        {
            if self.rows[i].id == run_id {
                self.rows[i].status = status;
            }
            i = i + 1;
        }
        assert(self.rows@ =~= with_run(
            old(self).rows(),
            run_id,
            |r: RunRecord| run_with_status(r, status),
        ));
    }

    /// Takes note that the run `run_id` stopped at `now` with `exit_code`.
    pub fn update_stop(&mut self, run_id: u32, exit_code: Option<i32>, now: i64)
        ensures
            final(self).next() == old(self).next(),
            final(self).rows() == with_run(
                old(self).rows(),
                run_id,
                |r: RunRecord| run_stopped(r, exit_code, now),
            ),
    {
        let mut i: usize = 0;
        while i < self.rows.len()
            invariant
                i <= self.rows.len(),
                self.next == old(self).next,
                self.rows.len() == old(self).rows.len(),
                forall|j: int|
                    0 <= j < i ==> self.rows@[j] == (if old(self).rows@[j].id == run_id {
                        run_stopped(old(self).rows@[j], exit_code, now)
                    } else {
                        old(self).rows@[j]
                    }),
                forall|j: int| i <= j < self.rows.len() ==> self.rows@[j] == old(self).rows@[j],
            decreases self.rows.len() - i,
        {
            if self.rows[i].id == run_id {
                self.rows[i].status = AppStatus::Stopped;
                self.rows[i].stop_time = Some(now);
                self.rows[i].exit_code = exit_code;
            }
            i = i + 1;
        }
        assert(self.rows@ =~= with_run(
            old(self).rows(),
            run_id,
            |r: RunRecord| run_stopped(r, exit_code, now),
        ));
    }

    /// Counts one restart more for the run `run_id`.
    pub fn increment_restarts(&mut self, run_id: u32)
        ensures
            final(self).next() == old(self).next(),
            final(self).rows() == with_run(old(self).rows(), run_id, |r: RunRecord| run_restarted(r)),
    {
        let mut i: usize = 0;
        while i < self.rows.len()
            invariant
                i <= self.rows.len(),
                self.next == old(self).next,
                self.rows.len() == old(self).rows.len(),
                forall|j: int|
                    0 <= j < i ==> self.rows@[j] == (if old(self).rows@[j].id == run_id {
                        run_restarted(old(self).rows@[j])
                    } else {
                        old(self).rows@[j]
                    }),
                forall|j: int| i <= j < self.rows.len() ==> self.rows@[j] == old(self).rows@[j],
            decreases self.rows.len() - i,
        {
            if self.rows[i].id == run_id && self.rows[i].restarts < 0xffff_ffff {
                self.rows[i].restarts = self.rows[i].restarts + 1;
            }
            i = i + 1;
        }
        assert(self.rows@ =~= with_run(old(self).rows(), run_id, |r: RunRecord| run_restarted(r)));
    }

    /// The newest `limit` runs of `app_id`, newest first.
    pub fn get_by_app(&self, app_id: u32, limit: usize) -> (r: Vec<RunRecord>)
        ensures
            r@ == first_n(runs_of(self.rows(), app_id), limit as nat),
    {
        let mut out: Vec<RunRecord> = Vec::new();
        let mut i: usize = self.rows.len();
        assert(self.rows@.subrange(0, i as int) =~= self.rows@);
        while i > 0 && out.len() < limit
            invariant
                i <= self.rows.len(),
                out.len() <= limit,
                out@ + runs_of(self.rows@.subrange(0, i as int), app_id) == runs_of(
                    self.rows@,
                    app_id,
                ),
            decreases i,
        {
            let ghost cur = self.rows@.subrange(0, i as int);
            assert(cur.last() == self.rows@[i - 1]);
            assert(cur.drop_last() =~= self.rows@.subrange(0, i - 1));
            if self.rows[i - 1].app_id == app_id {
                out.push(self.rows[i - 1]);
                assert(out@ + runs_of(self.rows@.subrange(0, i - 1), app_id) =~= runs_of(
                    self.rows@,
                    app_id,
                ));
            }
            i = i - 1;
        }
        proof {
            let all = runs_of(self.rows@, app_id);
            if i == 0 {
                assert(self.rows@.subrange(0, 0) =~= Seq::<RunRecord>::empty());
                assert(out@ =~= all);
            } else {
                assert(out@ =~= all.subrange(0, limit as int));
            }
        }
        out
    }

    /// The newest run of `app_id`.
    pub fn get_latest(&self, app_id: u32) -> (r: Option<RunRecord>)
        ensures
            r == (if runs_of(self.rows(), app_id).len() == 0 {
                None
            } else {
                Some(runs_of(self.rows(), app_id)[0])
            }),
    {
        let v = self.get_by_app(app_id, 1);
        if v.len() == 0 {
            None
        } else {
            Some(v[0])
        }
    }

    /// Deletes the runs of `app_id`; how many there were.
    pub fn delete_by_app(&mut self, app_id: u32) -> (r: usize)
        ensures
            final(self).next() == old(self).next(),
            final(self).rows() == runs_without(old(self).rows(), app_id),
            r == old(self).rows().len() - final(self).rows().len(),
    {
        let mut kept: Vec<RunRecord> = Vec::new();
        let mut i: usize = 0;
        assert(self.rows@.subrange(0, 0) =~= Seq::<RunRecord>::empty());
        while i < self.rows.len()
            invariant
                i <= self.rows.len(),
                *self == *old(self),
                kept.len() <= i,
                kept@ == runs_without(self.rows@.subrange(0, i as int), app_id),
            decreases self.rows.len() - i,
        {
            proof {
                let next = self.rows@.subrange(0, i + 1);
                assert(next.drop_last() =~= self.rows@.subrange(0, i as int));
                assert(next.last() == self.rows@[i as int]);
            }
            if self.rows[i].app_id != app_id {
                kept.push(self.rows[i]);
            }
            i = i + 1;
        }
        assert(self.rows@.subrange(0, self.rows.len() as int) =~= self.rows@);
        let removed = self.rows.len() - kept.len();
        self.rows = kept;
        removed
    }
}

/// One sample of the metrics of an application.
#[derive(Debug, Clone, Copy, PartialEq, Eq, Structural)]
pub struct MetricsSnapshot {
    pub app_id: u32,
    pub cpu_centipercent: u32,
    pub memory_bytes: u64,
    pub timestamp: i64,
}

/// The metrics samples, in the order in which they were taken.
pub struct MetricsRepository {
    rows: Vec<MetricsSnapshot>,
}

/// The samples of `app_id` among `rows`, newest first.
pub open spec fn samples_of(rows: Seq<MetricsSnapshot>, app_id: u32) -> Seq<MetricsSnapshot>
    decreases rows.len(),
{
    if rows.len() == 0 {
        Seq::empty()
    } else if rows.last().app_id == app_id {
        seq![rows.last()] + samples_of(rows.drop_last(), app_id)
    } else {
        samples_of(rows.drop_last(), app_id)
    }
}

/// The number of samples of `app_id` among `rows`.
pub open spec fn count_of(rows: Seq<MetricsSnapshot>, app_id: u32) -> nat
    decreases rows.len(),
{
    if rows.len() == 0 {
        0
    } else {
        count_of(rows.drop_first(), app_id) + (if rows[0].app_id == app_id {
            1nat
        } else {
            0nat
        })
    }
}

/// The samples that a cleanup keeps: of every application its newest
/// `keep`, in order. A sample stays if fewer than `keep` samples of its
/// application come after it.
pub open spec fn cleaned(rows: Seq<MetricsSnapshot>, keep: nat) -> Seq<MetricsSnapshot>
    decreases rows.len(),
{
    if rows.len() == 0 {
        Seq::empty()
    } else {
        let rest = rows.drop_first();
        if count_of(rest, rows[0].app_id) < keep {
            seq![rows[0]] + cleaned(rest, keep)
        } else {
            cleaned(rest, keep)
        }
    }
}

/// The rows that are not samples of `app_id`, in order.
pub open spec fn samples_without(rows: Seq<MetricsSnapshot>, app_id: u32) -> Seq<MetricsSnapshot>
    decreases rows.len(),
{
    if rows.len() == 0 {
        Seq::empty()
    } else {
        let rest = samples_without(rows.drop_last(), app_id);
        if rows.last().app_id == app_id {
            rest
        } else {
            rest.push(rows.last())
        }
    }
}

/// A cleanup leaves at most `keep` samples of every application.
pub proof fn lemma_cleaned_keeps_at_most(rows: Seq<MetricsSnapshot>, keep: nat, app_id: u32)
    ensures
        count_of(cleaned(rows, keep), app_id) <= keep,
        count_of(cleaned(rows, keep), app_id) <= count_of(rows, app_id),
    decreases rows.len(),
{
    if rows.len() > 0 {
        let rest = rows.drop_first();
        lemma_cleaned_keeps_at_most(rest, keep, app_id);
        if count_of(rest, rows[0].app_id) < keep {
            let out = seq![rows[0]] + cleaned(rest, keep);
            assert(out.drop_first() =~= cleaned(rest, keep));
            assert(out[0] == rows[0]);
        }
    }
}

impl MetricsRepository {
    /// The samples.
    pub closed spec fn rows(&self) -> Seq<MetricsSnapshot> {
        self.rows@
    }

    /// The samples `rows`, as they were written down.
    pub fn restore(rows: Vec<MetricsSnapshot>) -> (r: MetricsRepository)
        ensures
            r.rows() == rows@,
    {
        MetricsRepository { rows }
    }

    /// Every sample, in the order in which they were taken.
    pub fn all(&self) -> (r: Vec<MetricsSnapshot>)
        ensures
            r@ == self.rows(),
    {
        self.rows.clone()
    }

    /// No samples.
    pub fn new() -> (r: MetricsRepository)
        ensures
            r.rows() == Seq::<MetricsSnapshot>::empty(),
    {
        MetricsRepository { rows: Vec::new() }
    }

    /// Adds a sample of `app_id` taken at `now`.
    pub fn insert(&mut self, app_id: u32, cpu_centipercent: u32, memory_bytes: u64, now: i64)
        ensures
            final(self).rows() == old(self).rows().push(
                MetricsSnapshot { app_id, cpu_centipercent, memory_bytes, timestamp: now },
            ),
    {
        self.rows.push(MetricsSnapshot { app_id, cpu_centipercent, memory_bytes, timestamp: now });
    }

    /// The newest `limit` samples of `app_id`, newest first.
    pub fn get_history(&self, app_id: u32, limit: usize) -> (r: Vec<MetricsSnapshot>)
        ensures
            r@ == first_n(samples_of(self.rows(), app_id), limit as nat),
    {
        let mut out: Vec<MetricsSnapshot> = Vec::new();
        let mut i: usize = self.rows.len();
        assert(self.rows@.subrange(0, i as int) =~= self.rows@);
        while i > 0 && out.len() < limit
            invariant
                i <= self.rows.len(),
                out.len() <= limit,
                out@ + samples_of(self.rows@.subrange(0, i as int), app_id) == samples_of(
                    self.rows@,
                    app_id,
                ),
            decreases i,
        {
            let ghost cur = self.rows@.subrange(0, i as int);
            assert(cur.last() == self.rows@[i - 1]);
            assert(cur.drop_last() =~= self.rows@.subrange(0, i - 1));
            if self.rows[i - 1].app_id == app_id {
                out.push(self.rows[i - 1]);
                assert(out@ + samples_of(self.rows@.subrange(0, i - 1), app_id) =~= samples_of(
                    self.rows@,
                    app_id,
                ));
            }
            i = i - 1;
        }
        proof {
            let all = samples_of(self.rows@, app_id);
            if i == 0 {
                assert(self.rows@.subrange(0, 0) =~= Seq::<MetricsSnapshot>::empty());
                assert(out@ =~= all);
            } else {
                assert(out@ =~= all.subrange(0, limit as int));
            }
        }
        out
    }

    /// The newest sample of `app_id`.
    pub fn get_latest(&self, app_id: u32) -> (r: Option<MetricsSnapshot>)
        ensures
            r == (if samples_of(self.rows(), app_id).len() == 0 {
                None
            } else {
                Some(samples_of(self.rows(), app_id)[0])
            }),
    {
        let v = self.get_history(app_id, 1);
        if v.len() == 0 {
            None
        } else {
            Some(v[0])
        }
    }

    /// The number of samples of `app_id` from index `from` on.
    fn count_from(&self, from: usize, app_id: u32) -> (r: usize)
        requires
            from <= self.rows.len(),
        ensures
            r == count_of(self.rows@.subrange(from as int, self.rows.len() as int), app_id),
            r <= self.rows.len() - from,
    {
        let n = self.rows.len();
        let mut count: usize = 0;
        let mut i: usize = n;
        assert(self.rows@.subrange(n as int, n as int) =~= Seq::<MetricsSnapshot>::empty());
        while i > from
            invariant
                from <= i <= n,
                n == self.rows.len(),
                count == count_of(self.rows@.subrange(i as int, n as int), app_id),
                count <= n - i,
            decreases i,
        {
            proof {
                let next = self.rows@.subrange(i - 1, n as int);
                assert(next.drop_first() =~= self.rows@.subrange(i as int, n as int));
                assert(next[0] == self.rows@[i - 1]);
            }
            if self.rows[i - 1].app_id == app_id {
                count = count + 1;
            }
            i = i - 1;
        }
        count
    }

    /// Keeps of every application its newest `keep_per_app` samples; how
    /// many samples were removed.
    pub fn cleanup(&mut self, keep_per_app: usize) -> (r: usize)
        ensures
            final(self).rows() == cleaned(old(self).rows(), keep_per_app as nat),
            r == old(self).rows().len() - final(self).rows().len(),
    {
        let n = self.rows.len();
        let mut kept: Vec<MetricsSnapshot> = Vec::new();
        let mut i: usize = 0;
        assert(self.rows@.subrange(0, n as int) =~= self.rows@);
        while i < n
            invariant
                i <= n,
                n == self.rows.len(),
                *self == *old(self),
                kept.len() <= i,
                kept@ + cleaned(self.rows@.subrange(i as int, n as int), keep_per_app as nat)
                    == cleaned(self.rows@, keep_per_app as nat),
            decreases n - i,
        {
            let ghost rest = self.rows@.subrange(i as int, n as int);
            proof {
                assert(rest[0] == self.rows@[i as int]);
                assert(rest.drop_first() =~= self.rows@.subrange(i + 1, n as int));
            }
            let later = self.count_from(i + 1, self.rows[i].app_id);
            if later < keep_per_app {
                kept.push(self.rows[i]);
                assert(kept@ + cleaned(self.rows@.subrange(i + 1, n as int), keep_per_app as nat)
                    =~= cleaned(self.rows@, keep_per_app as nat));
            }
            i = i + 1;
        }
        proof {
            assert(self.rows@.subrange(n as int, n as int) =~= Seq::<MetricsSnapshot>::empty());
            assert(kept@ =~= cleaned(self.rows@, keep_per_app as nat));
        }
        let removed = n - kept.len();
        self.rows = kept;
        removed
    }

    /// Deletes the samples of `app_id`; how many there were.
    pub fn delete_by_app(&mut self, app_id: u32) -> (r: usize)
        ensures
            final(self).rows() == samples_without(old(self).rows(), app_id),
            r == old(self).rows().len() - final(self).rows().len(),
    {
        let mut kept: Vec<MetricsSnapshot> = Vec::new();
        let mut i: usize = 0;
        assert(self.rows@.subrange(0, 0) =~= Seq::<MetricsSnapshot>::empty());
        while i < self.rows.len()
            invariant
                i <= self.rows.len(),
                *self == *old(self),
                kept.len() <= i,
                kept@ == samples_without(self.rows@.subrange(0, i as int), app_id),
            decreases self.rows.len() - i,
        {
            proof {
                let next = self.rows@.subrange(0, i + 1);
                assert(next.drop_last() =~= self.rows@.subrange(0, i as int));
                assert(next.last() == self.rows@[i as int]);
            }
            if self.rows[i].app_id != app_id {
                kept.push(self.rows[i]);
            }
            i = i + 1;
        }
        assert(self.rows@.subrange(0, self.rows.len() as int) =~= self.rows@);
        let removed = self.rows.len() - kept.len();
        self.rows = kept;
        removed
    }
}

} // verus!
