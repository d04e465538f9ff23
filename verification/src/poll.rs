//! The queue of poll jobs of a client: resources fetched again at a regular interval.
//!
//! Poll times are monotonic timestamps in nanoseconds, as the caller's clock provides them;
//! intervals are whole seconds.
use vstd::prelude::*;

verus! {

/// Nanoseconds in a second.
pub const NANOS_PER_SECOND: u128 = 1_000_000_000;

/// The poll rate used where a resource names none, in seconds (IEEE 2030.5: 15 minutes).
pub const DEFAULT_POLLRATE: u32 = 900;

/// The latest timestamp from which any poll interval can still be counted.
pub const LATEST_POLL_TIME: u128 = 0xffff_ffff_ffff_ffff_ffff_ffff;

/// Identifies a poll job created by [`PollQueue::start_poll`].
#[derive(Clone, Copy, Debug, PartialEq, Eq, Hash, Structural)]
pub struct PollId(u64);

impl View for PollId {
    type V = u64;

    closed spec fn view(&self) -> u64 {
        self.0
    }
}

impl PollId {
    /// The number that identifies the job.
    pub fn get(&self) -> (n: u64)
        ensures
            n == self@,
    {
        self.0
    }
}

/// The abstract state of a poll job.
pub struct PollJobView {
    pub id: u64,
    pub interval: u64,
    pub next: u128,
}

/// A poll job: its id, the interval between polls in seconds, and when it is next due.
pub struct PollJob {
    id: PollId,
    interval: u64,
    next: u128,
}

impl View for PollJob {
    type V = PollJobView;

    closed spec fn view(&self) -> PollJobView {
        PollJobView { id: self.id.0, interval: self.interval, next: self.next }
    }
}

/// The time a poll is due `interval` seconds after `now`.
pub open spec fn due_after(now: u128, interval: u64) -> int {
    now + interval * NANOS_PER_SECOND
}

/// A job after its interval changes at `now`: it keeps its next poll time, or moves it to
/// `interval` seconds from now, whichever is earlier.
pub open spec fn spec_update_interval(job: PollJobView, interval: u64, now: u128) -> PollJobView {
    PollJobView {
        interval,
        next: if job.next > due_after(now, interval) {
            due_after(now, interval) as u128
        } else {
            job.next
        },
        ..job
    }
}

/// A job after it is polled at `now`: it is next due one interval later.
pub open spec fn spec_polled(job: PollJobView, now: u128) -> PollJobView {
    PollJobView { next: due_after(now, job.interval) as u128, ..job }
}

/// A job after the due jobs are polled at `now`: polled if it was due, unchanged otherwise.
pub open spec fn spec_checked(job: PollJobView, now: u128) -> PollJobView {
    if job.next < now {
        spec_polled(job, now)
    } else {
        job
    }
}

proof fn lemma_due_after_fits(now: u128, interval: u64)
    requires
        now <= LATEST_POLL_TIME,
    ensures
        due_after(now, interval) <= u128::MAX,
{
    assert(interval * NANOS_PER_SECOND <= 0xffff_ffff_ffff_ffff * 1_000_000_000) by (nonlinear_arith)
        requires
            interval <= 0xffff_ffff_ffff_ffff,
    ;
}

impl PollJob {
    /// The job's id.
    pub fn id(&self) -> (id: PollId)
        ensures
            id@ == self@.id,
    {
        self.id
    }

    /// The interval between polls, in seconds.
    pub fn interval(&self) -> (i: u64)
        ensures
            i == self@.interval,
    {
        self.interval
    }

    /// When the job is next due.
    pub fn next(&self) -> (n: u128)
        ensures
            n == self@.next,
    {
        self.next
    }

    /// Record that the job was polled at `now`: it is next due one interval later.
    pub fn polled(&mut self, now: u128)
        requires
            now <= LATEST_POLL_TIME,
        ensures
            final(self)@ == spec_polled(old(self)@, now),
    {
        proof {
            lemma_due_after_fits(now, self.interval);
        }
        self.next = now + self.interval as u128 * NANOS_PER_SECOND;
    }

    /// Update the interval, and bring the next poll forward to `new_interval` seconds from
    /// `now` if that is earlier than the time it was due.
    pub fn update_interval(&mut self, new_interval: u64, now: u128)
        requires
            now <= LATEST_POLL_TIME,
        ensures
            final(self)@ == spec_update_interval(old(self)@, new_interval, now),
            final(self)@.interval == new_interval,
            final(self)@.id == old(self)@.id,
            final(self)@.next == (if old(self)@.next <= now + new_interval * 1_000_000_000 {
                old(self)@.next as int
            } else {
                now + new_interval * 1_000_000_000
            }),
    {
        proof {
            lemma_due_after_fits(now, new_interval);
        }
        self.interval = new_interval;
        let new_interval_next = now + new_interval as u128 * NANOS_PER_SECOND;
        if self.next > new_interval_next {
            self.next = new_interval_next;
        }
    }
}

/// The abstract state of a poll queue: its jobs, and the id the next job will get.
pub struct PollQueueView {
    pub jobs: Seq<PollJobView>,
    pub counter: u64,
}

impl PollQueueView {
    /// Well-formedness: every job's id was handed out already, and no two jobs share one.
    pub open spec fn wf(self) -> bool {
        &&& forall|i: int| 0 <= i < self.jobs.len() ==> #[trigger] self.jobs[i].id < self.counter
        &&& ids_unique(self.jobs)
    }

    /// Some job has the given id.
    pub open spec fn has_job(self, id: u64) -> bool {
        exists|i: int| 0 <= i < self.jobs.len() && self.jobs[i].id == id
    }
}

/// The jobs that are not the given one.
pub open spec fn not_job(id: u64) -> spec_fn(PollJobView) -> bool {
    |j: PollJobView| j.id != id
}

/// The jobs due at `now`.
pub open spec fn due_at(now: u128) -> spec_fn(PollJobView) -> bool {
    |j: PollJobView| j.next < now
}

/// The ids of a sequence of jobs.
pub open spec fn job_ids(jobs: Seq<PollJobView>) -> Seq<u64> {
    jobs.map_values(|j: PollJobView| j.id)
}

/// The due jobs' poll times and ids, in queue order.
pub open spec fn due_entries(jobs: Seq<PollJobView>, now: u128) -> Seq<(u128, u64)> {
    jobs.filter(due_at(now)).map_values(|j: PollJobView| (j.next, j.id))
}

/// The abstract value of a list of due jobs: each one's due time and id number.
pub open spec fn due_view(v: Seq<(u128, PollId)>) -> Seq<(u128, u64)> {
    v.map_values(|p: (u128, PollId)| (p.0, p.1@))
}

/// The entries come earliest due first.
pub open spec fn sorted_by_due(s: Seq<(u128, u64)>) -> bool {
    forall|a: int, b: int| 0 <= a < b < s.len() ==> s[a].0 <= s[b].0
}

/// Insert a due job into a list kept earliest due first, after every job due no later.
fn insert_by_due(v: &mut Vec<(u128, PollId)>, x: (u128, PollId))
    requires
        sorted_by_due(due_view(old(v)@)),
    ensures
        sorted_by_due(due_view(final(v)@)),
        due_view(final(v)@).to_multiset() == due_view(old(v)@).to_multiset().insert((x.0, x.1@)),
{
    broadcast use vstd::seq_lib::group_to_multiset_ensures;
    let mut p: usize = 0;
    while p < v.len() && v[p].0 <= x.0
        invariant
            p <= v@.len(),
            v@ == old(v)@,
            forall|j: int| 0 <= j < p ==> #[trigger] v@[j].0 <= x.0,
        decreases v@.len() - p,
    {
        p = p + 1;
    }
    let ghost w = due_view(v@);
    let ghost xv = (x.0, x.1@);
    proof {
        assert forall|j: int| 0 <= j < p implies #[trigger] w[j].0 <= x.0 by {
            assert(w[j].0 == v@[j].0);
        }
        if p < v@.len() {
            assert(w[p as int].0 == v@[p as int].0);
            assert forall|j: int| p <= j < w.len() implies #[trigger] w[j].0 > x.0 by {
                assert(w[p as int].0 <= w[j].0);
            }
        }
    }
    v.insert(p, x);
    let ghost u = due_view(v@);
    assert(u =~= w.insert(p as int, xv));
    assert forall|a: int, b: int| 0 <= a < b < u.len() implies u[a].0 <= u[b].0 by {
        if b < p {
            assert(u[a] == w[a] && u[b] == w[b]);
        } else if b == p {
            assert(u[a] == w[a]);
        } else if a == p {
            assert(u[b] == w[b - 1]);
        } else if a < p {
            assert(u[a] == w[a] && u[b] == w[b - 1]);
        } else {
            assert(u[a] == w[a - 1] && u[b] == w[b - 1]);
        }
    }
}

/// The abstract jobs of a sequence of concrete ones.
pub closed spec fn jobs_view(v: Seq<PollJob>) -> Seq<PollJobView> {
    v.map_values(|x: PollJob| x@)
}

/// The numbers of a sequence of poll ids.
pub open spec fn poll_ids(v: Seq<PollId>) -> Seq<u64> {
    v.map_values(|p: PollId| p@)
}

/// No two jobs share an id.
pub open spec fn ids_unique(jobs: Seq<PollJobView>) -> bool {
    forall|i: int, j: int| 0 <= i < j < jobs.len() ==> jobs[i].id != jobs[j].id
}

/// The queue of a client's poll jobs.
pub struct PollQueue {
    jobs: Vec<PollJob>,
    counter: u64,
}

impl View for PollQueue {
    type V = PollQueueView;

    closed spec fn view(&self) -> PollQueueView {
        PollQueueView { jobs: jobs_view(self.jobs@), counter: self.counter }
    }
}

impl PollQueue {
    /// An empty queue; the first job gets id 1.
    pub fn new() -> (q: Self)
        ensures
            q@.jobs.len() == 0,
            q@.counter == 1,
            q@.wf(),
    {
        PollQueue { jobs: Vec::new(), counter: 1 }
    }

    /// Whether another job can be started: the ids have not run out.
    pub fn has_free_id(&self) -> (b: bool)
        ensures
            b == (self@.counter < u64::MAX),
    {
        self.counter < u64::MAX
    }

    /// The number of jobs.
    pub fn len(&self) -> (n: usize)
        ensures
            n == self@.jobs.len(),
    {
        self.jobs.len()
    }

    /// Hand out the next poll id.
    fn next_poll_id(&mut self) -> (id: PollId)
        requires
            old(self)@.counter < u64::MAX,
        ensures
            id@ == old(self)@.counter,
            final(self)@.counter == old(self)@.counter + 1,
            final(self)@.jobs == old(self)@.jobs,
    {
        let id = PollId(self.counter);
        self.counter = self.counter + 1;
        id
    }

    /// Start a poll job at `now`, polled every `poll_rate` seconds (900 if none is given); its
    /// first poll is due one interval from now. Returns the job's id.
    pub fn start_poll(&mut self, poll_rate: Option<u32>, now: u128) -> (id: PollId)
        requires
            old(self)@.wf(),
            old(self)@.counter < u64::MAX,
            now <= LATEST_POLL_TIME,
        ensures
            id@ == old(self)@.counter,
            final(self)@.counter == old(self)@.counter + 1,
            final(self)@.jobs == old(self)@.jobs.push(PollJobView {
                id: id@,
                interval: (match poll_rate {
                    Some(r) => r,
                    None => DEFAULT_POLLRATE,
                }) as u64,
                next: due_after(now, (match poll_rate {
                    Some(r) => r,
                    None => DEFAULT_POLLRATE,
                }) as u64) as u128,
            }),
            final(self)@.wf(),
    {
        let rate: u32 = match poll_rate {
            Some(r) => r,
            None => DEFAULT_POLLRATE,
        };
        let interval = rate as u64;
        proof {
            lemma_due_after_fits(now, interval);
        }
        let id = self.next_poll_id();
        let job = PollJob { id, interval, next: now + interval as u128 * NANOS_PER_SECOND };
        let ghost before = self@.jobs;
        self.jobs.push(job);
        assert(self@.jobs =~= before.push(job@));
        id
    }

    /// Cancel the poll job with the given id; nothing changes if there is none.
    pub fn cancel_poll(&mut self, id: PollId)
        requires
            old(self)@.wf(),
        ensures
            final(self)@.jobs == old(self)@.jobs.filter(not_job(id@)),
            final(self)@.counter == old(self)@.counter,
            final(self)@.wf(),
            !final(self)@.has_job(id@),
            !old(self)@.has_job(id@) ==> final(self)@ == old(self)@,
    {
        let ghost orig = self@.jobs;
        let mut rest: Vec<PollJob> = Vec::new();
        std::mem::swap(&mut rest, &mut self.jobs);
        let ghost n = orig.len();
        let ghost mut k: int = 0;
        while rest.len() > 0
            invariant
                n == orig.len(),
                0 <= k <= n,
                jobs_view(rest@) == orig.skip(k),
                self@.jobs == orig.take(k).filter(not_job(id@)),
                self@.counter == old(self)@.counter,
            decreases rest@.len(),
        {
            let ghost before = rest@;
            let job = rest.remove(0);
            proof {
                assert(jobs_view(before).len() == before.len());
                assert(orig.skip(k)[0] == orig[k]);
                assert(jobs_view(before)[0] == job@);
                assert(rest@ == before.remove(0));
                assert forall|j: int| 0 <= j < rest@.len() implies jobs_view(rest@)[j] == orig.skip(k + 1)[j] by {
                    assert(rest@[j] == before[j + 1]);
                    assert(jobs_view(before)[j + 1] == orig.skip(k)[j + 1]);
                }
                assert(jobs_view(rest@) =~= orig.skip(k + 1));
                assert(orig.take(k + 1).drop_last() =~= orig.take(k));
                assert(orig.take(k + 1).last() == orig[k]);
                reveal(Seq::filter);
            }
            let ghost kept_before = self@.jobs;
            if job.id.0 != id.0 {
                self.jobs.push(job);
                assert(self@.jobs =~= kept_before.push(orig[k]));
            }
            proof {
                k = k + 1;
            }
        }
        proof {
            assert(orig.take(k) =~= orig);
            let f = orig.filter(not_job(id@));
            assert forall|a: int| 0 <= a < f.len() implies orig.contains(#[trigger] f[a]) by {
                orig.lemma_filter_contains_rev(not_job(id.0), f[a]);
            }
            lemma_filter_jobs_unique(orig, not_job(id.0));
            assert forall|a: int| 0 <= a < f.len() implies #[trigger] f[a].id != id@ by {
                orig.lemma_filter_pred(not_job(id@), a);
            }
            if !old(self)@.has_job(id@) {
                lemma_filter_keeps_all(orig, not_job(id@));
                assert(self@ =~= old(self)@);
            }
        }
    }

    /// Cancel every poll job.
    pub fn cancel_polls(&mut self)
        ensures
            final(self)@.jobs.len() == 0,
            final(self)@.counter == old(self)@.counter,
            final(self)@.wf(),
    {
        self.jobs.clear();
    }

    /// Change the interval of the poll job with the given id at `now`: its next poll stays when
    /// it was due, or moves to `poll_rate` seconds from now, whichever is earlier. Nothing
    /// changes if there is no such job.
    pub fn update_poll_rate(&mut self, id: PollId, poll_rate: u32, now: u128)
        requires
            old(self)@.wf(),
            now <= LATEST_POLL_TIME,
        ensures
            final(self)@.jobs.len() == old(self)@.jobs.len(),
            forall|i: int| 0 <= i < old(self)@.jobs.len() ==> #[trigger] final(self)@.jobs[i] == (if old(self)@.jobs[i].id == id@ {
                spec_update_interval(old(self)@.jobs[i], poll_rate as u64, now)
            } else {
                old(self)@.jobs[i]
            }),
            final(self)@.counter == old(self)@.counter,
            final(self)@.wf(),
            !old(self)@.has_job(id@) ==> final(self)@ == old(self)@,
            job_ids(final(self)@.jobs) == job_ids(old(self)@.jobs),
    {
        let n = self.jobs.len();
        let mut i: usize = 0;
        while i < n
            invariant
                n == old(self)@.jobs.len(),
                self@.jobs.len() == n,
                self.jobs@.len() == n,
                i <= n,
                old(self)@.wf(),
                now <= LATEST_POLL_TIME,
                forall|j: int| 0 <= j < i ==> #[trigger] self@.jobs[j] == (if old(self)@.jobs[j].id == id@ {
                    spec_update_interval(old(self)@.jobs[j], poll_rate as u64, now)
                } else {
                    old(self)@.jobs[j]
                }),
                forall|j: int| i <= j < n ==> #[trigger] self@.jobs[j] == old(self)@.jobs[j],
                self@.counter == old(self)@.counter,
            decreases n - i,
        {
            let ghost before = self.jobs@;
            let ghost vbefore = self@.jobs;
            assert(vbefore[i as int] == before[i as int]@);
            if self.jobs[i].id.0 == id.0 {
                let job = &mut self.jobs[i];
                job.update_interval(poll_rate as u64, now);
            }
            assert(self.jobs@ =~= before.update(i as int, self.jobs@[i as int]));
            assert(self@.jobs =~= vbefore.update(i as int, self.jobs@[i as int]@));
            i = i + 1;
        }
        proof {
            assert forall|a: int| 0 <= a < n implies #[trigger] self@.jobs[a].id == old(self)@.jobs[a].id by {}
            assert(job_ids(self@.jobs) =~= job_ids(old(self)@.jobs));
            if !old(self)@.has_job(id@) {
                assert(self@.jobs =~= old(self)@.jobs);
                assert(self@ =~= old(self)@);
            }
        }
    }

    /// Record a poll of every job at `now`, each next due one interval later. Returns the ids
    /// of the jobs to poll, in queue order.
    pub fn force_polls(&mut self, now: u128) -> (ids: Vec<PollId>)
        requires
            old(self)@.wf(),
            now <= LATEST_POLL_TIME,
        ensures
            final(self)@.jobs == old(self)@.jobs.map_values(|j: PollJobView| spec_polled(j, now)),
            poll_ids(ids@) == job_ids(old(self)@.jobs),
            final(self)@.counter == old(self)@.counter,
            final(self)@.wf(),
    {
        let ghost orig = self@.jobs;
        let mut ids: Vec<PollId> = Vec::new();
        let n = self.jobs.len();
        let mut i: usize = 0;
        while i < n
            invariant
                n == orig.len(),
                self@.jobs.len() == n,
                self.jobs@.len() == n,
                i <= n,
                now <= LATEST_POLL_TIME,
                forall|j: int| 0 <= j < i ==> #[trigger] self@.jobs[j] == spec_polled(orig[j], now),
                forall|j: int| i <= j < n ==> #[trigger] self@.jobs[j] == orig[j],
                poll_ids(ids@) == job_ids(orig.take(i as int)),
                self@.counter == old(self)@.counter,
            decreases n - i,
        {
            let ghost before = self.jobs@;
            let ghost vbefore = self@.jobs;
            let ghost ids_before = ids@;
            assert(vbefore[i as int] == before[i as int]@);
            ids.push(self.jobs[i].id);
            assert(ids@[ids@.len() - 1]@ == orig[i as int].id);
            let job = &mut self.jobs[i];
            job.polled(now);
            assert(self.jobs@ =~= before.update(i as int, self.jobs@[i as int]));
            assert(self@.jobs =~= vbefore.update(i as int, self.jobs@[i as int]@));
            assert(job_ids(orig.take(i + 1)) =~= job_ids(orig.take(i as int)).push(orig[i as int].id));
            assert(poll_ids(ids@) =~= poll_ids(ids_before).push(orig[i as int].id));
            i = i + 1;
        }
        assert(orig.take(n as int) =~= orig);
        assert(self@.jobs =~= orig.map_values(|j: PollJobView| spec_polled(j, now)));
        ids
    }

    /// Record a poll of every job due at `now` (its next poll time has passed), each next due
    /// one interval later. Returns the jobs to poll, each with the time it was due, earliest
    /// due first.
    pub fn take_due(&mut self, now: u128) -> (due: Vec<(u128, PollId)>)
        requires
            old(self)@.wf(),
            now <= LATEST_POLL_TIME,
        ensures
            final(self)@.jobs == old(self)@.jobs.map_values(|j: PollJobView| spec_checked(j, now)),
            due_view(due@).to_multiset() == due_entries(old(self)@.jobs, now).to_multiset(),
            sorted_by_due(due_view(due@)),
            final(self)@.counter == old(self)@.counter,
            final(self)@.wf(),
            forall|i: int| 0 <= i < final(self)@.jobs.len() ==> !(#[trigger] final(self)@.jobs[i].next < now),
    {
        broadcast use vstd::seq_lib::group_to_multiset_ensures;
        let ghost orig = self@.jobs;
        let mut due: Vec<(u128, PollId)> = Vec::new();
        let n = self.jobs.len();
        let mut i: usize = 0;
        proof {
            reveal(Seq::filter);
            assert(orig.take(0).filter(due_at(now)) =~= Seq::<PollJobView>::empty());
            assert(due_entries(orig.take(0), now) =~= Seq::<(u128, u64)>::empty());
            assert(due_view(due@) =~= Seq::<(u128, u64)>::empty());
        }
        while i < n
            invariant
                n == orig.len(),
                self@.jobs.len() == n,
                self.jobs@.len() == n,
                i <= n,
                now <= LATEST_POLL_TIME,
                forall|j: int| 0 <= j < i ==> #[trigger] self@.jobs[j] == spec_checked(orig[j], now),
                forall|j: int| i <= j < n ==> #[trigger] self@.jobs[j] == orig[j],
                due_view(due@).to_multiset() == due_entries(orig.take(i as int), now).to_multiset(),
                sorted_by_due(due_view(due@)),
                self@.counter == old(self)@.counter,
            decreases n - i,
        {
            let ghost before = self.jobs@;
            let ghost vbefore = self@.jobs;
            assert(vbefore[i as int] == before[i as int]@);
            proof {
                assert(orig.take(i + 1).drop_last() =~= orig.take(i as int));
                assert(orig.take(i + 1).last() == orig[i as int]);
                reveal(Seq::filter);
            }
            if self.jobs[i].next < now {
                let entry = (self.jobs[i].next, self.jobs[i].id);
                let ghost prev = due_entries(orig.take(i as int), now);
                proof {
                    assert(orig.take(i + 1).filter(due_at(now)) =~= orig.take(i as int).filter(due_at(now)).push(orig[i as int]));
                    assert(due_entries(orig.take(i + 1), now) =~= prev.push((orig[i as int].next, orig[i as int].id)));
                }
                let ghost d_before = due_view(due@);
                insert_by_due(&mut due, entry);
                proof {
                    let e = (orig[i as int].next, orig[i as int].id);
                    assert(vbefore[i as int] == orig[i as int]);
                    assert((entry.0, entry.1@) == e);
                    vstd::seq_lib::to_multiset_build(prev, e);
                    assert(due_view(due@).to_multiset() == d_before.to_multiset().insert(e));
                }
                let job = &mut self.jobs[i];
                job.polled(now);
            } else {
                proof {
                    assert(orig.take(i + 1).filter(due_at(now)) =~= orig.take(i as int).filter(due_at(now)));
                }
            }
            assert(self.jobs@ =~= before.update(i as int, self.jobs@[i as int]));
            assert(self@.jobs =~= vbefore.update(i as int, self.jobs@[i as int]@));
            i = i + 1;
        }
        assert(orig.take(n as int) =~= orig);
        assert(self@.jobs =~= orig.map_values(|j: PollJobView| spec_checked(j, now)));
        due
    }

    /// The job that is due first, if there is any job.
    pub fn peek(&self) -> (r: Option<PollId>)
        ensures
            match r {
                None => self@.jobs.len() == 0,
                Some(id) => exists|i: int|
                    0 <= i < self@.jobs.len() && self@.jobs[i].id == id@ && forall|j: int|
                        0 <= j < self@.jobs.len() ==> self@.jobs[i].next <= #[trigger] self@.jobs[j].next,
            },
    {
        if self.jobs.len() == 0 {
            return None;
        }
        let mut best: usize = 0;
        let mut i: usize = 1;
        while i < self.jobs.len()
            invariant
                self.jobs@.len() == self@.jobs.len(),
                1 <= i <= self@.jobs.len(),
                best < i,
                forall|j: int| 0 <= j < i ==> self@.jobs[best as int].next <= #[trigger] self@.jobs[j].next,
            decreases self@.jobs.len() - i,
        {
            if self.jobs[i].next < self.jobs[best].next {
                best = i;
            }
            i = i + 1;
        }
        assert(self@.jobs[best as int].id == self.jobs@[best as int].id.0);
        Some(self.jobs[best].id)
    }

    /// The interval and next poll time of the job with the given id, if there is one.
    pub fn job(&self, id: PollId) -> (r: Option<(u64, u128)>)
        requires
            self@.wf(),
        ensures
            match r {
                None => !self@.has_job(id@),
                Some((interval, next)) => exists|i: int|
                    0 <= i < self@.jobs.len() && self@.jobs[i].id == id@ && self@.jobs[i].interval == interval
                        && self@.jobs[i].next == next,
            },
    {
        let mut i: usize = 0;
        while i < self.jobs.len()
            invariant
                self.jobs@.len() == self@.jobs.len(),
                i <= self@.jobs.len(),
                forall|j: int| 0 <= j < i ==> self@.jobs[j].id != id@,
            decreases self@.jobs.len() - i,
        {
            if self.jobs[i].id.0 == id.0 {
                assert(self@.jobs[i as int].id == id@ && self@.jobs[i as int].interval == self.jobs@[i as int].interval
                    && self@.jobs[i as int].next == self.jobs@[i as int].next);
                return Some((self.jobs[i].interval, self.jobs[i].next));
            }
            i = i + 1;
        }
        None
    }
}

/// Filtering jobs keeps their ids unique.
proof fn lemma_filter_jobs_unique(jobs: Seq<PollJobView>, pred: spec_fn(PollJobView) -> bool)
    requires
        ids_unique(jobs),
    ensures
        ids_unique(jobs.filter(pred)),
    decreases jobs.len(),
{
    reveal(Seq::filter);
    if jobs.len() > 0 {
        let rest = jobs.drop_last();
        assert(ids_unique(rest));
        lemma_filter_jobs_unique(rest, pred);
        if pred(jobs.last()) {
            let f = rest.filter(pred);
            let g = f.push(jobs.last());
            assert forall|a: int, b: int| 0 <= a < b < g.len() implies g[a].id != g[b].id by {
                if b == g.len() - 1 {
                    rest.lemma_filter_contains_rev(pred, f[a]);
                    let j = choose|j: int| 0 <= j < rest.len() && rest[j] == f[a];
                    assert(jobs[j] == rest[j]);
                    assert(jobs[jobs.len() - 1] == jobs.last());
                } else {
                    assert(g[a] == f[a] && g[b] == f[b]);
                }
            }
        }
    }
}

/// Filtering keeps a sequence of jobs whole when every job passes.
proof fn lemma_filter_keeps_all(jobs: Seq<PollJobView>, pred: spec_fn(PollJobView) -> bool)
    requires
        forall|i: int| 0 <= i < jobs.len() ==> pred(#[trigger] jobs[i]),
    ensures
        jobs.filter(pred) == jobs,
    decreases jobs.len(),
{
    reveal(Seq::filter);
    if jobs.len() > 0 {
        let rest = jobs.drop_last();
        assert forall|i: int| 0 <= i < rest.len() implies pred(#[trigger] rest[i]) by {
            assert(rest[i] == jobs[i]);
        }
        lemma_filter_keeps_all(rest, pred);
        assert(pred(jobs[jobs.len() - 1]));
        assert(jobs =~= rest.push(jobs.last()));
    }
}

/// Poll ids are never reused: the id of every job started is distinct from every job held.
pub proof fn lemma_poll_ids_unique(q: PollQueueView, i: int, j: int)
    requires
        q.wf(),
        0 <= i < j < q.jobs.len(),
    ensures
        q.jobs[i].id != q.jobs[j].id,
{
}

/// After a rate change at `now`, a job polls next at the earlier of the time it was due and
/// `interval` seconds from now, with the new interval and its own id.
pub proof fn lemma_rate_change_polls_at_earlier(job: PollJobView, interval: u64, now: u128)
    ensures
        spec_update_interval(job, interval, now).interval == interval,
        spec_update_interval(job, interval, now).id == job.id,
        spec_update_interval(job, interval, now).next <= job.next,
        spec_update_interval(job, interval, now).next <= now + interval * 1_000_000_000,
        spec_update_interval(job, interval, now).next == job.next
            || spec_update_interval(job, interval, now).next == now + interval * 1_000_000_000,
{
    assert(interval * 1_000_000_000 <= 0xffff_ffff_ffff_ffff * 1_000_000_000) by (nonlinear_arith)
        requires
            interval <= 0xffff_ffff_ffff_ffff,
    ;
    assert(0 <= interval * 1_000_000_000) by (nonlinear_arith);
}

/// Changing a job's interval never delays its next poll.
pub proof fn lemma_update_interval_never_delays(job: PollJobView, interval: u64, now: u128)
    ensures
        spec_update_interval(job, interval, now).next <= job.next,
        spec_update_interval(job, interval, now).next <= due_after(now, interval),
{
}

} // verus!
