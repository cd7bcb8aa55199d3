use vstd::prelude::*;

pub mod dispatcher;

use std::collections::{HashMap, VecDeque};

use crate::ids::new_ulid;
use crate::strategy::IoStrategy;
use crate::TranscodeError;

verus! {

broadcast use vstd::std_specs::hash::group_hash_axioms;

/// Where a job reads or writes.
#[allow(non_camel_case_types)]
#[derive(Debug, Clone, PartialEq, Eq)]
pub enum LocationType {
    Unset,
    HTTP_GET(String),
    HTTP_PUT(String),
    HTTP_POST(String),
    File(String),
}

impl Default for LocationType {
    fn default() -> (r: Self)
        ensures
            r == LocationType::Unset,
    {
        LocationType::Unset
    }
}

impl LocationType {
    /// A copy of the location.
    pub fn copy(&self) -> (r: Self)
        ensures
            r == *self,
    {
        match self {
            LocationType::Unset => LocationType::Unset,
            LocationType::HTTP_GET(u) => LocationType::HTTP_GET(u.clone()),
            LocationType::HTTP_PUT(u) => LocationType::HTTP_PUT(u.clone()),
            LocationType::HTTP_POST(u) => LocationType::HTTP_POST(u.clone()),
            LocationType::File(u) => LocationType::File(u.clone()),
        }
    }
}

/// The state of a job.
#[allow(non_camel_case_types)]
#[derive(Debug, Copy, Clone, PartialEq, Eq, Structural)]
pub enum Status {
    QUEUED,
    RUNNING,
    COMPLETED,
    DELETED,
}

impl Default for Status {
    fn default() -> (r: Self)
        ensures
            r == Status::QUEUED,
    {
        Status::QUEUED
    }
}

/// The name of a state, in capitals.
pub open spec fn status_text(s: Status) -> Seq<char> {
    match s {
        Status::QUEUED => "QUEUED"@,
        Status::RUNNING => "RUNNING"@,
        Status::COMPLETED => "COMPLETED"@,
        Status::DELETED => "DELETED"@,
    }
}

impl Status {
    /// The name of the state, in capitals.
    pub fn to_text(self) -> (r: String)
        ensures
            r@ == status_text(self),
    {
        match self {
            Status::QUEUED => String::from_str("QUEUED"),
            Status::RUNNING => String::from_str("RUNNING"),
            Status::COMPLETED => String::from_str("COMPLETED"),
            Status::DELETED => String::from_str("DELETED"),
        }
    }
}

/// A transcoding job.
#[derive(Debug, Clone, PartialEq, Eq)]
pub struct Job {
    /// time-ordered unique identifier
    pub id: u128,
    pub video_url: LocationType,
    pub dest_url: LocationType,
    pub rule_url: LocationType,
    /// cleared to ask a job to stop
    pub running: bool,
    /// not known until the job has run
    pub num_frames: Option<u32>,
    pub cur_frame: u32,
    pub status: Status,
    /// how long the job took, in nanoseconds
    pub took_nanos: u128,
}

impl Job {
    /// A job with the given locations and no progress yet.
    pub fn new(video_url: LocationType, dest_url: LocationType, rule_url: LocationType) -> (r: Self)
        ensures
            r == (Job {
                id: 0,
                video_url,
                dest_url,
                rule_url,
                running: false,
                num_frames: None,
                cur_frame: 0,
                status: Status::QUEUED,
                took_nanos: 0,
            }),
    {
        Job {
            id: 0,
            video_url,
            dest_url,
            rule_url,
            running: false,
            num_frames: None,
            cur_frame: 0,
            status: Status::QUEUED,
            took_nanos: 0,
        }
    }

    /// A copy of the job.
    pub fn copy(&self) -> (r: Self)
        ensures
            r == *self,
    {
        Job {
            id: self.id,
            video_url: self.video_url.copy(),
            dest_url: self.dest_url.copy(),
            rule_url: self.rule_url.copy(),
            running: self.running,
            num_frames: self.num_frames,
            cur_frame: self.cur_frame,
            status: self.status,
            took_nanos: self.took_nanos,
        }
    }
}

/// The first queued job with identifier `id`.
pub open spec fn find_job(q: Seq<Job>, id: u128) -> Option<int>
    decreases q.len(),
{
    if q.len() == 0 {
        None
    } else if q[0].id == id {
        Some(0)
    } else {
        match find_job(q.drop_first(), id) {
            Some(i) => Some(i + 1),
            None => None,
        }
    }
}

/// A found position is within the queue and holds a job with that identifier; none found
/// means none has it.
pub proof fn lemma_find_job(q: Seq<Job>, id: u128)
    ensures
        find_job(q, id) matches Some(i) ==> 0 <= i < q.len() && q[i].id == id && forall|k: int|
            0 <= k < i ==> (#[trigger] q[k]).id != id,
        find_job(q, id) is None ==> forall|k: int| 0 <= k < q.len() ==> (#[trigger] q[k]).id != id,
    decreases q.len(),
{
    if q.len() > 0 && q[0].id != id {
        lemma_find_job(q.drop_first(), id);
        assert forall|k: int| 1 <= k < q.len() implies q[k] == q.drop_first()[k - 1] by {}
    }
}

/// The job queue of the service: jobs wait in order of arrival, at most one runs, and
/// finished jobs are kept by identifier.
#[derive(Debug)]
pub struct ControllerStatus {
    max_queued_jobs: u32,
    max_completed_jobs: u32,
    queued_jobs: VecDeque<Job>,
    running_job: Option<Job>,
    completed_jobs: HashMap<u128, Job>,
    io_strategy: IoStrategy,
}

/// Where the queue stands after trying to start the next job: if none runs and one waits,
/// the first waiting job starts.
pub open spec fn dispatched(q: Seq<Job>, running: Option<Job>) -> (Seq<Job>, Option<Job>, Option<Job>) {
    if running is None && q.len() > 0 {
        let j = Job { status: Status::RUNNING, ..q[0] };
        (q.drop_first(), Some(j), Some(j))
    } else {
        (q, running, None)
    }
}

impl ControllerStatus {
    /// The waiting jobs, first to start first.
    pub closed spec fn queued(&self) -> Seq<Job> {
        self.queued_jobs@
    }

    /// The running job.
    pub closed spec fn running(&self) -> Option<Job> {
        self.running_job
    }

    /// The finished jobs by identifier.
    pub closed spec fn completed(&self) -> Map<u128, Job> {
        self.completed_jobs@
    }

    /// The strategy jobs are transcoded with.
    pub closed spec fn strategy(&self) -> IoStrategy {
        self.io_strategy
    }

    /// How many jobs may wait.
    pub closed spec fn max_queued(&self) -> u32 {
        self.max_queued_jobs
    }

    /// The queue is within its bound, a job runs whenever one waits, and finished jobs are
    /// filed under their own identifier.
    pub closed spec fn wf(&self) -> bool {
        &&& self.queued_jobs@.len() <= self.max_queued_jobs
        &&& (self.running_job is None ==> self.queued_jobs@.len() == 0)
        &&& forall|k: u128| #[trigger] self.completed_jobs@.contains_key(k) ==> self.completed_jobs@[k].id == k
    }

    /// The job a status request for `id` finds: the running one, a finished one, or the
    /// first waiting one with that identifier.
    pub open spec fn lookup(&self, id: u128) -> Option<Job> {
        if self.running() is Some && self.running()->0.id == id {
            self.running()
        } else if self.completed().contains_key(id) {
            Some(self.completed()[id])
        } else {
            match find_job(self.queued(), id) {
                Some(i) => Some(self.queued()[i]),
                None => None,
            }
        }
    }

    /// Whether `v` lists the jobs: the running one, then the waiting ones in order, then,
    /// with `include_finished`, each finished job once, in some order.
    pub open spec fn is_listing(&self, include_finished: bool, v: Seq<Job>) -> bool {
        let head = match self.running() {
            Some(j) => seq![j] + self.queued(),
            None => self.queued(),
        };
        &&& v.len() >= head.len()
        &&& v.subrange(0, head.len() as int) == head
        &&& include_finished ==> v.len() == head.len() + self.completed().len() && v.subrange(
            head.len() as int,
            v.len() as int,
        ).to_set() == self.completed().values()
        &&& include_finished ==> forall|i: int|
            head.len() <= i < v.len() ==> self.completed().contains_key((#[trigger] v[i]).id)
                && self.completed()[v[i].id] == v[i]
        &&& include_finished ==> forall|i: int, j: int|
            head.len() <= i < j < v.len() ==> (#[trigger] v[i]).id != (#[trigger] v[j]).id
        &&& !include_finished ==> v.len() == head.len()
    }

    /// An idle service with room for 100 waiting jobs.
    pub fn new(num_cpu_workers: u16) -> (r: Self)
        ensures
            r.wf(),
            r.queued() == Seq::<Job>::empty(),
            r.running() is None,
            r.completed() == Map::<u128, Job>::empty(),
            r.max_queued() == 100,
            r.strategy() == (IoStrategy::Tokio { num_cpu_workers }),
    {
        ControllerStatus {
            max_queued_jobs: 100,
            max_completed_jobs: 100,
            queued_jobs: VecDeque::new(),
            running_job: None,
            completed_jobs: HashMap::new(),
            io_strategy: IoStrategy::Tokio { num_cpu_workers },
        }
    }

    /// Starts the first waiting job if none runs; returns the job to hand to the worker.
    fn try_dispatch_async(&mut self) -> (sent: Option<Job>)
        ensures
            final(self).max_queued() == old(self).max_queued(),
            final(self).strategy() == old(self).strategy(),
            final(self).completed() == old(self).completed(),
            (final(self).queued(), final(self).running(), sent) == dispatched(old(self).queued(), old(self).running()),
    {
        if self.running_job.is_none() {
            if let Some(next_job) = self.queued_jobs.pop_front() {
                let mut next_job = next_job;
                next_job.status = Status::RUNNING;
                let job_ = next_job.copy();
                self.running_job = Some(next_job);
                return Some(job_);
            }
        }
        None
    }

    /// Queues `job` under identifier `id`, marked to run; refuses when the queue is full.
    /// Returns the job to hand to the worker if one starts now.
    pub fn create_job_with_id(&mut self, job: Job, id: u128) -> (r: Result<Option<Job>, TranscodeError>)
        requires
            old(self).wf(),
        ensures
            final(self).wf(),
            final(self).max_queued() == old(self).max_queued(),
            final(self).strategy() == old(self).strategy(),
            final(self).completed() == old(self).completed(),
            old(self).queued().len() >= old(self).max_queued() ==> (r matches Err(TranscodeError::QueueFull)
                && final(self).queued() == old(self).queued() && final(self).running() == old(self).running()),
            old(self).queued().len() < old(self).max_queued() ==> {
                let j = Job { id, running: true, status: Status::QUEUED, ..job };
                let (q, run, sent) = dispatched(old(self).queued().push(j), old(self).running());
                &&& r == Ok::<Option<Job>, TranscodeError>(sent)
                &&& final(self).queued() == q
                &&& final(self).running() == run
            },
    {
        let mut job = job;
        job.id = id;
        if self.queued_jobs.len() >= self.max_queued_jobs as usize {
            return Err(TranscodeError::QueueFull);
        }
        job.running = true;
        job.status = Status::QUEUED;
        self.queued_jobs.push_back(job);
        let sent = self.try_dispatch_async();
        Ok(sent)
    }

    /// Queues `job` under a new identifier, marked to run; refuses when the queue is full.
    /// Returns the identifier and the job to hand to the worker if one starts now.
    pub fn create_job_async(&mut self, job: Job) -> (r: Result<(u128, Option<Job>), TranscodeError>)
        requires
            old(self).wf(),
        ensures
            final(self).wf(),
            final(self).max_queued() == old(self).max_queued(),
            final(self).strategy() == old(self).strategy(),
            final(self).completed() == old(self).completed(),
            old(self).queued().len() >= old(self).max_queued() ==> (r matches Err(TranscodeError::QueueFull)
                && final(self).queued() == old(self).queued() && final(self).running() == old(self).running()),
            old(self).queued().len() < old(self).max_queued() ==> {
                &&& r matches Ok((id, sent))
                &&& {
                    let j = Job { id, running: true, status: Status::QUEUED, ..job };
                    let (q, run, s) = dispatched(old(self).queued().push(j), old(self).running());
                    &&& sent == s
                    &&& final(self).queued() == q
                    &&& final(self).running() == run
                }
            },
    {
        let id = new_ulid();
        match self.create_job_with_id(job, id) {
            Ok(sent) => Ok((id, sent)),
            Err(e) => Err(e),
        }
    }

    /// Files the running job as finished if it has identifier `id` (with its time and
    /// frame counts; a different running job is dropped), then starts the next waiting job.
    /// Returns the job to hand to the worker if one starts now.
    pub fn complete_job_async(&mut self, id: u128, took_nanos: u128, num_frames: u32, max_frames: u32) -> (sent: Option<Job>)
        requires
            old(self).wf(),
        ensures
            final(self).wf(),
            final(self).max_queued() == old(self).max_queued(),
            final(self).strategy() == old(self).strategy(),
            ({
                let done = match old(self).running() {
                    Some(j) => if j.id == id {
                        old(self).completed().insert(id, Job {
                            status: Status::COMPLETED,
                            took_nanos,
                            cur_frame: num_frames,
                            num_frames: Some(max_frames),
                            ..j
                        })
                    } else {
                        old(self).completed()
                    },
                    None => old(self).completed(),
                };
                let (q, run, s) = dispatched(old(self).queued(), None);
                &&& final(self).completed() == done
                &&& final(self).queued() == q
                &&& final(self).running() == run
                &&& sent == s
            }),
    {
        if let Some(job) = self.running_job.take() {
            if job.id == id {
                let mut job = job;
                job.status = Status::COMPLETED;
                job.took_nanos = took_nanos;
                job.cur_frame = num_frames;
                job.num_frames = Some(max_frames);
                self.completed_jobs.insert(id, job);
            }
        }
        self.try_dispatch_async()
    }

    /// The running job, if any, then the waiting jobs in order; with `include_finished`,
    /// then the finished jobs, in no particular order.
    pub fn get_job_list(&self, include_finished: bool) -> (r: Result<Vec<Job>, TranscodeError>)
        requires
            self.wf(),
        ensures
            r matches Ok(v) && self.is_listing(include_finished, v@),
    {
        let mut ret: Vec<Job> = Vec::new();
        let n = self.queued_jobs.len();
        let mut i: usize = 0;
        while i < n
            invariant
                n == self.queued_jobs@.len(),
                0 <= i <= n,
                ret@ == self.queued_jobs@.subrange(0, i as int),
            decreases n - i,
        {
            ret.push(self.queued_jobs[i].copy());
            i = i + 1;
            assert(ret@ =~= self.queued_jobs@.subrange(0, i as int));
        }
        assert(self.queued_jobs@.subrange(0, n as int) =~= self.queued_jobs@);
        if let Some(job) = &self.running_job {
            ret.insert(0, job.copy());
            assert(ret@ =~= seq![*job] + self.queued_jobs@);
        }
        let ghost head = ret@;
        assert(head == match self.running() {
            Some(j) => seq![j] + self.queued(),
            None => self.queued(),
        });
        if include_finished {
            let vals = self.completed_jobs.values();
            let ghost all = vstd::std_specs::hash::into_iter_values(vals);
            let ghost mut count: int = 0;
            for j in it: vals
                invariant
                    it.seq().unref() == all,
                    count == it.index(),
                    ret@.len() == head.len() + count,
                    ret@.subrange(0, head.len() as int) == head,
                    forall|k: int| 0 <= k < count ==> ret@[head.len() + k] == all[k],
            {
                let ghost before = ret@;
                ret.push(j.copy());
                proof {
                    assert(ret@.subrange(0, head.len() as int) =~= before.subrange(0, head.len() as int));
                    count = count + 1;
                }
            }
            proof {
                assert(count == all.len());
                let tail = ret@.subrange(head.len() as int, ret@.len() as int);
                assert(tail =~= all);
                lemma_finished_listed_once(self.completed_jobs@, all);
                assert forall|i: int| head.len() <= i < ret@.len() implies self.completed().contains_key(
                    (#[trigger] ret@[i]).id,
                ) && self.completed()[ret@[i].id] == ret@[i] by {
                    assert(ret@[i] == all[i - head.len()]);
                }
                assert forall|i: int, j: int| head.len() <= i < j < ret@.len() implies (#[trigger] ret@[i]).id
                    != (#[trigger] ret@[j]).id by {
                    assert(ret@[i] == all[i - head.len()]);
                    assert(ret@[j] == all[j - head.len()]);
                }
            }
        }
        assert(ret@.len() >= head.len());
        assert(ret@.subrange(0, head.len() as int) == head);
        assert(include_finished ==> ret@.len() == head.len() + self.completed().len());
        assert(include_finished ==> ret@.subrange(head.len() as int, ret@.len() as int).to_set() == self.completed().values());
        assert(!include_finished ==> ret@.len() == head.len());
        assert(self.is_listing(include_finished, ret@));
        Ok(ret)
    }

    /// The job with identifier `id`: the running one, a finished one, or the first waiting one.
    pub fn get_job_status(&self, job_id: u128) -> (r: Result<Job, TranscodeError>)
        requires
            self.wf(),
        ensures
            match self.lookup(job_id) {
                Some(j) => r == Ok::<Job, TranscodeError>(j),
                None => r matches Err(TranscodeError::JobNotFound),
            },
            r matches Ok(j) ==> j.id == job_id,
    {
        if let Some(job) = &self.running_job {
            if job.id == job_id {
                return Ok(job.copy());
            }
        }
        if let Some(job) = self.completed_jobs.get(&job_id) {
            return Ok(job.copy());
        }
        match find_queued(&self.queued_jobs, job_id) {
            Some(i) => {
                proof {
                    lemma_find_job(self.queued_jobs@, job_id);
                }
                Ok(self.queued_jobs[i].copy())
            },
            None => Err(TranscodeError::JobNotFound),
        }
    }

    /// Cancels: when a job runs, it is asked to stop, whatever `job_id` names, and its
    /// identifier is returned; otherwise the first waiting job with identifier `job_id` is
    /// removed.
    pub fn cancel_job(&mut self, job_id: u128) -> (r: Result<Option<u128>, TranscodeError>)
        requires
            old(self).wf(),
        ensures
            final(self).wf(),
            final(self).max_queued() == old(self).max_queued(),
            final(self).strategy() == old(self).strategy(),
            final(self).completed() == old(self).completed(),
            old(self).running() matches Some(j) ==> {
                &&& r == Ok::<Option<u128>, TranscodeError>(Some(j.id))
                &&& final(self).running() == Some(Job { running: false, ..j })
                &&& final(self).queued() == old(self).queued()
            },
            old(self).running() is None ==> final(self).running() is None && match find_job(old(self).queued(), job_id) {
                Some(i) => r == Ok::<Option<u128>, TranscodeError>(None) && final(self).queued() == old(self).queued().remove(i),
                None => r matches Err(TranscodeError::JobNotFound) && final(self).queued() == old(self).queued(),
            },
    {
        if let Some(job) = &mut self.running_job {
            job.running = false;
            return Ok(Some(job.id));
        }
        match find_queued(&self.queued_jobs, job_id) {
            Some(idx) => {
                proof {
                    lemma_find_job(self.queued_jobs@, job_id);
                }
                self.queued_jobs.remove(idx);
                Ok(None)
            },
            None => Err(TranscodeError::JobNotFound),
        }
    }
}

/// The values of a map of jobs filed under their own identifiers, listed in a sequence as
/// long as the map whose elements are exactly those values, come once each: each is the job
/// filed under its identifier, and no two share an identifier.
proof fn lemma_finished_listed_once(m: Map<u128, Job>, all: Seq<Job>)
    requires
        m.dom().finite(),
        forall|k: u128| #[trigger] m.contains_key(k) ==> m[k].id == k,
        all.to_set() == m.values(),
        all.len() == m.dom().len(),
    ensures
        forall|i: int| 0 <= i < all.len() ==> m.contains_key((#[trigger] all[i]).id) && m[all[i].id] == all[i],
        forall|i: int, j: int| 0 <= i < j < all.len() ==> (#[trigger] all[i]).id != (#[trigger] all[j]).id,
{
    assert(m.is_injective()) by {
        assert forall|x: u128, y: u128| x != y && m.dom().contains(x) && m.dom().contains(y) implies #[trigger] m[x]
            != #[trigger] m[y] by {
            assert(m.contains_key(x) && m.contains_key(y));
        }
    }
    m.lemma_injective_values_len();
    all.lemma_no_dup_set_cardinality();
    assert forall|i: int| 0 <= i < all.len() implies m.contains_key((#[trigger] all[i]).id) && m[all[i].id] == all[i] by {
        assert(all.to_set().contains(all[i]));
        assert(m.values().contains(all[i]));
        let k = choose|k: u128| #[trigger] m.dom().contains(k) && m[k] == all[i];
        assert(m.contains_key(k));
    }
    assert forall|i: int, j: int| 0 <= i < j < all.len() implies (#[trigger] all[i]).id != (#[trigger] all[j]).id by {
        if all[i].id == all[j].id {
            assert(all[i] == m[all[i].id]);
            assert(all[j] == m[all[j].id]);
        }
    }
}

/// The position of the first waiting job with identifier `id`.
fn find_queued(q: &VecDeque<Job>, id: u128) -> (r: Option<usize>)
    ensures
        match find_job(q@, id) {
            Some(i) => r == Some(i as usize),
            None => r is None,
        },
{
    proof {
        lemma_find_job(q@, id);
    }
    let n = q.len();
    let mut i: usize = 0;
    while i < n
        invariant
            n == q@.len(),
            0 <= i <= n,
            forall|k: int| 0 <= k < i ==> (#[trigger] q@[k]).id != id,
        decreases n - i,
    {
        if q[i].id == id {
            proof {
                lemma_find_first(q@, id, i as int);
            }
            return Some(i);
        }
        i = i + 1;
    }
    None
}

/// The first position holding an identifier is the one `find_job` finds.
proof fn lemma_find_first(q: Seq<Job>, id: u128, i: int)
    requires
        0 <= i < q.len(),
        q[i].id == id,
        forall|k: int| 0 <= k < i ==> (#[trigger] q[k]).id != id,
    ensures
        find_job(q, id) == Some(i),
    decreases q.len(),
{
    if i > 0 {
        assert forall|k: int| 0 <= k < i - 1 implies (#[trigger] q.drop_first()[k]).id != id by {
            assert(q.drop_first()[k] == q[k + 1]);
        }
        lemma_find_first(q.drop_first(), id, i - 1);
    }
}

/// Whether no job of the service carries identifier `id`.
pub open spec fn id_unused(c: ControllerStatus, id: u128) -> bool {
    &&& !(c.running() is Some && c.running()->0.id == id)
    &&& !c.completed().contains_key(id)
    &&& find_job(c.queued(), id) is None
}

/// Appending a job with a new identifier makes it the one found under that identifier.
proof fn lemma_find_appended(q: Seq<Job>, j: Job)
    requires
        find_job(q, j.id) is None,
    ensures
        find_job(q.push(j), j.id) == Some(q.len() as int),
{
    lemma_find_job(q, j.id);
    let p = q.push(j);
    assert forall|k: int| 0 <= k < q.len() implies (#[trigger] p[k]).id != j.id by {
        assert(p[k] == q[k]);
    }
    lemma_find_first(p, j.id, q.len() as int);
}

/// A job queued under an identifier no job carries is found under it: waiting, or running
/// if it started at once.
pub proof fn lemma_created_job_found(before: ControllerStatus, after: ControllerStatus, job: Job, id: u128)
    requires
        before.wf(),
        id_unused(before, id),
        before.queued().len() < before.max_queued(),
        ({
            let j = Job { id, running: true, status: Status::QUEUED, ..job };
            let (q, run, s) = dispatched(before.queued().push(j), before.running());
            &&& after.queued() == q
            &&& after.running() == run
            &&& after.completed() == before.completed()
        }),
    ensures
        ({
            let j = Job { id, running: true, status: Status::QUEUED, ..job };
            after.lookup(id) == Some(j) || after.lookup(id) == Some(Job { status: Status::RUNNING, ..j })
        }),
{
    let j = Job { id, running: true, status: Status::QUEUED, ..job };
    if before.running() is Some {
        lemma_find_appended(before.queued(), j);
    }
}

/// A job filed as finished is found under its identifier, as finished.
pub proof fn lemma_completed_job_found(
    before: ControllerStatus,
    after: ControllerStatus,
    id: u128,
    took_nanos: u128,
    num_frames: u32,
    max_frames: u32,
)
    requires
        before.wf(),
        before.running() is Some && before.running()->0.id == id,
        find_job(before.queued(), id) is None,
        ({
            let j = before.running()->0;
            let (q, run, s) = dispatched(before.queued(), None);
            &&& after.completed() == before.completed().insert(
                id,
                Job {
                    status: Status::COMPLETED,
                    took_nanos,
                    cur_frame: num_frames,
                    num_frames: Some(max_frames),
                    ..j
                },
            )
            &&& after.queued() == q
            &&& after.running() == run
        }),
    ensures
        after.lookup(id) == Some(
            Job {
                status: Status::COMPLETED,
                took_nanos,
                cur_frame: num_frames,
                num_frames: Some(max_frames),
                ..before.running()->0
            },
        ),
{
    lemma_find_job(before.queued(), id);
    if before.queued().len() > 0 {
        assert(before.queued()[0].id != id);
    }
}

} // verus!
