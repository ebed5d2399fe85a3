//! The jobs of a workspace.

use vstd::prelude::*;

use crate::jobs::{Job, JobError, JobRecord, JobState, JobView, RecordView};
use crate::lists;
use crate::model;
use crate::paths;
use crate::text;

verus! {

/// The jobs of a workspace, each with the place where it is stored. The record of a job that was not
/// created here may have another id than the one under which it is stored.
#[derive(Debug)]
pub struct JobStore {
    pub jobs_root: String,
    pub jobs: Vec<Job>,
}

/// The content of a store.
pub struct StoreView {
    pub jobs_root: Seq<char>,
    pub jobs: Seq<JobView>,
}

impl View for JobStore {
    type V = StoreView;

    open spec fn view(&self) -> StoreView {
        StoreView { jobs_root: self.jobs_root@, jobs: model::views(self.jobs@) }
    }
}

/// Whether a text is the id of a job, which names a single directory.
pub open spec fn valid_id(id: Seq<char>) -> bool {
    !id.contains('/') && !id.contains('\\') && "job-"@.is_prefix_of(id)
}

/// The id of the job that a process creates at a time.
pub open spec fn fresh_id(now: u64, pid: u32, sequence: u64) -> Seq<char> {
    "job-"@ + text::digits(now as nat) + "-"@ + text::digits(pid as nat) + "-"@ + text::digits(sequence as nat)
}

/// The position of the job that is stored at a place, or the number of jobs where there is none.
pub open spec fn job_index(jobs: Seq<JobView>, root: Seq<char>) -> int
    decreases jobs.len(),
{
    if jobs.len() == 0 || jobs.first().root == root {
        0
    } else {
        1 + job_index(jobs.drop_first(), root)
    }
}

/// The job that `job_index` finds is the first at its place.
pub proof fn job_index_is(jobs: Seq<JobView>, root: Seq<char>, k: int)
    requires
        0 <= k <= jobs.len(),
        forall|i: int| 0 <= i < k ==> (#[trigger] jobs[i]).root != root,
        k < jobs.len() ==> jobs[k].root == root,
    ensures
        job_index(jobs, root) == k,
    decreases k,
{
    if k > 0 {
        assert(jobs[0].root != root);
        let rest = jobs.drop_first();
        assert forall|i: int| 0 <= i < k - 1 implies (#[trigger] rest[i]).root != root by {
            assert(rest[i] == jobs[i + 1]);
        }
        job_index_is(rest, root, k - 1);
    }
}

/// What `job_index` finds.
pub proof fn job_index_found(jobs: Seq<JobView>, root: Seq<char>)
    ensures
        0 <= job_index(jobs, root) <= jobs.len(),
        job_index(jobs, root) < jobs.len() ==> jobs[job_index(jobs, root)].root == root,
        forall|i: int| 0 <= i < job_index(jobs, root) ==> (#[trigger] jobs[i]).root != root,
    decreases jobs.len(),
{
    if jobs.len() > 0 && jobs.first().root != root {
        let rest = jobs.drop_first();
        job_index_found(rest, root);
        assert forall|i: int| 0 <= i < job_index(jobs, root) implies (#[trigger] jobs[i]).root != root by {
            if i > 0 {
                assert(rest[i - 1] == jobs[i]);
            }
        }
    }
}

impl StoreView {
    /// Whether each job is stored at a place of its own.
    pub open spec fn wf(self) -> bool {
        forall|i: int, j: int| 0 <= i < j < self.jobs.len() ==> (#[trigger] self.jobs[i]).root != (#[trigger] self.jobs[j]).root
    }

    /// Where the job with an id is stored.
    pub open spec fn place(self, id: Seq<char>) -> Seq<char> {
        paths::joined_path(self.jobs_root, id)
    }

    /// Whether the record of each job has a valid id and is stored under it, as that of every job is
    /// that was created here.
    pub open spec fn tidy(self) -> bool {
        forall|i: int|
            0 <= i < self.jobs.len() ==> valid_id((#[trigger] self.jobs[i]).record.id) && self.jobs[i].root == self.place(
                self.jobs[i].record.id,
            )
    }

    /// The position of the job that is stored under an id, or the message with which it is refused.
    pub open spec fn loaded(self, id: Seq<char>) -> Result<int, Seq<char>> {
        let i = job_index(self.jobs, self.place(id));
        if !valid_id(id) {
            Err(JobError::InvalidId.text())
        } else if i < self.jobs.len() {
            Ok(i)
        } else {
            Err("could not read "@ + paths::joined_path(self.place(id), "state.json"@))
        }
    }

    /// The times at which the jobs were created.
    pub open spec fn dates(self) -> Seq<u64> {
        Seq::new(self.jobs.len(), |i: int| self.jobs[i].record.created_at)
    }

    /// Whether a job is in the state and, where one is given, comes from the sender.
    pub open spec fn wanted(self, i: int, sender: Option<Seq<char>>, state: JobState) -> bool {
        &&& 0 <= i < self.jobs.len()
        &&& self.jobs[i].record.state == state
        &&& sender is Some ==> self.jobs[i].record.sender == sender->0
    }

    /// Whether the job at a position is the newest of those that are wanted.
    pub open spec fn newest_wanted(self, i: int, sender: Option<Seq<char>>, state: JobState) -> bool {
        &&& self.wanted(i, sender, state)
        &&& forall|k: int| #[trigger] self.wanted(k, sender, state) && k != i ==> lists::newer(
            self.dates(),
            i as usize,
            k as usize,
        )
    }
}

/// A job that was just created.
pub open spec fn received(
    jobs_root: Seq<char>,
    id: Seq<char>,
    request: Seq<char>,
    sender: Seq<char>,
    conversation_id: Option<Seq<char>>,
    now: u64,
) -> JobView {
    (JobView {
        root: paths::joined_path(jobs_root, id),
        record: RecordView {
            id,
            state: JobState::Received,
            created_at: now,
            updated_at: now,
            sender,
            conversation_id,
            approved_at: None,
            current_worker: None,
            attempt: 0,
            interrupted: false,
            message: "Task received"@,
        },
        request,
        specification: Seq::empty(),
        requirements: None,
        criteria: Seq::empty(),
        conversation: Seq::empty(),
        events: Seq::empty(),
        gates: Seq::empty(),
        final_report: Seq::empty(),
    }).noted("received"@, "Task received"@, now)
}

/// A job that is marked as interrupted and blocked.
pub open spec fn interrupted(job: JobView, now: u64) -> JobView {
    (JobView { record: RecordView { interrupted: true, ..job.record }, ..job }).moved(
        JobState::Blocked,
        "Bender restarted while work was active; resume or retry is required"@,
        now,
    )
}

/// What a job becomes when work on it did not end before a restart.
pub open spec fn recovered(job: JobView, now: u64) -> JobView {
    if job.record.state.in_flight() {
        interrupted(job, now)
    } else {
        job
    }
}

/// What a restart comes to that took the records at the positions in turn: the store, and the ids of
/// those that were in flight or the message of what went wrong. A record is taken from the store as it
/// was; the job that is blocked is the one that is stored under the id of the record.
pub open spec fn recovery(store: StoreView, order: Seq<usize>, now: u64) -> (StoreView, Result<Seq<Seq<char>>, Seq<char>>)
    decreases order.len(),
{
    if order.len() == 0 {
        (store, Ok(Seq::empty()))
    } else {
        let before = recovery(store, order.drop_last(), now);
        let record = store.jobs[order.last() as int].record;
        match before.1 {
            Err(message) => before,
            Ok(ids) => if !record.state.in_flight() {
                before
            } else {
                match before.0.loaded(record.id) {
                    Err(message) => (before.0, Err(message)),
                    Ok(j) => {
                        let job = before.0.jobs[j];
                        if job.record.state.may_become(JobState::Blocked) {
                            (
                                StoreView { jobs: before.0.jobs.update(j, interrupted(job, now)), ..before.0 },
                                Ok(ids.push(record.id)),
                            )
                        } else {
                            (before.0, Err(crate::jobs::terminal_text(job.record.id)))
                        }
                    },
                }
            },
        }
    }
}

/// The ids of the jobs at the positions that were in flight.
pub open spec fn in_flight_ids(jobs: Seq<JobView>, order: Seq<usize>) -> Seq<Seq<char>>
    decreases order.len(),
{
    if order.len() == 0 {
        Seq::empty()
    } else {
        let before = in_flight_ids(jobs, order.drop_last());
        let job = jobs[order.last() as int];
        if job.record.state.in_flight() {
            before.push(job.record.id)
        } else {
            before
        }
    }
}

proof fn digits_are_digits(n: nat)
    ensures
        forall|i: int| 0 <= i < text::digits(n).len() ==> '0' <= #[trigger] text::digits(n)[i] <= '9',
    decreases n,
{
    if n >= 10 {
        digits_are_digits(n / 10);
        let rest = text::digits(n / 10);
        assert forall|i: int| 0 <= i < text::digits(n).len() implies '0' <= #[trigger] text::digits(n)[i] <= '9' by {
            if i < rest.len() {
                assert(text::digits(n)[i] == rest[i]);
            }
        }
    }
}

/// The id of a new job is valid.
pub proof fn fresh_ids_are_valid(now: u64, pid: u32, sequence: u64)
    ensures
        valid_id(fresh_id(now, pid, sequence)),
{
    reveal_strlit("job-");
    reveal_strlit("-");
    digits_are_digits(now as nat);
    digits_are_digits(pid as nat);
    digits_are_digits(sequence as nat);
    let id = fresh_id(now, pid, sequence);
    assert(id.take(4) =~= "job-"@);
    let a = "job-"@ + text::digits(now as nat);
    let b = a + "-"@;
    let c = b + text::digits(pid as nat);
    let d = c + "-"@;
    assert forall|i: int| 0 <= i < id.len() implies #[trigger] id[i] != '/' && id[i] != '\\' by {
        if i < a.len() {
            assert(id[i] == a[i]);
        } else if i < b.len() {
            assert(id[i] == b[i]);
        } else if i < c.len() {
            assert(id[i] == c[i]);
        } else if i < d.len() {
            assert(id[i] == d[i]);
        }
    }
}

impl JobStore {
    /// The store of a workspace, without jobs.
    pub fn new(workspace_root: &str) -> (store: Self)
        ensures
            store@ == (StoreView { jobs_root: paths::joined_path(workspace_root@, ".bender/jobs"@), jobs: Seq::empty() }),
            store@.wf(),
            store@.tidy(),
    {
        let store = JobStore { jobs_root: paths::join(workspace_root, ".bender/jobs"), jobs: Vec::new() };
        assert(store@.jobs =~= Seq::empty());
        store
    }

    fn position(&self, root: &str) -> (at: usize)
        ensures
            at == job_index(self@.jobs, root@),
            at <= self.jobs@.len(),
    {
        let ghost all = self@.jobs;
        let mut at: usize = 0;
        while at < self.jobs.len() && !text::same(self.jobs[at].root.as_str(), root)
            invariant
                at <= self.jobs@.len(),
                all == model::views(self.jobs@),
                forall|i: int| 0 <= i < at ==> (#[trigger] all[i]).root != root@,
            decreases self.jobs@.len() - at,
        {
            assert(all[at as int] == self.jobs@[at as int]@);
            at = at + 1;
        }
        proof {
            if at < self.jobs@.len() {
                assert(all[at as int] == self.jobs@[at as int]@);
            }
            job_index_is(all, root@, at as int);
        }
        at
    }

    /// The position of the job that is stored under the id.
    pub fn find(&self, id: &str) -> (result: Result<usize, JobError>)
        ensures
            match self@.loaded(id@) {
                Ok(i) => result is Ok && result->Ok_0 == i && i < self.jobs@.len(),
                Err(message) => result is Err && result->Err_0.text() == message,
            },
            result matches Err(error) ==> (error is InvalidId <==> !valid_id(id@)),
    {
        if !id_is_valid(id) {
            return Err(JobError::InvalidId);
        }
        let place = paths::join(self.jobs_root.as_str(), id);
        let at = self.position(place.as_str());
        if at < self.jobs.len() {
            Ok(at)
        } else {
            Err(JobError::Unreadable(paths::join(place.as_str(), "state.json")))
        }
    }

    /// Takes a stored job into the store, in place of one that is stored at the same place.
    pub fn adopt(&mut self, job: Job)
        requires
            old(self)@.wf(),
        ensures
            final(self)@.wf(),
            final(self)@ == (StoreView { jobs: with_job(old(self)@.jobs, job@), ..old(self)@ }),
    {
        let ghost start = self@;
        let ghost before = self@.jobs;
        let at = self.position(job.root.as_str());
        if at < self.jobs.len() {
            self.jobs.set(at, job);
            assert(self@.jobs =~= before.update(at as int, job@));
        } else {
            self.jobs.push(job);
            assert(self@.jobs =~= before.push(job@));
        }
        proof {
            creation_adds_one_job(start, job@);
        }
    }

    /// Creates a job. It takes the place of a job that is stored under its id, where there is one.
    pub fn create(
        &mut self,
        request: &str,
        sender: &str,
        conversation_id: Option<String>,
        now: u64,
        pid: u32,
        sequence: u64,
    ) -> (job: &mut Job)
        requires
            old(self)@.wf(),
        ensures
            job@ == received(
                old(self)@.jobs_root,
                fresh_id(now, pid, sequence),
                request@,
                sender@,
                model::view_of(conversation_id),
                now,
            ),
            final(self).jobs_root == old(self).jobs_root,
            ({
                let i = job_index(old(self)@.jobs, old(self)@.place(fresh_id(now, pid, sequence)));
                final(self).jobs@ == if i < old(self)@.jobs.len() {
                    old(self).jobs@.update(i, *final(job))
                } else {
                    old(self).jobs@.push(*final(job))
                }
            }),
    {
        let id = "job-".to_string().concat(text::decimal(now).as_str()).concat("-").concat(
            text::decimal(pid as u64).as_str(),
        ).concat("-").concat(text::decimal(sequence).as_str());
        let record = JobRecord {
            id: id.clone(),
            state: JobState::Received,
            created_at: now,
            updated_at: now,
            sender: sender.to_string(),
            conversation_id,
            approved_at: None,
            current_worker: None,
            attempt: 0,
            interrupted: false,
            message: "Task received".to_string(),
        };
        let mut job = Job {
            root: paths::join(self.jobs_root.as_str(), id.as_str()),
            record,
            request: request.to_string(),
            specification: String::new(),
            requirements: None,
            criteria: Vec::new(),
            conversation: Vec::new(),
            events: Vec::new(),
            gates: Vec::new(),
            final_report: String::new(),
        };
        assert(job@.criteria =~= Seq::empty());
        assert(job@.conversation =~= Seq::empty());
        assert(job@.events =~= Seq::empty());
        assert(job@.gates =~= Seq::empty());
        job.event("received", "Task received", now);
        let at = self.position(job.root.as_str());
        if at < self.jobs.len() {
            self.jobs.set(at, job);
        } else {
            self.jobs.push(job);
        }
        &mut self.jobs[at]
    }

    /// The job that is stored under the id.
    pub fn load(&self, id: &str) -> (result: Result<&Job, JobError>)
        ensures
            match self@.loaded(id@) {
                Ok(i) => result is Ok && *result->Ok_0 == self.jobs@[i],
                Err(message) => result is Err && result->Err_0.text() == message,
            },
            result matches Err(error) ==> (error is InvalidId <==> !valid_id(id@)),
    {
        match self.find(id) {
            Ok(at) => Ok(&self.jobs[at]),
            Err(error) => Err(error),
        }
    }

    /// The job that is stored under the id, to be changed.
    pub fn load_mut(&mut self, id: &str) -> (result: Result<&mut Job, JobError>)
        ensures
            match old(self)@.loaded(id@) {
                Ok(i) => {
                    &&& result is Ok
                    &&& *result->Ok_0 == old(self).jobs@[i]
                    &&& final(self).jobs_root == old(self).jobs_root
                    &&& final(self).jobs@ == old(self).jobs@.update(i, *final(result->Ok_0))
                },
                Err(message) => {
                    &&& result is Err
                    &&& result->Err_0.text() == message
                    &&& *final(self) == *old(self)
                },
            },
            result matches Err(error) ==> (error is InvalidId <==> !valid_id(id@)),
    {
        match self.find(id) {
            Ok(at) => Ok(&mut self.jobs[at]),
            Err(error) => Err(error),
        }
    }

    /// The positions of the jobs, newest first.
    fn order(&self) -> (order: Vec<usize>)
        ensures
            lists::newest_first(self@.dates(), order@),
    {
        let mut dates: Vec<u64> = Vec::new();
        let mut at: usize = 0;
        while at < self.jobs.len()
            invariant
                at <= self.jobs@.len(),
                dates@.len() == at,
                forall|i: int| 0 <= i < at ==> #[trigger] dates@[i] == self@.dates()[i],
            decreases self.jobs@.len() - at,
        {
            dates.push(self.jobs[at].record.created_at);
            at = at + 1;
        }
        assert(dates@ =~= self@.dates());
        lists::order_newest_first(&dates)
    }

    /// The records of the jobs, newest first.
    pub fn list(&self) -> (records: Vec<JobRecord>)
        ensures
            exists|order: Seq<usize>| #[trigger]
                lists::newest_first(self@.dates(), order) && model::views(records@) == Seq::new(
                    order.len(),
                    |i: int| self@.jobs[order[i] as int].record,
                ),
    {
        let order = self.order();
        let mut records: Vec<JobRecord> = Vec::new();
        let mut at: usize = 0;
        while at < order.len()
            invariant
                at <= order@.len(),
                lists::newest_first(self@.dates(), order@),
                records@.len() == at,
                forall|i: int| 0 <= i < at ==> (#[trigger] records@[i])@ == self@.jobs[order@[i] as int].record,
            decreases order@.len() - at,
        {
            assert(order@[at as int] < self@.dates().len());
            records.push(self.jobs[order[at]].record.clone());
            at = at + 1;
        }
        assert(model::views(records@) =~= Seq::new(order@.len(), |i: int| self@.jobs[order@[i] as int].record));
        records
    }

    fn interrupt(&mut self, id: &str, now: u64) -> (result: Result<(), JobError>)
        requires
            old(self)@.wf(),
        ensures
            final(self)@.wf(),
            final(self)@.jobs.len() == old(self)@.jobs.len(),
            match old(self)@.loaded(id@) {
                Err(message) => result is Err && result->Err_0.text() == message && *final(self) == *old(self),
                Ok(j) => {
                    let job = old(self)@.jobs[j];
                    if job.record.state.may_become(JobState::Blocked) {
                        result is Ok && final(self)@ == (StoreView {
                            jobs: old(self)@.jobs.update(j, interrupted(job, now)),
                            ..old(self)@
                        })
                    } else {
                        result is Err && result->Err_0.text() == crate::jobs::terminal_text(job.record.id) && final(self)@
                            == old(self)@
                    }
                },
            },
    {
        let ghost before = self@;
        let at = match self.find(id) {
            Ok(at) => at,
            Err(error) => {
                return Err(error);
            },
        };
        assert(before.jobs[at as int] == self.jobs@[at as int]@);
        let was = self.jobs[at].record.interrupted;
        self.jobs[at].record.interrupted = true;
        let result = self.jobs[at].transition(
            JobState::Blocked,
            "Bender restarted while work was active; resume or retry is required",
            now,
        );
        if result.is_err() {
            self.jobs[at].record.interrupted = was;
            assert(self@.jobs =~= before.jobs);
        } else {
            let ghost after = interrupted(before.jobs[at as int], now);
            proof {
                assert(self@.jobs =~= before.jobs.update(at as int, after));
                changes_keep_the_store_sound(before, at as int, after);
            }
        }
        result
    }

    /// Blocks each job that was in flight, and marks it as interrupted. The ids of the records are
    /// returned, newest first.
    pub fn recover_interrupted(&mut self, now: u64) -> (result: Result<Vec<String>, JobError>)
        requires
            old(self)@.wf(),
        ensures
            final(self)@.wf(),
            exists|order: Seq<usize>| #[trigger]
                lists::newest_first(old(self)@.dates(), order) && final(self)@ == recovery(old(self)@, order, now).0
                    && ids_or_message(result) == recovery(old(self)@, order, now).1,
    {
        let order = self.order();
        let ghost start = self@;
        let records = copy_records(&self.jobs);
        let mut ids: Vec<String> = Vec::new();
        let mut at: usize = 0;
        assert(order@.take(0) =~= Seq::<usize>::empty());
        assert(text::texts(ids@) =~= Seq::<Seq<char>>::empty());
        while at < order.len()
            invariant
                at <= order@.len(),
                order@.len() == start.jobs.len(),
                records@.len() == start.jobs.len(),
                start == old(self)@,
                self@.wf(),
                lists::newest_first(start.dates(), order@),
                forall|i: int| 0 <= i < records@.len() ==> (#[trigger] records@[i])@ == start.jobs[i].record,
                recovery(start, order@.take(at as int), now) == (
                    self@,
                    Ok::<Seq<Seq<char>>, Seq<char>>(text::texts(ids@)),
                ),
            decreases order@.len() - at,
        {
            let ghost next = order@.take(at + 1);
            assert(next.drop_last() =~= order@.take(at as int));
            assert(next.last() == order@[at as int]);
            assert(order@[at as int] < start.dates().len());
            let ghost before = ids@;
            let record = &records[order[at]];
            if record.state.is_in_flight() {
                if let Err(error) = self.interrupt(record.id.as_str(), now) {
                    proof {
                        assert(recovery(start, next, now) == (self@, Err::<Seq<Seq<char>>, Seq<char>>(error.text())));
                        failed_recoveries_stay_failed(start, order@, at + 1, now);
                    }
                    return Err(error);
                }
                ids.push(record.id.clone());
                assert(text::texts(ids@) =~= text::texts(before).push(record@.id));
            }
            at = at + 1;
        }
        assert(order@.take(at as int) =~= order@);
        Ok(ids)
    }

    /// The position of the newest job in the state and, where one is given, from the sender.
    pub fn newest(&self, sender: Option<&str>, state: JobState) -> (found: Option<usize>)
        ensures
            match found {
                Some(i) => self@.newest_wanted(
                    i as int,
                    model::view_of(sender),
                    state,
                ),
                None => forall|k: int| !#[trigger] self@.wanted(
                    k,
                    model::view_of(sender),
                    state,
                ),
            },
    {
        let ghost from: Option<Seq<char>> = model::view_of(sender);
        let mut found: Option<usize> = None;
        let mut at: usize = 0;
        while at < self.jobs.len()
            invariant
                at <= self.jobs@.len(),
                from == (model::view_of(sender)),
                match found {
                    Some(i) => {
                        &&& i < at
                        &&& self@.wanted(i as int, from, state)
                        &&& forall|k: int|
                            k < at && #[trigger] self@.wanted(k, from, state) && k != i ==> lists::newer(
                                self@.dates(),
                                i,
                                k as usize,
                            )
                    },
                    None => forall|k: int| k < at ==> !#[trigger] self@.wanted(k, from, state),
                },
            decreases self.jobs@.len() - at,
        {
            let record = &self.jobs[at].record;
            assert(self@.jobs[at as int] == self.jobs@[at as int]@);
            let fits = record.state == state && match sender {
                Some(name) => text::same(record.sender.as_str(), name),
                None => true,
            };
            assert(fits == self@.wanted(at as int, from, state));
            if fits {
                found = match found {
                    Some(i) => {
                        assert(self@.dates()[i as int] == self.jobs@[i as int].record.created_at);
                        assert(self@.dates()[at as int] == self.jobs@[at as int].record.created_at);
                        if self.jobs[i].record.created_at < record.created_at {
                            Some(at)
                        } else {
                            Some(i)
                        }
                    },
                    None => Some(at),
                };
            }
            at = at + 1;
        }
        found
    }

    /// The job that is stored under the id of the newest record from the sender in the state.
    pub fn latest_in_state(&self, sender: &str, state: JobState) -> (result: Result<Option<&Job>, JobError>)
        ensures
            self.is_latest(Some(sender@), state, result),
    {
        match self.newest(Some(sender), state) {
            Some(i) => {
                assert(self@.newest_wanted(i as int, Some(sender@), state));
                match self.load(self.jobs[i].record.id.as_str()) {
                    Ok(job) => Ok(Some(job)),
                    Err(error) => Err(error),
                }
            },
            None => Ok(None),
        }
    }

    /// The job that is stored under the id of the newest record from the sender that awaits approval.
    pub fn latest_awaiting_approval(&self, sender: &str) -> (result: Result<Option<&Job>, JobError>)
        ensures
            self.is_latest(Some(sender@), JobState::AwaitingApproval, result),
    {
        self.latest_in_state(sender, JobState::AwaitingApproval)
    }

    /// The job that is stored under the id of the newest record that awaits approval, from whichever
    /// sender.
    pub fn latest_awaiting_approval_any(&self) -> (result: Result<Option<&Job>, JobError>)
        ensures
            self.is_latest(None, JobState::AwaitingApproval, result),
    {
        match self.newest(None, JobState::AwaitingApproval) {
            Some(i) => {
                assert(self@.newest_wanted(i as int, None, JobState::AwaitingApproval));
                match self.load(self.jobs[i].record.id.as_str()) {
                    Ok(job) => Ok(Some(job)),
                    Err(error) => Err(error),
                }
            },
            None => Ok(None),
        }
    }

    /// Whether a result is the job that is stored under the id of the newest wanted record, why there is
    /// none under it, or nothing where no record is wanted.
    pub open spec fn is_latest(self, sender: Option<Seq<char>>, state: JobState, result: Result<Option<&Job>, JobError>) -> bool {
        if exists|k: int| #[trigger] self@.wanted(k, sender, state) {
            exists|i: int| #[trigger]
                self@.newest_wanted(i, sender, state) && match self@.loaded(self@.jobs[i].record.id) {
                    Ok(j) => result matches Ok(Some(job)) && *job == self.jobs@[j],
                    Err(message) => result matches Err(error) && error.text() == message,
                }
        } else {
            result matches Ok(None)
        }
    }
}

/// The ids that a restart gave, or the message of what went wrong.
pub open spec fn ids_or_message(result: Result<Vec<String>, JobError>) -> Result<Seq<Seq<char>>, Seq<char>> {
    match result {
        Ok(ids) => Ok(text::texts(ids@)),
        Err(error) => Err(error.text()),
    }
}

fn copy_records(jobs: &Vec<Job>) -> (records: Vec<JobRecord>)
    ensures
        records@.len() == jobs@.len(),
        forall|i: int| 0 <= i < jobs@.len() ==> (#[trigger] records@[i])@ == jobs@[i]@.record,
{
    let mut records: Vec<JobRecord> = Vec::new();
    let mut at: usize = 0;
    while at < jobs.len()
        invariant
            at <= jobs@.len(),
            records@.len() == at,
            forall|i: int| 0 <= i < at ==> (#[trigger] records@[i])@ == jobs@[i]@.record,
        decreases jobs@.len() - at,
    {
        records.push(jobs[at].record.clone());
        at = at + 1;
    }
    records
}

proof fn failed_recoveries_stay_failed(store: StoreView, order: Seq<usize>, k: int, now: u64)
    requires
        0 <= k <= order.len(),
        recovery(store, order.take(k), now).1 is Err,
    ensures
        recovery(store, order, now) == recovery(store, order.take(k), now),
    decreases order.len() - k,
{
    if k < order.len() {
        assert(order.take(k + 1).drop_last() =~= order.take(k));
        failed_recoveries_stay_failed(store, order, k + 1, now);
    } else {
        assert(order.take(k) =~= order);
    }
}

fn id_is_valid(id: &str) -> (answer: bool)
    ensures
        answer == valid_id(id@),
{
    let chars = text::chars_of(id);
    !text::holds_char(&chars, '/') && !text::holds_char(&chars, '\\') && text::starts_with(id, "job-")
}

/// After a restart no job is in flight, no job completed by it, and each that was in flight has to
/// be retried before it can complete.
pub proof fn recovery_leaves_nothing_in_flight(job: JobView, now: u64)
    ensures
        !recovered(job, now).record.state.in_flight(),
        recovered(job, now).record.state is Complete <==> job.record.state is Complete,
        job.record.state.in_flight() ==> recovered(job, now).record.state.retriable()
            && recovered(job, now).completion_fault() is Some,
        recovered(recovered(job, now), now) == recovered(job, now),
{
}

proof fn in_flight_ids_are(store: StoreView, order: Seq<usize>)
    requires
        store.wf(),
        store.tidy(),
        forall|i: int| 0 <= i < order.len() ==> (#[trigger] order[i]) < store.jobs.len(),
        forall|i: int, j: int| 0 <= i < j < order.len() ==> #[trigger] order[i] != #[trigger] order[j],
    ensures
        in_flight_ids(store.jobs, order).no_duplicates(),
        forall|id: Seq<char>| #[trigger]
            in_flight_ids(store.jobs, order).contains(id) ==> exists|i: int|
                0 <= i < order.len() && store.jobs[(#[trigger] order[i]) as int].record.state.in_flight()
                    && store.jobs[order[i] as int].record.id == id,
        forall|i: int|
            0 <= i < order.len() && store.jobs[(#[trigger] order[i]) as int].record.state.in_flight() ==> in_flight_ids(
                store.jobs,
                order,
            ).contains(store.jobs[order[i] as int].record.id),
    decreases order.len(),
{
    if order.len() > 0 {
        let ids = in_flight_ids(store.jobs, order);
        let start = order.drop_last();
        let before = in_flight_ids(store.jobs, start);
        let last = store.jobs[order.last() as int].record;
        assert forall|i: int, j: int| 0 <= i < j < start.len() implies #[trigger] start[i] != #[trigger] start[j] by {
            assert(order[i] != order[j]);
        }
        in_flight_ids_are(store, start);
        if before.contains(last.id) {
            let i = choose|i: int|
                0 <= i < start.len() && store.jobs[(#[trigger] start[i]) as int].record.state.in_flight()
                    && store.jobs[start[i] as int].record.id == last.id;
            assert(order[i] != order[order.len() - 1]);
            assert(store.jobs[order[i] as int].root != store.jobs[order.last() as int].root);
        }
        assert forall|id: Seq<char>| #[trigger] ids.contains(id) implies exists|i: int|
            0 <= i < order.len() && store.jobs[(#[trigger] order[i]) as int].record.state.in_flight()
                && store.jobs[order[i] as int].record.id == id by {
            if before.contains(id) {
                let i = choose|i: int|
                    0 <= i < start.len() && store.jobs[(#[trigger] start[i]) as int].record.state.in_flight()
                        && store.jobs[start[i] as int].record.id == id;
                assert(order[i] == start[i]);
            } else {
                assert(order[order.len() - 1] == order.last());
            }
        }
        assert forall|i: int|
            0 <= i < order.len() && store.jobs[(#[trigger] order[i]) as int].record.state.in_flight() implies ids.contains(
            store.jobs[order[i] as int].record.id,
        ) by {
            let id = store.jobs[order[i] as int].record.id;
            if i < start.len() {
                assert(start[i] == order[i]);
                let k = before.index_of(id);
                assert(ids[k] == id);
            } else {
                assert(ids[ids.len() - 1] == id);
            }
        }
    }
}

proof fn nothing_in_flight_stays_as_it_is(store: StoreView, order: Seq<usize>, now: u64)
    requires
        forall|i: int| 0 <= i < order.len() ==> (#[trigger] order[i]) < store.jobs.len(),
        forall|i: int| 0 <= i < store.jobs.len() ==> !(#[trigger] store.jobs[i]).record.state.in_flight(),
    ensures
        recovery(store, order, now) == (store, Ok::<Seq<Seq<char>>, Seq<char>>(Seq::empty())),
    decreases order.len(),
{
    if order.len() > 0 {
        assert(order.last() == order[order.len() - 1]);
        nothing_in_flight_stays_as_it_is(store, order.drop_last(), now);
    }
}

/// A job that is stored under its id is found there.
pub proof fn tidy_jobs_are_found(store: StoreView, i: int)
    requires
        store.wf(),
        0 <= i < store.jobs.len(),
        valid_id(store.jobs[i].record.id),
        store.jobs[i].root == store.place(store.jobs[i].record.id),
    ensures
        store.loaded(store.jobs[i].record.id) == Ok::<int, Seq<char>>(i),
{
    assert forall|k: int| 0 <= k < i implies (#[trigger] store.jobs[k]).root != store.jobs[i].root by {}
    job_index_is(store.jobs, store.jobs[i].root, i);
}

spec fn partly_recovered(jobs: Seq<JobView>, order: Seq<usize>, now: u64) -> Seq<JobView> {
    Seq::new(
        jobs.len(),
        |i: int|
            if order.contains(i as usize) {
                recovered(jobs[i], now)
            } else {
                jobs[i]
            },
    )
}

proof fn tidy_stores_recover(store: StoreView, order: Seq<usize>, now: u64)
    requires
        store.wf(),
        store.tidy(),
        store.jobs.len() <= usize::MAX,
        forall|i: int| 0 <= i < order.len() ==> (#[trigger] order[i]) < store.jobs.len(),
        forall|i: int, j: int| 0 <= i < j < order.len() ==> #[trigger] order[i] != #[trigger] order[j],
    ensures
        recovery(store, order, now).0 == (StoreView { jobs: partly_recovered(store.jobs, order, now), ..store }),
        recovery(store, order, now).1 == Ok::<Seq<Seq<char>>, Seq<char>>(in_flight_ids(store.jobs, order)),
    decreases order.len(),
{
    if order.len() == 0 {
        assert(partly_recovered(store.jobs, order, now) =~= store.jobs);
    } else {
        let start = order.drop_last();
        let last = order.last() as int;
        assert(order[order.len() - 1] == order.last());
        assert forall|i: int, j: int| 0 <= i < j < start.len() implies #[trigger] start[i] != #[trigger] start[j] by {
            assert(order[i] != order[j]);
        }
        tidy_stores_recover(store, start, now);
        let before = recovery(store, start, now).0;
        assert(!start.contains(order.last())) by {
            if start.contains(order.last()) {
                let i = start.index_of(order.last());
                assert(order[i] != order[order.len() - 1]);
            }
        }
        assert forall|i: int| 0 <= i < order.len() && order[i] != order.last() implies start.contains(#[trigger] order[i]) by {
            assert(start[i] == order[i]);
        }
        assert forall|x: usize| start.contains(x) implies #[trigger] order.contains(x) by {
            let i = start.index_of(x);
            assert(order[i] == x);
        }
        let job = store.jobs[last];
        assert(before.jobs[last] == job);
        if job.record.state.in_flight() {
            assert forall|i: int, j: int| 0 <= i < j < before.jobs.len() implies (#[trigger] before.jobs[i]).root != (
            #[trigger] before.jobs[j]).root by {
                assert(store.jobs[i].root != store.jobs[j].root);
            }
            tidy_jobs_are_found(before, last);
            assert(before.jobs.update(last, interrupted(job, now)) =~= partly_recovered(store.jobs, order, now));
        } else {
            assert(before.jobs =~= partly_recovered(store.jobs, order, now));
        }
    }
}

/// Where each job is stored under its id, a restart blocks each job that was in flight and no other,
/// and reports the ids of those that were in flight, each once. A second restart changes and reports
/// nothing.
pub proof fn recovery_reports_each_job_once(store: StoreView, order: Seq<usize>, now: u64, later: Seq<usize>, then: u64)
    requires
        store.wf(),
        store.tidy(),
        store.jobs.len() <= usize::MAX,
        lists::newest_first(store.dates(), order),
        lists::newest_first(recovery(store, order, now).0.dates(), later),
    ensures
        recovery(store, order, now).0 == (StoreView {
            jobs: Seq::new(store.jobs.len(), |i: int| recovered(store.jobs[i], now)),
            ..store
        }),
        recovery(store, order, now).1 == Ok::<Seq<Seq<char>>, Seq<char>>(in_flight_ids(store.jobs, order)),
        in_flight_ids(store.jobs, order).no_duplicates(),
        forall|id: Seq<char>| #[trigger]
            in_flight_ids(store.jobs, order).contains(id) ==> exists|i: int|
                0 <= i < store.jobs.len() && (#[trigger] store.jobs[i]).record.state.in_flight() && store.jobs[i].record.id
                    == id,
        forall|i: int|
            0 <= i < store.jobs.len() && (#[trigger] store.jobs[i]).record.state.in_flight() ==> in_flight_ids(
                store.jobs,
                order,
            ).contains(store.jobs[i].record.id),
        recovery(recovery(store, order, now).0, later, then) == (
            recovery(store, order, now).0,
            Ok::<Seq<Seq<char>>, Seq<char>>(Seq::empty()),
        ),
{
    let dates = store.dates();
    assert forall|i: int, j: int| 0 <= i < j < order.len() implies #[trigger] order[i] != #[trigger] order[j] by {
        assert(lists::newer(dates, order[i], order[j]));
    }
    in_flight_ids_are(store, order);
    tidy_stores_recover(store, order, now);
    let after = Seq::new(store.jobs.len(), |i: int| recovered(store.jobs[i], now));
    assert forall|i: int| 0 <= i < store.jobs.len() implies order.contains(#[trigger] (i as usize)) by {}
    assert(partly_recovered(store.jobs, order, now) =~= after) by {
        assert forall|i: int| 0 <= i < after.len() implies partly_recovered(store.jobs, order, now)[i] == after[i] by {
            assert(order.contains(i as usize));
        }
    }
    assert forall|id: Seq<char>| #[trigger] in_flight_ids(store.jobs, order).contains(id) implies exists|i: int|
        0 <= i < store.jobs.len() && (#[trigger] store.jobs[i]).record.state.in_flight() && store.jobs[i].record.id == id by {
        let k = choose|k: int|
            0 <= k < order.len() && store.jobs[(#[trigger] order[k]) as int].record.state.in_flight()
                && store.jobs[order[k] as int].record.id == id;
        let i = order[k] as int;
        assert(store.jobs[i].record.state.in_flight());
    }
    assert forall|i: int| 0 <= i < store.jobs.len() && (#[trigger] store.jobs[i]).record.state.in_flight() implies in_flight_ids(
        store.jobs,
        order,
    ).contains(store.jobs[i].record.id) by {
        assert(order.contains(i as usize));
        let k = order.index_of(i as usize);
        assert(order[k] as int == i);
        assert(store.jobs[order[k] as int].record.state.in_flight());
    }
    let next = recovery(store, order, now).0;
    assert forall|i: int| 0 <= i < after.len() implies !(#[trigger] after[i]).record.state.in_flight() by {
        recovery_leaves_nothing_in_flight(store.jobs[i], now);
    }
    nothing_in_flight_stays_as_it_is(next, later, then);
}

/// The jobs after one was put in the place of the job that was stored where it is, or after the others.
pub open spec fn with_job(jobs: Seq<JobView>, job: JobView) -> Seq<JobView> {
    let i = job_index(jobs, job.root);
    if i < jobs.len() {
        jobs.update(i, job)
    } else {
        jobs.push(job)
    }
}

/// A job that keeps its place may change in every other way; where it keeps its id too, a tidy store
/// stays tidy.
pub proof fn changes_keep_the_store_sound(store: StoreView, i: int, job: JobView)
    requires
        store.wf(),
        0 <= i < store.jobs.len(),
        job.root == store.jobs[i].root,
    ensures
        (StoreView { jobs: store.jobs.update(i, job), ..store }).wf(),
        store.tidy() && job.record.id == store.jobs[i].record.id ==> (StoreView {
            jobs: store.jobs.update(i, job),
            ..store
        }).tidy(),
{
    let after = store.jobs.update(i, job);
    assert forall|a: int, b: int| 0 <= a < b < after.len() implies (#[trigger] after[a]).root != (#[trigger] after[b]).root by {
        assert(store.jobs[a].root != store.jobs[b].root);
    }
}

/// A job that is put in the store is at its place, and only there; every other job stays as it was. A
/// tidy store stays tidy where the job has a valid id and is stored under it.
pub proof fn creation_adds_one_job(store: StoreView, job: JobView)
    requires
        store.wf(),
    ensures
        (StoreView { jobs: with_job(store.jobs, job), ..store }).wf(),
        job_index(with_job(store.jobs, job), job.root) == job_index(store.jobs, job.root),
        with_job(store.jobs, job)[job_index(store.jobs, job.root)] == job,
        forall|k: int|
            0 <= k < store.jobs.len() && k != job_index(store.jobs, job.root) ==> #[trigger] with_job(store.jobs, job)[k]
                == store.jobs[k],
        store.tidy() && valid_id(job.record.id) && job.root == store.place(job.record.id) ==> (StoreView {
            jobs: with_job(store.jobs, job),
            ..store
        }).tidy(),
{
    let i = job_index(store.jobs, job.root);
    job_index_found(store.jobs, job.root);
    let after = with_job(store.jobs, job);
    assert forall|a: int, b: int| 0 <= a < b < after.len() implies (#[trigger] after[a]).root != (#[trigger] after[b]).root by {
        if a != i && b != i {
            assert(store.jobs[a].root != store.jobs[b].root);
        } else if b == i && i < store.jobs.len() {
            assert(store.jobs[a].root != store.jobs[i].root);
        } else if a == i && i < store.jobs.len() {
            assert(store.jobs[i].root != store.jobs[b].root);
        }
    }
    job_index_is(after, job.root, i);
}

proof fn numbers_before_dashes_match(left: Seq<char>, right: Seq<char>, left_rest: Seq<char>, right_rest: Seq<char>)
    requires
        !left.contains('-'),
        !right.contains('-'),
        left + seq!['-'] + left_rest == right + seq!['-'] + right_rest,
    ensures
        left == right,
        left_rest == right_rest,
{
    let one = left + seq!['-'] + left_rest;
    let other = right + seq!['-'] + right_rest;
    assert(one[left.len() as int] == '-');
    assert(other[right.len() as int] == '-');
    if left.len() < right.len() {
        assert(other[left.len() as int] == right[left.len() as int]);
        assert(right.contains(right[left.len() as int]));
    }
    if right.len() < left.len() {
        assert(one[right.len() as int] == left[right.len() as int]);
        assert(left.contains(left[right.len() as int]));
    }
    assert forall|i: int| 0 <= i < left.len() implies left[i] == right[i] by {
        assert(one[i] == left[i]);
        assert(other[i] == right[i]);
    }
    assert(left =~= right);
    assert(one.len() == other.len());
    assert(left_rest.len() == right_rest.len());
    assert forall|i: int| 0 <= i < left_rest.len() implies left_rest[i] == right_rest[i] by {
        assert(one[left.len() + 1 + i] == left_rest[i]);
        assert(other[right.len() + 1 + i] == right_rest[i]);
    }
    assert(left_rest =~= right_rest);
}

/// Jobs that were created at different times, by different processes or with different numbers have
/// different ids.
pub proof fn fresh_ids_tell_jobs_apart(
    now: u64,
    pid: u32,
    sequence: u64,
    other_now: u64,
    other_pid: u32,
    other_sequence: u64,
)
    requires
        fresh_id(now, pid, sequence) == fresh_id(other_now, other_pid, other_sequence),
    ensures
        now == other_now,
        pid == other_pid,
        sequence == other_sequence,
{
    reveal_strlit("-");
    assert("-"@ =~= seq!['-']);
    digits_are_digits(now as nat);
    digits_are_digits(pid as nat);
    digits_are_digits(sequence as nat);
    digits_are_digits(other_now as nat);
    digits_are_digits(other_pid as nat);
    digits_are_digits(other_sequence as nat);
    let a = text::digits(now as nat);
    let b = text::digits(pid as nat);
    let c = text::digits(sequence as nat);
    let x = text::digits(other_now as nat);
    let y = text::digits(other_pid as nat);
    let z = text::digits(other_sequence as nat);
    let left = a + seq!['-'] + (b + seq!['-'] + c);
    let right = x + seq!['-'] + (y + seq!['-'] + z);
    assert(fresh_id(now, pid, sequence) =~= "job-"@ + left + Seq::<char>::empty());
    assert(fresh_id(other_now, other_pid, other_sequence) =~= "job-"@ + right + Seq::<char>::empty());
    text::frames_tell_apart("job-"@, left, right, Seq::empty());
    numbers_before_dashes_match(a, x, b + seq!['-'] + c, y + seq!['-'] + z);
    numbers_before_dashes_match(b, y, c, z);
    text::digits_tell_apart(now as nat, other_now as nat);
    text::digits_tell_apart(pid as nat, other_pid as nat);
    text::digits_tell_apart(sequence as nat, other_sequence as nat);
}

} // verus!
