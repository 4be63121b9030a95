//! The store: every job that was submitted and not yet removed.

use vstd::prelude::*;

use crate::error::TaskError;
use crate::ident::{is_task_id, new_task_id};
use crate::model::{
    after_begin, after_complete, after_fail, all_wf, begin_answer, distinct_ids, find,
    finish_answer, finished, has_id, index_of, lemma_filter_first, lemma_filter_step,
    lemma_finished_unfinished_len, lemma_index_of_unique, lemma_update_keeps_ids,
    lemma_without_absent, lemma_without_present, next_queued, unfinished, with_status, without,
};
use crate::status::TaskStatus;
use crate::task::{Task, TaskView};
use crate::timestamp::{utc_now, Timestamp};

verus! {

/// The views of a sequence of records.
pub open spec fn task_views(tasks: Seq<Task>) -> Seq<TaskView> {
    tasks.map_values(|task: Task| task@)
}

/// The texts of a sequence of strings.
spec fn texts(strings: Seq<String>) -> Seq<Seq<char>> {
    strings.map_values(|s: String| s@)
}

/// The registry of jobs.
///
/// It keeps the jobs in the order in which they were created and remembers
/// the identifier of every job that it removed, so that no identifier is
/// ever handed out twice.
#[derive(Debug)]
pub struct TaskManager {
    tasks: Vec<Task>,
    retired: Vec<String>,
}

impl View for TaskManager {
    type V = Seq<TaskView>;

    /// The records of the jobs in the store, oldest first.
    closed spec fn view(&self) -> Seq<TaskView> {
        task_views(self.tasks@)
    }
}

impl Default for TaskManager {
    /// An empty store, as [`TaskManager::new`] makes it.
    fn default() -> (store: TaskManager)
        ensures
            store.wf(),
            store@ == Seq::<TaskView>::empty(),
            store.issued() == Set::<Seq<char>>::empty(),
    {
        TaskManager::new()
    }
}

impl TaskManager {
    /// Every identifier that the store has handed out: those of the jobs it
    /// holds and those of the jobs it has removed.
    pub closed spec fn issued(&self) -> Set<Seq<char>> {
        Set::new(|id: Seq<char>| has_id(self@, id) || texts(self.retired@).contains(id))
    }

    /// The store's invariant: identifiers are distinct, every record has the
    /// shape its status asks for, and the store remembers the identifiers of
    /// the jobs it holds.
    pub open spec fn wf(&self) -> bool {
        &&& distinct_ids(self@)
        &&& all_wf(self@)
        &&& forall|i: int|
            0 <= i < self@.len() ==> self.issued().contains((#[trigger] self@[i]).id)
    }

    /// A store that differs from `before` only in the record at `i`, which
    /// kept its identifier, has handed out the same identifiers.
    proof fn lemma_updated(&self, before: TaskManager, i: int)
        requires
            0 <= i < before@.len(),
            self.retired == before.retired,
            self@ == before@.update(i, self@[i]),
            self@[i].id == before@[i].id,
        ensures
            self.issued() == before.issued(),
            before.wf() && self@[i].wf() ==> self.wf(),
    {
        lemma_update_keeps_ids(before@, i, self@[i]);
        assert(self.issued() =~= before.issued());
        if before.wf() && self@[i].wf() {
            assert forall|k: int| 0 <= k < self@.len() implies self.issued().contains(
                (#[trigger] self@[k]).id,
            ) by {
                assert(before@[k].id == self@[k].id);
            }
        }
    }

    /// A store that lost the record at `i` and remembers its identifier has
    /// handed out the same identifiers, and is well formed if it was.
    proof fn lemma_retired(&self, before: TaskManager, i: int)
        requires
            0 <= i < before@.len(),
            self@ == before@.remove(i),
            texts(self.retired@) == texts(before.retired@).push(before@[i].id),
        ensures
            self.issued() == before.issued(),
            before.wf() ==> self.wf(),
    {
        let id = before@[i].id;
        let old_jobs = before@;
        let new_jobs = self@;
        let old_gone = texts(before.retired@);
        let new_gone = texts(self.retired@);
        assert forall|x: Seq<char>| self.issued().contains(x) <==> before.issued().contains(
            x,
        ) by {
            if has_id(new_jobs, x) {
                let k = index_of(new_jobs, x);
                if k < i {
                    assert(old_jobs[k].id == x);
                } else {
                    assert(old_jobs[k + 1].id == x);
                }
            }
            if new_gone.contains(x) {
                let k = choose|k: int| 0 <= k < new_gone.len() && new_gone[k] == x;
                if k < old_gone.len() {
                    assert(old_gone[k] == x);
                } else {
                    assert(old_jobs[i].id == x);
                }
            }
            if has_id(old_jobs, x) {
                let k = index_of(old_jobs, x);
                if k < i {
                    assert(new_jobs[k].id == x);
                } else if k > i {
                    assert(new_jobs[k - 1].id == x);
                } else {
                    assert(new_gone[old_gone.len() as int] == x);
                }
            }
            if old_gone.contains(x) {
                let k = choose|k: int| 0 <= k < old_gone.len() && old_gone[k] == x;
                assert(new_gone[k] == x);
            }
        }
        assert(self.issued() =~= before.issued());
        if before.wf() {
            assert forall|a: int, b: int| 0 <= a < b < new_jobs.len() implies new_jobs[a].id
                != new_jobs[b].id by {
                let a0 = if a < i { a } else { a + 1 };
                let b0 = if b < i { b } else { b + 1 };
                assert(old_jobs[a0].id != old_jobs[b0].id);
            }
            assert forall|k: int| 0 <= k < new_jobs.len() implies (#[trigger] new_jobs[k]).wf()
                && self.issued().contains(new_jobs[k].id) by {
                let k0 = if k < i { k } else { k + 1 };
                assert(old_jobs[k0] == new_jobs[k]);
                assert(old_jobs[k0].wf());
            }
        }
    }

    /// An empty store that has handed out no identifier.
    pub fn new() -> (store: TaskManager)
        ensures
            store.wf(),
            store@ == Seq::<TaskView>::empty(),
            store.issued() == Set::<Seq<char>>::empty(),
    {
        let store = TaskManager { tasks: Vec::new(), retired: Vec::new() };
        assert(store@ =~= Seq::<TaskView>::empty());
        assert(store.issued() =~= Set::<Seq<char>>::empty());
        store
    }

    /// The place of the job `key` among the tasks, if the store holds it.
    fn position(&self, key: &String) -> (place: Option<usize>)
        ensures
            match place {
                Some(i) => i < self@.len() && self@[i as int].id == key@,
                None => !has_id(self@, key@),
            },
    {
        let mut i: usize = 0;
        while i < self.tasks.len()
            invariant
                i <= self.tasks.len(),
                forall|j: int| 0 <= j < i ==> (#[trigger] self@[j]).id != key@,
            decreases self.tasks.len() - i,
        {
            if self.tasks[i].id_is(key) {
                return Some(i);
            }
            i += 1;
        }
        None
    }

    /// Whether the store has handed out the identifier `key` before.
    fn has_issued(&self, key: &String) -> (seen: bool)
        ensures
            seen == self.issued().contains(key@),
    {
        if self.position(key).is_some() {
            return true;
        }
        let mut i: usize = 0;
        while i < self.retired.len()
            invariant
                i <= self.retired.len(),
                !has_id(self@, key@),
                forall|j: int| 0 <= j < i ==> #[trigger] texts(self.retired@)[j] != key@,
            decreases self.retired.len() - i,
        {
            if self.retired[i] == *key {
                assert(texts(self.retired@)[i as int] == key@);
                return true;
            }
            i += 1;
        }
        false
    }

    /// Submits a job for `video_path`: draws an identifier, reads the clock
    /// and queues the job. Returns the identifier.
    ///
    /// The draw is random. Should it ever give an identifier that the store
    /// has handed out before, the job is refused and the store is unchanged.
    /// Nothing else refuses a job: a store that has handed out no identifier
    /// of the shape drawn, such as a new store, accepts it.
    pub fn create_task(&mut self, video_path: String, api_key: String) -> (res: Result<
        String,
        TaskError,
    >)
        requires
            old(self).wf(),
        ensures
            final(self).wf(),
            match res {
                Ok(id) => {
                    &&& is_task_id(id@)
                    &&& !old(self).issued().contains(id@)
                    &&& final(self)@.len() == old(self)@.len() + 1
                    &&& final(self)@ == old(self)@.push(
                        TaskView::queued(
                            id@,
                            video_path@,
                            api_key@,
                            final(self)@.last().created_at,
                        ),
                    )
                    &&& final(self).issued() == old(self).issued().insert(id@)
                },
                Err(e) => {
                    &&& e == TaskError::IdInUse
                    &&& final(self)@ == old(self)@
                    &&& final(self).issued() == old(self).issued()
                },
            },
            res is Err ==> exists|drawn: Seq<char>|
                is_task_id(drawn) && #[trigger] old(self).issued().contains(drawn),
    {
        let id = new_task_id();
        let ghost drawn = id@;
        let now = utc_now();
        let res = self.enqueue(id, video_path, api_key, now);
        proof {
            if res is Err {
                assert(is_task_id(drawn) && old(self).issued().contains(drawn));
            }
        }
        res
    }

    /// Queues a job for `video_path` under the identifier `id`, created at
    /// `now`, and returns the identifier. An identifier that the store has
    /// handed out before is refused, and the store is then unchanged.
    pub fn enqueue(
        &mut self,
        id: String,
        video_path: String,
        api_key: String,
        now: Timestamp,
    ) -> (res: Result<String, TaskError>)
        requires
            old(self).wf(),
        ensures
            final(self).wf(),
            match res {
                Ok(given) => {
                    &&& !old(self).issued().contains(id@)
                    &&& given@ == id@
                    &&& final(self)@ == old(self)@.push(
                        TaskView::queued(id@, video_path@, api_key@, now),
                    )
                    &&& final(self).issued() == old(self).issued().insert(id@)
                },
                Err(e) => {
                    &&& old(self).issued().contains(id@)
                    &&& e == TaskError::IdInUse
                    &&& final(self)@ == old(self)@
                    &&& final(self).issued() == old(self).issued()
                },
            },
    {
        if self.has_issued(&id) {
            return Err(TaskError::IdInUse);
        }
        let given = id.clone();
        let task = Task::queued_at(id, video_path, api_key, now);
        self.tasks.push(task);
        proof {
            let before = old(self)@;
            let after = self@;
            assert(after =~= before.push(task@));
            assert(self.issued() =~= old(self).issued().insert(given@)) by {
                assert forall|x: Seq<char>| has_id(after, x) <==> (has_id(before, x) || x
                    == given@) by {
                    if has_id(before, x) {
                        let k = index_of(before, x);
                        assert(after[k].id == x);
                    }
                    if x == given@ {
                        assert(after[before.len() as int].id == x);
                    }
                }
            }
            assert forall|i: int| 0 <= i < after.len() implies self.issued().contains(
                (#[trigger] after[i]).id,
            ) by {
                if i < before.len() {
                    assert(before[i].id == after[i].id);
                }
            }
        }
        Ok(given)
    }

    /// A copy of the record of the job `task_id`, or `None` if the store
    /// holds no such job.
    pub fn get_task(&self, task_id: &str) -> (found: Option<Task>)
        requires
            self.wf(),
        ensures
            match found {
                Some(task) => find(self@, task_id@) == Some(task@) && task@.wf(),
                None => find(self@, task_id@) is None,
            },
    {
        let key = task_id.to_owned();
        match self.position(&key) {
            Some(i) => {
                proof {
                    lemma_index_of_unique(self@, i as int);
                }
                Some(self.tasks[i].clone())
            },
            None => None,
        }
    }

    /// Copies of all records, oldest job first.
    pub fn get_all_tasks(&self) -> (all: Vec<Task>)
        ensures
            task_views(all@) == self@,
    {
        let mut all: Vec<Task> = Vec::new();
        let mut i: usize = 0;
        while i < self.tasks.len()
            invariant
                i <= self.tasks.len(),
                task_views(all@) == self@.take(i as int),
            decreases self.tasks.len() - i,
        {
            let ghost before = all@;
            all.push(self.tasks[i].clone());
            assert(task_views(all@) =~= task_views(before).push(self@[i as int]));
            assert(self@.take(i + 1) =~= self@.take(i as int).push(self@[i as int]));
            i += 1;
        }
        assert(self@.take(i as int) =~= self@);
        all
    }

    /// Copies of the records of the jobs whose status is `status`, oldest job
    /// first.
    pub fn get_tasks_by_status(&self, status: TaskStatus) -> (chosen: Vec<Task>)
        ensures
            task_views(chosen@) == with_status(self@, status),
    {
        let mut chosen: Vec<Task> = Vec::new();
        let mut i: usize = 0;
        assert(self@.take(0) =~= Seq::<TaskView>::empty());
        assert(with_status(Seq::<TaskView>::empty(), status) =~= Seq::<TaskView>::empty()) by {
            reveal(Seq::filter);
        }
        while i < self.tasks.len()
            invariant
                i <= self.tasks.len(),
                task_views(chosen@) == with_status(self@.take(i as int), status),
            decreases self.tasks.len() - i,
        {
            proof {
                lemma_filter_step(self@, |job: TaskView| job.status == status, i as int);
            }
            if self.tasks[i].status() == status {
                chosen.push(self.tasks[i].clone());
                assert(task_views(chosen@) =~= with_status(self@.take(i as int), status).push(
                    self@[i as int],
                ));
            }
            i += 1;
        }
        assert(self@.take(i as int) =~= self@);
        chosen
    }

    /// The identifier of the job that has waited longest in the queue, or
    /// `None` if no job is queued. The job stays queued.
    pub fn queue_next_task(&self) -> (next: Option<String>)
        ensures
            next.deep_view() == next_queued(self@),
    {
        let mut i: usize = 0;
        assert(self@.take(0) =~= Seq::<TaskView>::empty());
        assert(with_status(Seq::<TaskView>::empty(), TaskStatus::Queued) =~= Seq::<
            TaskView,
        >::empty()) by {
            reveal(Seq::filter);
        }
        while i < self.tasks.len()
            invariant
                i <= self.tasks.len(),
                with_status(self@.take(i as int), TaskStatus::Queued).len() == 0,
            decreases self.tasks.len() - i,
        {
            if self.tasks[i].status() == TaskStatus::Queued {
                proof {
                    lemma_filter_first(
                        self@,
                        |job: TaskView| job.status == TaskStatus::Queued,
                        i as int,
                    );
                }
                return Some(self.tasks[i].id().to_owned());
            }
            proof {
                lemma_filter_step(
                    self@,
                    |job: TaskView| job.status == TaskStatus::Queued,
                    i as int,
                );
            }
            i += 1;
        }
        assert(self@.take(i as int) =~= self@);
        None
    }

    /// Starts the job `task_id` at `now`: a queued job becomes `Processing`.
    /// Refused, with the store unchanged, if there is no such job or it is
    /// not queued.
    pub fn begin_processing_at(&mut self, task_id: &str, now: Timestamp) -> (res: Result<
        (),
        TaskError,
    >)
        requires
            old(self).wf(),
        ensures
            final(self).wf(),
            final(self).issued() == old(self).issued(),
            res == begin_answer(old(self)@, task_id@),
            final(self)@ == after_begin(old(self)@, task_id@, now),
            res is Err ==> final(self)@ == old(self)@,
    {
        let key = task_id.to_owned();
        match self.position(&key) {
            None => Err(TaskError::NotFound),
            Some(i) => {
                proof {
                    lemma_index_of_unique(self@, i as int);
                }
                if self.tasks[i].status() == TaskStatus::Queued {
                    self.tasks[i].start_processing_at(now);
                    proof {
                        assert(self@ =~= old(self)@.update(i as int, self@[i as int]));
                        self.lemma_updated(*old(self), i as int);
                    }
                    Ok(())
                } else {
                    Err(TaskError::NotQueued)
                }
            },
        }
    }

    /// Starts the job `task_id`, stamped with the current time. Refused, with
    /// the store unchanged, if there is no such job or it is not queued.
    pub fn begin_processing(&mut self, task_id: &str) -> (res: Result<(), TaskError>)
        requires
            old(self).wf(),
        ensures
            final(self).wf(),
            final(self).issued() == old(self).issued(),
            res == begin_answer(old(self)@, task_id@),
            res is Ok ==> find(final(self)@, task_id@) is Some && final(self)@ == after_begin(
                old(self)@,
                task_id@,
                find(final(self)@, task_id@).unwrap().updated_at,
            ),
            res is Err ==> final(self)@ == old(self)@,
    {
        let now = utc_now();
        let res = self.begin_processing_at(task_id, now);
        proof {
            if res is Ok {
                let i = index_of(old(self)@, task_id@);
                lemma_index_of_unique(self@, i);
            }
        }
        res
    }

    /// Records at `now` that the job `task_id` succeeded with `result`: a job
    /// that is being processed becomes `Completed`. Refused, with the store
    /// unchanged, if there is no such job or it is not being processed.
    pub fn complete_at(&mut self, task_id: &str, result: String, now: Timestamp) -> (res: Result<
        (),
        TaskError,
    >)
        requires
            old(self).wf(),
        ensures
            final(self).wf(),
            final(self).issued() == old(self).issued(),
            res == finish_answer(old(self)@, task_id@),
            final(self)@ == after_complete(old(self)@, task_id@, result@, now),
            res is Err ==> final(self)@ == old(self)@,
    {
        let key = task_id.to_owned();
        match self.position(&key) {
            None => Err(TaskError::NotFound),
            Some(i) => {
                proof {
                    lemma_index_of_unique(self@, i as int);
                }
                if self.tasks[i].status() == TaskStatus::Processing {
                    self.tasks[i].complete_at(result, now);
                    proof {
                        assert(self@ =~= old(self)@.update(i as int, self@[i as int]));
                        self.lemma_updated(*old(self), i as int);
                    }
                    Ok(())
                } else {
                    Err(TaskError::NotProcessing)
                }
            },
        }
    }

    /// Records that the job `task_id` succeeded with `result`, stamped with
    /// the current time. Refused, with the store unchanged, if there is no
    /// such job or it is not being processed.
    pub fn complete(&mut self, task_id: &str, result: String) -> (res: Result<(), TaskError>)
        requires
            old(self).wf(),
        ensures
            final(self).wf(),
            final(self).issued() == old(self).issued(),
            res == finish_answer(old(self)@, task_id@),
            res is Ok ==> find(final(self)@, task_id@) is Some && final(self)@
                == after_complete(
                old(self)@,
                task_id@,
                result@,
                find(final(self)@, task_id@).unwrap().updated_at,
            ),
            res is Err ==> final(self)@ == old(self)@,
    {
        let now = utc_now();
        let res = self.complete_at(task_id, result, now);
        proof {
            if res is Ok {
                let i = index_of(old(self)@, task_id@);
                lemma_index_of_unique(self@, i);
            }
        }
        res
    }

    /// Records at `now` that the job `task_id` failed with `error`: a job
    /// that is being processed becomes `Failed`. Refused, with the store
    /// unchanged, if there is no such job or it is not being processed.
    pub fn fail_at(&mut self, task_id: &str, error: String, now: Timestamp) -> (res: Result<
        (),
        TaskError,
    >)
        requires
            old(self).wf(),
        ensures
            final(self).wf(),
            final(self).issued() == old(self).issued(),
            res == finish_answer(old(self)@, task_id@),
            final(self)@ == after_fail(old(self)@, task_id@, error@, now),
            res is Err ==> final(self)@ == old(self)@,
    {
        let key = task_id.to_owned();
        match self.position(&key) {
            None => Err(TaskError::NotFound),
            Some(i) => {
                proof {
                    lemma_index_of_unique(self@, i as int);
                }
                if self.tasks[i].status() == TaskStatus::Processing {
                    self.tasks[i].fail_at(error, now);
                    proof {
                        assert(self@ =~= old(self)@.update(i as int, self@[i as int]));
                        self.lemma_updated(*old(self), i as int);
                    }
                    Ok(())
                } else {
                    Err(TaskError::NotProcessing)
                }
            },
        }
    }

    /// Records that the job `task_id` failed with `error`, stamped with the
    /// current time. Refused, with the store unchanged, if there is no such
    /// job or it is not being processed.
    pub fn fail(&mut self, task_id: &str, error: String) -> (res: Result<(), TaskError>)
        requires
            old(self).wf(),
        ensures
            final(self).wf(),
            final(self).issued() == old(self).issued(),
            res == finish_answer(old(self)@, task_id@),
            res is Ok ==> find(final(self)@, task_id@) is Some && final(self)@ == after_fail(
                old(self)@,
                task_id@,
                error@,
                find(final(self)@, task_id@).unwrap().updated_at,
            ),
            res is Err ==> final(self)@ == old(self)@,
    {
        let now = utc_now();
        let res = self.fail_at(task_id, error, now);
        proof {
            if res is Ok {
                let i = index_of(old(self)@, task_id@);
                lemma_index_of_unique(self@, i);
            }
        }
        res
    }

    /// Removes the job `task_id`, whatever its status, and says whether
    /// there was such a job. The other jobs keep their order.
    pub fn remove_task(&mut self, task_id: &str) -> (removed: bool)
        requires
            old(self).wf(),
        ensures
            final(self).wf(),
            final(self).issued() == old(self).issued(),
            removed == has_id(old(self)@, task_id@),
            final(self)@ == without(old(self)@, task_id@),
            !removed ==> final(self)@ == old(self)@,
    {
        let key = task_id.to_owned();
        match self.position(&key) {
            None => {
                proof {
                    lemma_without_absent(self@, task_id@);
                }
                false
            },
            Some(i) => {
                self.tasks.remove(i);
                self.retired.push(key);
                proof {
                    lemma_without_present(old(self)@, i as int);
                    assert(self@ =~= old(self)@.remove(i as int));
                    assert(texts(self.retired@) =~= texts(old(self).retired@).push(task_id@));
                    self.lemma_retired(*old(self), i as int);
                }
                true
            },
        }
    }

    /// Removes every job that is `Completed` or `Failed` and returns how many
    /// were removed. Jobs that are queued or being processed stay, in their
    /// order.
    pub fn clear_completed_tasks(&mut self) -> (count: usize)
        requires
            old(self).wf(),
        ensures
            final(self).wf(),
            final(self).issued() == old(self).issued(),
            final(self)@ == unfinished(old(self)@),
            count == finished(old(self)@).len(),
            count == old(self)@.len() - final(self)@.len(),
    {
        let ghost start = *self;
        let mut i: usize = 0;
        let mut count: usize = 0;
        proof {
            reveal(Seq::filter);
            assert(start@.take(0) =~= Seq::<TaskView>::empty());
            assert(self@.take(0) =~= Seq::<TaskView>::empty());
            assert(self@.skip(0) =~= start@.skip(0));
            assert(start@.len() == self.tasks.len());
        }
        while i < self.tasks.len()
            invariant
                self.wf(),
                self.issued() == start.issued(),
                i <= self.tasks.len(),
                self@.len() == self.tasks.len(),
                count + self.tasks.len() == start@.len() <= usize::MAX,
                self@.take(i as int) == unfinished(start@.take(i + count)),
                self@.skip(i as int) == start@.skip(i + count),
                count == finished(start@.take(i + count)).len(),
            decreases self.tasks.len() - i,
        {
            let ghost prev = *self;
            proof {
                assert(self@[i as int] == self@.skip(i as int)[0]);
                assert(start@[i + count] == start@.skip(i + count)[0]);
                lemma_filter_step(
                    start@,
                    |job: TaskView| !job.status.is_terminal(),
                    i + count,
                );
                lemma_filter_step(start@, |job: TaskView| job.status.is_terminal(), i + count);
            }
            if self.tasks[i].status().is_terminal() {
                let id = self.tasks[i].id().to_owned();
                self.tasks.remove(i);
                self.retired.push(id);
                count += 1;
                proof {
                    assert(self@ =~= prev@.remove(i as int));
                    assert(texts(self.retired@) =~= texts(prev.retired@).push(
                        prev@[i as int].id,
                    ));
                    self.lemma_retired(prev, i as int);
                    assert(self@.take(i as int) =~= prev@.take(i as int));
                    assert(self@.skip(i as int) =~= prev@.skip(i as int).skip(1));
                    assert(start@.skip(i + count) =~= start@.skip(i + count - 1).skip(1));
                }
            } else {
                proof {
                    assert(self@.take(i + 1) =~= self@.take(i as int).push(self@[i as int]));
                    assert(self@.skip(i + 1) =~= self@.skip(i as int).skip(1));
                    assert(start@.skip(i + count + 1) =~= start@.skip(i + count).skip(1));
                }
                i += 1;
            }
        }
        proof {
            assert(self@.take(i as int) =~= self@);
            assert(start@.take(i + count) =~= start@);
            lemma_finished_unfinished_len(start@);
        }
        count
    }
}

} // verus!
