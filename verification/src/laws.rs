//! What holds of every job and of every store, proved from the definitions
//! of [`crate::task`] and [`crate::model`].

use vstd::prelude::*;

use crate::model::{
    after_begin, after_complete, after_fail, all_wf, begin_answer, distinct_ids, find,
    finish_answer, finished, first_passing, has_id, index_of, lemma_filter_all,
    lemma_filter_first, lemma_filter_keeps_distinct, lemma_find_in_filter,
    lemma_finished_unfinished_len, lemma_first_passing, lemma_index_of_unique,
    lemma_update_keeps_ids, lemma_without_absent, lemma_without_present, next_queued, unfinished,
    with_status, without,
};
use crate::status::TaskStatus;
use crate::task::TaskView;
use crate::timestamp::Timestamp;

verus! {

/// A job that has just been submitted is queued, carries what was
/// submitted, and has no start time, completion time, result or error.
pub proof fn law_new_job_is_queued(
    id: Seq<char>,
    video_path: Seq<char>,
    api_key: Seq<char>,
    now: Timestamp,
)
    ensures
        ({
            let job = TaskView::queued(id, video_path, api_key, now);
            &&& job.wf()
            &&& job.id == id
            &&& job.video_path == video_path
            &&& job.api_key == api_key
            &&& job.status == TaskStatus::Queued
            &&& job.created_at == now
            &&& job.updated_at == now
            &&& job.started_at is None
            &&& job.completed_at is None
            &&& job.result is None
            &&& job.error is None
        }),
{
}

/// In a well-formed record the fields follow the status. A start time is
/// there exactly from `Processing` on and a completion time exactly in the
/// terminal states; a result is there exactly when the job is `Completed`
/// and an error exactly when it is `Failed`, so never both. No record shows
/// a transition half applied.
pub proof fn law_record_shape(job: TaskView)
    requires
        job.wf(),
    ensures
        job.started_at is Some <==> job.status != TaskStatus::Queued,
        job.completed_at is Some <==> job.status.is_terminal(),
        job.result is Some <==> job.status == TaskStatus::Completed,
        job.error is Some <==> job.status == TaskStatus::Failed,
        !(job.result is Some && job.error is Some),
{
}

/// Every transition takes a well-formed record to a well-formed record.
pub proof fn law_transitions_keep_records_well_formed(
    job: TaskView,
    text: Seq<char>,
    now: Timestamp,
)
    requires
        job.wf(),
    ensures
        job.started(now).wf(),
        job.completed(text, now).wf(),
        job.failed(text, now).wf(),
{
}

/// The only steps of the lifecycle are queued to processing, processing to
/// completed and processing to failed; a step stamps the record with its
/// time, and a transition that does not apply changes nothing.
pub proof fn law_lifecycle_steps(job: TaskView, text: Seq<char>, now: Timestamp)
    ensures
        job.status == TaskStatus::Queued ==> job.started(now).status == TaskStatus::Processing
            && job.started(now).updated_at == now,
        job.status != TaskStatus::Queued ==> job.started(now) == job,
        job.status == TaskStatus::Processing ==> job.completed(text, now).status
            == TaskStatus::Completed && job.completed(text, now).updated_at == now,
        job.status != TaskStatus::Processing ==> job.completed(text, now) == job,
        job.status == TaskStatus::Processing ==> job.failed(text, now).status
            == TaskStatus::Failed && job.failed(text, now).updated_at == now,
        job.status != TaskStatus::Processing ==> job.failed(text, now) == job,
{
}

/// No transition leaves a terminal state.
pub proof fn law_terminal_states_are_final(job: TaskView, text: Seq<char>, now: Timestamp)
    requires
        job.status.is_terminal(),
    ensures
        job.started(now) == job,
        job.completed(text, now) == job,
        job.failed(text, now) == job,
{
}

/// No transition changes the identifier, what was submitted or the time of
/// submission, and a start time or completion time, once set, stays.
pub proof fn law_history_is_kept(job: TaskView, text: Seq<char>, now: Timestamp)
    requires
        job.wf(),
    ensures
        forall|next: TaskView|
            next == job.started(now) || next == job.completed(text, now) || next == job.failed(
                text,
                now,
            ) ==> {
                &&& next.id == job.id
                &&& next.video_path == job.video_path
                &&& next.api_key == job.api_key
                &&& next.created_at == job.created_at
                &&& (job.started_at is Some ==> next.started_at == job.started_at)
                &&& (job.completed_at is Some ==> next.completed_at == job.completed_at)
                &&& (job.result is Some ==> next.result == job.result)
                &&& (job.error is Some ==> next.error == job.error)
            },
{
}

/// A queued job that is started at `started` and then completed with
/// `result` at `ended` is `Completed`, holds that result and no error, and
/// holds both times.
pub proof fn law_start_then_complete(
    job: TaskView,
    result: Seq<char>,
    started: Timestamp,
    ended: Timestamp,
)
    requires
        job.wf(),
        job.status == TaskStatus::Queued,
    ensures
        ({
            let done = job.started(started).completed(result, ended);
            &&& done.wf()
            &&& done.status == TaskStatus::Completed
            &&& done.result == Some(result)
            &&& done.error is None
            &&& done.started_at == Some(started)
            &&& done.completed_at == Some(ended)
            &&& done.updated_at == ended
        }),
{
}

/// A queued job that is started at `started` and then failed with `error`
/// at `ended` is `Failed`, holds that error and no result, and holds both
/// times.
pub proof fn law_start_then_fail(
    job: TaskView,
    error: Seq<char>,
    started: Timestamp,
    ended: Timestamp,
)
    requires
        job.wf(),
        job.status == TaskStatus::Queued,
    ensures
        ({
            let done = job.started(started).failed(error, ended);
            &&& done.wf()
            &&& done.status == TaskStatus::Failed
            &&& done.error == Some(error)
            &&& done.result is None
            &&& done.started_at == Some(started)
            &&& done.completed_at == Some(ended)
            &&& done.updated_at == ended
        }),
{
}

/// Looking a job up gives a record of the store with the identifier asked
/// for, and gives nothing exactly when no job has that identifier.
pub proof fn law_find(jobs: Seq<TaskView>, id: Seq<char>)
    ensures
        find(jobs, id) is None <==> !has_id(jobs, id),
        find(jobs, id) matches Some(job) ==> job.id == id && jobs.contains(job),
        all_wf(jobs) ==> (find(jobs, id) matches Some(job) ==> job.wf()),
{
}

/// What a lookup gives after the record at `i` was replaced by one with the
/// same identifier: the new record for that identifier, the old answer for
/// every other.
pub proof fn law_find_after_update(jobs: Seq<TaskView>, i: int, job: TaskView, id: Seq<char>)
    requires
        distinct_ids(jobs),
        0 <= i < jobs.len(),
        job.id == jobs[i].id,
    ensures
        find(jobs.update(i, job), id) == if id == job.id {
            Some(job)
        } else {
            find(jobs, id)
        },
{
    let after = jobs.update(i, job);
    lemma_update_keeps_ids(jobs, i, job);
    if id == job.id {
        lemma_index_of_unique(after, i);
    } else if has_id(jobs, id) {
        let k = index_of(jobs, id);
        lemma_index_of_unique(jobs, k);
        lemma_index_of_unique(after, k);
    }
}

/// A job queued under an identifier that no job of the store has is found
/// under that identifier, queued, and every other job is found as before.
pub proof fn law_created_job_is_queued(
    jobs: Seq<TaskView>,
    id: Seq<char>,
    video_path: Seq<char>,
    api_key: Seq<char>,
    now: Timestamp,
    other: Seq<char>,
)
    requires
        distinct_ids(jobs),
        !has_id(jobs, id),
    ensures
        ({
            let job = TaskView::queued(id, video_path, api_key, now);
            let after = jobs.push(job);
            &&& distinct_ids(after)
            &&& after.len() == jobs.len() + 1
            &&& find(after, id) == Some(job)
            &&& job.status == TaskStatus::Queued
            &&& other != id ==> find(after, other) == find(jobs, other)
        }),
{
    let job = TaskView::queued(id, video_path, api_key, now);
    let after = jobs.push(job);
    assert(distinct_ids(after)) by {
        assert forall|a: int, b: int| 0 <= a < b < after.len() implies after[a].id
            != after[b].id by {
            if b == jobs.len() {
                assert(jobs[a].id != id);
            } else {
                assert(jobs[a].id != jobs[b].id);
            }
        }
    }
    lemma_index_of_unique(after, jobs.len() as int);
    if other != id {
        if has_id(jobs, other) {
            let k = index_of(jobs, other);
            lemma_index_of_unique(jobs, k);
            lemma_index_of_unique(after, k);
        } else if has_id(after, other) {
            let k = index_of(after, other);
            assert(jobs[k].id == other);
        }
    }
}

/// The identifiers handed out once the first `count` jobs of `created` have
/// been accepted in turn by a store that had handed out `issued`.
pub open spec fn issued_after(issued: Set<Seq<char>>, created: Seq<TaskView>, count: int) -> Set<
    Seq<char>,
>
    decreases count,
{
    if count <= 0 {
        issued
    } else {
        issued_after(issued, created, count - 1).insert(created[count - 1].id)
    }
}

/// An identifier has been handed out after `count` jobs if it had been
/// handed out before or is that of one of the jobs.
proof fn lemma_issued_after(
    issued: Set<Seq<char>>,
    created: Seq<TaskView>,
    count: int,
    id: Seq<char>,
)
    requires
        0 <= count <= created.len(),
    ensures
        issued_after(issued, created, count).contains(id) <==> issued.contains(id) || exists|
            j: int,
        | 0 <= j < count && (#[trigger] created[j]).id == id,
    decreases count,
{
    if count > 0 {
        lemma_issued_after(issued, created, count - 1, id);
        if created[count - 1].id == id {
            assert(created[count - 1].id == id);
        }
    }
}

/// However many jobs are created one after another, each accepted because
/// its identifier had not been handed out when it came, their identifiers
/// differ from one another and from those of the jobs that were there. The
/// store holds one record more for each, none of the earlier records is
/// lost, and each job is found under its own identifier.
pub proof fn law_created_jobs_are_distinct(
    jobs: Seq<TaskView>,
    issued: Set<Seq<char>>,
    created: Seq<TaskView>,
)
    requires
        distinct_ids(jobs),
        forall|i: int| 0 <= i < jobs.len() ==> issued.contains((#[trigger] jobs[i]).id),
        forall|k: int|
            0 <= k < created.len() ==> !issued_after(issued, created, k).contains(
                (#[trigger] created[k]).id,
            ),
    ensures
        forall|j: int, k: int|
            #![trigger created[j], created[k]]
            0 <= j < k < created.len() ==> created[j].id != created[k].id,
        distinct_ids(jobs + created),
        (jobs + created).len() == jobs.len() + created.len(),
        forall|k: int|
            0 <= k < created.len() ==> find(jobs + created, (#[trigger] created[k]).id) == Some(
                created[k],
            ),
        forall|i: int|
            0 <= i < jobs.len() ==> find(jobs + created, (#[trigger] jobs[i]).id) == Some(jobs[i]),
{
    let all = jobs + created;
    assert forall|a: int, b: int| 0 <= a < b < all.len() implies all[a].id != all[b].id by {
        if b >= jobs.len() {
            let k = b - jobs.len();
            lemma_issued_after(issued, created, k, all[a].id);
            assert(!issued_after(issued, created, k).contains(created[k].id));
            if a >= jobs.len() {
                assert(created[a - jobs.len()].id == all[a].id);
            } else {
                assert(issued.contains(jobs[a].id));
            }
        } else {
            assert(jobs[a].id != jobs[b].id);
        }
    }
    assert forall|j: int, k: int| 0 <= j < k < created.len() implies created[j].id
        != created[k].id by {
        assert(all[jobs.len() + j].id != all[jobs.len() + k].id);
    }
    assert forall|k: int| 0 <= k < created.len() implies find(
        all,
        (#[trigger] created[k]).id,
    ) == Some(created[k]) by {
        lemma_index_of_unique(all, jobs.len() + k);
    }
    assert forall|i: int| 0 <= i < jobs.len() implies find(all, (#[trigger] jobs[i]).id)
        == Some(jobs[i]) by {
        lemma_index_of_unique(all, i);
    }
}

/// Starting a queued job of the store at `started` and then completing it
/// with `result` at `ended` is accepted both times, and the job is then
/// found `Completed` with that result, no error and both times set.
pub proof fn law_begin_then_complete(
    jobs: Seq<TaskView>,
    id: Seq<char>,
    result: Seq<char>,
    started: Timestamp,
    ended: Timestamp,
)
    requires
        distinct_ids(jobs),
        all_wf(jobs),
        begin_answer(jobs, id) is Ok,
    ensures
        ({
            let begun = after_begin(jobs, id, started);
            let ended_jobs = after_complete(begun, id, result, ended);
            &&& finish_answer(begun, id) is Ok
            &&& find(ended_jobs, id) matches Some(job)
            &&& job.status == TaskStatus::Completed
            &&& job.result == Some(result)
            &&& job.error is None
            &&& job.started_at == Some(started)
            &&& job.completed_at == Some(ended)
        }),
{
    let i = index_of(jobs, id);
    lemma_index_of_unique(jobs, i);
    let begun = after_begin(jobs, id, started);
    law_find_after_update(jobs, i, jobs[i].started(started), id);
    lemma_update_keeps_ids(jobs, i, jobs[i].started(started));
    lemma_index_of_unique(begun, i);
    law_find_after_update(begun, i, begun[i].completed(result, ended), id);
}

/// Starting a queued job of the store at `started` and then failing it with
/// `error` at `ended` is accepted both times, and the job is then found
/// `Failed` with that error, no result and both times set.
pub proof fn law_begin_then_fail(
    jobs: Seq<TaskView>,
    id: Seq<char>,
    error: Seq<char>,
    started: Timestamp,
    ended: Timestamp,
)
    requires
        distinct_ids(jobs),
        all_wf(jobs),
        begin_answer(jobs, id) is Ok,
    ensures
        ({
            let begun = after_begin(jobs, id, started);
            let ended_jobs = after_fail(begun, id, error, ended);
            &&& finish_answer(begun, id) is Ok
            &&& find(ended_jobs, id) matches Some(job)
            &&& job.status == TaskStatus::Failed
            &&& job.error == Some(error)
            &&& job.result is None
            &&& job.started_at == Some(started)
            &&& job.completed_at == Some(ended)
        }),
{
    let i = index_of(jobs, id);
    lemma_index_of_unique(jobs, i);
    let begun = after_begin(jobs, id, started);
    law_find_after_update(jobs, i, jobs[i].started(started), id);
    lemma_update_keeps_ids(jobs, i, jobs[i].started(started));
    lemma_index_of_unique(begun, i);
    law_find_after_update(begun, i, begun[i].failed(error, ended), id);
}

/// A transition of the store touches one job only: the job named is found
/// afterwards with the transition applied to its record, and every other
/// job is found as before. No job appears or disappears.
pub proof fn law_transition_touches_one_job(
    jobs: Seq<TaskView>,
    id: Seq<char>,
    text: Seq<char>,
    now: Timestamp,
    other: Seq<char>,
)
    requires
        distinct_ids(jobs),
    ensures
        find(after_begin(jobs, id, now), other) == match find(jobs, other) {
            Some(job) => Some(if other == id { job.started(now) } else { job }),
            None => None,
        },
        find(after_complete(jobs, id, text, now), other) == match find(jobs, other) {
            Some(job) => Some(if other == id { job.completed(text, now) } else { job }),
            None => None,
        },
        find(after_fail(jobs, id, text, now), other) == match find(jobs, other) {
            Some(job) => Some(if other == id { job.failed(text, now) } else { job }),
            None => None,
        },
        after_begin(jobs, id, now).len() == jobs.len(),
        after_complete(jobs, id, text, now).len() == jobs.len(),
        after_fail(jobs, id, text, now).len() == jobs.len(),
{
    if has_id(jobs, id) {
        let i = index_of(jobs, id);
        lemma_index_of_unique(jobs, i);
        law_find_after_update(jobs, i, jobs[i].started(now), other);
        law_find_after_update(jobs, i, jobs[i].completed(text, now), other);
        law_find_after_update(jobs, i, jobs[i].failed(text, now), other);
    }
}

/// The job named as next in the queue is a queued job of the store, and no
/// queued job was created before it. No job is named exactly when no job
/// is queued.
pub proof fn law_next_queued(jobs: Seq<TaskView>)
    requires
        distinct_ids(jobs),
    ensures
        match next_queued(jobs) {
            Some(id) => {
                &&& find(jobs, id) matches Some(job)
                &&& job.status == TaskStatus::Queued
                &&& forall|i: int|
                    0 <= i < index_of(jobs, id) ==> (#[trigger] jobs[i]).status
                        != TaskStatus::Queued
            },
            None => forall|i: int|
                0 <= i < jobs.len() ==> (#[trigger] jobs[i]).status != TaskStatus::Queued,
        },
{
    let keep = |job: TaskView| job.status == TaskStatus::Queued;
    let waiting = jobs.filter(keep);
    if waiting.len() > 0 {
        let first = first_passing(jobs, keep);
        lemma_first_passing(jobs, keep);
        lemma_filter_first(jobs, keep, first);
        lemma_index_of_unique(jobs, first);
    } else {
        assert forall|i: int| 0 <= i < jobs.len() implies (#[trigger] jobs[i]).status
            != TaskStatus::Queued by {
            if keep(jobs[i]) {
                jobs.lemma_filter_contains(keep, i);
            }
        }
    }
}

/// Where the clock did not go back between the start of a job and its end,
/// the job's completion time is not before its start time.
pub proof fn law_completion_not_before_start(
    job: TaskView,
    text: Seq<char>,
    started: Timestamp,
    ended: Timestamp,
)
    requires
        job.status == TaskStatus::Queued,
        ended.not_before(started),
    ensures
        ({
            let done = job.started(started).completed(text, ended);
            done.completed_at.unwrap().not_before(done.started_at.unwrap())
        }),
        ({
            let done = job.started(started).failed(text, ended);
            done.completed_at.unwrap().not_before(done.started_at.unwrap())
        }),
{
}

/// The jobs listed for a status are exactly the jobs of the store that have
/// that status: each of them and no other, each once.
pub proof fn law_listing_by_status(jobs: Seq<TaskView>, status: TaskStatus, job: TaskView)
    ensures
        with_status(jobs, status).contains(job) <==> jobs.contains(job) && job.status == status,
        with_status(jobs, status).len() <= jobs.len(),
        distinct_ids(jobs) ==> distinct_ids(with_status(jobs, status)),
{
    let keep = |job: TaskView| job.status == status;
    let chosen = jobs.filter(keep);
    jobs.lemma_filter_len(keep);
    if chosen.contains(job) {
        jobs.lemma_filter_contains_rev(keep, job);
        let k = choose|k: int| 0 <= k < chosen.len() && chosen[k] == job;
        jobs.lemma_filter_pred(keep, k);
    }
    if jobs.contains(job) && job.status == status {
        let m = choose|m: int| 0 <= m < jobs.len() && jobs[m] == job;
        jobs.lemma_filter_contains(keep, m);
    }
    if distinct_ids(jobs) {
        lemma_filter_keeps_distinct(jobs, keep);
    }
}

/// After a job was removed it is no longer found, every other job is found
/// as before, and removing a job that the store does not hold changes
/// nothing.
pub proof fn law_remove(jobs: Seq<TaskView>, id: Seq<char>, other: Seq<char>)
    requires
        distinct_ids(jobs),
    ensures
        find(without(jobs, id), id) is None,
        other != id ==> find(without(jobs, id), other) == find(jobs, other),
        distinct_ids(without(jobs, id)),
        has_id(jobs, id) ==> without(jobs, id).len() == jobs.len() - 1,
        !has_id(jobs, id) ==> without(jobs, id) == jobs,
{
    let keep = |job: TaskView| job.id != id;
    lemma_find_in_filter(jobs, keep, id);
    lemma_find_in_filter(jobs, keep, other);
    lemma_filter_keeps_distinct(jobs, keep);
    if has_id(jobs, id) {
        lemma_without_present(jobs, index_of(jobs, id));
    } else {
        lemma_without_absent(jobs, id);
    }
}

/// Clearing removes the jobs that are `Completed` or `Failed`, all of them
/// and no others: afterwards a lookup gives what it gave before for a job
/// that is queued or being processed, and nothing for any other. The number
/// of jobs removed is the number of finished jobs.
pub proof fn law_clear(jobs: Seq<TaskView>, id: Seq<char>)
    requires
        distinct_ids(jobs),
    ensures
        find(unfinished(jobs), id) == match find(jobs, id) {
            Some(job) => if job.status.is_terminal() {
                None
            } else {
                Some(job)
            },
            None => None,
        },
        distinct_ids(unfinished(jobs)),
        jobs.len() - unfinished(jobs).len() == finished(jobs).len(),
        unfinished(unfinished(jobs)) == unfinished(jobs),
{
    let keep = |job: TaskView| !job.status.is_terminal();
    lemma_find_in_filter(jobs, keep, id);
    lemma_filter_keeps_distinct(jobs, keep);
    lemma_finished_unfinished_len(jobs);
    assert forall|i: int| 0 <= i < unfinished(jobs).len() implies keep(
        #[trigger] unfinished(jobs)[i],
    ) by {
        jobs.lemma_filter_pred(keep, i);
    }
    lemma_filter_all(unfinished(jobs), keep);
}

} // verus!
