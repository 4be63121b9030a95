//! The store as a mathematical value: the sequence of its job records, in
//! the order in which the jobs were created.

use vstd::prelude::*;

use crate::error::TaskError;
use crate::status::TaskStatus;
use crate::task::TaskView;
use crate::timestamp::Timestamp;

verus! {

/// Some job in `jobs` has the identifier `id`.
pub open spec fn has_id(jobs: Seq<TaskView>, id: Seq<char>) -> bool {
    exists|i: int| 0 <= i < jobs.len() && (#[trigger] jobs[i]).id == id
}

/// A place in `jobs` at which the job with the identifier `id` stands.
pub open spec fn index_of(jobs: Seq<TaskView>, id: Seq<char>) -> int {
    choose|i: int| 0 <= i < jobs.len() && (#[trigger] jobs[i]).id == id
}

/// The record that `jobs` holds under `id`, if it holds one.
pub open spec fn find(jobs: Seq<TaskView>, id: Seq<char>) -> Option<TaskView> {
    if has_id(jobs, id) {
        Some(jobs[index_of(jobs, id)])
    } else {
        None
    }
}

/// No two jobs share an identifier.
pub open spec fn distinct_ids(jobs: Seq<TaskView>) -> bool {
    forall|i: int, j: int|
        #![trigger jobs[i], jobs[j]]
        0 <= i < j < jobs.len() ==> jobs[i].id != jobs[j].id
}

/// Every record has the shape that its status asks for.
pub open spec fn all_wf(jobs: Seq<TaskView>) -> bool {
    forall|i: int| 0 <= i < jobs.len() ==> (#[trigger] jobs[i]).wf()
}

/// `jobs` with the record of the job `job.id` replaced by `job`.
pub open spec fn replaced(jobs: Seq<TaskView>, job: TaskView) -> Seq<TaskView> {
    if has_id(jobs, job.id) {
        jobs.update(index_of(jobs, job.id), job)
    } else {
        jobs
    }
}

/// What the store answers when asked to start the job `id`.
pub open spec fn begin_answer(jobs: Seq<TaskView>, id: Seq<char>) -> Result<(), TaskError> {
    match find(jobs, id) {
        None => Err(TaskError::NotFound),
        Some(job) => if job.status == TaskStatus::Queued {
            Ok(())
        } else {
            Err(TaskError::NotQueued)
        },
    }
}

/// What the store answers when asked to record the end of the job `id`.
pub open spec fn finish_answer(jobs: Seq<TaskView>, id: Seq<char>) -> Result<(), TaskError> {
    match find(jobs, id) {
        None => Err(TaskError::NotFound),
        Some(job) => if job.status == TaskStatus::Processing {
            Ok(())
        } else {
            Err(TaskError::NotProcessing)
        },
    }
}

/// The jobs after the store was asked to start the job `id` at `now`.
pub open spec fn after_begin(jobs: Seq<TaskView>, id: Seq<char>, now: Timestamp) -> Seq<
    TaskView,
> {
    match find(jobs, id) {
        Some(job) => replaced(jobs, job.started(now)),
        None => jobs,
    }
}

/// The jobs after the store was asked to record, at `now`, that the job `id`
/// succeeded with `result`.
pub open spec fn after_complete(
    jobs: Seq<TaskView>,
    id: Seq<char>,
    result: Seq<char>,
    now: Timestamp,
) -> Seq<TaskView> {
    match find(jobs, id) {
        Some(job) => replaced(jobs, job.completed(result, now)),
        None => jobs,
    }
}

/// The jobs after the store was asked to record, at `now`, that the job `id`
/// failed with `error`.
pub open spec fn after_fail(
    jobs: Seq<TaskView>,
    id: Seq<char>,
    error: Seq<char>,
    now: Timestamp,
) -> Seq<TaskView> {
    match find(jobs, id) {
        Some(job) => replaced(jobs, job.failed(error, now)),
        None => jobs,
    }
}

/// The jobs of `jobs` whose status is `status`, in their order.
pub open spec fn with_status(jobs: Seq<TaskView>, status: TaskStatus) -> Seq<TaskView> {
    jobs.filter(|job: TaskView| job.status == status)
}

/// `jobs` without the job `id`, the others in their order.
pub open spec fn without(jobs: Seq<TaskView>, id: Seq<char>) -> Seq<TaskView> {
    jobs.filter(|job: TaskView| job.id != id)
}

/// The jobs of `jobs` that have reached a terminal state, in their order.
pub open spec fn finished(jobs: Seq<TaskView>) -> Seq<TaskView> {
    jobs.filter(|job: TaskView| job.status.is_terminal())
}

/// The jobs of `jobs` that are still queued or being processed, in their
/// order.
pub open spec fn unfinished(jobs: Seq<TaskView>) -> Seq<TaskView> {
    jobs.filter(|job: TaskView| !job.status.is_terminal())
}

/// The identifier of the job that has waited longest in the queue.
pub open spec fn next_queued(jobs: Seq<TaskView>) -> Option<Seq<char>> {
    let waiting = with_status(jobs, TaskStatus::Queued);
    if waiting.len() > 0 {
        Some(waiting[0].id)
    } else {
        None
    }
}

/// Where identifiers are distinct, the place of a job is the only place at
/// which its identifier stands.
pub proof fn lemma_index_of_unique(jobs: Seq<TaskView>, i: int)
    requires
        distinct_ids(jobs),
        0 <= i < jobs.len(),
    ensures
        has_id(jobs, jobs[i].id),
        index_of(jobs, jobs[i].id) == i,
        find(jobs, jobs[i].id) == Some(jobs[i]),
{
    let id = jobs[i].id;
    let k = index_of(jobs, id);
    assert(0 <= k < jobs.len() && jobs[k].id == id);
    if k < i {
        assert(jobs[k].id != jobs[i].id);
    } else if i < k {
        assert(jobs[i].id != jobs[k].id);
    }
}

/// Replacing a record by one with the same identifier keeps the set of
/// identifiers, their distinctness and, if the new record is well formed,
/// the well-formedness of all records.
pub proof fn lemma_update_keeps_ids(jobs: Seq<TaskView>, i: int, job: TaskView)
    requires
        0 <= i < jobs.len(),
        job.id == jobs[i].id,
    ensures
        forall|id: Seq<char>| has_id(jobs.update(i, job), id) <==> has_id(jobs, id),
        distinct_ids(jobs) ==> distinct_ids(jobs.update(i, job)),
        all_wf(jobs) && job.wf() ==> all_wf(jobs.update(i, job)),
{
    let after = jobs.update(i, job);
    assert forall|id: Seq<char>| has_id(after, id) <==> has_id(jobs, id) by {
        if has_id(after, id) {
            let k = index_of(after, id);
            assert(jobs[k].id == id);
        }
        if has_id(jobs, id) {
            let k = index_of(jobs, id);
            assert(after[k].id == id);
        }
    }
    if distinct_ids(jobs) {
        assert forall|a: int, b: int| 0 <= a < b < after.len() implies after[a].id
            != after[b].id by {
            assert(jobs[a].id != jobs[b].id);
        }
    }
}

/// Filtering one element more either appends that element or changes
/// nothing.
pub proof fn lemma_filter_step<A>(s: Seq<A>, keep: spec_fn(A) -> bool, i: int)
    requires
        0 <= i < s.len(),
    ensures
        s.take(i + 1).filter(keep) == if keep(s[i]) {
            s.take(i).filter(keep).push(s[i])
        } else {
            s.take(i).filter(keep)
        },
{
    reveal(Seq::filter);
    assert(s.take(i + 1).drop_last() =~= s.take(i));
}

/// The first element that a filter keeps is the first one that passes it.
pub proof fn lemma_filter_first<A>(s: Seq<A>, keep: spec_fn(A) -> bool, i: int)
    requires
        0 <= i < s.len(),
        s.take(i).filter(keep).len() == 0,
        keep(s[i]),
    ensures
        s.filter(keep).len() > 0,
        s.filter(keep)[0] == s[i],
{
    lemma_filter_step(s, keep, i);
    assert(s =~= s.take(i + 1) + s.skip(i + 1));
    Seq::filter_distributes_over_add(s.take(i + 1), s.skip(i + 1), keep);
}

/// The first place in `s` whose element passes `keep`, or the length of `s`
/// if no element passes.
pub open spec fn first_passing<A>(s: Seq<A>, keep: spec_fn(A) -> bool) -> int
    decreases s.len(),
{
    if s.len() == 0 {
        0
    } else {
        let before = first_passing(s.drop_last(), keep);
        if before < s.len() - 1 {
            before
        } else if keep(s.last()) {
            s.len() - 1
        } else {
            s.len() as int
        }
    }
}

/// Nothing before the first passing place passes the filter, and the
/// element there passes it if the filter keeps anything at all.
pub proof fn lemma_first_passing<A>(s: Seq<A>, keep: spec_fn(A) -> bool)
    ensures
        0 <= first_passing(s, keep) <= s.len(),
        s.take(first_passing(s, keep)).filter(keep).len() == 0,
        first_passing(s, keep) < s.len() ==> keep(s[first_passing(s, keep)]),
        first_passing(s, keep) == s.len() ==> s.filter(keep).len() == 0,
        forall|i: int| 0 <= i < first_passing(s, keep) ==> !keep(#[trigger] s[i]),
    decreases s.len(),
{
    reveal(Seq::filter);
    if s.len() > 0 {
        let front = s.drop_last();
        lemma_first_passing(front, keep);
        let before = first_passing(front, keep);
        if before < front.len() {
            assert(s.take(before) =~= front.take(before));
        } else {
            assert(front.take(before) =~= front);
            assert(s.take(before) =~= front);
            if !keep(s.last()) {
                assert(s.take(s.len() as int) =~= s);
            }
        }
    } else {
        assert(s.take(0) =~= s);
    }
}

/// A filter that every element passes keeps the sequence as it is.
pub proof fn lemma_filter_all<A>(s: Seq<A>, keep: spec_fn(A) -> bool)
    requires
        forall|i: int| 0 <= i < s.len() ==> keep(#[trigger] s[i]),
    ensures
        s.filter(keep) == s,
    decreases s.len(),
{
    reveal(Seq::filter);
    if s.len() > 0 {
        lemma_filter_all(s.drop_last(), keep);
        assert(s.drop_last().push(s.last()) =~= s);
    }
}

/// Removing an identifier that no job has changes nothing.
pub proof fn lemma_without_absent(jobs: Seq<TaskView>, id: Seq<char>)
    requires
        !has_id(jobs, id),
    ensures
        without(jobs, id) == jobs,
{
    lemma_filter_all(jobs, |job: TaskView| job.id != id);
}

/// Where identifiers are distinct, removing a job's identifier takes out
/// the one record at the job's place.
pub proof fn lemma_without_present(jobs: Seq<TaskView>, i: int)
    requires
        distinct_ids(jobs),
        0 <= i < jobs.len(),
    ensures
        without(jobs, jobs[i].id) == jobs.remove(i),
    decreases jobs.len(),
{
    let id = jobs[i].id;
    let keep = |job: TaskView| job.id != id;
    let front = jobs.drop_last();
    reveal(Seq::filter);
    if i == jobs.len() - 1 {
        assert forall|k: int| 0 <= k < front.len() implies keep(#[trigger] front[k]) by {
            assert(jobs[k].id != jobs[i].id);
        }
        lemma_filter_all(front, keep);
        assert(jobs.remove(i) =~= front);
    } else {
        assert(jobs[i].id != jobs[jobs.len() - 1].id);
        assert(distinct_ids(front)) by {
            assert forall|a: int, b: int| 0 <= a < b < front.len() implies front[a].id
                != front[b].id by {
                assert(jobs[a].id != jobs[b].id);
            }
        }
        lemma_without_present(front, i);
        assert(front[i].id == id);
        assert(jobs.remove(i) =~= front.remove(i).push(jobs.last()));
    }
}

/// Filtering keeps identifiers distinct.
pub proof fn lemma_filter_keeps_distinct(jobs: Seq<TaskView>, keep: spec_fn(TaskView) -> bool)
    requires
        distinct_ids(jobs),
    ensures
        distinct_ids(jobs.filter(keep)),
    decreases jobs.len(),
{
    reveal(Seq::filter);
    if jobs.len() > 0 {
        let front = jobs.drop_last();
        let kept = front.filter(keep);
        assert(distinct_ids(front)) by {
            assert forall|a: int, b: int| 0 <= a < b < front.len() implies front[a].id
                != front[b].id by {
                assert(jobs[a].id != jobs[b].id);
            }
        }
        lemma_filter_keeps_distinct(front, keep);
        if keep(jobs.last()) {
            let after = kept.push(jobs.last());
            assert forall|a: int, b: int| 0 <= a < b < after.len() implies after[a].id
                != after[b].id by {
                if b == kept.len() {
                    assert(kept.contains(kept[a]));
                    front.lemma_filter_contains_rev(keep, kept[a]);
                    let m = choose|m: int| 0 <= m < front.len() && front[m] == kept[a];
                    assert(jobs[m].id != jobs[jobs.len() - 1].id);
                } else {
                    assert(kept[a].id != kept[b].id);
                }
            }
        }
    }
}

/// Where identifiers are distinct, a lookup in the filtered jobs gives the
/// job that the lookup in all jobs gives, provided the filter keeps it.
pub proof fn lemma_find_in_filter(
    jobs: Seq<TaskView>,
    keep: spec_fn(TaskView) -> bool,
    id: Seq<char>,
)
    requires
        distinct_ids(jobs),
    ensures
        find(jobs.filter(keep), id) == match find(jobs, id) {
            Some(job) => if keep(job) {
                Some(job)
            } else {
                None
            },
            None => None,
        },
{
    let kept = jobs.filter(keep);
    lemma_filter_keeps_distinct(jobs, keep);
    if has_id(kept, id) {
        let k = index_of(kept, id);
        lemma_index_of_unique(kept, k);
        assert(kept.contains(kept[k]));
        jobs.lemma_filter_contains_rev(keep, kept[k]);
        let m = choose|m: int| 0 <= m < jobs.len() && jobs[m] == kept[k];
        lemma_index_of_unique(jobs, m);
        jobs.lemma_filter_pred(keep, k);
    } else if has_id(jobs, id) {
        let m = index_of(jobs, id);
        lemma_index_of_unique(jobs, m);
        if keep(jobs[m]) {
            jobs.lemma_filter_contains(keep, m);
            let k = choose|k: int| 0 <= k < kept.len() && kept[k] == jobs[m];
            assert(kept[k].id == id);
        }
    }
}

/// Every job is either finished or unfinished.
pub proof fn lemma_finished_unfinished_len(jobs: Seq<TaskView>)
    ensures
        finished(jobs).len() + unfinished(jobs).len() == jobs.len(),
    decreases jobs.len(),
{
    reveal(Seq::filter);
    if jobs.len() > 0 {
        lemma_finished_unfinished_len(jobs.drop_last());
    }
}

} // verus!
