//! The command surface: one call for each operation of the store, each
//! answering with a value or with the text of an error.
//!
//! A front end holds the store behind a lock of its own and calls these
//! with the lock taken.

use vstd::prelude::*;

use crate::drive::{after_event, is_accepted, step_of, ProcessEvent, ProcessStep};
use crate::error::TaskError;
use crate::ident::is_task_id;
use crate::manager::{task_views, TaskManager};
use crate::model::{find, finished, has_id, next_queued, unfinished, with_status, without};
use crate::status::TaskStatus;
use crate::task::{Task, TaskView};

verus! {

/// Submits a job and answers with its identifier; see
/// [`TaskManager::create_task`].
pub fn create_task(task_manager: &mut TaskManager, video_path: String, api_key: String) -> (res:
    Result<String, String>)
    requires
        old(task_manager).wf(),
    ensures
        final(task_manager).wf(),
        match res {
            Ok(id) => {
                &&& is_task_id(id@)
                &&& !old(task_manager).issued().contains(id@)
                &&& final(task_manager)@.len() == old(task_manager)@.len() + 1
                &&& final(task_manager)@ == old(task_manager)@.push(
                    TaskView::queued(
                        id@,
                        video_path@,
                        api_key@,
                        final(task_manager)@.last().created_at,
                    ),
                )
                &&& final(task_manager).issued() == old(task_manager).issued().insert(id@)
            },
            Err(message) => {
                &&& message@ == TaskError::IdInUse.spec_message()
                &&& final(task_manager)@ == old(task_manager)@
                &&& final(task_manager).issued() == old(task_manager).issued()
            },
        },
        res is Err ==> exists|drawn: Seq<char>|
            is_task_id(drawn) && #[trigger] old(task_manager).issued().contains(drawn),
{
    match task_manager.create_task(video_path, api_key) {
        Ok(id) => Ok(id),
        Err(refusal) => Err(refusal.message()),
    }
}

/// Answers with a copy of the record of the job `task_id`, or with `None`
/// if there is no such job.
pub fn get_task(task_manager: &TaskManager, task_id: String) -> (res: Result<Option<Task>, String>)
    requires
        task_manager.wf(),
    ensures
        match res {
            Ok(Some(task)) => find(task_manager@, task_id@) == Some(task@) && task@.wf(),
            Ok(None) => find(task_manager@, task_id@) is None,
            Err(_) => false,
        },
{
    Ok(task_manager.get_task(task_id.as_str()))
}

/// Answers with copies of all records, oldest job first.
pub fn get_all_tasks(task_manager: &TaskManager) -> (res: Result<Vec<Task>, String>)
    ensures
        match res {
            Ok(all) => task_views(all@) == task_manager@,
            Err(_) => false,
        },
{
    Ok(task_manager.get_all_tasks())
}

/// Takes one step of the drive of the job `task_id`; see
/// [`TaskManager::process_task`].
pub fn process_task(task_manager: &mut TaskManager, task_id: String, event: ProcessEvent) -> (step:
    ProcessStep)
    requires
        old(task_manager).wf(),
    ensures
        final(task_manager).wf(),
        final(task_manager).issued() == old(task_manager).issued(),
        step@ == step_of(old(task_manager)@, task_id@, event@),
        is_accepted(old(task_manager)@, task_id@, event@) ==> find(
            final(task_manager)@,
            task_id@,
        ) is Some && final(task_manager)@ == after_event(
            old(task_manager)@,
            task_id@,
            event@,
            find(final(task_manager)@, task_id@).unwrap().updated_at,
        ),
        !is_accepted(old(task_manager)@, task_id@, event@) ==> final(task_manager)@ == old(
            task_manager
        )@,
{
    task_manager.process_task(task_id.as_str(), event)
}

/// Answers with copies of the records of the queued jobs, oldest first.
pub fn get_queued_tasks(task_manager: &TaskManager) -> (res: Result<Vec<Task>, String>)
    ensures
        match res {
            Ok(chosen) => task_views(chosen@) == with_status(task_manager@, TaskStatus::Queued),
            Err(_) => false,
        },
{
    Ok(task_manager.get_tasks_by_status(TaskStatus::Queued))
}

/// Answers with copies of the records of the jobs that are being processed,
/// oldest first.
pub fn get_processing_tasks(task_manager: &TaskManager) -> (res: Result<Vec<Task>, String>)
    ensures
        match res {
            Ok(chosen) => task_views(chosen@) == with_status(
                task_manager@,
                TaskStatus::Processing,
            ),
            Err(_) => false,
        },
{
    Ok(task_manager.get_tasks_by_status(TaskStatus::Processing))
}

/// Answers with copies of the records of the completed jobs, oldest first.
pub fn get_completed_tasks(task_manager: &TaskManager) -> (res: Result<Vec<Task>, String>)
    ensures
        match res {
            Ok(chosen) => task_views(chosen@) == with_status(
                task_manager@,
                TaskStatus::Completed,
            ),
            Err(_) => false,
        },
{
    Ok(task_manager.get_tasks_by_status(TaskStatus::Completed))
}

/// Answers with copies of the records of the failed jobs, oldest first.
pub fn get_failed_tasks(task_manager: &TaskManager) -> (res: Result<Vec<Task>, String>)
    ensures
        match res {
            Ok(chosen) => task_views(chosen@) == with_status(task_manager@, TaskStatus::Failed),
            Err(_) => false,
        },
{
    Ok(task_manager.get_tasks_by_status(TaskStatus::Failed))
}

/// Removes the job `task_id` and answers whether there was such a job.
pub fn remove_task(task_manager: &mut TaskManager, task_id: String) -> (res: Result<bool, String>)
    requires
        old(task_manager).wf(),
    ensures
        final(task_manager).wf(),
        final(task_manager).issued() == old(task_manager).issued(),
        res == Ok::<bool, String>(has_id(old(task_manager)@, task_id@)),
        final(task_manager)@ == without(old(task_manager)@, task_id@),
        !has_id(old(task_manager)@, task_id@) ==> final(task_manager)@ == old(task_manager)@,
{
    Ok(task_manager.remove_task(task_id.as_str()))
}

/// Removes every job that is `Completed` or `Failed` and answers with their
/// number.
pub fn clear_completed_tasks(task_manager: &mut TaskManager) -> (res: Result<usize, String>)
    requires
        old(task_manager).wf(),
    ensures
        final(task_manager).wf(),
        final(task_manager).issued() == old(task_manager).issued(),
        final(task_manager)@ == unfinished(old(task_manager)@),
        res == Ok::<usize, String>(finished(old(task_manager)@).len() as usize),
        finished(old(task_manager)@).len() == old(task_manager)@.len() - final(task_manager)@.len(),
{
    Ok(task_manager.clear_completed_tasks())
}

/// Answers with the identifier of the job that has waited longest in the
/// queue, or with `None` if no job is queued.
pub fn queue_next_task(task_manager: &TaskManager) -> (res: Result<Option<String>, String>)
    ensures
        match res {
            Ok(next) => next.deep_view() == next_queued(task_manager@),
            Err(_) => false,
        },
{
    Ok(task_manager.queue_next_task())
}

} // verus!
