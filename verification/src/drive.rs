//! Driving one job through its lifecycle around the media pipeline.
//!
//! The pipeline itself (extracting audio, transcribing, choosing and
//! captioning screenshots) runs outside the store and takes its time. The
//! store only decides: asked to work on a job it marks the job as being
//! processed and hands out what the pipeline needs; told how the pipeline
//! ended it records the outcome. Between the two the store is free for
//! other callers.

use vstd::prelude::*;
use vstd::string::*;

use crate::error::TaskError;
use crate::manager::TaskManager;
use crate::model::{
    after_begin, after_complete, after_fail, begin_answer, find, finish_answer, index_of,
    lemma_index_of_unique,
};
use crate::task::TaskView;
use crate::timestamp::{utc_now, Timestamp};

verus! {

/// What the caller tells the store about the work on a job.
#[derive(Debug, PartialEq, Eq)]
pub enum ProcessEvent {
    /// The job is to be worked on.
    Requested,
    /// The pipeline ran to its end.
    Succeeded,
    /// A stage of the pipeline failed, with this message.
    Failed(String),
}

/// What the store tells the caller to do next.
#[derive(Debug, PartialEq, Eq)]
pub enum ProcessStep {
    /// Run the pipeline on this input, then report how it ended.
    RunPipeline { video_path: String, api_key: String },
    /// The drive is over: the summary of the finished job, or the message
    /// of what went wrong.
    Done(Result<String, String>),
}

/// A [`ProcessEvent`] as plain values.
pub enum ProcessEventView {
    Requested,
    Succeeded,
    Failed(Seq<char>),
}

/// A [`ProcessStep`] as plain values.
pub enum ProcessStepView {
    RunPipeline { video_path: Seq<char>, api_key: Seq<char> },
    Done(Result<Seq<char>, Seq<char>>),
}

impl View for ProcessEvent {
    type V = ProcessEventView;

    open spec fn view(&self) -> ProcessEventView {
        match self {
            ProcessEvent::Requested => ProcessEventView::Requested,
            ProcessEvent::Succeeded => ProcessEventView::Succeeded,
            ProcessEvent::Failed(message) => ProcessEventView::Failed(message@),
        }
    }
}

impl View for ProcessStep {
    type V = ProcessStepView;

    open spec fn view(&self) -> ProcessStepView {
        match self {
            ProcessStep::RunPipeline { video_path, api_key } => ProcessStepView::RunPipeline {
                video_path: video_path@,
                api_key: api_key@,
            },
            ProcessStep::Done(Ok(summary)) => ProcessStepView::Done(Ok(summary@)),
            ProcessStep::Done(Err(message)) => ProcessStepView::Done(Err(message@)),
        }
    }
}

/// The result recorded for a job whose pipeline ran to its end.
pub open spec fn completion_summary(video_path: Seq<char>) -> Seq<char> {
    "Transcription completed for video: "@ + video_path
}

/// What the store answers to `event` for the job `id`.
pub open spec fn step_of(jobs: Seq<TaskView>, id: Seq<char>, event: ProcessEventView)
    -> ProcessStepView {
    match event {
        ProcessEventView::Requested => match begin_answer(jobs, id) {
            Ok(_) => ProcessStepView::RunPipeline {
                video_path: find(jobs, id).unwrap().video_path,
                api_key: find(jobs, id).unwrap().api_key,
            },
            Err(refusal) => ProcessStepView::Done(Err(refusal.spec_message())),
        },
        ProcessEventView::Succeeded => match finish_answer(jobs, id) {
            Ok(_) => ProcessStepView::Done(
                Ok(completion_summary(find(jobs, id).unwrap().video_path)),
            ),
            Err(refusal) => ProcessStepView::Done(Err(refusal.spec_message())),
        },
        ProcessEventView::Failed(message) => match finish_answer(jobs, id) {
            Ok(_) => ProcessStepView::Done(Err(message)),
            Err(refusal) => ProcessStepView::Done(Err(refusal.spec_message())),
        },
    }
}

/// The jobs after the store took `event` for the job `id` at `now`.
pub open spec fn after_event(
    jobs: Seq<TaskView>,
    id: Seq<char>,
    event: ProcessEventView,
    now: Timestamp,
) -> Seq<TaskView> {
    match event {
        ProcessEventView::Requested => after_begin(jobs, id, now),
        ProcessEventView::Succeeded => match find(jobs, id) {
            Some(job) => after_complete(jobs, id, completion_summary(job.video_path), now),
            None => jobs,
        },
        ProcessEventView::Failed(message) => after_fail(jobs, id, message, now),
    }
}

/// Whether `event` changes the record of the job `id`.
pub open spec fn is_accepted(jobs: Seq<TaskView>, id: Seq<char>, event: ProcessEventView)
    -> bool {
    match event {
        ProcessEventView::Requested => begin_answer(jobs, id) is Ok,
        _ => finish_answer(jobs, id) is Ok,
    }
}

/// The summary recorded for a job on `video_path` whose pipeline ran to its
/// end.
pub fn summary_for(video_path: &str) -> (summary: String)
    ensures
        summary@ == completion_summary(video_path@),
{
    String::from_str("Transcription completed for video: ").concat(video_path)
}

impl TaskManager {
    /// Takes one step of the drive of the job `task_id`, stamped with the
    /// current time.
    ///
    /// `Requested` starts a queued job and asks for the pipeline to be run.
    /// `Succeeded` and `Failed` end a job that is being processed, as
    /// `Completed` with the summary of [`completion_summary`] or as `Failed`
    /// with the message given. An event that does not fit (no such job, or
    /// the job is in another state) ends the drive with the refusal's
    /// message and leaves the store unchanged.
    pub fn process_task(&mut self, task_id: &str, event: ProcessEvent) -> (step: ProcessStep)
        requires
            old(self).wf(),
        ensures
            final(self).wf(),
            final(self).issued() == old(self).issued(),
            step@ == step_of(old(self)@, task_id@, event@),
            is_accepted(old(self)@, task_id@, event@) ==> find(final(self)@, task_id@) is Some
                && final(self)@ == after_event(
                old(self)@,
                task_id@,
                event@,
                find(final(self)@, task_id@).unwrap().updated_at,
            ),
            !is_accepted(old(self)@, task_id@, event@) ==> final(self)@ == old(self)@,
    {
        let now = utc_now();
        let step = self.process_task_at(task_id, event, now);
        proof {
            if is_accepted(old(self)@, task_id@, event@) {
                let i = index_of(old(self)@, task_id@);
                lemma_index_of_unique(self@, i);
            }
        }
        step
    }

    /// Takes one step of the drive of the job `task_id` at `now`; see
    /// [`TaskManager::process_task`].
    pub fn process_task_at(&mut self, task_id: &str, event: ProcessEvent, now: Timestamp) -> (step:
        ProcessStep)
        requires
            old(self).wf(),
        ensures
            final(self).wf(),
            final(self).issued() == old(self).issued(),
            step@ == step_of(old(self)@, task_id@, event@),
            final(self)@ == after_event(old(self)@, task_id@, event@, now),
            !is_accepted(old(self)@, task_id@, event@) ==> final(self)@ == old(self)@,
    {
        let task = match self.get_task(task_id) {
            Some(task) => task,
            None => {
                return ProcessStep::Done(Err(TaskError::NotFound.message()));
            },
        };
        match event {
            ProcessEvent::Requested => match self.begin_processing_at(task_id, now) {
                Ok(()) => ProcessStep::RunPipeline {
                    video_path: task.video_path().to_owned(),
                    api_key: task.api_key().to_owned(),
                },
                Err(refusal) => ProcessStep::Done(Err(refusal.message())),
            },
            ProcessEvent::Succeeded => {
                let summary = summary_for(task.video_path());
                match self.complete_at(task_id, summary.clone(), now) {
                    Ok(()) => ProcessStep::Done(Ok(summary)),
                    Err(refusal) => ProcessStep::Done(Err(refusal.message())),
                }
            },
            ProcessEvent::Failed(message) => match self.fail_at(task_id, message.clone(), now) {
                Ok(()) => ProcessStep::Done(Err(message)),
                Err(refusal) => ProcessStep::Done(Err(refusal.message())),
            },
        }
    }
}

} // verus!
