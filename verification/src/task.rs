//! Job records and the transitions of their lifecycle.

use vstd::prelude::*;

use crate::ident::{is_task_id, new_task_id};
use crate::status::TaskStatus;
use crate::timestamp::{utc_now, Timestamp};

verus! {

/// What a job record holds, as plain values.
pub struct TaskView {
    pub id: Seq<char>,
    pub video_path: Seq<char>,
    pub api_key: Seq<char>,
    pub status: TaskStatus,
    pub created_at: Timestamp,
    pub updated_at: Timestamp,
    pub started_at: Option<Timestamp>,
    pub completed_at: Option<Timestamp>,
    pub result: Option<Seq<char>>,
    pub error: Option<Seq<char>>,
}

impl TaskView {
    /// The fields agree with the status: a start time from `Processing` on,
    /// a completion time in the terminal states, a result only when
    /// `Completed` and an error only when `Failed`.
    pub open spec fn wf(self) -> bool {
        match self.status {
            TaskStatus::Queued => {
                &&& self.started_at is None
                &&& self.completed_at is None
                &&& self.result is None
                &&& self.error is None
            },
            TaskStatus::Processing => {
                &&& self.started_at is Some
                &&& self.completed_at is None
                &&& self.result is None
                &&& self.error is None
            },
            TaskStatus::Completed => {
                &&& self.started_at is Some
                &&& self.completed_at is Some
                &&& self.result is Some
                &&& self.error is None
            },
            TaskStatus::Failed => {
                &&& self.started_at is Some
                &&& self.completed_at is Some
                &&& self.result is None
                &&& self.error is Some
            },
        }
    }

    /// The record of a job that has just been submitted at `now`.
    pub open spec fn queued(
        id: Seq<char>,
        video_path: Seq<char>,
        api_key: Seq<char>,
        now: Timestamp,
    ) -> TaskView {
        TaskView {
            id,
            video_path,
            api_key,
            status: TaskStatus::Queued,
            created_at: now,
            updated_at: now,
            started_at: None,
            completed_at: None,
            result: None,
            error: None,
        }
    }

    /// The record after work on the job starts at `now`. Only a queued job
    /// can start; any other record stays as it is.
    pub open spec fn started(self, now: Timestamp) -> TaskView {
        if self.status == TaskStatus::Queued {
            TaskView {
                status: TaskStatus::Processing,
                started_at: Some(now),
                updated_at: now,
                ..self
            }
        } else {
            self
        }
    }

    /// The record after the work succeeds with `result` at `now`. Only a job
    /// that is being processed can complete; any other record stays as it is.
    pub open spec fn completed(self, result: Seq<char>, now: Timestamp) -> TaskView {
        if self.status == TaskStatus::Processing {
            TaskView {
                status: TaskStatus::Completed,
                result: Some(result),
                completed_at: Some(now),
                updated_at: now,
                ..self
            }
        } else {
            self
        }
    }

    /// The record after the work fails with `error` at `now`. Only a job that
    /// is being processed can fail; any other record stays as it is.
    pub open spec fn failed(self, error: Seq<char>, now: Timestamp) -> TaskView {
        if self.status == TaskStatus::Processing {
            TaskView {
                status: TaskStatus::Failed,
                error: Some(error),
                completed_at: Some(now),
                updated_at: now,
                ..self
            }
        } else {
            self
        }
    }
}

/// One job: what was submitted, where it stands, and what became of it.
///
/// The fields are read through the accessors and change only through
/// [`Task::start_processing`], [`Task::complete`] and [`Task::fail`], so every
/// record keeps the shape that [`TaskView::wf`] describes.
#[derive(Debug)]
pub struct Task {
    id: String,
    video_path: String,
    api_key: String,
    status: TaskStatus,
    created_at: Timestamp,
    updated_at: Timestamp,
    started_at: Option<Timestamp>,
    completed_at: Option<Timestamp>,
    result: Option<String>,
    error: Option<String>,
}

impl View for Task {
    type V = TaskView;

    closed spec fn view(&self) -> TaskView {
        TaskView {
            id: self.id@,
            video_path: self.video_path@,
            api_key: self.api_key@,
            status: self.status,
            created_at: self.created_at,
            updated_at: self.updated_at,
            started_at: self.started_at,
            completed_at: self.completed_at,
            result: self.result.deep_view(),
            error: self.error.deep_view(),
        }
    }
}

impl Clone for Task {
    /// A copy that holds the same values.
    fn clone(&self) -> (copy: Self)
        ensures
            copy@ == self@,
    {
        Task {
            id: self.id.clone(),
            video_path: self.video_path.clone(),
            api_key: self.api_key.clone(),
            status: self.status,
            created_at: self.created_at,
            updated_at: self.updated_at,
            started_at: self.started_at,
            completed_at: self.completed_at,
            result: match &self.result {
                Some(text) => Some(text.clone()),
                None => None,
            },
            error: match &self.error {
                Some(text) => Some(text.clone()),
                None => None,
            },
        }
    }
}

impl Task {
    /// A new job for `video_path`, queued now under a freshly drawn
    /// identifier.
    pub fn new(video_path: String, api_key: String) -> (task: Task)
        ensures
            is_task_id(task@.id),
            task@ == TaskView::queued(task@.id, video_path@, api_key@, task@.created_at),
    {
        let id = new_task_id();
        let now = utc_now();
        Task::queued_at(id, video_path, api_key, now)
    }

    /// A new job with the given identifier, queued at `now`.
    pub fn queued_at(id: String, video_path: String, api_key: String, now: Timestamp) -> (task:
        Task)
        ensures
            task@ == TaskView::queued(id@, video_path@, api_key@, now),
    {
        Task {
            id,
            video_path,
            api_key,
            status: TaskStatus::Queued,
            created_at: now,
            updated_at: now,
            started_at: None,
            completed_at: None,
            result: None,
            error: None,
        }
    }

    /// The identifier of the job.
    pub fn id(&self) -> (id: &str)
        ensures
            id@ == self@.id,
    {
        self.id.as_str()
    }

    /// What identifies the media to work on: a path or a URI.
    pub fn video_path(&self) -> (video_path: &str)
        ensures
            video_path@ == self@.video_path,
    {
        self.video_path.as_str()
    }

    /// The credential that the pipeline presents to the remote services.
    pub fn api_key(&self) -> (api_key: &str)
        ensures
            api_key@ == self@.api_key,
    {
        self.api_key.as_str()
    }

    /// Where the job stands in its lifecycle.
    pub fn status(&self) -> (status: TaskStatus)
        ensures
            status == self@.status,
    {
        self.status
    }

    /// When the job was submitted.
    pub fn created_at(&self) -> (at: Timestamp)
        ensures
            at == self@.created_at,
    {
        self.created_at
    }

    /// When the job last changed its status, or was submitted if it never
    /// did.
    pub fn updated_at(&self) -> (at: Timestamp)
        ensures
            at == self@.updated_at,
    {
        self.updated_at
    }

    /// When work on the job started, if it has.
    pub fn started_at(&self) -> (at: Option<Timestamp>)
        ensures
            at == self@.started_at,
    {
        self.started_at
    }

    /// When the job reached a terminal state, if it has.
    pub fn completed_at(&self) -> (at: Option<Timestamp>)
        ensures
            at == self@.completed_at,
    {
        self.completed_at
    }

    /// What the work produced, once the job is `Completed`.
    pub fn result(&self) -> (result: Option<&str>)
        ensures
            match result {
                Some(text) => self@.result == Some(text@),
                None => self@.result is None,
            },
    {
        match &self.result {
            Some(text) => Some(text.as_str()),
            None => None,
        }
    }

    /// Why the work failed, once the job is `Failed`.
    pub fn error(&self) -> (error: Option<&str>)
        ensures
            match error {
                Some(text) => self@.error == Some(text@),
                None => self@.error is None,
            },
    {
        match &self.error {
            Some(text) => Some(text.as_str()),
            None => None,
        }
    }

    /// Whether this is the job with the identifier `key`.
    pub(crate) fn id_is(&self, key: &String) -> (same: bool)
        ensures
            same == (self@.id == key@),
    {
        self.id == *key
    }

    /// Starts work on a queued job, stamped with the current time. A job
    /// that is not queued stays as it is.
    pub fn start_processing(&mut self)
        ensures
            final(self)@ == old(self)@.started(final(self)@.updated_at),
    {
        let now = utc_now();
        self.start_processing_at(now);
    }

    /// Starts work on a queued job at `now`. A job that is not queued stays
    /// as it is.
    pub fn start_processing_at(&mut self, now: Timestamp)
        ensures
            final(self)@ == old(self)@.started(now),
    {
        if self.status == TaskStatus::Queued {
            self.status = TaskStatus::Processing;
            self.started_at = Some(now);
            self.updated_at = now;
        }
    }

    /// Records that the work succeeded with `result`, stamped with the
    /// current time. A job that is not being processed stays as it is.
    pub fn complete(&mut self, result: String)
        ensures
            final(self)@ == old(self)@.completed(result@, final(self)@.updated_at),
    {
        let now = utc_now();
        self.complete_at(result, now);
    }

    /// Records that the work succeeded with `result` at `now`. A job that is
    /// not being processed stays as it is.
    pub fn complete_at(&mut self, result: String, now: Timestamp)
        ensures
            final(self)@ == old(self)@.completed(result@, now),
    {
        if self.status == TaskStatus::Processing {
            self.status = TaskStatus::Completed;
            self.result = Some(result);
            self.completed_at = Some(now);
            self.updated_at = now;
        }
    }

    /// Records that the work failed with `error`, stamped with the current
    /// time. A job that is not being processed stays as it is.
    pub fn fail(&mut self, error: String)
        ensures
            final(self)@ == old(self)@.failed(error@, final(self)@.updated_at),
    {
        let now = utc_now();
        self.fail_at(error, now);
    }

    /// Records that the work failed with `error` at `now`. A job that is not
    /// being processed stays as it is.
    pub fn fail_at(&mut self, error: String, now: Timestamp)
        ensures
            final(self)@ == old(self)@.failed(error@, now),
    {
        if self.status == TaskStatus::Processing {
            self.status = TaskStatus::Failed;
            self.error = Some(error);
            self.completed_at = Some(now);
            self.updated_at = now;
        }
    }
}

} // verus!
