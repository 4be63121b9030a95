use task_store::{Task, TaskStatus, Timestamp};

fn at(secs: i64) -> Timestamp {
    Timestamp { secs, nanos: 0 }
}

fn sample(now: Timestamp) -> Task {
    Task::queued_at(
        String::from("job-1"),
        String::from("clip.mp4"),
        String::from("key-123"),
        now,
    )
}

#[test]
fn terminal_states_are_completed_and_failed() {
    assert!(!TaskStatus::Queued.is_terminal());
    assert!(!TaskStatus::Processing.is_terminal());
    assert!(TaskStatus::Completed.is_terminal());
    assert!(TaskStatus::Failed.is_terminal());
}

#[test]
fn not_before_orders_by_seconds_then_nanoseconds() {
    let a = Timestamp { secs: 10, nanos: 500 };
    let b = Timestamp { secs: 10, nanos: 499 };
    let c = Timestamp { secs: 11, nanos: 0 };
    let d = Timestamp { secs: -1, nanos: 999_999_999 };
    assert!(a.not_before(a));
    assert!(a.not_before(b));
    assert!(!b.not_before(a));
    assert!(c.not_before(a));
    assert!(!a.not_before(c));
    assert!(a.not_before(d));
    assert!(!d.not_before(a));
}

#[test]
fn queued_job_has_no_times_result_or_error() {
    let task = sample(at(100));
    assert_eq!(task.id(), "job-1");
    assert_eq!(task.video_path(), "clip.mp4");
    assert_eq!(task.api_key(), "key-123");
    assert_eq!(task.status(), TaskStatus::Queued);
    assert_eq!(task.created_at(), at(100));
    assert_eq!(task.updated_at(), at(100));
    assert_eq!(task.started_at(), None);
    assert_eq!(task.completed_at(), None);
    assert_eq!(task.result(), None);
    assert_eq!(task.error(), None);
}

#[test]
fn new_job_is_queued_under_a_uuid() {
    let task = Task::new(String::from("clip.mp4"), String::from("key-123"));
    assert_eq!(task.status(), TaskStatus::Queued);
    assert_eq!(task.video_path(), "clip.mp4");
    assert_eq!(task.api_key(), "key-123");
    assert_eq!(task.created_at(), task.updated_at());
    assert_eq!(task.started_at(), None);
    assert_eq!(task.completed_at(), None);
    assert_eq!(task.result(), None);
    assert_eq!(task.error(), None);
    let id: Vec<char> = task.id().chars().collect();
    assert_eq!(id.len(), 36);
    for (i, c) in id.iter().enumerate() {
        if i == 8 || i == 13 || i == 18 || i == 23 {
            assert_eq!(*c, '-');
        } else {
            assert!(matches!(*c, '0'..='9' | 'a'..='f'));
        }
    }
    assert_eq!(id[14], '4');
    assert!(matches!(id[19], '8' | '9' | 'a' | 'b'));
}

#[test]
fn two_new_jobs_have_different_ids() {
    let a = Task::new(String::from("a.mp4"), String::from("k"));
    let b = Task::new(String::from("a.mp4"), String::from("k"));
    assert_ne!(a.id(), b.id());
}

#[test]
fn start_then_complete_sets_result_and_both_times() {
    let mut task = sample(at(100));
    task.start_processing_at(at(110));
    assert_eq!(task.status(), TaskStatus::Processing);
    assert_eq!(task.started_at(), Some(at(110)));
    assert_eq!(task.updated_at(), at(110));
    assert_eq!(task.completed_at(), None);
    assert_eq!(task.result(), None);
    assert_eq!(task.error(), None);

    task.complete_at(String::from("3 segments, 2 screenshots"), at(125));
    assert_eq!(task.status(), TaskStatus::Completed);
    assert_eq!(task.result(), Some("3 segments, 2 screenshots"));
    assert_eq!(task.error(), None);
    assert_eq!(task.started_at(), Some(at(110)));
    assert_eq!(task.completed_at(), Some(at(125)));
    assert_eq!(task.updated_at(), at(125));
    assert_eq!(task.created_at(), at(100));
    assert!(task.completed_at().unwrap().not_before(task.started_at().unwrap()));
}

#[test]
fn start_then_fail_sets_error_and_no_result() {
    let mut task = sample(at(100));
    task.start_processing_at(at(110));
    task.fail_at(String::from("FFmpeg failed: no such file"), at(111));
    assert_eq!(task.status(), TaskStatus::Failed);
    assert_eq!(task.error(), Some("FFmpeg failed: no such file"));
    assert_eq!(task.result(), None);
    assert_eq!(task.started_at(), Some(at(110)));
    assert_eq!(task.completed_at(), Some(at(111)));
    assert_eq!(task.updated_at(), at(111));
}

#[test]
fn queued_job_cannot_complete_or_fail() {
    let mut task = sample(at(100));
    task.complete_at(String::from("early"), at(105));
    assert_eq!(task.status(), TaskStatus::Queued);
    assert_eq!(task.result(), None);
    assert_eq!(task.completed_at(), None);
    assert_eq!(task.updated_at(), at(100));
    task.fail_at(String::from("early"), at(106));
    assert_eq!(task.status(), TaskStatus::Queued);
    assert_eq!(task.error(), None);
    assert_eq!(task.completed_at(), None);
    assert_eq!(task.updated_at(), at(100));
}

#[test]
fn start_time_is_set_once() {
    let mut task = sample(at(100));
    task.start_processing_at(at(110));
    task.start_processing_at(at(120));
    assert_eq!(task.status(), TaskStatus::Processing);
    assert_eq!(task.started_at(), Some(at(110)));
    assert_eq!(task.updated_at(), at(110));
}

#[test]
fn terminal_job_does_not_change() {
    let mut done = sample(at(100));
    done.start_processing_at(at(110));
    done.complete_at(String::from("ok"), at(120));
    done.start_processing_at(at(130));
    done.fail_at(String::from("late"), at(131));
    done.complete_at(String::from("again"), at(132));
    assert_eq!(done.status(), TaskStatus::Completed);
    assert_eq!(done.result(), Some("ok"));
    assert_eq!(done.error(), None);
    assert_eq!(done.started_at(), Some(at(110)));
    assert_eq!(done.completed_at(), Some(at(120)));
    assert_eq!(done.updated_at(), at(120));

    let mut failed = sample(at(100));
    failed.start_processing_at(at(110));
    failed.fail_at(String::from("boom"), at(120));
    failed.complete_at(String::from("late"), at(130));
    failed.start_processing_at(at(131));
    assert_eq!(failed.status(), TaskStatus::Failed);
    assert_eq!(failed.error(), Some("boom"));
    assert_eq!(failed.result(), None);
    assert_eq!(failed.completed_at(), Some(at(120)));
}

#[test]
fn clock_stamped_transitions_run_the_lifecycle() {
    let mut task = Task::new(String::from("clip.mp4"), String::from("k"));
    task.start_processing();
    assert_eq!(task.status(), TaskStatus::Processing);
    assert_eq!(task.started_at(), Some(task.updated_at()));
    task.complete(String::from("done"));
    assert_eq!(task.status(), TaskStatus::Completed);
    assert_eq!(task.result(), Some("done"));
    assert_eq!(task.completed_at(), Some(task.updated_at()));

    let mut other = Task::new(String::from("clip.mp4"), String::from("k"));
    other.start_processing();
    other.fail(String::from("boom"));
    assert_eq!(other.status(), TaskStatus::Failed);
    assert_eq!(other.error(), Some("boom"));
    assert_eq!(other.completed_at(), Some(other.updated_at()));
}

#[test]
fn clone_holds_the_same_values() {
    let mut task = sample(at(100));
    task.start_processing_at(at(110));
    task.fail_at(String::from("boom"), at(120));
    let copy = task.clone();
    assert_eq!(copy.id(), task.id());
    assert_eq!(copy.video_path(), task.video_path());
    assert_eq!(copy.api_key(), task.api_key());
    assert_eq!(copy.status(), task.status());
    assert_eq!(copy.created_at(), task.created_at());
    assert_eq!(copy.updated_at(), task.updated_at());
    assert_eq!(copy.started_at(), task.started_at());
    assert_eq!(copy.completed_at(), task.completed_at());
    assert_eq!(copy.result(), task.result());
    assert_eq!(copy.error(), task.error());
}
