use task_store::commands;
use task_store::drive::summary_for;
use task_store::{ProcessEvent, ProcessStep, TaskManager, TaskStatus, Timestamp};

fn at(secs: i64) -> Timestamp {
    Timestamp { secs, nanos: 0 }
}

fn store_with(id: &str, path: &str) -> TaskManager {
    let mut store = TaskManager::new();
    let res = store.enqueue(String::from(id), String::from(path), String::from("sk-9"), at(1));
    assert_eq!(res, Ok(String::from(id)));
    store
}

fn done(step: ProcessStep) -> Result<String, String> {
    match step {
        ProcessStep::Done(outcome) => outcome,
        other => panic!("the drive goes on: {:?}", other),
    }
}

#[test]
fn summary_names_the_video() {
    assert_eq!(summary_for("clip.mp4"), "Transcription completed for video: clip.mp4");
    assert_eq!(summary_for(""), "Transcription completed for video: ");
}

#[test]
fn drive_of_a_job_that_succeeds() {
    let mut store = store_with("a", "clip.mp4");
    match store.process_task_at("a", ProcessEvent::Requested, at(10)) {
        ProcessStep::RunPipeline { video_path, api_key } => {
            assert_eq!(video_path, "clip.mp4");
            assert_eq!(api_key, "sk-9");
        }
        other => panic!("expected the pipeline to be asked for: {:?}", other),
    }
    let running = store.get_task("a").unwrap();
    assert_eq!(running.status(), TaskStatus::Processing);
    assert_eq!(running.started_at(), Some(at(10)));

    let outcome = done(store.process_task_at("a", ProcessEvent::Succeeded, at(20)));
    assert_eq!(
        outcome,
        Ok(String::from("Transcription completed for video: clip.mp4"))
    );
    let task = store.get_task("a").unwrap();
    assert_eq!(task.status(), TaskStatus::Completed);
    assert_eq!(task.result(), Some("Transcription completed for video: clip.mp4"));
    assert_eq!(task.error(), None);
    assert_eq!(task.started_at(), Some(at(10)));
    assert_eq!(task.completed_at(), Some(at(20)));
}

#[test]
fn drive_of_a_job_that_fails() {
    let mut store = store_with("a", "clip.mp4");
    let first = store.process_task_at("a", ProcessEvent::Requested, at(10));
    assert!(matches!(first, ProcessStep::RunPipeline { .. }));
    let outcome = done(store.process_task_at(
        "a",
        ProcessEvent::Failed(String::from("Transcription failed")),
        at(20),
    ));
    assert_eq!(outcome, Err(String::from("Transcription failed")));
    let task = store.get_task("a").unwrap();
    assert_eq!(task.status(), TaskStatus::Failed);
    assert_eq!(task.error(), Some("Transcription failed"));
    assert_eq!(task.result(), None);
    assert_eq!(task.completed_at(), Some(at(20)));
}

#[test]
fn drive_of_an_unknown_job() {
    let mut store = store_with("a", "clip.mp4");
    for event in [
        ProcessEvent::Requested,
        ProcessEvent::Succeeded,
        ProcessEvent::Failed(String::from("x")),
    ] {
        let outcome = done(store.process_task_at("zzz", event, at(10)));
        assert_eq!(outcome, Err(String::from("Task not found")));
    }
    assert_eq!(store.get_task("a").unwrap().status(), TaskStatus::Queued);
    assert_eq!(store.get_all_tasks().len(), 1);
}

#[test]
fn drive_of_a_job_removed_in_between() {
    let mut store = store_with("a", "clip.mp4");
    let first = store.process_task("a", ProcessEvent::Requested);
    assert!(matches!(first, ProcessStep::RunPipeline { .. }));
    assert!(store.remove_task("a"));
    let outcome = done(store.process_task("a", ProcessEvent::Succeeded));
    assert_eq!(outcome, Err(String::from("Task not found")));
}

#[test]
fn drive_events_that_do_not_fit() {
    let mut store = store_with("a", "clip.mp4");
    // the job has not been started
    let early = done(store.process_task_at("a", ProcessEvent::Succeeded, at(5)));
    assert_eq!(early, Err(String::from("Task is not being processed")));
    let early = done(store.process_task_at("a", ProcessEvent::Failed(String::from("x")), at(5)));
    assert_eq!(early, Err(String::from("Task is not being processed")));
    assert_eq!(store.get_task("a").unwrap().status(), TaskStatus::Queued);
    // the job is started twice
    let first = store.process_task_at("a", ProcessEvent::Requested, at(10));
    assert!(matches!(first, ProcessStep::RunPipeline { .. }));
    let twice = done(store.process_task_at("a", ProcessEvent::Requested, at(11)));
    assert_eq!(twice, Err(String::from("Task is not queued")));
    assert_eq!(store.get_task("a").unwrap().started_at(), Some(at(10)));
    // the job has ended
    let end = done(store.process_task_at("a", ProcessEvent::Succeeded, at(20)));
    assert!(end.is_ok());
    let late = done(store.process_task_at("a", ProcessEvent::Failed(String::from("x")), at(21)));
    assert_eq!(late, Err(String::from("Task is not being processed")));
    let again = done(store.process_task_at("a", ProcessEvent::Requested, at(22)));
    assert_eq!(again, Err(String::from("Task is not queued")));
    let task = store.get_task("a").unwrap();
    assert_eq!(task.status(), TaskStatus::Completed);
    assert_eq!(task.completed_at(), Some(at(20)));
    assert_eq!(task.error(), None);
}

#[test]
fn commands_answer_with_values() {
    let mut store = TaskManager::new();
    let a = commands::create_task(&mut store, String::from("a.mp4"), String::from("k")).unwrap();
    let b = commands::create_task(&mut store, String::from("b.mp4"), String::from("k")).unwrap();
    let c = commands::create_task(&mut store, String::from("c.mp4"), String::from("k")).unwrap();
    assert_eq!(commands::queue_next_task(&store), Ok(Some(a.clone())));

    let step = commands::process_task(&mut store, a.clone(), ProcessEvent::Requested);
    assert!(matches!(step, ProcessStep::RunPipeline { .. }));
    let step = commands::process_task(&mut store, a.clone(), ProcessEvent::Succeeded);
    assert_eq!(
        done(step),
        Ok(String::from("Transcription completed for video: a.mp4"))
    );
    let step = commands::process_task(&mut store, b.clone(), ProcessEvent::Requested);
    assert!(matches!(step, ProcessStep::RunPipeline { .. }));
    let step =
        commands::process_task(&mut store, b.clone(), ProcessEvent::Failed(String::from("no")));
    assert_eq!(done(step), Err(String::from("no")));
    let step = commands::process_task(&mut store, String::from("zzz"), ProcessEvent::Requested);
    assert_eq!(done(step), Err(String::from("Task not found")));

    let listed = |res: Result<Vec<task_store::Task>, String>| -> Vec<String> {
        res.unwrap().iter().map(|t| t.id().to_string()).collect()
    };
    assert_eq!(
        listed(commands::get_all_tasks(&store)),
        vec![a.clone(), b.clone(), c.clone()]
    );
    assert_eq!(listed(commands::get_queued_tasks(&store)), vec![c.clone()]);
    assert!(listed(commands::get_processing_tasks(&store)).is_empty());
    assert_eq!(listed(commands::get_completed_tasks(&store)), vec![a.clone()]);
    assert_eq!(listed(commands::get_failed_tasks(&store)), vec![b.clone()]);

    let found = commands::get_task(&store, b.clone()).unwrap().unwrap();
    assert_eq!(found.status(), TaskStatus::Failed);
    assert_eq!(found.error(), Some("no"));
    assert!(commands::get_task(&store, String::from("zzz")).unwrap().is_none());

    assert_eq!(commands::remove_task(&mut store, String::from("zzz")), Ok(false));
    assert_eq!(commands::remove_task(&mut store, b.clone()), Ok(true));
    assert_eq!(commands::clear_completed_tasks(&mut store), Ok(1));
    assert_eq!(listed(commands::get_all_tasks(&store)), vec![c.clone()]);
    assert_eq!(commands::queue_next_task(&store), Ok(Some(c.clone())));
    assert_eq!(commands::remove_task(&mut store, c), Ok(true));
    assert_eq!(commands::queue_next_task(&store), Ok(None));
}
