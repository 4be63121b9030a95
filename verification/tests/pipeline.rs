use task_store::media::{json_start, png_data_uri};
use task_store::pipeline::{advance, start, PipelineAction, PipelineState, StageOutcome};

fn failed(message: &str) -> StageOutcome {
    StageOutcome::Failed(String::from(message))
}

/// Runs the pipeline over the outcomes given, one for each action asked
/// for, and returns the actions in the order in which they were asked for.
fn run(outcomes: Vec<StageOutcome>) -> Vec<PipelineAction> {
    let (mut state, mut action) = start();
    let mut asked = Vec::new();
    for outcome in outcomes {
        asked.push(action);
        let next = advance(state, outcome);
        state = next.0;
        action = next.1;
    }
    asked.push(action);
    asked
}

#[test]
fn pipeline_starts_with_the_audio() {
    let (state, action) = start();
    assert_eq!(state, PipelineState::ExtractingAudio);
    assert_eq!(action, PipelineAction::ExtractAudio);
}

#[test]
fn pipeline_runs_the_stages_in_order() {
    let asked = run(vec![
        StageOutcome::Done,
        StageOutcome::Done,
        StageOutcome::Found(2),
        StageOutcome::Done,
        StageOutcome::Done,
        StageOutcome::Done,
        StageOutcome::Done,
    ]);
    assert_eq!(
        asked,
        vec![
            PipelineAction::ExtractAudio,
            PipelineAction::Transcribe,
            PipelineAction::Analyze,
            PipelineAction::Capture(0),
            PipelineAction::Caption(0),
            PipelineAction::Capture(1),
            PipelineAction::Caption(1),
            PipelineAction::Succeed(vec![0, 1]),
        ]
    );
}

#[test]
fn pipeline_fails_on_the_first_failing_stage() {
    assert_eq!(
        run(vec![failed("FFmpeg failed: x")]),
        vec![
            PipelineAction::ExtractAudio,
            PipelineAction::Fail(String::from("FFmpeg failed: x")),
        ]
    );
    assert_eq!(
        run(vec![StageOutcome::Done, failed("MLX Whisper failed: y")]),
        vec![
            PipelineAction::ExtractAudio,
            PipelineAction::Transcribe,
            PipelineAction::Fail(String::from("MLX Whisper failed: y")),
        ]
    );
    assert_eq!(
        run(vec![StageOutcome::Done, StageOutcome::Done, failed("no answer")]),
        vec![
            PipelineAction::ExtractAudio,
            PipelineAction::Transcribe,
            PipelineAction::Analyze,
            PipelineAction::Fail(String::from("no answer")),
        ]
    );
}

#[test]
fn pipeline_drops_moments_that_fail() {
    // moment 0: capture fails; moment 1: caption fails; moment 2: both
    // succeed; moment 3: capture fails
    let asked = run(vec![
        StageOutcome::Done,
        StageOutcome::Done,
        StageOutcome::Found(4),
        failed("no frame"),
        StageOutcome::Done,
        failed("no caption"),
        StageOutcome::Done,
        StageOutcome::Done,
        failed("no frame"),
    ]);
    assert_eq!(
        asked,
        vec![
            PipelineAction::ExtractAudio,
            PipelineAction::Transcribe,
            PipelineAction::Analyze,
            PipelineAction::Capture(0),
            PipelineAction::Capture(1),
            PipelineAction::Caption(1),
            PipelineAction::Capture(2),
            PipelineAction::Caption(2),
            PipelineAction::Capture(3),
            PipelineAction::Succeed(vec![2]),
        ]
    );
}

#[test]
fn pipeline_without_moments_succeeds_with_no_screenshots() {
    let none: Vec<usize> = Vec::new();
    let asked = run(vec![StageOutcome::Done, StageOutcome::Done, StageOutcome::Found(0)]);
    assert_eq!(asked[3], PipelineAction::Succeed(none.clone()));
    let asked = run(vec![StageOutcome::Done, StageOutcome::Done, StageOutcome::Done]);
    assert_eq!(asked[3], PipelineAction::Succeed(none));
}

#[test]
fn pipeline_with_every_moment_failing_still_succeeds() {
    let none: Vec<usize> = Vec::new();
    let asked = run(vec![
        StageOutcome::Done,
        StageOutcome::Done,
        StageOutcome::Found(2),
        failed("a"),
        failed("b"),
    ]);
    assert_eq!(asked[5], PipelineAction::Succeed(none));
}

#[test]
fn finished_pipeline_repeats_how_it_ended() {
    let (state, action) = advance(PipelineState::ExtractingAudio, failed("boom"));
    assert_eq!(state, PipelineState::Finished(Err(String::from("boom"))));
    assert_eq!(action, PipelineAction::Fail(String::from("boom")));
    let (state, action) = advance(state, StageOutcome::Done);
    assert_eq!(state, PipelineState::Finished(Err(String::from("boom"))));
    assert_eq!(action, PipelineAction::Fail(String::from("boom")));

    let (state, action) = advance(PipelineState::Finished(Ok(vec![1, 3])), failed("late"));
    assert_eq!(state, PipelineState::Finished(Ok(vec![1, 3])));
    assert_eq!(action, PipelineAction::Succeed(vec![1, 3]));
}

#[test]
fn last_moment_ends_the_pipeline() {
    let state = PipelineState::Captioning { moment: 4, moments: 5, kept: vec![0, 2] };
    let (state, action) = advance(state, StageOutcome::Done);
    assert_eq!(state, PipelineState::Finished(Ok(vec![0, 2, 4])));
    assert_eq!(action, PipelineAction::Succeed(vec![0, 2, 4]));

    let state = PipelineState::Capturing { moment: usize::MAX, moments: usize::MAX, kept: vec![] };
    let (state, action) = advance(state, failed("x"));
    assert_eq!(state, PipelineState::Finished(Ok(vec![])));
    assert_eq!(action, PipelineAction::Succeed(vec![]));
}

#[test]
fn json_starts_at_the_first_brace() {
    assert_eq!(json_start(b"Detected language: English\n{\"text\": \"hi\"}"), 27);
    assert_eq!(json_start(b"{\"a\": {\"b\": 1}}"), 0);
    assert_eq!(json_start(b"x{y{z"), 1);
    assert_eq!(json_start(b"no json here"), 0);
    assert_eq!(json_start(b""), 0);
    assert_eq!(json_start("h\u{e9}llo {".as_bytes()), 7);
}

#[test]
fn png_data_uri_encodes_in_base64() {
    assert_eq!(
        png_data_uri(b"hello"),
        Some(String::from("data:image/png;base64, aGVsbG8="))
    );
    assert_eq!(png_data_uri(b""), Some(String::from("data:image/png;base64, ")));
    assert_eq!(
        png_data_uri(&[0x89, 0x50, 0x4e, 0x47, 0xff, 0xfe]),
        Some(String::from("data:image/png;base64, iVBOR//+"))
    );
    assert_eq!(png_data_uri(b"a"), Some(String::from("data:image/png;base64, YQ==")));
}
