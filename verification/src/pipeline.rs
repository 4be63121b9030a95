//! The order of work in the media pipeline.
//!
//! The pipeline extracts the audio of a video, transcribes it, asks which
//! moments deserve a screenshot and then, for each moment in turn, captures
//! the frame and has it captioned. The stages themselves run outside this
//! library. Here is what decides between them: which stage comes next, when
//! the pipeline fails, and which screenshots it keeps.
//!
//! The caller starts with [`start`], performs the action it is given and
//! reports the outcome to [`advance`], until the action is to succeed or to
//! fail.

use vstd::prelude::*;

verus! {

/// Where the pipeline stands. Moments are numbered from 0 in the order in
/// which the analysis gave them.
#[derive(Debug, PartialEq, Eq)]
pub enum PipelineState {
    /// The audio is being extracted.
    ExtractingAudio,
    /// The audio is being transcribed.
    Transcribing,
    /// The transcription is being searched for moments.
    Analyzing,
    /// The frame of `moment` is being captured; `kept` are the earlier
    /// moments whose screenshots are kept.
    Capturing { moment: usize, moments: usize, kept: Vec<usize> },
    /// The frame of `moment` is being captioned.
    Captioning { moment: usize, moments: usize, kept: Vec<usize> },
    /// The pipeline has ended, with the moments whose screenshots it keeps
    /// or with the message of the stage that failed.
    Finished(Result<Vec<usize>, String>),
}

/// How a stage ended.
#[derive(Debug, PartialEq, Eq)]
pub enum StageOutcome {
    /// The stage succeeded.
    Done,
    /// The analysis succeeded and found this many moments.
    Found(usize),
    /// The stage failed, with this message.
    Failed(String),
}

/// What the caller is to do next.
#[derive(Debug, PartialEq, Eq)]
pub enum PipelineAction {
    ExtractAudio,
    Transcribe,
    Analyze,
    /// Capture the frame of this moment.
    Capture(usize),
    /// Have the frame of this moment captioned.
    Caption(usize),
    /// The pipeline is over; the screenshots of these moments are its
    /// result, with the transcription.
    Succeed(Vec<usize>),
    /// The pipeline is over and has failed with this message.
    Fail(String),
}

/// A [`PipelineState`] as plain values.
pub enum PipelineStateView {
    ExtractingAudio,
    Transcribing,
    Analyzing,
    Capturing { moment: usize, moments: usize, kept: Seq<usize> },
    Captioning { moment: usize, moments: usize, kept: Seq<usize> },
    Finished(Result<Seq<usize>, Seq<char>>),
}

/// A [`StageOutcome`] as plain values.
pub enum StageOutcomeView {
    Done,
    Found(usize),
    Failed(Seq<char>),
}

/// A [`PipelineAction`] as plain values.
pub enum PipelineActionView {
    ExtractAudio,
    Transcribe,
    Analyze,
    Capture(usize),
    Caption(usize),
    Succeed(Seq<usize>),
    Fail(Seq<char>),
}

impl View for PipelineState {
    type V = PipelineStateView;

    open spec fn view(&self) -> PipelineStateView {
        match self {
            PipelineState::ExtractingAudio => PipelineStateView::ExtractingAudio,
            PipelineState::Transcribing => PipelineStateView::Transcribing,
            PipelineState::Analyzing => PipelineStateView::Analyzing,
            PipelineState::Capturing { moment, moments, kept } => PipelineStateView::Capturing {
                moment: *moment,
                moments: *moments,
                kept: kept@,
            },
            PipelineState::Captioning { moment, moments, kept } => PipelineStateView::Captioning {
                moment: *moment,
                moments: *moments,
                kept: kept@,
            },
            PipelineState::Finished(Ok(kept)) => PipelineStateView::Finished(Ok(kept@)),
            PipelineState::Finished(Err(message)) => PipelineStateView::Finished(Err(message@)),
        }
    }
}

impl View for StageOutcome {
    type V = StageOutcomeView;

    open spec fn view(&self) -> StageOutcomeView {
        match self {
            StageOutcome::Done => StageOutcomeView::Done,
            StageOutcome::Found(moments) => StageOutcomeView::Found(*moments),
            StageOutcome::Failed(message) => StageOutcomeView::Failed(message@),
        }
    }
}

impl View for PipelineAction {
    type V = PipelineActionView;

    open spec fn view(&self) -> PipelineActionView {
        match self {
            PipelineAction::ExtractAudio => PipelineActionView::ExtractAudio,
            PipelineAction::Transcribe => PipelineActionView::Transcribe,
            PipelineAction::Analyze => PipelineActionView::Analyze,
            PipelineAction::Capture(moment) => PipelineActionView::Capture(*moment),
            PipelineAction::Caption(moment) => PipelineActionView::Caption(*moment),
            PipelineAction::Succeed(kept) => PipelineActionView::Succeed(kept@),
            PipelineAction::Fail(message) => PipelineActionView::Fail(message@),
        }
    }
}

/// The state and the action with which the screenshot loop goes on to
/// `moment`: the capture of that moment, or the end of the pipeline if the
/// moments are used up.
pub open spec fn turn_to(moment: int, moments: usize, kept: Seq<usize>) -> (
    PipelineStateView,
    PipelineActionView,
) {
    if moment < moments {
        (
            PipelineStateView::Capturing { moment: moment as usize, moments, kept },
            PipelineActionView::Capture(moment as usize),
        )
    } else {
        (PipelineStateView::Finished(Ok(kept)), PipelineActionView::Succeed(kept))
    }
}

/// The state after `outcome` was reported in `state`, and what to do next.
///
/// A failure of one of the first three stages ends the pipeline with the
/// stage's message. A failure to capture or to caption a moment only drops
/// that moment. A finished pipeline stays as it is and repeats how it
/// ended. The analysis tells its moments with `Found`; a plain `Done` from
/// it counts as no moments, and `Found` from another stage as `Done`.
pub open spec fn advance_spec(state: PipelineStateView, outcome: StageOutcomeView) -> (
    PipelineStateView,
    PipelineActionView,
) {
    match state {
        PipelineStateView::ExtractingAudio => match outcome {
            StageOutcomeView::Failed(message) => (
                PipelineStateView::Finished(Err(message)),
                PipelineActionView::Fail(message),
            ),
            _ => (PipelineStateView::Transcribing, PipelineActionView::Transcribe),
        },
        PipelineStateView::Transcribing => match outcome {
            StageOutcomeView::Failed(message) => (
                PipelineStateView::Finished(Err(message)),
                PipelineActionView::Fail(message),
            ),
            _ => (PipelineStateView::Analyzing, PipelineActionView::Analyze),
        },
        PipelineStateView::Analyzing => match outcome {
            StageOutcomeView::Failed(message) => (
                PipelineStateView::Finished(Err(message)),
                PipelineActionView::Fail(message),
            ),
            StageOutcomeView::Found(moments) => turn_to(0, moments, Seq::empty()),
            StageOutcomeView::Done => turn_to(0, 0, Seq::empty()),
        },
        PipelineStateView::Capturing { moment, moments, kept } => match outcome {
            StageOutcomeView::Failed(_) => turn_to(moment + 1, moments, kept),
            _ => (
                PipelineStateView::Captioning { moment, moments, kept },
                PipelineActionView::Caption(moment),
            ),
        },
        PipelineStateView::Captioning { moment, moments, kept } => match outcome {
            StageOutcomeView::Failed(_) => turn_to(moment + 1, moments, kept),
            _ => turn_to(moment + 1, moments, kept.push(moment)),
        },
        PipelineStateView::Finished(Ok(kept)) => (state, PipelineActionView::Succeed(kept)),
        PipelineStateView::Finished(Err(message)) => (state, PipelineActionView::Fail(message)),
    }
}

/// The state in which the pipeline starts, and its first action.
pub fn start() -> (begin: (PipelineState, PipelineAction))
    ensures
        begin.0@ == PipelineStateView::ExtractingAudio,
        begin.1@ == PipelineActionView::ExtractAudio,
{
    (PipelineState::ExtractingAudio, PipelineAction::ExtractAudio)
}

/// Goes on to the moment after `moment`.
fn turn_after(moment: usize, moments: usize, kept: Vec<usize>) -> (next: (
    PipelineState,
    PipelineAction,
))
    ensures
        (next.0@, next.1@) == turn_to(moment + 1, moments, kept@),
{
    if moment < moments && moment + 1 < moments {
        (
            PipelineState::Capturing { moment: moment + 1, moments, kept },
            PipelineAction::Capture(moment + 1),
        )
    } else {
        let result = kept.clone();
        (PipelineState::Finished(Ok(kept)), PipelineAction::Succeed(result))
    }
}

/// Takes the outcome of the action that was last given and says what to do
/// next; see [`advance_spec`].
pub fn advance(state: PipelineState, outcome: StageOutcome) -> (next: (
    PipelineState,
    PipelineAction,
))
    ensures
        (next.0@, next.1@) == advance_spec(state@, outcome@),
{
    match state {
        PipelineState::ExtractingAudio => match outcome {
            StageOutcome::Failed(message) => {
                let told = message.clone();
                (PipelineState::Finished(Err(message)), PipelineAction::Fail(told))
            },
            _ => (PipelineState::Transcribing, PipelineAction::Transcribe),
        },
        PipelineState::Transcribing => match outcome {
            StageOutcome::Failed(message) => {
                let told = message.clone();
                (PipelineState::Finished(Err(message)), PipelineAction::Fail(told))
            },
            _ => (PipelineState::Analyzing, PipelineAction::Analyze),
        },
        PipelineState::Analyzing => match outcome {
            StageOutcome::Failed(message) => {
                let told = message.clone();
                (PipelineState::Finished(Err(message)), PipelineAction::Fail(told))
            },
            StageOutcome::Found(moments) => {
                if moments > 0 {
                    (
                        PipelineState::Capturing { moment: 0, moments, kept: Vec::new() },
                        PipelineAction::Capture(0),
                    )
                } else {
                    (PipelineState::Finished(Ok(Vec::new())), PipelineAction::Succeed(Vec::new()))
                }
            },
            StageOutcome::Done => (
                PipelineState::Finished(Ok(Vec::new())),
                PipelineAction::Succeed(Vec::new()),
            ),
        },
        PipelineState::Capturing { moment, moments, kept } => match outcome {
            StageOutcome::Failed(_) => turn_after(moment, moments, kept),
            _ => (
                PipelineState::Captioning { moment, moments, kept },
                PipelineAction::Caption(moment),
            ),
        },
        PipelineState::Captioning { moment, moments, kept } => match outcome {
            StageOutcome::Failed(_) => turn_after(moment, moments, kept),
            _ => {
                let mut kept = kept;
                kept.push(moment);
                turn_after(moment, moments, kept)
            },
        },
        PipelineState::Finished(Ok(kept)) => {
            let result = kept.clone();
            (PipelineState::Finished(Ok(kept)), PipelineAction::Succeed(result))
        },
        PipelineState::Finished(Err(message)) => {
            let told = message.clone();
            (PipelineState::Finished(Err(message)), PipelineAction::Fail(told))
        },
    }
}

/// Whether the moment `moment` yields a screenshot: its frame was captured
/// and the frame was captioned.
pub open spec fn is_kept(
    capture: Seq<StageOutcomeView>,
    caption: Seq<StageOutcomeView>,
    moment: int,
) -> bool {
    !(capture[moment] is Failed) && !(caption[moment] is Failed)
}

/// The moments before `upto` that yield a screenshot, in their order.
pub open spec fn kept_moments(
    capture: Seq<StageOutcomeView>,
    caption: Seq<StageOutcomeView>,
    upto: int,
) -> Seq<usize>
    decreases upto,
{
    if upto <= 0 {
        Seq::empty()
    } else if is_kept(capture, caption, upto - 1) {
        kept_moments(capture, caption, upto - 1).push((upto - 1) as usize)
    } else {
        kept_moments(capture, caption, upto - 1)
    }
}

/// Where the screenshot loop ends when it turns to the moment `from` with
/// `kept` in hand and the capture of each moment ends as `capture` says and
/// the captioning of each captured frame as `caption` says.
pub open spec fn loop_from(
    from: int,
    moments: usize,
    kept: Seq<usize>,
    capture: Seq<StageOutcomeView>,
    caption: Seq<StageOutcomeView>,
) -> (PipelineStateView, PipelineActionView)
    decreases moments - from,
{
    if 0 <= from < moments {
        let capturing = PipelineStateView::Capturing { moment: from as usize, moments, kept };
        let captured = advance_spec(capturing, capture[from]);
        let next = if capture[from] is Failed {
            captured
        } else {
            advance_spec(captured.0, caption[from])
        };
        match next.0 {
            PipelineStateView::Capturing { moment, moments, kept } => loop_from(
                from + 1,
                moments,
                kept,
                capture,
                caption,
            ),
            _ => next,
        }
    } else {
        turn_to(from, moments, kept)
    }
}

/// The screenshot loop always ends in success, and what it keeps are
/// exactly the moments whose frame was captured and captioned, in their
/// order.
pub proof fn law_loop_keeps_the_captioned_moments(
    moments: usize,
    capture: Seq<StageOutcomeView>,
    caption: Seq<StageOutcomeView>,
)
    requires
        capture.len() == moments,
        caption.len() == moments,
    ensures
        loop_from(0, moments, Seq::empty(), capture, caption) == (
            PipelineStateView::Finished(Ok(kept_moments(capture, caption, moments as int))),
            PipelineActionView::Succeed(kept_moments(capture, caption, moments as int)),
        ),
        advance_spec(PipelineStateView::Analyzing, StageOutcomeView::Found(moments)) == turn_to(
            0,
            moments,
            Seq::empty(),
        ),
{
    lemma_loop_from(0, moments, capture, caption);
}

/// The loop, having kept the right moments before `from`, ends with the
/// right moments kept.
proof fn lemma_loop_from(
    from: int,
    moments: usize,
    capture: Seq<StageOutcomeView>,
    caption: Seq<StageOutcomeView>,
)
    requires
        0 <= from <= moments,
    ensures
        loop_from(from, moments, kept_moments(capture, caption, from), capture, caption) == (
            PipelineStateView::Finished(Ok(kept_moments(capture, caption, moments as int))),
            PipelineActionView::Succeed(kept_moments(capture, caption, moments as int)),
        ),
    decreases moments - from,
{
    if from < moments {
        lemma_loop_from(from + 1, moments, capture, caption);
    }
}

/// A failure of the extraction, of the transcription or of the analysis
/// ends the pipeline at once, with the message of the stage.
pub proof fn law_early_failure_ends_the_pipeline(state: PipelineStateView, message: Seq<char>)
    requires
        state is ExtractingAudio || state is Transcribing || state is Analyzing,
    ensures
        advance_spec(state, StageOutcomeView::Failed(message)) == (
            PipelineStateView::Finished(Err(message)),
            PipelineActionView::Fail(message),
        ),
{
}

/// However the capture of a moment and the captioning of its frame end, the
/// pipeline does not fail: it goes on to the next moment, or ends with
/// success after the last. The moment is kept exactly if both succeeded; a
/// frame that was not captured is not sent to be captioned.
pub proof fn law_moment_failure_drops_the_moment(
    moment: usize,
    moments: usize,
    kept: Seq<usize>,
    capture: StageOutcomeView,
    caption: StageOutcomeView,
)
    requires
        moment < moments,
    ensures
        ({
            let capturing = PipelineStateView::Capturing { moment, moments, kept };
            let captured = advance_spec(capturing, capture);
            if capture is Failed {
                captured == turn_to(moment + 1, moments, kept)
            } else {
                &&& captured.1 == PipelineActionView::Caption(moment)
                &&& advance_spec(captured.0, caption) == turn_to(
                    moment + 1,
                    moments,
                    if caption is Failed {
                        kept
                    } else {
                        kept.push(moment)
                    },
                )
            }
        }),
        !(turn_to(moment + 1, moments, kept).1 is Fail),
{
}

} // verus!
