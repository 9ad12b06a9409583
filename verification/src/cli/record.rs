//! The course of a recording from the command line: which step follows which, and what
//! every way out of it owes.
use crate::cli::args;
use crate::cli::args::RecordArgs;
use crate::cli::session;
use crate::text;
use vstd::prelude::*;

verus! {

/// What the course of a recording depends on.
#[derive(Debug, Clone, Copy, PartialEq, Eq, Structural)]
pub struct RecordOptions {
    /// The options were accepted.
    pub accepted: bool,
    /// A language was asked for.
    pub language: bool,
    /// Another engine or model than the configured one was asked for.
    pub overrides: bool,
    pub record_only: bool,
    /// The saved audio is to be transcribed with another model.
    pub retranscribe: bool,
    pub summarize: bool,
    /// The audio itself is kept, not only its transcript.
    pub save_audio: bool,
}

/// Is the audio of a recording with these options kept?
pub fn saves_audio(args: &RecordArgs) -> (r: bool)
    ensures
        r == !args.no_audio_save,
{
    !args.no_audio_save
}

/// What the course of a recording with these options depends on.
pub open spec fn options(a: RecordArgs) -> RecordOptions {
    RecordOptions {
        accepted: args::record_refusal(a) is None,
        language: a.language is Some,
        overrides: session::overrides_config(a),
        record_only: a.record_only,
        retranscribe: a.retranscribe_model is Some,
        summarize: a.summarize,
        save_audio: !a.no_audio_save,
    }
}

/// What the course of a recording with these options depends on.
pub fn options_of(args: &RecordArgs) -> (r: RecordOptions)
    ensures
        r == options(*args),
{
    RecordOptions {
        accepted: args.validate().is_ok(),
        language: args.language.is_some(),
        overrides: session::override_active(args),
        record_only: args.record_only,
        retranscribe: args.retranscribe_model.is_some(),
        summarize: args.summarize,
        save_audio: saves_audio(args),
    }
}

/// Does a recording with these options start without loading any model?
pub fn starts_without_model(o: &RecordOptions) -> (r: bool)
    ensures
        r == o.record_only,
{
    o.record_only
}

/// What is said, beside the error, of a recording that could not be started: with a model, it
/// may be the model that is missing.
pub fn start_hint(o: &RecordOptions) -> (r: Option<&'static str>)
    ensures
        o.record_only ==> r is None,
        !o.record_only ==> (r matches Some(t) && t@
            == "Transcription model not available. Download it in the app, or record without AI using --record-only."@),
{
    if o.record_only {
        None
    } else {
        Some(
            "Transcription model not available. Download it in the app, or record without AI using --record-only.",
        )
    }
}

/// The transcripts that a recording listens to: the finished pieces, and the unfinished ones.
pub open spec fn heard(a: RecordArgs) -> (bool, bool) {
    (!a.record_only, a.partial && !a.record_only)
}

/// The transcripts that a recording prints: the finished pieces, and the unfinished ones.
pub open spec fn shown(a: RecordArgs) -> (bool, bool) {
    (!a.record_only && !a.quiet, a.partial && !a.record_only && !a.quiet)
}

/// The transcripts that a recording with these options listens to: the finished pieces, which
/// are counted and kept, and the unfinished ones.
pub fn heard_transcripts(args: &RecordArgs) -> (r: (bool, bool))
    ensures
        r == heard(*args),
{
    (!args.record_only, args.partial && !args.record_only)
}

/// The transcripts that a recording with these options prints: the finished pieces, and the
/// unfinished ones.
pub fn shown_transcripts(args: &RecordArgs) -> (r: (bool, bool))
    ensures
        r == shown(*args),
{
    (!args.record_only && !args.quiet, args.partial && !args.record_only && !args.quiet)
}

/// How a recording ends.
#[derive(Debug, Clone, Copy, PartialEq, Eq, Structural)]
pub enum RecordEnd {
    /// The meeting is saved, and all that was asked for after it was tried.
    Saved,
    /// The options were refused.
    Refused,
    StartFailed,
    StopFailed,
    /// The user gave up waiting while the recording was being stopped.
    Abandoned,
    SaveFailed,
    /// The meeting is saved, but without an id it cannot be transcribed again.
    NoMeetingId,
    /// The meeting is saved, but without a folder it cannot be transcribed again.
    NoFolder,
    /// The meeting is saved with its old transcript.
    RetranscribeFailed,
    /// The same, because the user cancelled.
    RetranscribeCancelled,
}

/// What a recording does next.
#[derive(Debug, Clone, Copy, PartialEq, Eq, Structural)]
pub enum RecordStep {
    SetLanguage,
    /// Read the configuration, to restore it later.
    LoadOriginal,
    /// Write the engine and model of this recording into the configuration.
    WriteOverride,
    /// Read the configuration, to show the engine and model.
    LoadLabel,
    /// Start to record: without loading any model or with one, and with the audio kept or not.
    StartRecording { without_model: bool, save_audio: bool },
    /// Record until the user or the clock says stop.
    Run,
    StopRecording,
    /// Write the original configuration back.
    RestoreConfig,
    SaveMeeting,
    SaveNotes,
    Retranscribe,
    Summarize,
    Finished(RecordEnd),
}

/// What doing a step came to.
#[derive(Debug, Clone, Copy, PartialEq, Eq, Structural)]
pub enum RecordReply {
    /// It was done. The answer says, after `LoadOriginal`: was there a configuration; after
    /// `StartRecording`: is there a folder; after `Run`: are there notes to save; after
    /// `SaveMeeting`: is there an id.
    Done(bool),
    Failed,
    /// The user broke it off.
    Abandoned,
}

/// A recording on its way.
#[derive(Debug, Clone, Copy, PartialEq, Eq, Structural)]
pub struct RecordRun {
    pub options: RecordOptions,
    pub step: RecordStep,
    /// There is a configuration to restore.
    pub original_known: bool,
    pub has_folder: bool,
    pub has_notes: bool,
    pub has_id: bool,
    /// What follows once the configuration is restored.
    pub next: RecordThen,
}

/// What follows once the recording has stopped and the configuration is restored.
#[derive(Debug, Clone, Copy, PartialEq, Eq, Structural)]
pub enum RecordThen {
    Save,
    End(RecordEnd),
}

/// The first step.
pub open spec fn first_step(o: RecordOptions) -> RecordStep {
    if !o.accepted {
        RecordStep::Finished(RecordEnd::Refused)
    } else if o.language {
        RecordStep::SetLanguage
    } else {
        config_step(o)
    }
}

/// The first step that deals with the configuration.
pub open spec fn config_step(o: RecordOptions) -> RecordStep {
    if o.overrides {
        RecordStep::LoadOriginal
    } else {
        label_step(o)
    }
}

/// The step that starts to record.
pub open spec fn start_step(o: RecordOptions) -> RecordStep {
    RecordStep::StartRecording { without_model: o.record_only, save_audio: o.save_audio }
}

/// The step after the configuration is in place.
pub open spec fn label_step(o: RecordOptions) -> RecordStep {
    if o.record_only {
        start_step(o)
    } else {
        RecordStep::LoadLabel
    }
}

/// The step that a restored configuration leads to.
pub open spec fn then_step(next: RecordThen) -> RecordStep {
    match next {
        RecordThen::Save => RecordStep::SaveMeeting,
        RecordThen::End(end) => RecordStep::Finished(end),
    }
}

/// Leaving the recording: the configuration comes first, if there is one to restore.
pub open spec fn leaving(r: RecordRun, next: RecordThen) -> RecordRun {
    RecordRun {
        step: if r.original_known {
            RecordStep::RestoreConfig
        } else {
            then_step(next)
        },
        next,
        ..r
    }
}

/// The step after the notes are dealt with.
pub open spec fn retranscribe_step(r: RecordRun) -> RecordStep {
    if !r.options.retranscribe {
        summarize_step(r)
    } else if !r.has_id {
        RecordStep::Finished(RecordEnd::NoMeetingId)
    } else if !r.has_folder {
        RecordStep::Finished(RecordEnd::NoFolder)
    } else {
        RecordStep::Retranscribe
    }
}

/// The step after the transcript is final.
pub open spec fn summarize_step(r: RecordRun) -> RecordStep {
    if r.options.summarize {
        RecordStep::Summarize
    } else {
        RecordStep::Finished(RecordEnd::Saved)
    }
}

/// Where a recording stands after a step.
pub open spec fn record_after(r: RecordRun, reply: RecordReply) -> RecordRun {
    match (r.step, reply) {
        (RecordStep::SetLanguage, _) => RecordRun { step: config_step(r.options), ..r },
        (RecordStep::LoadOriginal, _) => RecordRun {
            step: RecordStep::WriteOverride,
            original_known: reply == RecordReply::Done(true),
            ..r
        },
        (RecordStep::WriteOverride, _) => RecordRun { step: label_step(r.options), ..r },
        (RecordStep::LoadLabel, _) => RecordRun { step: start_step(r.options), ..r },
        (RecordStep::StartRecording { .. }, RecordReply::Done(has_folder)) => RecordRun {
            step: RecordStep::Run,
            has_folder,
            ..r
        },
        (RecordStep::StartRecording { .. }, _) => leaving(
            r,
            RecordThen::End(RecordEnd::StartFailed),
        ),
        (RecordStep::Run, _) => RecordRun {
            step: RecordStep::StopRecording,
            has_notes: reply == RecordReply::Done(true),
            ..r
        },
        (RecordStep::StopRecording, RecordReply::Done(_)) => leaving(r, RecordThen::Save),
        (RecordStep::StopRecording, RecordReply::Failed) => leaving(
            r,
            RecordThen::End(RecordEnd::StopFailed),
        ),
        (RecordStep::StopRecording, RecordReply::Abandoned) => leaving(
            r,
            RecordThen::End(RecordEnd::Abandoned),
        ),
        (RecordStep::RestoreConfig, _) => RecordRun { step: then_step(r.next), ..r },
        (RecordStep::SaveMeeting, RecordReply::Done(has_id)) => {
            let saved = RecordRun { has_id, ..r };
            RecordRun {
                step: if r.has_notes && has_id {
                    RecordStep::SaveNotes
                } else {
                    retranscribe_step(saved)
                },
                ..saved
            }
        },
        (RecordStep::SaveMeeting, _) => RecordRun {
            step: RecordStep::Finished(RecordEnd::SaveFailed),
            ..r
        },
        (RecordStep::SaveNotes, _) => RecordRun { step: retranscribe_step(r), ..r },
        (RecordStep::Retranscribe, RecordReply::Done(_)) => RecordRun {
            step: summarize_step(r),
            ..r
        },
        (RecordStep::Retranscribe, RecordReply::Failed) => RecordRun {
            step: RecordStep::Finished(RecordEnd::RetranscribeFailed),
            ..r
        },
        (RecordStep::Retranscribe, RecordReply::Abandoned) => RecordRun {
            step: RecordStep::Finished(RecordEnd::RetranscribeCancelled),
            ..r
        },
        (RecordStep::Summarize, _) => RecordRun {
            step: RecordStep::Finished(RecordEnd::Saved),
            ..r
        },
        (RecordStep::Finished(_), _) => r,
    }
}

/// A recording that has not started.
pub open spec fn record_start(o: RecordOptions) -> RecordRun {
    RecordRun {
        options: o,
        step: first_step(o),
        original_known: false,
        has_folder: false,
        has_notes: false,
        has_id: false,
        next: RecordThen::Save,
    }
}

impl RecordRun {
    /// A recording with these options.
    pub fn start(options: RecordOptions) -> (r: RecordRun)
        ensures
            r == record_start(options),
    {
        let step = if !options.accepted {
            RecordStep::Finished(RecordEnd::Refused)
        } else if options.language {
            RecordStep::SetLanguage
        } else {
            Self::to_config(options)
        };
        RecordRun {
            options,
            step,
            original_known: false,
            has_folder: false,
            has_notes: false,
            has_id: false,
            next: RecordThen::Save,
        }
    }

    fn to_config(options: RecordOptions) -> (r: RecordStep)
        ensures
            r == config_step(options),
    {
        if options.overrides {
            RecordStep::LoadOriginal
        } else {
            Self::to_label(options)
        }
    }

    fn to_label(options: RecordOptions) -> (r: RecordStep)
        ensures
            r == label_step(options),
    {
        if options.record_only {
            Self::to_start(options)
        } else {
            RecordStep::LoadLabel
        }
    }

    fn to_start(options: RecordOptions) -> (r: RecordStep)
        ensures
            r == start_step(options),
    {
        RecordStep::StartRecording {
            without_model: starts_without_model(&options),
            save_audio: options.save_audio,
        }
    }

    fn to_then(next: RecordThen) -> (r: RecordStep)
        ensures
            r == then_step(next),
    {
        match next {
            RecordThen::Save => RecordStep::SaveMeeting,
            RecordThen::End(end) => RecordStep::Finished(end),
        }
    }

    fn leave(self, next: RecordThen) -> (r: RecordRun)
        ensures
            r == leaving(self, next),
    {
        let step = if self.original_known {
            RecordStep::RestoreConfig
        } else {
            Self::to_then(next)
        };
        RecordRun { step, next, ..self }
    }

    fn to_retranscribe(self) -> (r: RecordStep)
        ensures
            r == retranscribe_step(self),
    {
        if !self.options.retranscribe {
            self.to_summarize()
        } else if !self.has_id {
            RecordStep::Finished(RecordEnd::NoMeetingId)
        } else if !self.has_folder {
            RecordStep::Finished(RecordEnd::NoFolder)
        } else {
            RecordStep::Retranscribe
        }
    }

    fn to_summarize(self) -> (r: RecordStep)
        ensures
            r == summarize_step(self),
    {
        if self.options.summarize {
            RecordStep::Summarize
        } else {
            RecordStep::Finished(RecordEnd::Saved)
        }
    }

    /// Takes the outcome of the current step.
    pub fn after(self, reply: RecordReply) -> (r: RecordRun)
        ensures
            r == record_after(self, reply),
    {
        match self.step {
            RecordStep::SetLanguage => RecordRun { step: Self::to_config(self.options), ..self },
            RecordStep::LoadOriginal => RecordRun {
                step: RecordStep::WriteOverride,
                original_known: reply == RecordReply::Done(true),
                ..self
            },
            RecordStep::WriteOverride => RecordRun { step: Self::to_label(self.options), ..self },
            RecordStep::LoadLabel => RecordRun { step: Self::to_start(self.options), ..self },
            RecordStep::StartRecording { .. } => match reply {
                RecordReply::Done(has_folder) => RecordRun {
                    step: RecordStep::Run,
                    has_folder,
                    ..self
                },
                _ => self.leave(RecordThen::End(RecordEnd::StartFailed)),
            },
            RecordStep::Run => RecordRun {
                step: RecordStep::StopRecording,
                has_notes: reply == RecordReply::Done(true),
                ..self
            },
            RecordStep::StopRecording => match reply {
                RecordReply::Done(_) => self.leave(RecordThen::Save),
                RecordReply::Failed => self.leave(RecordThen::End(RecordEnd::StopFailed)),
                RecordReply::Abandoned => self.leave(RecordThen::End(RecordEnd::Abandoned)),
            },
            RecordStep::RestoreConfig => RecordRun { step: Self::to_then(self.next), ..self },
            RecordStep::SaveMeeting => match reply {
                RecordReply::Done(has_id) => {
                    let saved = RecordRun { has_id, ..self };
                    let step = if saved.has_notes && has_id {
                        RecordStep::SaveNotes
                    } else {
                        saved.to_retranscribe()
                    };
                    RecordRun { step, ..saved }
                },
                _ => RecordRun { step: RecordStep::Finished(RecordEnd::SaveFailed), ..self },
            },
            RecordStep::SaveNotes => RecordRun { step: self.to_retranscribe(), ..self },
            RecordStep::Retranscribe => {
                let step = match reply {
                    RecordReply::Done(_) => self.to_summarize(),
                    RecordReply::Failed => RecordStep::Finished(RecordEnd::RetranscribeFailed),
                    RecordReply::Abandoned => RecordStep::Finished(
                        RecordEnd::RetranscribeCancelled,
                    ),
                };
                RecordRun { step, ..self }
            },
            RecordStep::Summarize => RecordRun {
                step: RecordStep::Finished(RecordEnd::Saved),
                ..self
            },
            RecordStep::Finished(_) => self,
        }
    }
}

/// The status of a recording that ended this way.
pub open spec fn status_of(end: RecordEnd) -> i32 {
    match end {
        RecordEnd::Saved => 0,
        RecordEnd::Abandoned => 130,
        RecordEnd::RetranscribeCancelled => 130,
        _ => 1,
    }
}

/// The exit status of a recording that ended this way.
pub fn exit_status(end: RecordEnd) -> (r: i32)
    ensures
        r == match end {
            RecordEnd::Saved => 0i32,
            RecordEnd::Abandoned => 130i32,
            RecordEnd::RetranscribeCancelled => 130i32,
            _ => 1i32,
        },
        r == status_of(end),
{
    match end {
        RecordEnd::Saved => 0,
        RecordEnd::Abandoned => 130,
        RecordEnd::RetranscribeCancelled => 130,
        _ => 1,
    }
}

/// The error of a recording that ended this way; `detail` is the cause that the failed
/// step gave. What the user broke off is no error.
pub open spec fn end_error(end: RecordEnd, detail: Seq<char>) -> Option<Seq<char>> {
    match end {
        RecordEnd::Saved => None,
        RecordEnd::Abandoned => None,
        RecordEnd::RetranscribeCancelled => None,
        RecordEnd::Refused => Some(detail),
        RecordEnd::StartFailed => Some("Failed to start recording: "@ + detail),
        RecordEnd::StopFailed => Some("Failed to stop recording: "@ + detail),
        RecordEnd::SaveFailed => Some("Failed to save the meeting to the database: "@ + detail),
        RecordEnd::NoMeetingId => Some(
            "--retranscribe-model needs the meeting id, which the database did not return."@,
        ),
        RecordEnd::NoFolder => Some(
            "--retranscribe-model needs the meeting folder, which was not created."@,
        ),
        RecordEnd::RetranscribeFailed => Some(detail),
    }
}

/// The error of a recording that ended this way.
pub fn end_message(end: RecordEnd, detail: &str) -> (r: Option<String>)
    ensures
        text::opt_text(r) == end_error(end, detail@),
{
    match end {
        RecordEnd::Saved => None,
        RecordEnd::Abandoned => None,
        RecordEnd::RetranscribeCancelled => None,
        RecordEnd::Refused => Some(detail.to_owned()),
        RecordEnd::StartFailed => Some(text::concat2("Failed to start recording: ", detail)),
        RecordEnd::StopFailed => Some(text::concat2("Failed to stop recording: ", detail)),
        RecordEnd::SaveFailed => Some(
            text::concat2("Failed to save the meeting to the database: ", detail),
        ),
        RecordEnd::NoMeetingId => Some(
            "--retranscribe-model needs the meeting id, which the database did not return.".to_owned(),
        ),
        RecordEnd::NoFolder => Some(
            "--retranscribe-model needs the meeting folder, which was not created.".to_owned(),
        ),
        RecordEnd::RetranscribeFailed => Some(detail.to_owned()),
    }
}

/// The id that stands for a meeting whose id is not known.
pub const UNKNOWN_ID: &'static str = "?";

/// The meeting's id as it is shown.
pub fn shown_id(id: &Option<String>) -> (r: String)
    ensures
        r@ == text::text_or(text::opt_text(*id), UNKNOWN_ID@),
{
    match id {
        Some(id) => id.clone(),
        None => UNKNOWN_ID.to_owned(),
    }
}

/// Is there an id to work with? The database may answer with the mark of an unknown one.
pub fn has_meeting_id(id: &Option<String>) -> (r: bool)
    ensures
        r == (text::text_or(text::opt_text(*id), UNKNOWN_ID@) != UNKNOWN_ID@),
{
    match id {
        Some(id) => !text::same(id.as_str(), UNKNOWN_ID),
        None => false,
    }
}

/// What is said of a saved meeting.
pub open spec fn saved_text(
    record_only: bool,
    retranscribe: bool,
    id: Seq<char>,
    folder: Option<Seq<char>>,
) -> Seq<char> {
    let shown = text::text_or(folder, "(no folder)"@);
    if record_only && !retranscribe {
        "✓ Recorded (no AI). meeting_id="@ + id + " folder="@ + shown
            + "  Re-transcribe in the app whenever you want."@
    } else {
        "✓ Saved. meeting_id="@ + id + " folder="@ + shown
    }
}

/// What is said of a saved meeting.
pub fn saved_line(options: &RecordOptions, id: &str, folder: &Option<String>) -> (r: String)
    ensures
        r@ == saved_text(
            options.record_only,
            options.retranscribe,
            id@,
            text::opt_text(*folder),
        ),
{
    let shown = match folder {
        Some(f) => f.as_str(),
        None => "(no folder)",
    };
    if options.record_only && !options.retranscribe {
        text::concat5(
            "✓ Recorded (no AI). meeting_id=",
            id,
            " folder=",
            shown,
            "  Re-transcribe in the app whenever you want.",
        )
    } else {
        text::concat4("✓ Saved. meeting_id=", id, " folder=", shown)
    }
}

/// Between these two steps the meeting has been saved, and its notes too if there are any.
pub open spec fn shows_saved(before: RecordStep, after: RecordStep) -> bool {
    ||| before == RecordStep::SaveNotes
    ||| before == RecordStep::SaveMeeting && after != RecordStep::SaveNotes && after
        != RecordStep::Finished(RecordEnd::SaveFailed)
}

/// Is it time to say that the meeting is saved, after one step and before the next?
pub fn saved_line_due(before: RecordStep, after: RecordStep) -> (r: bool)
    ensures
        r == shows_saved(before, after),
{
    before == RecordStep::SaveNotes || (before == RecordStep::SaveMeeting && after
        != RecordStep::SaveNotes && after != RecordStep::Finished(RecordEnd::SaveFailed))
}

/// An option of the second transcription: its own, or the recording's.
pub open spec fn own_or_shared(own: Option<String>, shared: Option<String>) -> Option<String> {
    if own is Some {
        own
    } else {
        shared
    }
}

/// The engine and language of the second transcription: its own, or the recording's.
pub fn retranscribe_choice(args: &RecordArgs) -> (r: (Option<String>, Option<String>))
    ensures
        r.0 == if args.retranscribe_engine is Some {
            args.retranscribe_engine
        } else {
            args.engine
        },
        r.1 == if args.retranscribe_language is Some {
            args.retranscribe_language
        } else {
            args.language
        },
        r.0 == own_or_shared(args.retranscribe_engine, args.engine),
        r.1 == own_or_shared(args.retranscribe_language, args.language),
{
    let engine = if args.retranscribe_engine.is_some() {
        text::clone_opt(&args.retranscribe_engine)
    } else {
        text::clone_opt(&args.engine)
    };
    let language = if args.retranscribe_language.is_some() {
        text::clone_opt(&args.retranscribe_language)
    } else {
        text::clone_opt(&args.language)
    };
    (engine, language)
}

/// Where a recording stands after a number of replies.
pub open spec fn record_run(o: RecordOptions, replies: Seq<RecordReply>) -> RecordRun
    decreases replies.len(),
{
    if replies.len() == 0 {
        record_start(o)
    } else {
        record_after(record_run(o, replies.drop_last()), replies.last())
    }
}

/// The configuration may have been overwritten and is not yet restored.
pub open spec fn owes_restore(r: RecordRun) -> bool {
    match r.step {
        RecordStep::WriteOverride => true,
        RecordStep::LoadLabel => true,
        RecordStep::StartRecording { .. } => true,
        RecordStep::Run => true,
        RecordStep::StopRecording => true,
        RecordStep::RestoreConfig => true,
        _ => false,
    }
}

/// The recording passed through a step on its way.
pub open spec fn passed(o: RecordOptions, replies: Seq<RecordReply>, step: RecordStep) -> bool {
    exists|k: int|
        0 <= k < replies.len() && (#[trigger] record_run(o, replies.take(k))).step == step
}

/// The recording passed through a step on its way, and the step was done.
pub open spec fn succeeded(o: RecordOptions, replies: Seq<RecordReply>, step: RecordStep) -> bool {
    exists|k: int|
        0 <= k < replies.len() && (#[trigger] record_run(o, replies.take(k))).step == step
            && replies[k] is Done
}

proof fn lemma_passed_extend(o: RecordOptions, replies: Seq<RecordReply>, step: RecordStep)
    requires
        replies.len() > 0,
    ensures
        passed(o, replies.drop_last(), step) || record_run(o, replies.drop_last()).step == step
            ==> passed(o, replies, step),
        succeeded(o, replies.drop_last(), step) || (record_run(o, replies.drop_last()).step == step
            && replies.last() is Done) ==> succeeded(o, replies, step),
{
    let head = replies.drop_last();
    let end = head.len() as int;
    assert(replies.take(end) =~= head);
    if passed(o, head, step) {
        let k = choose|k: int|
            0 <= k < head.len() && (#[trigger] record_run(o, head.take(k))).step == step;
        assert(head.take(k) =~= replies.take(k));
        assert(record_run(o, replies.take(k)).step == step);
    }
    if succeeded(o, head, step) {
        let k = choose|k: int|
            0 <= k < head.len() && (#[trigger] record_run(o, head.take(k))).step == step
                && head[k] is Done;
        assert(head.take(k) =~= replies.take(k));
        assert(record_run(o, replies.take(k)).step == step);
    }
    if record_run(o, head).step == step {
        assert(record_run(o, replies.take(end)).step == step);
    }
}

proof fn lemma_restore(o: RecordOptions, replies: Seq<RecordReply>)
    ensures
        ({
            let now = record_run(o, replies);
            &&& now.options == o
            &&& now.original_known ==> owes_restore(now) || passed(
                o,
                replies,
                RecordStep::RestoreConfig,
            )
            &&& now.step == RecordStep::WriteOverride ==> passed(
                o,
                replies,
                RecordStep::LoadOriginal,
            )
            &&& !o.overrides ==> !now.original_known && now.step != RecordStep::LoadOriginal
                && now.step != RecordStep::WriteOverride && now.step != RecordStep::RestoreConfig
        }),
    decreases replies.len(),
{
    if replies.len() > 0 {
        lemma_restore(o, replies.drop_last());
        lemma_passed_extend(o, replies, RecordStep::RestoreConfig);
        lemma_passed_extend(o, replies, RecordStep::LoadOriginal);
    }
}

/// However a recording ends, a configuration that it read before overriding it is written
/// back before the end: on success, on every error, and when the user breaks off.
pub proof fn law_config_is_always_restored(o: RecordOptions, replies: Seq<RecordReply>)
    requires
        record_run(o, replies).step is Finished,
        record_run(o, replies).original_known,
    ensures
        passed(o, replies, RecordStep::RestoreConfig),
{
    lemma_restore(o, replies);
}

/// The configuration is read before it is overwritten, and a recording that overrides
/// nothing never writes it.
pub proof fn law_config_is_only_touched_to_override(o: RecordOptions, replies: Seq<RecordReply>)
    ensures
        record_run(o, replies).step == RecordStep::WriteOverride ==> o.overrides && passed(
            o,
            replies,
            RecordStep::LoadOriginal,
        ),
        record_run(o, replies).step == RecordStep::RestoreConfig ==> o.overrides,
{
    lemma_restore(o, replies);
}

/// The meeting is in the database.
pub open spec fn is_saved(step: RecordStep) -> bool {
    step == RecordStep::SaveNotes || step == RecordStep::Retranscribe || step
        == RecordStep::Summarize || step == RecordStep::Finished(RecordEnd::Saved)
}

proof fn lemma_refused(o: RecordOptions, replies: Seq<RecordReply>)
    requires
        !o.accepted,
    ensures
        record_run(o, replies).step == RecordStep::Finished(RecordEnd::Refused),
    decreases replies.len(),
{
    if replies.len() > 0 {
        lemma_refused(o, replies.drop_last());
    }
}

proof fn lemma_start(o: RecordOptions, replies: Seq<RecordReply>)
    ensures
        record_run(o, replies).options == o,
        record_run(o, replies).step is StartRecording ==> record_run(o, replies).step == start_step(
            o,
        ),
    decreases replies.len(),
{
    if replies.len() > 0 {
        lemma_start(o, replies.drop_last());
    }
}

#[verifier::rlimit(60)]
proof fn lemma_course(o: RecordOptions, replies: Seq<RecordReply>)
    ensures
        ({
            let now = record_run(o, replies);
            let stopped = is_saved(now.step) || now.step == RecordStep::SaveMeeting || (now.step
                == RecordStep::RestoreConfig && now.next == RecordThen::Save);
            let transcribed = now.step == RecordStep::Summarize || now.step
                == RecordStep::Finished(RecordEnd::Saved);
            &&& now.options == o
            &&& now.next != RecordThen::End(RecordEnd::Saved)
            &&& stopped || now.step == RecordStep::Run || now.step == RecordStep::StopRecording
                ==> succeeded(o, replies, start_step(o))
            &&& stopped ==> succeeded(o, replies, RecordStep::StopRecording)
            &&& is_saved(now.step) ==> succeeded(o, replies, RecordStep::SaveMeeting)
            &&& (transcribed || now.step == RecordStep::Retranscribe) && now.has_notes && now.has_id
                ==> passed(o, replies, RecordStep::SaveNotes)
            &&& transcribed && o.retranscribe ==> succeeded(o, replies, RecordStep::Retranscribe)
            &&& now.step == RecordStep::Finished(RecordEnd::Saved) && o.summarize ==> passed(
                o,
                replies,
                RecordStep::Summarize,
            )
        }),
    decreases replies.len(),
{
    if replies.len() > 0 {
        lemma_course(o, replies.drop_last());
        lemma_start(o, replies.drop_last());
        lemma_passed_extend(o, replies, start_step(o));
        lemma_passed_extend(o, replies, RecordStep::StopRecording);
        lemma_passed_extend(o, replies, RecordStep::SaveMeeting);
        lemma_passed_extend(o, replies, RecordStep::SaveNotes);
        lemma_passed_extend(o, replies, RecordStep::Retranscribe);
        lemma_passed_extend(o, replies, RecordStep::Summarize);
    }
}

/// A recording that ends well was started and stopped, has its meeting saved and has done
/// all that was asked for after it; only the summary may have failed.
pub proof fn law_success_means_all_was_done(o: RecordOptions, replies: Seq<RecordReply>)
    requires
        record_run(o, replies).step == RecordStep::Finished(RecordEnd::Saved),
    ensures
        succeeded(o, replies, start_step(o)),
        succeeded(o, replies, RecordStep::StopRecording),
        succeeded(o, replies, RecordStep::SaveMeeting),
        o.retranscribe ==> succeeded(o, replies, RecordStep::Retranscribe),
        o.summarize ==> passed(o, replies, RecordStep::Summarize),
{
    lemma_course(o, replies);
}

/// The audio is kept exactly as the options say, and whatever needs the saved audio later is
/// refused without it.
pub proof fn law_audio_is_kept_as_asked(a: RecordArgs, replies: Seq<RecordReply>)
    ensures
        record_run(options(a), replies).step is StartRecording ==> record_run(
            options(a),
            replies,
        ).step == (RecordStep::StartRecording {
            without_model: a.record_only,
            save_audio: !a.no_audio_save,
        }),
        (a.record_only || a.retranscribe_model is Some) && a.no_audio_save ==> record_run(
            options(a),
            replies,
        ).step == RecordStep::Finished(RecordEnd::Refused),
{
    lemma_start(options(a), replies);
    if !options(a).accepted {
        lemma_refused(options(a), replies);
    }
}

/// A step that loads a model for transcription or for the summary.
pub open spec fn loads_model(step: RecordStep) -> bool {
    match step {
        RecordStep::StartRecording { without_model, .. } => !without_model,
        RecordStep::Retranscribe => true,
        RecordStep::Summarize => true,
        _ => false,
    }
}

/// A recording without AI loads no model, from its start to its end, unless a second
/// transcription was asked for; and even then it starts without one.
pub proof fn law_record_only_loads_no_model(a: RecordArgs, replies: Seq<RecordReply>)
    requires
        a.record_only,
    ensures
        loads_model(record_run(options(a), replies).step) ==> a.retranscribe_model is Some && !(
        record_run(options(a), replies).step is StartRecording),
    decreases replies.len(),
{
    lemma_start(options(a), replies);
    if replies.len() > 0 {
        law_record_only_loads_no_model(a, replies.drop_last());
        lemma_start(options(a), replies.drop_last());
    }
    if !options(a).accepted {
        lemma_refused(options(a), replies);
    }
}

/// What is printed is also listened to. Asking for quiet hides the text and nothing else: the
/// same transcripts are listened to as without it.
pub proof fn law_quiet_only_hides_text(a: RecordArgs)
    ensures
        shown(a).0 ==> heard(a).0,
        shown(a).1 ==> heard(a).1,
        a.quiet ==> shown(a) == (false, false),
        !a.quiet ==> shown(a) == heard(a),
        heard(RecordArgs { quiet: !a.quiet, ..a }) == heard(a),
{
}

/// No summary is made of an old transcript, nor without the notes: where a second
/// transcription was asked for it is done before the summary, and notes go to the meeting
/// before it.
pub proof fn law_summary_comes_last(o: RecordOptions, replies: Seq<RecordReply>)
    requires
        record_run(o, replies).step == RecordStep::Summarize,
    ensures
        succeeded(o, replies, RecordStep::SaveMeeting),
        o.retranscribe ==> succeeded(o, replies, RecordStep::Retranscribe),
        record_run(o, replies).has_notes && record_run(o, replies).has_id ==> passed(
            o,
            replies,
            RecordStep::SaveNotes,
        ),
{
    lemma_course(o, replies);
}

/// How often the saved line was due on the way.
pub open spec fn times_shown(o: RecordOptions, replies: Seq<RecordReply>) -> nat
    decreases replies.len(),
{
    if replies.len() == 0 {
        0
    } else {
        let before = replies.drop_last();
        times_shown(o, before) + if shows_saved(
            record_run(o, before).step,
            record_run(o, replies).step,
        ) {
            1nat
        } else {
            0
        }
    }
}

/// The meeting is in the database with its notes, or the course ended after that.
pub open spec fn is_past_saving(step: RecordStep) -> bool {
    match step {
        RecordStep::Retranscribe => true,
        RecordStep::Summarize => true,
        RecordStep::Finished(end) => match end {
            RecordEnd::Saved => true,
            RecordEnd::NoMeetingId => true,
            RecordEnd::NoFolder => true,
            RecordEnd::RetranscribeFailed => true,
            RecordEnd::RetranscribeCancelled => true,
            _ => false,
        },
        _ => false,
    }
}

/// A saved meeting is announced exactly once, before anything is made of it; a meeting that
/// is not saved never is.
pub proof fn law_saved_meetings_are_announced_once(o: RecordOptions, replies: Seq<RecordReply>)
    ensures
        times_shown(o, replies) == if is_past_saving(record_run(o, replies).step) {
            1nat
        } else {
            0
        },
    decreases replies.len(),
{
    if replies.len() > 0 {
        law_saved_meetings_are_announced_once(o, replies.drop_last());
        lemma_ends(o, replies.drop_last());
    }
}

proof fn lemma_ends(o: RecordOptions, replies: Seq<RecordReply>)
    ensures
        record_run(o, replies).next matches RecordThen::End(end) ==> !is_past_saving(
            RecordStep::Finished(end),
        ),
    decreases replies.len(),
{
    if replies.len() > 0 {
        lemma_ends(o, replies.drop_last());
    }
}

/// A second transcription that fails or is broken off ends the course: nothing chained
/// after it runs.
pub proof fn law_failed_retranscription_ends_the_course(r: RecordRun, reply: RecordReply)
    requires
        r.step == RecordStep::Retranscribe,
        !(reply is Done),
    ensures
        record_after(r, reply).step is Finished,
        record_after(r, reply).step != RecordStep::Finished(RecordEnd::Saved),
{
}

/// A failed summary does not make the recording fail: its meeting is saved.
pub proof fn law_failed_summary_is_no_failure(r: RecordRun, reply: RecordReply)
    requires
        r.step == RecordStep::Summarize,
    ensures
        record_after(r, reply).step == RecordStep::Finished(RecordEnd::Saved),
{
}

/// What only helps a recording never stops it: whatever becomes of the language, of writing
/// the configuration and of the notes, the recording goes on in the same way.
pub proof fn law_helpful_steps_never_stop_a_recording(
    r: RecordRun,
    reply: RecordReply,
    other: RecordReply,
)
    requires
        r.step == RecordStep::SetLanguage || r.step == RecordStep::WriteOverride || r.step
            == RecordStep::LoadLabel || r.step == RecordStep::RestoreConfig || r.step
            == RecordStep::SaveNotes,
    ensures
        record_after(r, reply) == record_after(r, other),
{
}

/// What a reply says is taken down and acted on: whether there is a configuration to restore, a
/// folder, notes to save and an id. Notes are saved with the meeting exactly if there are any
/// and the meeting has an id.
pub proof fn law_replies_are_taken_down(r: RecordRun, reply: RecordReply)
    ensures
        r.step is LoadOriginal ==> (record_after(r, reply).original_known <==> reply
            == RecordReply::Done(true)),
        r.step is StartRecording ==> (reply matches RecordReply::Done(b) ==> record_after(
            r,
            reply,
        ).has_folder == b && record_after(r, reply).step == RecordStep::Run),
        r.step is Run ==> (record_after(r, reply).has_notes <==> reply == RecordReply::Done(true))
            && record_after(r, reply).step == RecordStep::StopRecording,
        r.step is SaveMeeting ==> (reply matches RecordReply::Done(b) ==> record_after(
            r,
            reply,
        ).has_id == b && (record_after(r, reply).step == RecordStep::SaveNotes <==> r.has_notes
            && b)),
        r.step is SaveMeeting && !(reply is Done) ==> record_after(r, reply).step
            == RecordStep::Finished(RecordEnd::SaveFailed),
        !(r.step is StartRecording) ==> record_after(r, reply).has_folder == r.has_folder,
        !(r.step is Run) ==> record_after(r, reply).has_notes == r.has_notes,
        !(r.step is SaveMeeting) ==> record_after(r, reply).has_id == r.has_id,
        !(r.step is LoadOriginal) ==> record_after(r, reply).original_known == r.original_known,
        record_after(r, reply).options == r.options,
{
}

/// After the meeting is saved all that was asked for is tried in turn: a second transcription if
/// it has an id and a folder, and else an end that says what is missing; then the summary.
pub proof fn law_what_follows_a_saved_meeting(r: RecordRun, reply: RecordReply)
    requires
        r.step is SaveNotes || (r.step is SaveMeeting && reply == RecordReply::Done(r.has_id)
            && !(r.has_notes && r.has_id)),
    ensures
        r.options.retranscribe && r.has_id && r.has_folder ==> record_after(r, reply).step
            == RecordStep::Retranscribe,
        r.options.retranscribe && !r.has_id ==> record_after(r, reply).step
            == RecordStep::Finished(RecordEnd::NoMeetingId),
        r.options.retranscribe && r.has_id && !r.has_folder ==> record_after(r, reply).step
            == RecordStep::Finished(RecordEnd::NoFolder),
        !r.options.retranscribe && r.options.summarize ==> record_after(r, reply).step
            == RecordStep::Summarize,
        !r.options.retranscribe && !r.options.summarize ==> record_after(r, reply).step
            == RecordStep::Finished(RecordEnd::Saved),
{
}

/// How far a step is on the way of a recording.
pub open spec fn record_stage(step: RecordStep) -> int {
    match step {
        RecordStep::SetLanguage => 0,
        RecordStep::LoadOriginal => 1,
        RecordStep::WriteOverride => 2,
        RecordStep::LoadLabel => 3,
        RecordStep::StartRecording { .. } => 4,
        RecordStep::Run => 5,
        RecordStep::StopRecording => 6,
        RecordStep::RestoreConfig => 7,
        RecordStep::SaveMeeting => 8,
        RecordStep::SaveNotes => 9,
        RecordStep::Retranscribe => 10,
        RecordStep::Summarize => 11,
        RecordStep::Finished(_) => 12,
    }
}

#[verifier::rlimit(40)]
proof fn lemma_record_advances(o: RecordOptions, replies: Seq<RecordReply>)
    requires
        o.accepted,
        forall|i: int| 0 <= i < replies.len() ==> #[trigger] replies[i] == RecordReply::Done(true),
    ensures
        ({
            let now = record_run(o, replies);
            &&& now.options == o
            &&& now.next == RecordThen::Save
            &&& record_stage(now.step) >= replies.len() || now.step is Finished
            &&& record_stage(now.step) > 4 ==> now.has_folder
            &&& record_stage(now.step) > 8 ==> now.has_id
            &&& now.step is Finished ==> now.step == RecordStep::Finished(RecordEnd::Saved)
        }),
    decreases replies.len(),
{
    if replies.len() > 0 {
        let head = replies.drop_last();
        assert forall|i: int| 0 <= i < head.len() implies #[trigger] head[i] == RecordReply::Done(
            true,
        ) by {
            assert(replies[i] == RecordReply::Done(true));
        }
        lemma_record_advances(o, head);
        assert(replies[replies.len() - 1] == RecordReply::Done(true));
    }
}

/// An accepted recording in which every step is done ends with its meeting saved, after twelve
/// steps at the latest; a refused one ends before it began.
pub proof fn law_recordings_that_go_well_are_saved(o: RecordOptions, replies: Seq<RecordReply>)
    requires
        forall|i: int| 0 <= i < replies.len() ==> #[trigger] replies[i] == RecordReply::Done(true),
    ensures
        o.accepted && replies.len() >= 12 ==> record_run(o, replies).step == RecordStep::Finished(
            RecordEnd::Saved,
        ),
        !o.accepted ==> record_run(o, replies).step == RecordStep::Finished(RecordEnd::Refused),
{
    if o.accepted {
        lemma_record_advances(o, replies);
    } else {
        lemma_refused(o, replies);
    }
}

proof fn lemma_before_start(o: RecordOptions, replies: Seq<RecordReply>)
    ensures
        ({
            let now = record_run(o, replies);
            let started = record_stage(now.step) >= 4 && record_stage(now.step) < 12;
            &&& now.options == o
            &&& record_stage(now.step) >= 1 && o.language && o.accepted ==> passed(
                o,
                replies,
                RecordStep::SetLanguage,
            )
            &&& record_stage(now.step) >= 2 && o.overrides && o.accepted ==> passed(
                o,
                replies,
                RecordStep::LoadOriginal,
            )
            &&& record_stage(now.step) >= 3 && o.overrides && o.accepted ==> passed(
                o,
                replies,
                RecordStep::WriteOverride,
            )
            &&& record_stage(now.step) >= 4 && !o.record_only && o.accepted ==> passed(
                o,
                replies,
                RecordStep::LoadLabel,
            )
        }),
    decreases replies.len(),
{
    if replies.len() > 0 {
        lemma_before_start(o, replies.drop_last());
        lemma_passed_extend(o, replies, RecordStep::SetLanguage);
        lemma_passed_extend(o, replies, RecordStep::LoadOriginal);
        lemma_passed_extend(o, replies, RecordStep::WriteOverride);
        lemma_passed_extend(o, replies, RecordStep::LoadLabel);
    }
}

/// Before a recording starts, the language and the engine and model that were asked for have
/// been put in place.
pub proof fn law_settings_come_before_the_start(o: RecordOptions, replies: Seq<RecordReply>)
    requires
        o.accepted,
        record_run(o, replies).step is StartRecording,
    ensures
        o.language ==> passed(o, replies, RecordStep::SetLanguage),
        o.overrides ==> passed(o, replies, RecordStep::LoadOriginal) && passed(
            o,
            replies,
            RecordStep::WriteOverride,
        ),
        !o.record_only ==> passed(o, replies, RecordStep::LoadLabel),
{
    lemma_before_start(o, replies);
}

/// What is asked for on the command line is what the course goes by.
pub proof fn law_options_say_what_was_asked(a: RecordArgs)
    ensures
        options(a).accepted <==> args::record_refusal(a) is None,
        options(a).language <==> a.language is Some,
        options(a).overrides <==> !a.record_only && (a.engine is Some || a.model is Some),
        options(a).record_only <==> a.record_only,
        options(a).retranscribe <==> a.retranscribe_model is Some,
        options(a).summarize <==> a.summarize,
        options(a).save_audio <==> !a.no_audio_save,
{
}

/// An end that is a failure says what failed, with the cause that the failed step gave; what
/// went well or was broken off by the user says nothing.
pub proof fn law_failures_are_explained(end: RecordEnd, detail: Seq<char>)
    ensures
        end_error(end, detail) is None <==> end == RecordEnd::Saved || end == RecordEnd::Abandoned
            || end == RecordEnd::RetranscribeCancelled,
        end == RecordEnd::Refused || end == RecordEnd::StartFailed || end == RecordEnd::StopFailed
            || end == RecordEnd::SaveFailed || end == RecordEnd::RetranscribeFailed ==> text::has(
            end_error(end, detail)->0,
            detail,
        ),
{
    let none = Seq::<char>::empty();
    text::law_pieces_stand_in_the_whole(none, detail, none);
    assert(none + detail + none =~= detail);
    text::law_pieces_stand_in_the_whole("Failed to start recording: "@, detail, none);
    text::law_pieces_stand_in_the_whole("Failed to stop recording: "@, detail, none);
    text::law_pieces_stand_in_the_whole(
        "Failed to save the meeting to the database: "@,
        detail,
        none,
    );
    assert("Failed to start recording: "@ + detail + none =~= "Failed to start recording: "@
        + detail);
    assert("Failed to stop recording: "@ + detail + none =~= "Failed to stop recording: "@
        + detail);
    assert("Failed to save the meeting to the database: "@ + detail + none
        =~= "Failed to save the meeting to the database: "@ + detail);
}

/// What is said of a saved meeting names its id and its folder, whatever was recorded.
pub proof fn law_the_saved_line_names_the_meeting(
    record_only: bool,
    retranscribe: bool,
    id: Seq<char>,
    folder: Seq<char>,
)
    ensures
        text::has(saved_text(record_only, retranscribe, id, Some(folder)), id),
        text::has(saved_text(record_only, retranscribe, id, Some(folder)), folder),
{
    let all = saved_text(record_only, retranscribe, id, Some(folder));
    let head = if record_only && !retranscribe {
        "✓ Recorded (no AI). meeting_id="@
    } else {
        "✓ Saved. meeting_id="@
    };
    let tail = if record_only && !retranscribe {
        "  Re-transcribe in the app whenever you want."@
    } else {
        Seq::<char>::empty()
    };
    let rest = " folder="@ + folder + tail;
    assert(all =~= head + id + rest);
    text::law_pieces_stand_in_the_whole(head, id, rest);
    let front = head + id + " folder="@;
    assert(all =~= front + folder + tail);
    text::law_pieces_stand_in_the_whole(front, folder, tail);
}

/// The status is 0 if and only if the meeting was saved and all that was asked for was tried,
/// 130 if and only if the user gave up, and 1 otherwise.
pub proof fn law_the_status_tells_the_end(end: RecordEnd)
    ensures
        status_of(end) == 0 <==> end == RecordEnd::Saved,
        status_of(end) == 130 <==> end == RecordEnd::Abandoned || end
            == RecordEnd::RetranscribeCancelled,
        status_of(end) == 0 || status_of(end) == 130 || status_of(end) == 1,
{
}

/// The second transcription's own option always counts, and the recording's where it has none.
pub proof fn law_own_options_come_first(own: Option<String>, shared: Option<String>)
    ensures
        own is Some ==> own_or_shared(own, shared) == own,
        own is None ==> own_or_shared(own, shared) == shared,
        own_or_shared(own, shared) is None <==> own is None && shared is None,
{
}

} // verus!
