//! Transcribing saved meetings again and summarizing them.
use crate::cli::args;
use crate::cli::args::{Command, RetranscribeArgs, SummarizeArgs};
use crate::database::models::STATUS_COMPLETED;
use crate::text;
use vstd::prelude::*;

verus! {

/// The meeting to work on, or why there is none.
pub open spec fn chosen_meeting(
    meeting: Option<Seq<char>>,
    latest: Result<Option<Seq<char>>, Seq<char>>,
) -> Result<Seq<char>, Seq<char>> {
    match meeting {
        Some(id) => Ok(id),
        None => match latest {
            Ok(Some(id)) => Ok(id),
            Ok(None) => Err("No meetings found."@),
            Err(cause) => Err("Failed to list meetings: "@ + cause),
        },
    }
}

/// The texts of a result.
pub open spec fn result_texts(r: Result<String, String>) -> Result<Seq<char>, Seq<char>> {
    match r {
        Ok(t) => Ok(t@),
        Err(e) => Err(e@),
    }
}

/// The meeting to work on: the one asked for, or the most recent one. `latest` is the id
/// of the most recent meeting, if there is any, as the database answers.
pub fn choose_meeting(meeting: &Option<String>, latest: Result<Option<String>, String>) -> (r:
    Result<String, String>)
    ensures
        result_texts(r) == chosen_meeting(
            text::opt_text(*meeting),
            match latest {
                Ok(id) => Ok(text::opt_text(id)),
                Err(cause) => Err(cause@),
            },
        ),
        match *meeting {
            Some(id) => r == Ok::<String, String>(id),
            None => match latest {
                Ok(Some(id)) => r == Ok::<String, String>(id),
                Ok(None) => r matches Err(e) && e@ == "No meetings found."@,
                Err(cause) => r matches Err(e) && e@ == "Failed to list meetings: "@ + cause@,
            },
        },
{
    match meeting {
        Some(id) => Ok(id.clone()),
        None => match latest {
            Ok(Some(id)) => Ok(id),
            Ok(None) => Err("No meetings found.".to_owned()),
            Err(cause) => Err(text::concat2("Failed to list meetings: ", cause.as_str())),
        },
    }
}

/// What the database says of a meeting.
#[derive(Debug, Clone)]
pub enum MeetingLookup<T> {
    Found(T),
    Missing,
    Failed(String),
}

/// The status of a meeting and its folder.
#[derive(Debug, Clone)]
pub struct MeetingFolder {
    pub status: String,
    pub folder_path: Option<String>,
}

/// The folder whose audio can be transcribed again, of a meeting in this state.
pub open spec fn audio_folder(m: MeetingFolder) -> Option<Seq<char>> {
    if m.status@ != STATUS_COMPLETED@ {
        None
    } else {
        text::opt_text(m.folder_path)
    }
}

/// The folder whose audio is transcribed again. A meeting that is still being recorded is
/// refused: its transcripts would be deleted and its audio file is half written.
pub fn folder_to_retranscribe(id: &str, found: MeetingLookup<MeetingFolder>) -> (r: Result<
    String,
    String,
>)
    ensures
        found matches MeetingLookup::Found(m) ==> match (r, audio_folder(m)) {
            (Ok(folder), Some(path)) => folder@ == path,
            (Err(_), None) => true,
            _ => false,
        },
        !(found is Found) ==> r is Err,
        match found {
            MeetingLookup::Found(m) => if m.status@ != STATUS_COMPLETED@ {
                r matches Err(e) && e@ == "Meeting "@ + id@ + " is still being recorded (status: "@
                    + m.status@ + "); wait for it to finish."@
            } else {
                match m.folder_path {
                    Some(folder) => r == Ok::<String, String>(folder),
                    None => r matches Err(e) && e@ == "Meeting "@ + id@
                        + " has no folder on disk; there is no audio to re-transcribe."@,
                }
            },
            MeetingLookup::Missing => r matches Err(e) && e@ == "Meeting "@ + id@ + " not found."@,
            MeetingLookup::Failed(cause) => r matches Err(e) && e@ == "Failed to load the meeting: "@
                + cause@,
        },
{
    match found {
        MeetingLookup::Found(m) => {
            if !text::same(m.status.as_str(), STATUS_COMPLETED) {
                return Err(
                    text::concat5(
                        "Meeting ",
                        id,
                        " is still being recorded (status: ",
                        m.status.as_str(),
                        "); wait for it to finish.",
                    ),
                );
            }
            match m.folder_path {
                Some(folder) => Ok(folder),
                None => Err(
                    text::concat3(
                        "Meeting ",
                        id,
                        " has no folder on disk; there is no audio to re-transcribe.",
                    ),
                ),
            }
        },
        MeetingLookup::Missing => Err(text::concat3("Meeting ", id, " not found.")),
        MeetingLookup::Failed(cause) => Err(
            text::concat2("Failed to load the meeting: ", cause.as_str()),
        ),
    }
}

/// The engines that can transcribe a saved meeting.
#[derive(Debug, Clone, Copy, PartialEq, Eq, Structural)]
pub enum Engine {
    Whisper,
    Parakeet,
}

/// The name of an engine.
pub open spec fn engine_text(e: Engine) -> Seq<char> {
    match e {
        Engine::Whisper => "whisper"@,
        Engine::Parakeet => "parakeet"@,
    }
}

impl Engine {
    /// The name of the engine.
    pub fn name(self) -> (r: &'static str)
        ensures
            r@ == engine_text(self),
    {
        match self {
            Engine::Whisper => "whisper",
            Engine::Parakeet => "parakeet",
        }
    }
}

/// The engine of a second transcription, and whether the one asked for is unknown.
pub open spec fn engine_choice(engine: Option<Seq<char>>) -> (Engine, bool) {
    match engine {
        Some(e) => if e == "parakeet"@ {
            (Engine::Parakeet, false)
        } else {
            (Engine::Whisper, e != "whisper"@ && e != "localWhisper"@)
        },
        None => (Engine::Whisper, false),
    }
}

/// The engine of a second transcription, and whether to warn that the one asked for is
/// unknown. Whisper is the engine unless the other one is asked for.
pub fn choose_engine(engine: &Option<String>) -> (r: (Engine, bool))
    ensures
        r == engine_choice(text::opt_text(*engine)),
        r.0 == if *engine matches Some(e) && e@ == "parakeet"@ {
            Engine::Parakeet
        } else {
            Engine::Whisper
        },
        r.1 == (*engine matches Some(e) && e@ != "parakeet"@ && e@ != "whisper"@ && e@
            != "localWhisper"@),
{
    match engine {
        Some(e) => {
            let e = e.as_str();
            if text::same(e, "parakeet") {
                (Engine::Parakeet, false)
            } else {
                (Engine::Whisper, !text::same(e, "whisper") && !text::same(e, "localWhisper"))
            }
        },
        None => (Engine::Whisper, false),
    }
}

/// The warning of an engine that is not known.
pub fn unknown_engine_warning(engine: &str) -> (r: String)
    ensures
        r@ == "Warning: unknown engine '"@ + engine@ + "'; using whisper."@,
{
    text::concat3("Warning: unknown engine '", engine, "'; using whisper.")
}

/// The error of an engine that cannot be set up.
pub fn engine_error(engine: Engine, cause: &str) -> (r: String)
    ensures
        r@ == "Failed to initialize the "@ + engine_text(engine) + " engine: "@ + cause@,
{
    text::concat4("Failed to initialize the ", engine.name(), " engine: ", cause)
}

/// What is said when a second transcription starts.
pub fn retranscribe_notice(engine: Engine, model: &str) -> (r: String)
    ensures
        r@ == "⟳ Re-transcribing with "@ + engine_text(engine) + "/"@ + model@
            + " (press Ctrl+C to cancel; anything chained after it is skipped)."@,
{
    text::concat5(
        "⟳ Re-transcribing with ",
        engine.name(),
        "/",
        model,
        " (press Ctrl+C to cancel; anything chained after it is skipped).",
    )
}

/// At least three columns, the number at the right.
pub open spec fn three_columns(n: nat) -> Seq<char> {
    if n < 10 {
        "  "@ + text::decimal(n)
    } else if n < 100 {
        " "@ + text::decimal(n)
    } else {
        text::decimal(n)
    }
}

/// The text of the progress.
pub open spec fn progress_text(percent: nat, message: Seq<char>) -> Seq<char> {
    "\r\x1b[K⏳ "@ + three_columns(percent) + "% "@ + message
}

/// The progress of a second transcription, in place of the current line.
pub fn progress_line(percent: u64, message: &str) -> (r: String)
    ensures
        r@ == "\r\x1b[K⏳ "@ + three_columns(percent as nat) + "% "@ + message@,
        r@ == progress_text(percent as nat, message@),
{
    let mut out = "\r\x1b[K⏳ ".to_owned();
    if percent < 10 {
        out.append("  ");
    } else if percent < 100 {
        out.append(" ");
    }
    text::push_decimal(&mut out, percent);
    out.append("% ");
    out.append(message);
    proof {
        assert(out@ =~= "\r\x1b[K⏳ "@ + three_columns(percent as nat) + "% "@ + message@);
    }
    out
}

/// How a second transcription ends.
#[derive(Debug, Clone)]
pub enum RetranscribeEnd {
    Done,
    /// The user cancelled it; nothing chained after it runs.
    Cancelled,
    /// It failed, with this error.
    Failed(String),
}

/// What an interruption of a re-transcription leads to.
#[derive(Debug, Clone, Copy, PartialEq, Eq, Structural)]
pub enum Interruption {
    /// The re-transcription is asked to stop, and its end is waited for.
    Cancel,
    /// Nothing is waited for any longer: the program ends with this status.
    Abandon { status: i32 },
}

/// What another Ctrl+C leads to.
pub open spec fn interrupted(cancelled: bool) -> Interruption {
    if cancelled {
        Interruption::Abandon { status: 130 }
    } else {
        Interruption::Cancel
    }
}

/// What Ctrl+C does to a re-transcription that was cancelled already or was not: the first
/// one cancels, a second one gives up.
pub fn interruption(cancelled: bool) -> (r: Interruption)
    ensures
        r == if cancelled {
            Interruption::Abandon { status: 130 }
        } else {
            Interruption::Cancel
        },
        r == interrupted(cancelled),
{
    if cancelled {
        Interruption::Abandon { status: 130 }
    } else {
        Interruption::Cancel
    }
}

/// What is said of an interruption.
pub fn interruption_notice(i: Interruption) -> (r: &'static str)
    ensures
        r@ == match i {
            Interruption::Cancel =>
                "⚠ Cancelling the re-transcription (press Ctrl+C again to abandon)..."@,
            Interruption::Abandon { .. } =>
                "⚠ Abandoned during the re-transcription; the meeting keeps the transcript it already had."@,
        },
{
    match i {
        Interruption::Cancel =>
            "⚠ Cancelling the re-transcription (press Ctrl+C again to abandon)...",
        Interruption::Abandon { .. } =>
            "⚠ Abandoned during the re-transcription; the meeting keeps the transcript it already had.",
    }
}

/// The end of a second transcription as texts.
pub enum RetranscribeView {
    Done,
    Cancelled,
    Failed(Seq<char>),
}

impl View for RetranscribeEnd {
    type V = RetranscribeView;

    open spec fn view(&self) -> RetranscribeView {
        match *self {
            RetranscribeEnd::Done => RetranscribeView::Done,
            RetranscribeEnd::Cancelled => RetranscribeView::Cancelled,
            RetranscribeEnd::Failed(e) => RetranscribeView::Failed(e@),
        }
    }
}

/// How a second transcription ends that failed for this cause, if it did.
pub open spec fn retranscribed(
    id: Seq<char>,
    failure: Option<Seq<char>>,
    cancelled: bool,
) -> RetranscribeView {
    match failure {
        None => RetranscribeView::Done,
        Some(cause) => if cancelled {
            RetranscribeView::Cancelled
        } else {
            RetranscribeView::Failed(
                "Re-transcription failed (the meeting is intact; retry with `retranscribe --meeting "@
                    + id + "` or in the app): "@ + cause,
            )
        },
    }
}

/// How a second transcription ends. A failure after the user cancelled is a cancellation;
/// a success is a success even then.
pub fn retranscribe_end(id: &str, result: &Result<(), String>, cancelled: bool) -> (r:
    RetranscribeEnd)
    ensures
        match *result {
            Ok(_) => r is Done,
            Err(cause) => if cancelled {
                r is Cancelled
            } else {
                r matches RetranscribeEnd::Failed(e) && e@
                    == "Re-transcription failed (the meeting is intact; retry with `retranscribe --meeting "@
                    + id@ + "` or in the app): "@ + cause@
            },
        },
        r@ == retranscribed(
            id@,
            match *result {
                Ok(_) => None,
                Err(cause) => Some(cause@),
            },
            cancelled,
        ),
{
    match result {
        Ok(_) => RetranscribeEnd::Done,
        Err(cause) => {
            if cancelled {
                RetranscribeEnd::Cancelled
            } else {
                RetranscribeEnd::Failed(
                    text::concat4(
                        "Re-transcription failed (the meeting is intact; retry with `retranscribe --meeting ",
                        id,
                        "` or in the app): ",
                        cause.as_str(),
                    ),
                )
            }
        },
    }
}

/// The text to summarize of a meeting with these pieces of transcript, if it has any.
pub open spec fn summary_source(pieces: Seq<Seq<char>>) -> Option<Seq<char>> {
    let whole = text::join(pieces, "\n"@);
    if text::is_blank(whole) {
        None
    } else {
        Some(whole)
    }
}

/// The text of a meeting to summarize: its pieces of transcript, one to a line. A meeting
/// without any text cannot be summarized.
pub fn text_to_summarize(id: &str, found: MeetingLookup<Vec<String>>) -> (r: Result<
    String,
    String,
>)
    ensures
        found matches MeetingLookup::Found(pieces) ==> match (
            r,
            summary_source(text::texts(pieces@)),
        ) {
            (Ok(t), Some(whole)) => t@ == whole,
            (Err(_), None) => true,
            _ => false,
        },
        !(found is Found) ==> r is Err,
        match found {
            MeetingLookup::Found(pieces) => {
                let whole = text::join(text::texts(pieces@), "\n"@);
                if text::is_blank(whole) {
                    r matches Err(e) && e@
                        == "This meeting has no transcript to summarize; re-transcribe it in the app."@
                } else {
                    r matches Ok(t) && t@ == whole
                }
            },
            MeetingLookup::Missing => r matches Err(e) && e@ == "Meeting "@ + id@ + " not found."@,
            MeetingLookup::Failed(cause) => r matches Err(e) && e@ == "Failed to load the meeting: "@
                + cause@,
        },
{
    match found {
        MeetingLookup::Found(pieces) => {
            let whole = text::join_strings(&pieces, "\n");
            if text::trim(whole.as_str()).is_empty() {
                return Err(
                    "This meeting has no transcript to summarize; re-transcribe it in the app.".to_owned(),
                );
            }
            Ok(whole)
        },
        MeetingLookup::Missing => Err(text::concat3("Meeting ", id, " not found.")),
        MeetingLookup::Failed(cause) => Err(
            text::concat2("Failed to load the meeting: ", cause.as_str()),
        ),
    }
}

/// Characters of a transcript that are summarised at once.
pub const CHUNK_SIZE: i32 = 40000;

/// Characters that two neighbouring chunks share.
pub const CHUNK_OVERLAP: i32 = 1000;

/// The template that is used where none is asked for.
pub const DEFAULT_TEMPLATE: &'static str = "daily_standup";

/// The template to use.
pub fn template_or_default(template: Option<String>) -> (r: String)
    ensures
        r@ == text::text_or(text::opt_text(template), DEFAULT_TEMPLATE@),
{
    match template {
        Some(t) => t,
        None => DEFAULT_TEMPLATE.to_owned(),
    }
}

/// The error of a template that is not known.
pub open spec fn template_error(template: Seq<char>, ids: Seq<Seq<char>>) -> Seq<char> {
    "Unknown template '"@ + template + "'. Available: "@ + text::join(ids, ", "@)
}

/// A template must be known; the error names those that are.
pub fn check_template(template: &str, known: bool, ids: &[String]) -> (r: Result<(), String>)
    ensures
        r is Ok <==> known,
        r matches Err(e) ==> e@ == template_error(template@, text::texts(ids@)),
        match r {
            Ok(_) => known,
            Err(e) => !known && e@ == "Unknown template '"@ + template@ + "'. Available: "@
                + text::join(text::texts(ids@), ", "@),
        },
{
    if known {
        return Ok(());
    }
    Err(
        text::concat4(
            "Unknown template '",
            template,
            "'. Available: ",
            text::join_strings(ids, ", ").as_str(),
        ),
    )
}

/// Are both the provider and the model of summaries set?
pub open spec fn can_summarize(config: Option<(String, String)>) -> bool {
    config matches Some(c) && c.0@.len() > 0 && c.1@.len() > 0
}

/// The provider and model of summaries, as the app is configured. Both must be set.
pub fn summary_model(config: Option<(String, String)>) -> (r: Result<(String, String), String>)
    ensures
        match r {
            Ok(c) => config == Some(c) && c.0@.len() > 0 && c.1@.len() > 0,
            Err(e) => !(config matches Some(c) && c.0@.len() > 0 && c.1@.len() > 0) && e@
                == "Summary model not configured. Configure it in the app first."@,
        },
        r is Ok <==> can_summarize(config),
{
    match config {
        Some((provider, model)) => {
            if !provider.as_str().is_empty() && !model.as_str().is_empty() {
                return Ok((provider, model));
            }
        },
        None => {},
    }
    Err("Summary model not configured. Configure it in the app first.".to_owned())
}

/// What the database says of the making of a summary.
#[derive(Debug, Clone)]
pub enum SummaryLookup {
    Found { status: String, error: Option<String> },
    Missing,
    Failed(String),
}

/// Why there is no summary; nothing where there is one.
pub open spec fn summary_failure(found: SummaryLookup, completed: bool) -> Option<Seq<char>> {
    match found {
        SummaryLookup::Found { status, error } => if completed {
            None
        } else {
            match error {
                Some(cause) => Some(cause@),
                None => Some("summary did not complete (status: "@ + status@ + ")"@),
            }
        },
        SummaryLookup::Missing => Some("summary process not found after generation."@),
        SummaryLookup::Failed(cause) => Some("failed to read the summary status: "@ + cause@),
    }
}

/// Was the summary made? `completed` says so of the status, in whatever case.
pub fn summary_verdict(found: &SummaryLookup, completed: bool) -> (r: Result<(), String>)
    ensures
        match *found {
            SummaryLookup::Found { status, error } => if completed {
                r is Ok
            } else {
                match error {
                    Some(cause) => r == Err::<(), String>(cause),
                    None => r matches Err(e) && e@ == "summary did not complete (status: "@ + status@
                        + ")"@,
                }
            },
            SummaryLookup::Missing => r matches Err(e) && e@
                == "summary process not found after generation."@,
            SummaryLookup::Failed(cause) => r matches Err(e) && e@
                == "failed to read the summary status: "@ + cause@,
        },
        match summary_failure(*found, completed) {
            None => r is Ok,
            Some(e) => r matches Err(m) && m@ == e,
        },
{
    match found {
        SummaryLookup::Found { status, error } => {
            if completed {
                return Ok(());
            }
            match error {
                Some(cause) => Err(cause.clone()),
                None => Err(
                    text::concat3("summary did not complete (status: ", status.as_str(), ")"),
                ),
            }
        },
        SummaryLookup::Missing => Err("summary process not found after generation.".to_owned()),
        SummaryLookup::Failed(cause) => Err(
            text::concat2("failed to read the summary status: ", cause.as_str()),
        ),
    }
}

/// Does the status, in lower case, say that the summary was made?
pub open spec fn says_completed(found: SummaryLookup) -> bool {
    match found {
        SummaryLookup::Found { status, .. } => text::lower_case(status@) == "completed"@,
        _ => false,
    }
}

/// Whether the summary was made, and if not, why.
pub fn summary_outcome(found: &SummaryLookup) -> (r: Result<(), String>)
    ensures
        match *found {
            SummaryLookup::Found { status, error } => if says_completed(*found) {
                r is Ok
            } else {
                match error {
                    Some(cause) => r == Err::<(), String>(cause),
                    None => r matches Err(e) && e@ == "summary did not complete (status: "@ + status@
                        + ")"@,
                }
            },
            SummaryLookup::Missing => r matches Err(e) && e@
                == "summary process not found after generation."@,
            SummaryLookup::Failed(cause) => r matches Err(e) && e@
                == "failed to read the summary status: "@ + cause@,
        },
        match summary_failure(*found, says_completed(*found)) {
            None => r is Ok,
            Some(e) => r matches Err(m) && m@ == e,
        },
{
    let completed = match found {
        SummaryLookup::Found { status, .. } => text::same(
            text::to_lower_case(status.as_str()).as_str(),
            "completed",
        ),
        _ => false,
    };
    summary_verdict(found, completed)
}

/// The picture that turns while a summary is made.
pub open spec fn spinner(i: nat) -> char {
    seq!['⠋', '⠙', '⠹', '⠸', '⠼', '⠴', '⠦', '⠧', '⠇', '⠏'][(i % 10) as int]
}

/// The line that is shown while a summary is made, in place of the current line.
pub fn spinner_line(i: u64, secs: u64) -> (r: String)
    ensures
        r@ == "\r\x1b[K"@ + seq![spinner(i as nat)] + " Generating summary… "@ + text::decimal(
            secs as nat,
        ) + "s"@,
{
    let frame = match i % 10 {
        0 => '⠋',
        1 => '⠙',
        2 => '⠹',
        3 => '⠸',
        4 => '⠼',
        5 => '⠴',
        6 => '⠦',
        7 => '⠧',
        8 => '⠇',
        _ => '⠏',
    };
    let mut out = "\r\x1b[K".to_owned();
    out.push(frame);
    out.append(" Generating summary… ");
    text::push_decimal(&mut out, secs);
    out.append("s");
    proof {
        assert(out@ =~= "\r\x1b[K"@ + seq![spinner(i as nat)] + " Generating summary… "@
            + text::decimal(secs as nat) + "s"@);
    }
    out
}

/// What is said of a summary that is saved.
pub fn summary_saved_line(id: &str) -> (r: String)
    ensures
        r@ == "✓ Summary saved. meeting_id="@ + id@,
{
    text::concat2("✓ Summary saved. meeting_id=", id)
}

/// The status of a command that failed.
pub open spec fn status_of_failure(command: Command) -> i32 {
    match command {
        Command::Record(_) => 1,
        Command::Retranscribe(_) => 1,
        Command::Summarize(_) => 1,
        _ => 0,
    }
}

/// The exit status of a command that failed: lists only say so, the others fail.
pub fn failure_status(command: &Command) -> (r: i32)
    ensures
        r == match *command {
            Command::Record(_) => 1i32,
            Command::Retranscribe(_) => 1i32,
            Command::Summarize(_) => 1i32,
            _ => 0i32,
        },
        r == status_of_failure(*command),
{
    match command {
        Command::Record(_) => 1,
        Command::Retranscribe(_) => 1,
        Command::Summarize(_) => 1,
        _ => 0,
    }
}

/// What the work on a saved meeting depends on.
#[derive(Debug, Clone, Copy, PartialEq, Eq, Structural)]
pub struct ChainOptions {
    /// The options were accepted.
    pub accepted: bool,
    /// No meeting is named; the most recent one is taken.
    pub latest: bool,
    /// The saved audio is to be transcribed again.
    pub retranscribe: bool,
    pub summarize: bool,
}

/// What the work of the command that transcribes again depends on.
pub fn retranscribe_options(a: &RetranscribeArgs) -> (r: ChainOptions)
    ensures
        r == (ChainOptions {
            accepted: args::retranscribe_refusal(*a) is None,
            latest: a.meeting is None,
            retranscribe: true,
            summarize: a.summarize,
        }),
{
    ChainOptions {
        accepted: a.validate().is_ok(),
        latest: a.meeting.is_none(),
        retranscribe: true,
        summarize: a.summarize,
    }
}

/// What the work of the command that summarizes depends on.
pub fn summarize_options(a: &SummarizeArgs) -> (r: ChainOptions)
    ensures
        r == (ChainOptions {
            accepted: args::summarize_refusal(*a) is None,
            latest: a.meeting is None,
            retranscribe: false,
            summarize: true,
        }),
{
    ChainOptions {
        accepted: a.validate().is_ok(),
        latest: a.meeting.is_none(),
        retranscribe: false,
        summarize: true,
    }
}

/// What the summary of a meeting that was just recorded depends on.
pub fn summary_after_recording() -> (r: ChainOptions)
    ensures
        r == (ChainOptions {
            accepted: true,
            latest: false,
            retranscribe: false,
            summarize: true,
        }),
{
    ChainOptions { accepted: true, latest: false, retranscribe: false, summarize: true }
}

/// How the work on a saved meeting ends.
#[derive(Debug, Clone, Copy, PartialEq, Eq, Structural)]
pub enum ChainEnd {
    Done,
    /// The options were refused.
    Refused,
    /// A step failed.
    Failed,
    /// The user cancelled the transcription.
    Cancelled,
}

/// What is done next to a saved meeting.
#[derive(Debug, Clone, Copy, PartialEq, Eq, Structural)]
pub enum ChainStep {
    /// Find the most recent meeting.
    FindLatest,
    /// Find the folder with the audio.
    FindFolder,
    /// Set the engine up.
    InitEngine,
    /// Transcribe the audio, in place of the meeting's transcripts.
    Transcribe,
    /// Read the transcripts.
    LoadText,
    CheckTemplate,
    /// Read which model makes summaries.
    LoadModel,
    /// Note in the database that a summary is being made.
    CreateProcess,
    /// Store the text and how it is to be summarized.
    SaveText,
    /// Let the model write the summary.
    Generate,
    /// Read in the database what became of the summary.
    ReadOutcome,
    Finished(ChainEnd),
}

/// What doing a step came to.
#[derive(Debug, Clone, Copy, PartialEq, Eq, Structural)]
pub enum ChainReply {
    Done,
    Failed,
    /// The user broke it off.
    Cancelled,
}

/// The work on a saved meeting.
#[derive(Debug, Clone, Copy, PartialEq, Eq, Structural)]
pub struct ChainRun {
    pub options: ChainOptions,
    pub step: ChainStep,
}

/// The step once the meeting is known.
pub open spec fn meeting_step(o: ChainOptions) -> ChainStep {
    if o.retranscribe {
        ChainStep::FindFolder
    } else {
        text_step(o)
    }
}

/// The step once the transcripts are those that are wanted.
pub open spec fn text_step(o: ChainOptions) -> ChainStep {
    if o.summarize {
        ChainStep::LoadText
    } else {
        ChainStep::Finished(ChainEnd::Done)
    }
}

/// The first step.
pub open spec fn chain_first(o: ChainOptions) -> ChainStep {
    if !o.accepted {
        ChainStep::Finished(ChainEnd::Refused)
    } else if o.latest {
        ChainStep::FindLatest
    } else {
        meeting_step(o)
    }
}

/// The step after one that was done.
pub open spec fn chain_next(o: ChainOptions, step: ChainStep) -> ChainStep {
    match step {
        ChainStep::FindLatest => meeting_step(o),
        ChainStep::FindFolder => ChainStep::InitEngine,
        ChainStep::InitEngine => ChainStep::Transcribe,
        ChainStep::Transcribe => text_step(o),
        ChainStep::LoadText => ChainStep::CheckTemplate,
        ChainStep::CheckTemplate => ChainStep::LoadModel,
        ChainStep::LoadModel => ChainStep::CreateProcess,
        ChainStep::CreateProcess => ChainStep::SaveText,
        ChainStep::SaveText => ChainStep::Generate,
        ChainStep::Generate => ChainStep::ReadOutcome,
        ChainStep::ReadOutcome => ChainStep::Finished(ChainEnd::Done),
        ChainStep::Finished(end) => ChainStep::Finished(end),
    }
}

/// Where the work stands after a step. Every step that is not done ends it, but for the
/// writing of the summary: what became of that is read in the database.
pub open spec fn chain_after(r: ChainRun, reply: ChainReply) -> ChainRun {
    let step = if reply is Done || r.step is Generate || r.step is Finished {
        chain_next(r.options, r.step)
    } else if r.step is Transcribe && reply is Cancelled {
        ChainStep::Finished(ChainEnd::Cancelled)
    } else {
        ChainStep::Finished(ChainEnd::Failed)
    };
    ChainRun { step, ..r }
}

impl ChainRun {
    /// Work that has not begun.
    pub fn start(options: ChainOptions) -> (r: ChainRun)
        ensures
            r == (ChainRun { options, step: chain_first(options) }),
    {
        let step = if !options.accepted {
            ChainStep::Finished(ChainEnd::Refused)
        } else if options.latest {
            ChainStep::FindLatest
        } else {
            Self::to_meeting(options)
        };
        ChainRun { options, step }
    }

    fn to_meeting(options: ChainOptions) -> (r: ChainStep)
        ensures
            r == meeting_step(options),
    {
        if options.retranscribe {
            ChainStep::FindFolder
        } else {
            Self::to_text(options)
        }
    }

    fn to_text(options: ChainOptions) -> (r: ChainStep)
        ensures
            r == text_step(options),
    {
        if options.summarize {
            ChainStep::LoadText
        } else {
            ChainStep::Finished(ChainEnd::Done)
        }
    }

    /// Takes the outcome of the current step.
    pub fn after(self, reply: ChainReply) -> (r: ChainRun)
        ensures
            r == chain_after(self, reply),
    {
        let goes_on = match self.step {
            ChainStep::Generate => true,
            ChainStep::Finished(_) => true,
            _ => reply == ChainReply::Done,
        };
        let step = if goes_on {
            match self.step {
                ChainStep::FindLatest => Self::to_meeting(self.options),
                ChainStep::FindFolder => ChainStep::InitEngine,
                ChainStep::InitEngine => ChainStep::Transcribe,
                ChainStep::Transcribe => Self::to_text(self.options),
                ChainStep::LoadText => ChainStep::CheckTemplate,
                ChainStep::CheckTemplate => ChainStep::LoadModel,
                ChainStep::LoadModel => ChainStep::CreateProcess,
                ChainStep::CreateProcess => ChainStep::SaveText,
                ChainStep::SaveText => ChainStep::Generate,
                ChainStep::Generate => ChainStep::ReadOutcome,
                ChainStep::ReadOutcome => ChainStep::Finished(ChainEnd::Done),
                ChainStep::Finished(end) => ChainStep::Finished(end),
            }
        } else if self.step == ChainStep::Transcribe && reply == ChainReply::Cancelled {
            ChainStep::Finished(ChainEnd::Cancelled)
        } else {
            ChainStep::Finished(ChainEnd::Failed)
        };
        ChainRun { step, ..self }
    }
}

/// The status of work that ended this way.
pub open spec fn status_of_end(end: ChainEnd) -> i32 {
    match end {
        ChainEnd::Done => 0,
        ChainEnd::Cancelled => 130,
        _ => 1,
    }
}

/// The exit status of work that ended this way.
pub fn chain_status(end: ChainEnd) -> (r: i32)
    ensures
        r == match end {
            ChainEnd::Done => 0i32,
            ChainEnd::Cancelled => 130i32,
            _ => 1i32,
        },
        r == status_of_end(end),
{
    match end {
        ChainEnd::Done => 0,
        ChainEnd::Cancelled => 130,
        _ => 1,
    }
}

/// Where the work stands after a number of replies.
pub open spec fn chain_run(o: ChainOptions, replies: Seq<ChainReply>) -> ChainRun
    decreases replies.len(),
{
    if replies.len() == 0 {
        ChainRun { options: o, step: chain_first(o) }
    } else {
        chain_after(chain_run(o, replies.drop_last()), replies.last())
    }
}

/// The work passed through a step on its way, and the step was done.
pub open spec fn chain_did(o: ChainOptions, replies: Seq<ChainReply>, step: ChainStep) -> bool {
    exists|k: int|
        0 <= k < replies.len() && (#[trigger] chain_run(o, replies.take(k))).step == step
            && replies[k] is Done
}

/// The steps that make the summary.
pub open spec fn is_summary_step(step: ChainStep) -> bool {
    match step {
        ChainStep::LoadText => true,
        ChainStep::CheckTemplate => true,
        ChainStep::LoadModel => true,
        ChainStep::CreateProcess => true,
        ChainStep::SaveText => true,
        ChainStep::Generate => true,
        ChainStep::ReadOutcome => true,
        _ => false,
    }
}

proof fn lemma_chain_did(o: ChainOptions, replies: Seq<ChainReply>, step: ChainStep)
    requires
        replies.len() > 0,
    ensures
        chain_did(o, replies.drop_last(), step) || (chain_run(o, replies.drop_last()).step == step
            && replies.last() is Done) ==> chain_did(o, replies, step),
{
    let head = replies.drop_last();
    let end = head.len() as int;
    assert(replies.take(end) =~= head);
    if chain_did(o, head, step) {
        let k = choose|k: int|
            0 <= k < head.len() && (#[trigger] chain_run(o, head.take(k))).step == step
                && head[k] is Done;
        assert(head.take(k) =~= replies.take(k));
        assert(chain_run(o, replies.take(k)).step == step);
    } else if chain_run(o, head).step == step {
        assert(chain_run(o, replies.take(end)).step == step);
    }
}

proof fn lemma_chain(o: ChainOptions, replies: Seq<ChainReply>)
    ensures
        ({
            let now = chain_run(o, replies);
            let done = now.step == ChainStep::Finished(ChainEnd::Done);
            &&& now.options == o
            &&& !o.accepted ==> now.step == ChainStep::Finished(ChainEnd::Refused)
            &&& (now.step is InitEngine || now.step is Transcribe) ==> chain_did(
                o,
                replies,
                ChainStep::FindFolder,
            )
            &&& (is_summary_step(now.step) || done) && o.retranscribe ==> chain_did(
                o,
                replies,
                ChainStep::Transcribe,
            )
            &&& is_summary_step(now.step) ==> o.summarize
            &&& done && o.summarize ==> chain_did(o, replies, ChainStep::ReadOutcome)
        }),
    decreases replies.len(),
{
    if replies.len() > 0 {
        lemma_chain(o, replies.drop_last());
        lemma_chain_did(o, replies, ChainStep::FindFolder);
        lemma_chain_did(o, replies, ChainStep::Transcribe);
        lemma_chain_did(o, replies, ChainStep::ReadOutcome);
    }
}

/// Where a second transcription was asked for, no step towards a summary is taken before it
/// is done: a summary is never made of the old transcript.
pub proof fn law_no_summary_of_an_old_transcript(o: ChainOptions, replies: Seq<ChainReply>)
    requires
        o.retranscribe,
        is_summary_step(chain_run(o, replies).step),
    ensures
        chain_did(o, replies, ChainStep::Transcribe),
{
    lemma_chain(o, replies);
}

/// Nothing is transcribed before its folder was found, which is refused of a meeting that is
/// still being recorded.
pub proof fn law_folder_comes_before_the_transcription(
    o: ChainOptions,
    replies: Seq<ChainReply>,
)
    requires
        chain_run(o, replies).step is Transcribe,
    ensures
        chain_did(o, replies, ChainStep::FindFolder),
{
    lemma_chain(o, replies);
}

/// Work that ends well has done all that was asked for: the transcription, and a summary
/// that the database confirms.
pub proof fn law_chain_success_means_all_was_done(o: ChainOptions, replies: Seq<ChainReply>)
    requires
        chain_run(o, replies).step == ChainStep::Finished(ChainEnd::Done),
    ensures
        o.accepted,
        o.retranscribe ==> chain_did(o, replies, ChainStep::Transcribe),
        o.summarize ==> chain_did(o, replies, ChainStep::ReadOutcome),
{
    lemma_chain(o, replies);
}

/// A step that fails or is broken off ends the work without success, and nothing follows it;
/// only of the writing of the summary the database has the last word.
pub proof fn law_nothing_follows_a_failed_step(
    r: ChainRun,
    reply: ChainReply,
    later: ChainReply,
)
    requires
        !(reply is Done),
        !(r.step is Generate),
        !(r.step is Finished),
    ensures
        chain_after(r, reply).step == ChainStep::Finished(ChainEnd::Failed) || chain_after(
            r,
            reply,
        ).step == ChainStep::Finished(ChainEnd::Cancelled),
        chain_after(chain_after(r, reply), later) == chain_after(r, reply),
{
}

/// A meeting that is asked for is the one that is worked on, whatever the most recent one is;
/// otherwise it is the most recent one, and without any there is an error, which holds the
/// cause where the database gave one.
pub proof fn law_the_meeting_asked_for_is_taken(
    id: Seq<char>,
    other: Seq<char>,
    latest: Result<Option<Seq<char>>, Seq<char>>,
)
    ensures
        chosen_meeting(Some(id), latest) == Ok::<Seq<char>, Seq<char>>(id),
        chosen_meeting(None, Ok(Some(other))) == Ok::<Seq<char>, Seq<char>>(other),
        chosen_meeting(None, latest) is Ok <==> latest is Ok && latest->Ok_0 is Some,
        latest is Err ==> text::has(chosen_meeting(None, latest)->Err_0, latest->Err_0),
{
    if latest is Err {
        let lead = "Failed to list meetings: "@;
        let none = Seq::<char>::empty();
        text::law_pieces_stand_in_the_whole(lead, latest->Err_0, none);
        assert(lead + latest->Err_0 + none =~= lead + latest->Err_0);
    }
}

/// Audio is transcribed again of a completed meeting with a folder, and of no other: one that
/// is still being recorded is left alone.
pub proof fn law_only_completed_meetings_are_transcribed_again(m: MeetingFolder)
    ensures
        audio_folder(m) is Some <==> m.status@ == "completed"@ && m.folder_path is Some,
        audio_folder(m) matches Some(path) ==> path == m.folder_path->0@,
{
}

/// Parakeet transcribes if and only if it is asked for. An engine that is asked for under a
/// name that nobody knows is warned of, and no other.
pub proof fn law_the_second_engine_is_the_one_asked_for(engine: Option<Seq<char>>)
    ensures
        engine_choice(engine).0 == Engine::Parakeet <==> engine == Some("parakeet"@),
        engine_choice(engine).1 <==> engine is Some && engine->0 != "parakeet"@ && engine->0
            != "whisper"@ && engine->0 != "localWhisper"@,
{
}

proof fn lemma_blank(s: Seq<char>)
    ensures
        text::is_blank(s) <==> forall|i: int|
            0 <= i < s.len() ==> text::is_white_space(#[trigger] s[i]),
{
    if forall|i: int| 0 <= i < s.len() ==> text::is_white_space(#[trigger] s[i]) {
        let none = Seq::<char>::empty();
        text::law_trimming_takes_only_white_space(s, none, none);
        assert(s + none + none =~= s);
    } else {
        let i = choose|i: int| 0 <= i < s.len() && !text::is_white_space(#[trigger] s[i]);
        lemma_first_solid(s, i);
        let a = choose|a: int|
            0 <= a <= i && !text::is_white_space(#[trigger] s[a]) && forall|j: int|
                0 <= j < a ==> text::is_white_space(#[trigger] s[j]);
        lemma_last_solid(s, i);
        let b = choose|b: int|
            i <= b < s.len() && !text::is_white_space(#[trigger] s[b]) && forall|j: int|
                b < j < s.len() ==> text::is_white_space(#[trigger] s[j]);
        let before = s.take(a);
        let middle = s.subrange(a, b + 1);
        let after = s.skip(b + 1);
        assert forall|j: int| 0 <= j < after.len() implies text::is_white_space(
            #[trigger] after[j],
        ) by {
            assert(after[j] == s[b + 1 + j]);
        }
        text::law_trimming_takes_only_white_space(before, middle, after);
        assert(before + middle + after =~= s);
    }
}

proof fn lemma_first_solid(s: Seq<char>, i: int)
    requires
        0 <= i < s.len(),
        !text::is_white_space(s[i]),
    ensures
        exists|a: int|
            0 <= a <= i && !text::is_white_space(#[trigger] s[a]) && forall|j: int|
                0 <= j < a ==> text::is_white_space(#[trigger] s[j]),
    decreases i,
{
    if exists|j: int| 0 <= j < i && !text::is_white_space(#[trigger] s[j]) {
        let j = choose|j: int| 0 <= j < i && !text::is_white_space(#[trigger] s[j]);
        lemma_first_solid(s, j);
    } else {
        assert(!text::is_white_space(s[i]));
    }
}

proof fn lemma_last_solid(s: Seq<char>, i: int)
    requires
        0 <= i < s.len(),
        !text::is_white_space(s[i]),
    ensures
        exists|b: int|
            i <= b < s.len() && !text::is_white_space(#[trigger] s[b]) && forall|j: int|
                b < j < s.len() ==> text::is_white_space(#[trigger] s[j]),
    decreases s.len() - i,
{
    if exists|j: int| i < j < s.len() && !text::is_white_space(#[trigger] s[j]) {
        let j = choose|j: int| i < j < s.len() && !text::is_white_space(#[trigger] s[j]);
        lemma_last_solid(s, j);
    } else {
        assert(!text::is_white_space(s[i]));
    }
}

/// A meeting with any text in its transcript can be summarized, and every piece of the
/// transcript reaches the summary whole, on lines of its own and in its place. A meeting is
/// refused only if all its pieces are blank.
pub proof fn law_the_whole_transcript_is_summarized(pieces: Seq<Seq<char>>, i: int, j: int)
    requires
        0 <= i < pieces.len(),
        0 <= j < pieces[i].len(),
        !text::is_white_space(pieces[i][j]),
    ensures
        summary_source(pieces) is Some,
        forall|k: int|
            0 <= k < pieces.len() ==> summary_source(pieces) == Some(
                (if k > 0 {
                    text::join(pieces.take(k), "\n"@) + "\n"@
                } else {
                    Seq::<char>::empty()
                }) + #[trigger] pieces[k] + (if k + 1 < pieces.len() {
                    "\n"@ + text::join(pieces.skip(k + 1), "\n"@)
                } else {
                    Seq::<char>::empty()
                }),
            ),
{
    let whole = text::join(pieces, "\n"@);
    text::law_joined_parts_keep_their_place(pieces, "\n"@, i);
    let before = if i > 0 {
        text::join(pieces.take(i), "\n"@) + "\n"@
    } else {
        Seq::<char>::empty()
    };
    assert(whole[before.len() + j] == pieces[i][j]);
    lemma_blank(whole);
    assert forall|k: int| 0 <= k < pieces.len() implies summary_source(pieces) == Some(
        (if k > 0 {
            text::join(pieces.take(k), "\n"@) + "\n"@
        } else {
            Seq::<char>::empty()
        }) + #[trigger] pieces[k] + (if k + 1 < pieces.len() {
            "\n"@ + text::join(pieces.skip(k + 1), "\n"@)
        } else {
            Seq::<char>::empty()
        }),
    ) by {
        text::law_joined_parts_keep_their_place(pieces, "\n"@, k);
    }
}

/// A meeting whose pieces are all blank has nothing to summarize.
pub proof fn law_blank_transcripts_are_refused(pieces: Seq<Seq<char>>)
    requires
        forall|i: int, j: int|
            0 <= i < pieces.len() && 0 <= j < pieces[i].len() ==> text::is_white_space(
                #[trigger] pieces[i][j],
            ),
    ensures
        summary_source(pieces) is None,
{
    lemma_blank_join(pieces);
    lemma_blank(text::join(pieces, "\n"@));
}

proof fn lemma_blank_join(pieces: Seq<Seq<char>>)
    requires
        forall|i: int, j: int|
            0 <= i < pieces.len() && 0 <= j < pieces[i].len() ==> text::is_white_space(
                #[trigger] pieces[i][j],
            ),
    ensures
        forall|k: int|
            0 <= k < text::join(pieces, "\n"@).len() ==> text::is_white_space(
                #[trigger] text::join(pieces, "\n"@)[k],
            ),
    decreases pieces.len(),
{
    reveal_strlit("\n");
    let all = text::join(pieces, "\n"@);
    if pieces.len() == 1 {
        assert forall|k: int| 0 <= k < all.len() implies text::is_white_space(#[trigger] all[k]) by {
            assert(all[k] == pieces[0][k]);
        }
    } else if pieces.len() > 1 {
        let head = pieces.drop_last();
        let last = pieces.len() - 1;
        assert forall|i: int, j: int|
            0 <= i < head.len() && 0 <= j < head[i].len() implies text::is_white_space(
            #[trigger] head[i][j],
        ) by {
            assert(head[i][j] == pieces[i][j]);
        }
        lemma_blank_join(head);
        let front = text::join(head, "\n"@);
        assert forall|k: int| 0 <= k < all.len() implies text::is_white_space(#[trigger] all[k]) by {
            if k < front.len() {
                assert(all[k] == front[k]);
            } else if k == front.len() {
                assert(all[k] == '\n');
            } else {
                assert(all[k] == pieces[last][k - front.len() - 1]);
            }
        }
    }
}

/// The error of an unknown template names it and every template that there is.
pub proof fn law_the_error_names_every_template(template: Seq<char>, ids: Seq<Seq<char>>, i: int)
    requires
        0 <= i < ids.len(),
    ensures
        text::has(template_error(template, ids), template),
        text::has(template_error(template, ids), ids[i]),
{
    let all = template_error(template, ids);
    let head = "Unknown template '"@;
    let middle = "'. Available: "@;
    let list = text::join(ids, ", "@);
    assert(all =~= head + template + (middle + list));
    text::law_pieces_stand_in_the_whole(head, template, middle + list);
    text::law_joined_parts_keep_their_place(ids, ", "@, i);
    let before = if i > 0 {
        text::join(ids.take(i), ", "@) + ", "@
    } else {
        Seq::<char>::empty()
    };
    let after = if i + 1 < ids.len() {
        ", "@ + text::join(ids.skip(i + 1), ", "@)
    } else {
        Seq::<char>::empty()
    };
    let front = head + template + middle + before;
    assert(all =~= front + ids[i] + after);
    text::law_pieces_stand_in_the_whole(front, ids[i], after);
}

/// A summary was made if and only if its status says `completed`, in whatever case.
pub proof fn law_only_the_status_says_completed(status: String, error: Option<String>)
    ensures
        says_completed(SummaryLookup::Found { status, error }) <==> text::lower_case(status@)
            == "completed"@,
        !says_completed(SummaryLookup::Missing),
{
}

/// The work passed through a step on its way.
pub open spec fn chain_came_to(o: ChainOptions, replies: Seq<ChainReply>, step: ChainStep) -> bool {
    exists|k: int|
        0 <= k < replies.len() && (#[trigger] chain_run(o, replies.take(k))).step == step
}

proof fn lemma_chain_came(o: ChainOptions, replies: Seq<ChainReply>, step: ChainStep)
    requires
        replies.len() > 0,
    ensures
        chain_came_to(o, replies.drop_last(), step) || chain_run(o, replies.drop_last()).step
            == step ==> chain_came_to(o, replies, step),
{
    let head = replies.drop_last();
    let end = head.len() as int;
    assert(replies.take(end) =~= head);
    if chain_came_to(o, head, step) {
        let k = choose|k: int|
            0 <= k < head.len() && (#[trigger] chain_run(o, head.take(k))).step == step;
        assert(head.take(k) =~= replies.take(k));
        assert(chain_run(o, replies.take(k)).step == step);
    } else if chain_run(o, head).step == step {
        assert(chain_run(o, replies.take(end)).step == step);
    }
}

/// How far a step is on the way of a summary; 0 for the others.
pub open spec fn summary_stage(step: ChainStep) -> int {
    match step {
        ChainStep::LoadText => 1,
        ChainStep::CheckTemplate => 2,
        ChainStep::LoadModel => 3,
        ChainStep::CreateProcess => 4,
        ChainStep::SaveText => 5,
        ChainStep::Generate => 6,
        ChainStep::ReadOutcome => 7,
        ChainStep::Finished(ChainEnd::Done) => 8,
        _ => 0,
    }
}

#[verifier::rlimit(40)]
proof fn lemma_summary_path(o: ChainOptions, replies: Seq<ChainReply>)
    requires
        o.summarize,
    ensures
        ({
            let stage = summary_stage(chain_run(o, replies).step);
            &&& chain_run(o, replies).options == o
            &&& stage > 1 ==> chain_did(o, replies, ChainStep::LoadText)
            &&& stage > 2 ==> chain_did(o, replies, ChainStep::CheckTemplate)
            &&& stage > 3 ==> chain_did(o, replies, ChainStep::LoadModel)
            &&& stage > 4 ==> chain_did(o, replies, ChainStep::CreateProcess)
            &&& stage > 5 ==> chain_did(o, replies, ChainStep::SaveText)
            &&& stage > 6 ==> chain_came_to(o, replies, ChainStep::Generate)
            &&& stage > 7 ==> chain_did(o, replies, ChainStep::ReadOutcome)
        }),
    decreases replies.len(),
{
    if replies.len() > 0 {
        lemma_summary_path(o, replies.drop_last());
        lemma_chain_did(o, replies, ChainStep::LoadText);
        lemma_chain_did(o, replies, ChainStep::CheckTemplate);
        lemma_chain_did(o, replies, ChainStep::LoadModel);
        lemma_chain_did(o, replies, ChainStep::CreateProcess);
        lemma_chain_did(o, replies, ChainStep::SaveText);
        lemma_chain_came(o, replies, ChainStep::Generate);
        lemma_chain_did(o, replies, ChainStep::ReadOutcome);
    }
}

/// A summary that is confirmed was made of the transcript that was read, with a template that
/// was checked and a model that is configured, and it was noted and stored before it was
/// written: none of these steps is ever left out.
pub proof fn law_a_summary_takes_all_its_steps(o: ChainOptions, replies: Seq<ChainReply>)
    requires
        o.summarize,
        chain_run(o, replies).step == ChainStep::Finished(ChainEnd::Done),
    ensures
        chain_did(o, replies, ChainStep::LoadText),
        chain_did(o, replies, ChainStep::CheckTemplate),
        chain_did(o, replies, ChainStep::LoadModel),
        chain_did(o, replies, ChainStep::CreateProcess),
        chain_did(o, replies, ChainStep::SaveText),
        chain_came_to(o, replies, ChainStep::Generate),
        chain_did(o, replies, ChainStep::ReadOutcome),
{
    lemma_summary_path(o, replies);
}

/// How far a step is on the way of the work as a whole.
pub open spec fn chain_stage(step: ChainStep) -> int {
    match step {
        ChainStep::FindLatest => 0,
        ChainStep::FindFolder => 1,
        ChainStep::InitEngine => 2,
        ChainStep::Transcribe => 3,
        ChainStep::LoadText => 4,
        ChainStep::CheckTemplate => 5,
        ChainStep::LoadModel => 6,
        ChainStep::CreateProcess => 7,
        ChainStep::SaveText => 8,
        ChainStep::Generate => 9,
        ChainStep::ReadOutcome => 10,
        ChainStep::Finished(_) => 11,
    }
}

/// Accepted work in which every step is done ends well, after eleven steps at the latest. The
/// most recent meeting is looked for if and only if none is named, and a cancelled
/// transcription ends as cancelled.
pub proof fn law_work_that_is_done_ends_well(o: ChainOptions, replies: Seq<ChainReply>)
    requires
        o.accepted,
        forall|i: int| 0 <= i < replies.len() ==> #[trigger] replies[i] == ChainReply::Done,
    ensures
        replies.len() >= 11 ==> chain_run(o, replies).step == ChainStep::Finished(ChainEnd::Done),
        chain_first(o) == ChainStep::FindLatest <==> o.latest,
        chain_after(
            ChainRun { options: o, step: ChainStep::Transcribe },
            ChainReply::Cancelled,
        ).step == ChainStep::Finished(ChainEnd::Cancelled),
{
    lemma_chain_advances(o, replies);
}

proof fn lemma_chain_advances(o: ChainOptions, replies: Seq<ChainReply>)
    requires
        o.accepted,
        forall|i: int| 0 <= i < replies.len() ==> #[trigger] replies[i] == ChainReply::Done,
    ensures
        chain_run(o, replies).options == o,
        chain_stage(chain_run(o, replies).step) >= replies.len() || chain_run(o, replies).step
            is Finished,
        chain_run(o, replies).step is Finished ==> chain_run(o, replies).step
            == ChainStep::Finished(ChainEnd::Done),
    decreases replies.len(),
{
    if replies.len() > 0 {
        let head = replies.drop_last();
        assert forall|i: int| 0 <= i < head.len() implies #[trigger] head[i]
            == ChainReply::Done by {
            assert(replies[i] == ChainReply::Done);
        }
        lemma_chain_advances(o, head);
        assert(replies[replies.len() - 1] == ChainReply::Done);
    }
}

/// The first Ctrl+C waits for the re-transcription to stop, and every later one ends the
/// program at once, with the status of an interruption.
pub proof fn law_a_second_interruption_is_final(cancelled: bool)
    ensures
        interrupted(cancelled) is Cancel <==> !cancelled,
        interrupted(cancelled) is Abandon ==> interrupted(cancelled)->status == 130,
{
}

/// A transcription that was made counts, also where the user had cancelled it. One that was
/// not made is cancelled or failed as the user cancelled it or did not, and a failure names
/// the meeting and the cause.
pub proof fn law_made_transcriptions_count(id: Seq<char>, failure: Option<Seq<char>>, cancelled: bool)
    ensures
        retranscribed(id, failure, cancelled) is Done <==> failure is None,
        retranscribed(id, failure, cancelled) is Cancelled <==> failure is Some && cancelled,
        failure is Some && !cancelled ==> {
            let told = retranscribed(id, failure, cancelled)->Failed_0;
            text::has(told, id) && text::has(told, failure->0)
        },
{
    if failure is Some && !cancelled {
        let cause = failure->0;
        let none = Seq::<char>::empty();
        let start =
            "Re-transcription failed (the meeting is intact; retry with `retranscribe --meeting "@;
        let mid = "` or in the app): "@;
        let whole = start + id + mid + cause;
        text::law_pieces_stand_in_the_whole(start, id, mid + cause);
        assert(start + id + (mid + cause) =~= whole);
        text::law_pieces_stand_in_the_whole(start + id + mid, cause, none);
        assert(whole + none =~= whole);
    }
}

/// A summary is taken to be made if and only if its process was found and is completed. Where
/// it is not, the cause that is known is handed on, and where none is, the status.
pub proof fn law_unmade_summaries_are_explained(found: SummaryLookup, completed: bool)
    ensures
        summary_failure(found, completed) is None <==> found is Found && completed,
        !completed && found is Found && found->error is Some ==> summary_failure(found, completed)
            == Some(found->error->0@),
        !completed && found is Found && found->error is None ==> text::has(
            summary_failure(found, completed)->0,
            found->status@,
        ),
        found is Failed ==> text::has(summary_failure(found, completed)->0, found->Failed_0@),
{
    match found {
        SummaryLookup::Found { status, error } => {
            text::law_pieces_stand_in_the_whole(
                "summary did not complete (status: "@,
                status@,
                ")"@,
            );
        },
        SummaryLookup::Missing => {},
        SummaryLookup::Failed(cause) => {
            let lead = "failed to read the summary status: "@;
            let none = Seq::<char>::empty();
            text::law_pieces_stand_in_the_whole(lead, cause@, none);
            assert(lead + cause@ + none =~= lead + cause@);
        },
    }
}

/// The status is 0 if and only if the work was done, 130 if and only if the user cancelled it,
/// and 1 otherwise. A command fails with a status if and only if it works on a meeting.
pub proof fn law_the_status_tells_the_end(end: ChainEnd, command: Command)
    ensures
        status_of_end(end) == 0 <==> end == ChainEnd::Done,
        status_of_end(end) == 130 <==> end == ChainEnd::Cancelled,
        status_of_end(end) == 0 || status_of_end(end) == 130 || status_of_end(end) == 1,
        status_of_failure(command) == 1 <==> command is Record || command is Retranscribe
            || command is Summarize,
        status_of_failure(command) == 1 || status_of_failure(command) == 0,
{
}

/// Up to 999 percent the number takes three columns, so that the message does not move. The
/// number stands there to its last digit, and the message whole after it.
pub proof fn law_progress_stays_in_place(percent: nat, other: nat, message: Seq<char>)
    requires
        percent < 1000,
        other < 1000,
    ensures
        three_columns(percent).len() == 3,
        text::has(progress_text(percent, message), text::decimal(percent)),
        progress_text(percent, message).len() == progress_text(other, message).len(),
        progress_text(percent, message).skip(
            progress_text(percent, message).len() - message.len(),
        ) == message,
{
    lemma_three_columns(percent);
    lemma_three_columns(other);
    let start = "\r\x1b[K⏳ "@;
    let d = text::decimal(percent);
    let blanks = three_columns(percent).take(3 - d.len());
    let whole = progress_text(percent, message);
    text::law_pieces_stand_in_the_whole(start + blanks, d, "% "@ + message);
    assert(start + blanks + d + ("% "@ + message) =~= whole);
    assert(whole.skip(whole.len() - message.len()) =~= message);
}

proof fn lemma_three_columns(n: nat)
    requires
        n < 1000,
    ensures
        three_columns(n).len() == 3,
        1 <= text::decimal(n).len() <= 3,
        three_columns(n) == three_columns(n).take(3 - text::decimal(n).len()) + text::decimal(n),
{
    reveal_strlit("  ");
    reveal_strlit(" ");
    reveal_with_fuel(text::decimal, 3);
    assert(three_columns(n) =~= three_columns(n).take(3 - text::decimal(n).len())
        + text::decimal(n));
}

/// A summary needs a provider and a model: one of them alone is not enough.
pub proof fn law_summaries_need_a_model(provider: String, model: String)
    ensures
        can_summarize(Some((provider, model))) <==> provider@.len() > 0 && model@.len() > 0,
        !can_summarize(None),
{
}

} // verus!
