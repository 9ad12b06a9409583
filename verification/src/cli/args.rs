//! What the command line asks for, and which combinations of options are refused.
use vstd::prelude::*;

verus! {

/// The parsed command line.
#[derive(Debug, Clone)]
pub struct Cli {
    pub command: Option<Command>,
}

#[derive(Debug, Clone)]
pub enum Command {
    /// Record a meeting; this is what happens without a subcommand.
    Record(RecordArgs),
    /// List the transcription models and the configured default.
    ListModels,
    /// List the audio devices.
    ListDevices,
    /// List the meetings with their ids.
    ListMeetings,
    /// List the summary templates.
    ListTemplates,
    /// Transcribe a saved meeting again with another model.
    Retranscribe(RetranscribeArgs),
    /// Generate the summary of a meeting.
    Summarize(SummarizeArgs),
}

#[derive(Debug, Clone)]
pub struct RecordArgs {
    /// Meeting name; by default it is made of the date and time.
    pub name: Option<String>,
    /// First lines of the notes that go into the summary context.
    pub notes: Option<String>,
    /// Record without loading any model.
    pub record_only: bool,
    /// Transcription engine; by default the configured one.
    pub engine: Option<String>,
    /// Language code for the engine; by default the app's preference.
    pub language: Option<String>,
    /// Model name; by default the configured one.
    pub model: Option<String>,
    /// Microphone; by default the system's.
    pub mic: Option<String>,
    /// System audio device; by default the system's loopback.
    pub system: Option<String>,
    /// Show partial transcriptions while recording.
    pub partial: bool,
    /// Do not print transcripts.
    pub quiet: bool,
    /// Stop after so many seconds.
    pub duration: Option<u64>,
    /// Transcribe without saving the audio.
    pub no_audio_save: bool,
    /// Model to transcribe the saved audio with after the recording.
    pub retranscribe_model: Option<String>,
    /// Engine of that second transcription; by default the recording's.
    pub retranscribe_engine: Option<String>,
    /// Language of that second transcription; by default the recording's.
    pub retranscribe_language: Option<String>,
    /// Generate the summary after saving.
    pub summarize: bool,
    /// Summary template.
    pub template: Option<String>,
}

/// None of the options of a recording.
pub open spec fn no_record_options(a: RecordArgs) -> bool {
    &&& a.name is None && a.notes is None && a.engine is None && a.language is None
    &&& a.model is None && a.mic is None && a.system is None && a.duration is None
    &&& a.retranscribe_model is None && a.retranscribe_engine is None
    &&& a.retranscribe_language is None && a.template is None
    &&& !a.record_only && !a.partial && !a.quiet && !a.no_audio_save && !a.summarize
}

impl Default for RecordArgs {
    /// No option given.
    fn default() -> (r: RecordArgs)
        ensures
            no_record_options(r),
    {
        RecordArgs {
            name: None,
            notes: None,
            record_only: false,
            engine: None,
            language: None,
            model: None,
            mic: None,
            system: None,
            partial: false,
            quiet: false,
            duration: None,
            no_audio_save: false,
            retranscribe_model: None,
            retranscribe_engine: None,
            retranscribe_language: None,
            summarize: false,
            template: None,
        }
    }
}

/// Why the options of a recording are refused, if they are.
pub open spec fn record_refusal(a: RecordArgs) -> Option<Seq<char>> {
    if a.record_only && a.no_audio_save {
        Some(
            "--record-only requires saving the audio (it is the source for re-transcription); remove --no-audio-save."@,
        )
    } else if a.retranscribe_model is Some && a.no_audio_save {
        Some("--retranscribe-model reads the saved audio file; remove --no-audio-save."@)
    } else if (a.retranscribe_engine is Some || a.retranscribe_language is Some)
        && a.retranscribe_model is None {
        Some("--retranscribe-engine/--retranscribe-language require --retranscribe-model."@)
    } else if a.summarize && a.record_only && a.retranscribe_model is None {
        Some(
            "--summarize needs a transcription; with --record-only, add --retranscribe-model <model>."@,
        )
    } else {
        None
    }
}

impl RecordArgs {
    /// Refuses combinations of options that cannot work together.
    pub fn validate(&self) -> (r: Result<(), String>)
        ensures
            match r {
                Ok(_) => record_refusal(*self) is None,
                Err(e) => record_refusal(*self) == Some(e@),
            },
    {
        if self.record_only && self.no_audio_save {
            return Err(
                "--record-only requires saving the audio (it is the source for re-transcription); remove --no-audio-save.".to_owned(),
            );
        }
        if self.retranscribe_model.is_some() && self.no_audio_save {
            return Err(
                "--retranscribe-model reads the saved audio file; remove --no-audio-save.".to_owned(),
            );
        }
        if (self.retranscribe_engine.is_some() || self.retranscribe_language.is_some())
            && self.retranscribe_model.is_none() {
            return Err(
                "--retranscribe-engine/--retranscribe-language require --retranscribe-model.".to_owned(),
            );
        }
        // A recording without a model has no transcript of its own; a second
        // transcription of its audio makes one.
        if self.summarize && self.record_only && self.retranscribe_model.is_none() {
            return Err(
                "--summarize needs a transcription; with --record-only, add --retranscribe-model <model>.".to_owned(),
            );
        }
        Ok(())
    }
}

#[derive(Debug, Clone)]
pub struct RetranscribeArgs {
    /// Id of the meeting.
    pub meeting: Option<String>,
    /// Take the most recent meeting.
    pub last: bool,
    /// Model to transcribe with.
    pub model: String,
    /// Engine; by default Whisper.
    pub engine: Option<String>,
    /// Language code; by default the app's preference.
    pub language: Option<String>,
    /// Generate the summary afterwards.
    pub summarize: bool,
    /// Summary template.
    pub template: Option<String>,
}

impl Default for RetranscribeArgs {
    /// No option given.
    fn default() -> (r: RetranscribeArgs)
        ensures
            r.meeting is None && r.engine is None && r.language is None && r.template is None,
            r.model@ == Seq::<char>::empty(),
            !r.last && !r.summarize,
    {
        RetranscribeArgs {
            meeting: None,
            last: false,
            model: String::new(),
            engine: None,
            language: None,
            summarize: false,
            template: None,
        }
    }
}

/// Why the options of a second transcription are refused, if they are.
pub open spec fn retranscribe_refusal(a: RetranscribeArgs) -> Option<Seq<char>> {
    if a.meeting is Some && a.last {
        Some("use either --meeting <id> or --last, not both."@)
    } else if a.meeting is None && !a.last {
        Some("specify the meeting to re-transcribe: --meeting <id> or --last."@)
    } else {
        None
    }
}

impl RetranscribeArgs {
    /// Exactly one way of choosing the meeting must be given.
    pub fn validate(&self) -> (r: Result<(), String>)
        ensures
            match r {
                Ok(_) => retranscribe_refusal(*self) is None,
                Err(e) => retranscribe_refusal(*self) == Some(e@),
            },
    {
        match (self.meeting.is_some(), self.last) {
            (true, true) => Err("use either --meeting <id> or --last, not both.".to_owned()),
            (false, false) => Err(
                "specify the meeting to re-transcribe: --meeting <id> or --last.".to_owned(),
            ),
            _ => Ok(()),
        }
    }
}

#[derive(Debug, Clone)]
pub struct SummarizeArgs {
    /// Id of the meeting.
    pub meeting: Option<String>,
    /// Take the most recent meeting.
    pub last: bool,
    /// Summary template.
    pub template: Option<String>,
}

impl Default for SummarizeArgs {
    /// No option given.
    fn default() -> (r: SummarizeArgs)
        ensures
            r.meeting is None && r.template is None && !r.last,
    {
        SummarizeArgs { meeting: None, last: false, template: None }
    }
}

/// Why the options of a summary are refused, if they are.
pub open spec fn summarize_refusal(a: SummarizeArgs) -> Option<Seq<char>> {
    if a.meeting is Some && a.last {
        Some("use either --meeting <id> or --last, not both."@)
    } else if a.meeting is None && !a.last {
        Some("specify the meeting to summarize: --meeting <id> or --last."@)
    } else {
        None
    }
}

impl SummarizeArgs {
    /// Exactly one way of choosing the meeting must be given.
    pub fn validate(&self) -> (r: Result<(), String>)
        ensures
            match r {
                Ok(_) => summarize_refusal(*self) is None,
                Err(e) => summarize_refusal(*self) == Some(e@),
            },
    {
        match (self.meeting.is_some(), self.last) {
            (true, true) => Err("use either --meeting <id> or --last, not both.".to_owned()),
            (false, false) => Err(
                "specify the meeting to summarize: --meeting <id> or --last.".to_owned(),
            ),
            _ => Ok(()),
        }
    }
}

impl Cli {
    /// The command to carry out: the one given, or a recording with no options.
    pub fn into_command(self) -> (r: Command)
        ensures
            match self.command {
                Some(c) => r == c,
                None => r matches Command::Record(a) && no_record_options(a),
            },
    {
        match self.command {
            Some(c) => c,
            None => Command::Record(RecordArgs::default()),
        }
    }
}

/// Accepted options never summarize a meeting that has no transcript, and never
/// transcribe or keep for later an audio file that was not saved.
pub proof fn law_accepted_recordings_have_their_sources(a: RecordArgs)
    requires
        record_refusal(a) is None,
    ensures
        a.summarize ==> !a.record_only || a.retranscribe_model is Some,
        a.record_only || a.retranscribe_model is Some ==> !a.no_audio_save,
        a.retranscribe_engine is Some || a.retranscribe_language is Some
            ==> a.retranscribe_model is Some,
{
}

/// A meeting is chosen in exactly one of the two ways.
pub proof fn law_accepted_targets_are_unique(r: RetranscribeArgs, s: SummarizeArgs)
    ensures
        retranscribe_refusal(r) is None <==> (r.meeting is Some) != r.last,
        summarize_refusal(s) is None <==> (s.meeting is Some) != s.last,
{
}

/// A recording is refused only for what it lacks: whatever its other options, one that keeps
/// its audio where it is needed later, names a model for a second transcription with its own
/// engine or language, and has a transcript to summarize is accepted.
pub proof fn law_recordings_are_refused_for_these_reasons_only(a: RecordArgs)
    ensures
        record_refusal(a) is None <==> !((a.record_only || a.retranscribe_model is Some)
            && a.no_audio_save) && ((a.retranscribe_engine is Some || a.retranscribe_language is Some)
            ==> a.retranscribe_model is Some) && (a.summarize && a.record_only
            ==> a.retranscribe_model is Some),
{
}

/// A recording without any option is accepted: it is what happens where nothing is asked for.
pub proof fn law_a_bare_recording_is_accepted(a: RecordArgs)
    requires
        no_record_options(a),
    ensures
        record_refusal(a) is None,
{
}

/// Recordings without options are all the same one: no option is left open.
pub proof fn law_bare_recordings_are_alike(a: RecordArgs, b: RecordArgs)
    requires
        no_record_options(a),
        no_record_options(b),
    ensures
        a == b,
{
}

} // verus!
