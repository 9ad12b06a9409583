//! Recovery of recordings that were interrupted.
//!
//! A recording stores its meeting when it starts and marks it as completed when it ends
//! well. A meeting that was never marked is one whose recording died. What it left on disk
//! (transcript segments and audio checkpoints) turns it into a normal meeting again.
use crate::clock;
use crate::clock::Moment;
use crate::text;
use vstd::prelude::*;

verus! {

/// A recording that never ended, as offered to the user.
#[derive(Debug, Clone)]
pub struct RecoverableMeeting {
    pub id: String,
    pub title: String,
    /// When the recording started, in RFC 3339 notation.
    pub created_at: String,
    /// The last sign of life, in RFC 3339 notation.
    pub updated_at: String,
    /// The meeting's folder, if the recording was saving.
    pub folder_path: Option<String>,
    /// Segments found on disk.
    pub transcript_count: usize,
    /// Are there audio checkpoints on disk?
    pub has_audio: bool,
    /// The last sign of life is so young that the recording may be running.
    pub is_live: bool,
}

/// A recording whose last sign of life is younger than this is taken to be running in
/// another process. A sign comes every 30 seconds, so one may be missed.
pub const LIVE_HEARTBEAT_SECONDS: i64 = 90;

/// A meeting that was never marked as completed.
#[derive(Debug, Clone)]
pub struct IncompleteMeeting {
    pub id: String,
    pub title: String,
    pub created_at: Moment,
    pub updated_at: Moment,
    pub folder_path: Option<String>,
}

/// What an interrupted recording left in its folder; nothing where the folder is gone.
#[derive(Debug, Clone, Copy, PartialEq, Eq, Structural)]
pub struct Leftovers {
    pub transcript_count: usize,
    pub has_audio: bool,
}

/// May a recording with this last sign of life be running now?
pub open spec fn is_live_at(last_sign: Moment, now: Moment) -> bool {
    clock::seconds_from(last_sign, now) < LIVE_HEARTBEAT_SECONDS
}

/// A recoverable recording as texts.
pub struct OfferView {
    pub id: Seq<char>,
    pub title: Seq<char>,
    pub created_at: Seq<char>,
    pub updated_at: Seq<char>,
    pub folder_path: Option<Seq<char>>,
    pub transcript_count: usize,
    pub has_audio: bool,
    pub is_live: bool,
}

impl View for RecoverableMeeting {
    type V = OfferView;

    open spec fn view(&self) -> OfferView {
        OfferView {
            id: self.id@,
            title: self.title@,
            created_at: self.created_at@,
            updated_at: self.updated_at@,
            folder_path: text::opt_text(self.folder_path),
            transcript_count: self.transcript_count,
            has_audio: self.has_audio,
            is_live: self.is_live,
        }
    }
}

/// What is offered of a meeting whose folder holds this, if it exists.
pub open spec fn offered(
    meeting: IncompleteMeeting,
    leftovers: Option<Leftovers>,
    now: Moment,
) -> OfferView {
    OfferView {
        id: meeting.id@,
        title: meeting.title@,
        created_at: clock::rfc3339_text(meeting.created_at.secs, meeting.created_at.nanos),
        updated_at: clock::rfc3339_text(meeting.updated_at.secs, meeting.updated_at.nanos),
        folder_path: text::opt_text(meeting.folder_path),
        transcript_count: match (meeting.folder_path, leftovers) {
            (Some(_), Some(found)) => found.transcript_count,
            _ => 0,
        },
        has_audio: match (meeting.folder_path, leftovers) {
            (Some(_), Some(found)) => found.has_audio,
            _ => false,
        },
        is_live: is_live_at(meeting.updated_at, now),
    }
}

/// What is offered to the user of an interrupted recording. `leftovers` is what stands in
/// its folder, if the folder exists.
pub fn recoverable_meeting(
    meeting: IncompleteMeeting,
    leftovers: Option<Leftovers>,
    now: Moment,
) -> (r: RecoverableMeeting)
    requires
        meeting.created_at.valid(),
        meeting.updated_at.valid(),
        now.valid(),
    ensures
        r.id == meeting.id,
        r.title == meeting.title,
        r.created_at@ == clock::rfc3339_text(meeting.created_at.secs, meeting.created_at.nanos),
        r.updated_at@ == clock::rfc3339_text(meeting.updated_at.secs, meeting.updated_at.nanos),
        r.folder_path == meeting.folder_path,
        r.transcript_count == match (meeting.folder_path, leftovers) {
            (Some(_), Some(found)) => found.transcript_count,
            _ => 0,
        },
        r.has_audio == match (meeting.folder_path, leftovers) {
            (Some(_), Some(found)) => found.has_audio,
            _ => false,
        },
        r.is_live == is_live_at(meeting.updated_at, now),
        r@ == offered(meeting, leftovers, now),
{
    let since_heartbeat = clock::seconds_between(meeting.updated_at, now);
    let (transcript_count, has_audio) = match (&meeting.folder_path, leftovers) {
        (Some(_), Some(found)) => (found.transcript_count, found.has_audio),
        _ => (0, false),
    };
    RecoverableMeeting {
        created_at: clock::rfc3339(meeting.created_at),
        updated_at: clock::rfc3339(meeting.updated_at),
        id: meeting.id,
        title: meeting.title,
        folder_path: meeting.folder_path,
        transcript_count,
        has_audio,
        is_live: since_heartbeat < LIVE_HEARTBEAT_SECONDS,
    }
}

/// How many of the recordings may be running.
pub open spec fn live_count(meetings: Seq<RecoverableMeeting>) -> nat
    decreases meetings.len(),
{
    if meetings.len() == 0 {
        0
    } else {
        live_count(meetings.drop_last()) + if meetings.last().is_live {
            1nat
        } else {
            0
        }
    }
}

/// How many recordings are interrupted, and how many may be running.
pub fn count_recoverable(meetings: &[RecoverableMeeting]) -> (r: (usize, usize))
    ensures
        r.1 == live_count(meetings@),
        r.0 + r.1 == meetings@.len(),
{
    let mut live: usize = 0;
    let mut i: usize = 0;
    while i < meetings.len()
        invariant
            i <= meetings@.len(),
            live == live_count(meetings@.take(i as int)),
            live <= i,
        decreases meetings@.len() - i,
    {
        proof {
            let now = meetings@.take(i + 1);
            assert(now.drop_last() =~= meetings@.take(i as int));
            assert(now.last() == meetings@[i as int]);
        }
        if meetings[i].is_live {
            live = live + 1;
        }
        i = i + 1;
    }
    proof {
        assert(meetings@.take(meetings@.len() as int) =~= meetings@);
    }
    (meetings.len() - live, live)
}

/// What recovering a meeting came to.
#[derive(Debug, Clone)]
pub struct RecoveryResult {
    pub meeting_id: String,
    /// The title that the meeting was completed with.
    pub title: String,
    pub transcript_count: usize,
    /// `success`, `partial` or `failed`, as the merge of the audio says, or `none`.
    pub audio_status: String,
    pub audio_file_path: Option<String>,
    pub message: String,
}

/// What became of the audio checkpoints of a meeting.
#[derive(Debug, Clone)]
pub enum AudioMerge {
    /// The meeting has no folder, or the folder no checkpoints.
    NoCheckpoints,
    /// They were merged, with the status, file and message of the merge.
    Merged { status: String, audio_file_path: Option<String>, message: String },
    /// They could not be merged, for this reason.
    Failed(String),
}

/// The status of the audio of a recovered meeting.
pub open spec fn merge_status(merge: AudioMerge) -> Seq<char> {
    match merge {
        AudioMerge::NoCheckpoints => "none"@,
        AudioMerge::Merged { status, .. } => status@,
        AudioMerge::Failed(_) => "failed"@,
    }
}

/// Is the raw audio no longer needed? Only a merge that succeeded makes it so.
pub open spec fn merge_succeeded(merge: AudioMerge) -> bool {
    merge_status(merge) == "success"@
}

/// What recovering has to do next.
#[derive(Debug, Clone, Copy, PartialEq, Eq, Structural)]
pub enum RecoveryStep {
    /// Load the meeting.
    Load,
    /// Read the segments and merge the checkpoints.
    Gather,
    /// Store the segments and mark the meeting as completed.
    Complete,
    /// Remove the checkpoints; a failure does not matter.
    RemoveCheckpoints,
    /// Nothing: the meeting is recovered.
    Recovered,
    /// Nothing: it is not recovered, and nothing more is touched.
    GaveUp,
}

/// What doing a step came to, as far as the next step depends on it.
#[derive(Debug, Clone, Copy, PartialEq, Eq, Structural)]
pub enum RecoveryReply {
    /// The step was done. After gathering: did a merge of checkpoints succeed?
    Done { merge_succeeded: bool },
    /// The step could not be done, or there was no meeting to do it for.
    Failed,
}

/// A recovery under way.
#[derive(Debug, Clone, Copy, PartialEq, Eq, Structural)]
pub struct Recovery {
    pub step: RecoveryStep,
    /// The checkpoints were merged, so they can go once the meeting is completed.
    pub merged: bool,
}

/// Where a recovery stands after a step. Gathering cannot fail: what cannot be read or
/// merged is left out.
pub open spec fn recovery_after(r: Recovery, reply: RecoveryReply) -> Recovery {
    match (r.step, reply) {
        (RecoveryStep::Load, RecoveryReply::Done { .. }) => Recovery {
            step: RecoveryStep::Gather,
            merged: false,
        },
        (RecoveryStep::Load, RecoveryReply::Failed) => Recovery {
            step: RecoveryStep::GaveUp,
            merged: false,
        },
        (RecoveryStep::Gather, RecoveryReply::Done { merge_succeeded }) => Recovery {
            step: RecoveryStep::Complete,
            merged: merge_succeeded,
        },
        (RecoveryStep::Gather, RecoveryReply::Failed) => Recovery {
            step: RecoveryStep::Complete,
            merged: false,
        },
        (RecoveryStep::Complete, RecoveryReply::Done { .. }) => Recovery {
            step: if r.merged {
                RecoveryStep::RemoveCheckpoints
            } else {
                RecoveryStep::Recovered
            },
            merged: r.merged,
        },
        (RecoveryStep::Complete, RecoveryReply::Failed) => Recovery {
            step: RecoveryStep::GaveUp,
            merged: r.merged,
        },
        (RecoveryStep::RemoveCheckpoints, _) => Recovery {
            step: RecoveryStep::Recovered,
            merged: r.merged,
        },
        (RecoveryStep::Recovered, _) => r,
        (RecoveryStep::GaveUp, _) => r,
    }
}

impl Recovery {
    /// A recovery starts with loading the meeting.
    pub fn start() -> (r: Recovery)
        ensures
            r == (Recovery { step: RecoveryStep::Load, merged: false }),
    {
        Recovery { step: RecoveryStep::Load, merged: false }
    }

    /// Takes the outcome of the current step.
    pub fn after(self, reply: RecoveryReply) -> (r: Recovery)
        ensures
            r == recovery_after(self, reply),
    {
        match self.step {
            RecoveryStep::Load => match reply {
                RecoveryReply::Done { .. } => Recovery {
                    step: RecoveryStep::Gather,
                    merged: false,
                },
                RecoveryReply::Failed => Recovery { step: RecoveryStep::GaveUp, merged: false },
            },
            RecoveryStep::Gather => Recovery {
                step: RecoveryStep::Complete,
                merged: match reply {
                    RecoveryReply::Done { merge_succeeded } => merge_succeeded,
                    RecoveryReply::Failed => false,
                },
            },
            RecoveryStep::Complete => Recovery {
                step: match reply {
                    RecoveryReply::Done { .. } => if self.merged {
                        RecoveryStep::RemoveCheckpoints
                    } else {
                        RecoveryStep::Recovered
                    },
                    RecoveryReply::Failed => RecoveryStep::GaveUp,
                },
                merged: self.merged,
            },
            RecoveryStep::RemoveCheckpoints => Recovery {
                step: RecoveryStep::Recovered,
                merged: self.merged,
            },
            RecoveryStep::Recovered => self,
            RecoveryStep::GaveUp => self,
        }
    }
}

/// What gathering replies, from what became of the checkpoints.
pub fn gathered(merge: &AudioMerge) -> (r: RecoveryReply)
    ensures
        r == (RecoveryReply::Done { merge_succeeded: merge_succeeded(*merge) }),
{
    let merge_succeeded = match merge {
        AudioMerge::NoCheckpoints => {
            proof {
                reveal_strlit("none");
                reveal_strlit("success");
                assert("none"@.len() != "success"@.len());
            }
            false
        },
        AudioMerge::Merged { status, .. } => text::same(status.as_str(), "success"),
        AudioMerge::Failed(_) => {
            proof {
                reveal_strlit("failed");
                reveal_strlit("success");
                assert("failed"@.len() != "success"@.len());
            }
            false
        },
    };
    RecoveryReply::Done { merge_succeeded }
}

/// The result of a recovery as texts.
pub struct ResultView {
    pub meeting_id: Seq<char>,
    pub title: Seq<char>,
    pub transcript_count: usize,
    pub audio_status: Seq<char>,
    pub audio_file_path: Option<Seq<char>>,
    pub message: Seq<char>,
}

impl View for RecoveryResult {
    type V = ResultView;

    open spec fn view(&self) -> ResultView {
        ResultView {
            meeting_id: self.meeting_id@,
            title: self.title@,
            transcript_count: self.transcript_count,
            audio_status: self.audio_status@,
            audio_file_path: text::opt_text(self.audio_file_path),
            message: self.message@,
        }
    }
}

/// What a recovery came to.
pub open spec fn recovered(
    meeting_id: Seq<char>,
    title: Seq<char>,
    transcript_count: usize,
    merge: AudioMerge,
) -> ResultView {
    ResultView {
        meeting_id,
        title,
        transcript_count,
        audio_status: merge_status(merge),
        audio_file_path: match merge {
            AudioMerge::Merged { audio_file_path, .. } => text::opt_text(audio_file_path),
            _ => None,
        },
        message: match merge {
            AudioMerge::NoCheckpoints => "No audio checkpoints found"@,
            AudioMerge::Merged { message, .. } => message@,
            AudioMerge::Failed(cause) => cause@,
        },
    }
}

/// The result of a recovery, from the meeting and what was gathered.
pub fn recovery_result(
    meeting_id: String,
    title: String,
    transcript_count: usize,
    merge: AudioMerge,
) -> (r: RecoveryResult)
    ensures
        r.meeting_id == meeting_id,
        r.title == title,
        r.transcript_count == transcript_count,
        r.audio_status@ == merge_status(merge),
        match merge {
            AudioMerge::NoCheckpoints => r.audio_file_path is None && r.message@
                == "No audio checkpoints found"@,
            AudioMerge::Merged { status, audio_file_path, message } => r.audio_file_path
                == audio_file_path && r.message == message,
            AudioMerge::Failed(cause) => r.audio_file_path is None && r.message == cause,
        },
        r@ == recovered(meeting_id@, title@, transcript_count, merge),
{
    match merge {
        AudioMerge::NoCheckpoints => RecoveryResult {
            meeting_id,
            title,
            transcript_count,
            audio_status: "none".to_owned(),
            audio_file_path: None,
            message: "No audio checkpoints found".to_owned(),
        },
        AudioMerge::Merged { status, audio_file_path, message } => RecoveryResult {
            meeting_id,
            title,
            transcript_count,
            audio_status: status,
            audio_file_path,
            message,
        },
        AudioMerge::Failed(cause) => RecoveryResult {
            meeting_id,
            title,
            transcript_count,
            audio_status: "failed".to_owned(),
            audio_file_path: None,
            message: cause,
        },
    }
}

/// What loading a meeting came to.
#[derive(Debug, Clone)]
pub enum LoadOutcome {
    Found,
    Missing,
    Failed(String),
}

/// What is said of a meeting that was not loaded.
pub open spec fn load_failure(meeting_id: Seq<char>, outcome: LoadOutcome) -> Option<Seq<char>> {
    match outcome {
        LoadOutcome::Found => None,
        LoadOutcome::Missing => Some("Meeting "@ + meeting_id + " not found"@),
        LoadOutcome::Failed(cause) => Some(
            "Failed to load meeting "@ + meeting_id + ": "@ + cause@,
        ),
    }
}

/// What is said of a meeting that was not completed.
pub open spec fn complete_failure(meeting_id: Seq<char>, outcome: LoadOutcome) -> Option<
    Seq<char>,
> {
    match outcome {
        LoadOutcome::Found => None,
        LoadOutcome::Missing => Some("Meeting "@ + meeting_id + " disappeared during recovery"@),
        LoadOutcome::Failed(cause) => Some(
            "Failed to finalize meeting "@ + meeting_id + ": "@ + cause@,
        ),
    }
}

/// The error of a meeting that cannot be loaded.
pub fn load_error(meeting_id: &str, outcome: &LoadOutcome) -> (r: Option<String>)
    ensures
        match *outcome {
            LoadOutcome::Found => r is None,
            LoadOutcome::Missing => r matches Some(e) && e@ == "Meeting "@ + meeting_id@
                + " not found"@,
            LoadOutcome::Failed(cause) => r matches Some(e) && e@ == "Failed to load meeting "@
                + meeting_id@ + ": "@ + cause@,
        },
        text::opt_text(r) == load_failure(meeting_id@, *outcome),
{
    match outcome {
        LoadOutcome::Found => None,
        LoadOutcome::Missing => Some(text::concat3("Meeting ", meeting_id, " not found")),
        LoadOutcome::Failed(cause) => Some(
            text::concat4("Failed to load meeting ", meeting_id, ": ", cause.as_str()),
        ),
    }
}

/// The error of a meeting that cannot be completed: the database failed, or had no such
/// meeting any more.
pub fn complete_error(meeting_id: &str, outcome: &LoadOutcome) -> (r: Option<String>)
    ensures
        match *outcome {
            LoadOutcome::Found => r is None,
            LoadOutcome::Missing => r matches Some(e) && e@ == "Meeting "@ + meeting_id@
                + " disappeared during recovery"@,
            LoadOutcome::Failed(cause) => r matches Some(e) && e@ == "Failed to finalize meeting "@
                + meeting_id@ + ": "@ + cause@,
        },
        text::opt_text(r) == complete_failure(meeting_id@, *outcome),
{
    match outcome {
        LoadOutcome::Found => None,
        LoadOutcome::Missing => Some(
            text::concat3("Meeting ", meeting_id, " disappeared during recovery"),
        ),
        LoadOutcome::Failed(cause) => Some(
            text::concat4("Failed to finalize meeting ", meeting_id, ": ", cause.as_str()),
        ),
    }
}

/// Where a recovery stands after a number of replies.
pub open spec fn recovery_run(r: Recovery, replies: Seq<RecoveryReply>) -> Recovery
    decreases replies.len(),
{
    if replies.len() == 0 {
        r
    } else {
        recovery_after(recovery_run(r, replies.drop_last()), replies.last())
    }
}

/// Whatever happens, checkpoints are removed only after their merge succeeded and the
/// meeting was completed: the replies to gathering and to completing said so.
pub proof fn law_checkpoints_outlive_failures(replies: Seq<RecoveryReply>)
    ensures
        ({
            let start = Recovery { step: RecoveryStep::Load, merged: false };
            recovery_run(start, replies).step == RecoveryStep::RemoveCheckpoints ==> replies.len()
                == 3 && replies[1] == (RecoveryReply::Done { merge_succeeded: true })
                && replies[2] is Done
        }),
{
    lemma_recovery_run(replies);
}

proof fn lemma_recovery_run(replies: Seq<RecoveryReply>)
    ensures
        ({
            let start = Recovery { step: RecoveryStep::Load, merged: false };
            let now = recovery_run(start, replies);
            &&& now.step == RecoveryStep::Load ==> replies.len() == 0
            &&& now.step == RecoveryStep::Gather ==> replies.len() == 1
            &&& now.step == RecoveryStep::Complete ==> replies.len() == 2 && (now.merged
                <==> replies[1] == (RecoveryReply::Done { merge_succeeded: true }))
            &&& now.step == RecoveryStep::RemoveCheckpoints ==> replies.len() == 3 && replies[1]
                == (RecoveryReply::Done { merge_succeeded: true }) && replies[2] is Done
        }),
    decreases replies.len(),
{
    if replies.len() > 0 {
        let head = replies.drop_last();
        lemma_recovery_run(head);
        if head.len() >= 2 {
            assert(head[1] == replies[1]);
        }
    }
}

/// Audio that cannot be merged never stands in the way of the transcripts: whatever gathering
/// came to, the meeting is completed next.
pub proof fn law_audio_does_not_block_recovery(r: Recovery, reply: RecoveryReply)
    requires
        r.step == RecoveryStep::Gather,
    ensures
        recovery_after(r, reply).step == RecoveryStep::Complete,
{
}

/// A recording whose last sign of life lies in the future, or less than 90 seconds back,
/// counts as running; an older one as interrupted.
pub proof fn law_live_window(last_sign: Moment, now: Moment)
    ensures
        now.total() <= last_sign.total() ==> is_live_at(last_sign, now),
        is_live_at(last_sign, now) <==> now.total() - last_sign.total() < 90_000_000_000,
{
}

/// An offer names the meeting as it is stored, and says of its folder what was found there:
/// the number of segments and whether there is audio. A meeting without a folder, or whose
/// folder is gone, offers neither.
pub proof fn law_offers_say_what_was_found(
    meeting: IncompleteMeeting,
    leftovers: Option<Leftovers>,
    now: Moment,
)
    ensures
        offered(meeting, leftovers, now).id == meeting.id@,
        offered(meeting, leftovers, now).title == meeting.title@,
        offered(meeting, leftovers, now).folder_path == text::opt_text(meeting.folder_path),
        meeting.folder_path is Some && leftovers is Some ==> {
            &&& offered(meeting, leftovers, now).transcript_count == leftovers->0.transcript_count
            &&& offered(meeting, leftovers, now).has_audio == leftovers->0.has_audio
        },
        meeting.folder_path is None || leftovers is None ==> {
            &&& offered(meeting, leftovers, now).transcript_count == 0
            &&& !offered(meeting, leftovers, now).has_audio
        },
        offered(meeting, leftovers, now).is_live <==> now.total() - meeting.updated_at.total()
            < 90_000_000_000,
{
    law_live_window(meeting.updated_at, now);
}

/// As time passes, an interrupted recording stays interrupted, and nothing else of its offer
/// changes. A new sign of life is all that can make it a running one.
pub proof fn law_interrupted_recordings_stay_so(
    meeting: IncompleteMeeting,
    leftovers: Option<Leftovers>,
    now: Moment,
    later: Moment,
)
    requires
        now.total() <= later.total(),
    ensures
        !offered(meeting, leftovers, now).is_live ==> !offered(meeting, leftovers, later).is_live,
        (OfferView { is_live: false, ..offered(meeting, leftovers, now) }) == (OfferView {
            is_live: false,
            ..offered(meeting, leftovers, later)
        }),
{
    law_live_window(meeting.updated_at, now);
    law_live_window(meeting.updated_at, later);
}

/// Every recording that may be running is counted, once and wherever it stands.
pub proof fn law_live_recordings_are_counted(
    some: Seq<RecoverableMeeting>,
    more: Seq<RecoverableMeeting>,
)
    ensures
        live_count(some + more) == live_count(some) + live_count(more),
        some.len() == 1 ==> live_count(some) == (if some[0].is_live {
            1nat
        } else {
            0
        }),
        live_count(some) <= some.len(),
    decreases some.len() + more.len(),
{
    if more.len() > 0 {
        law_live_recordings_are_counted(some, more.drop_last());
        assert((some + more).drop_last() =~= some + more.drop_last());
        assert((some + more).last() == more.last());
    } else {
        assert(some + more =~= some);
        if some.len() > 0 {
            law_live_recordings_are_counted(some.drop_last(), Seq::empty());
            assert(some.len() == 1 ==> some.drop_last() =~= Seq::empty());
        }
    }
}

proof fn lemma_recovery_course(replies: Seq<RecoveryReply>)
    ensures
        ({
            let now = recovery_run(
                Recovery { step: RecoveryStep::Load, merged: false },
                replies,
            );
            let n = replies.len();
            let merged = replies[1] == (RecoveryReply::Done { merge_succeeded: true });
            &&& n == 0 ==> now.step == RecoveryStep::Load
            &&& n > 0 && replies[0] is Failed ==> now.step == RecoveryStep::GaveUp
            &&& n == 1 && replies[0] is Done ==> now.step == RecoveryStep::Gather
            &&& n == 2 && replies[0] is Done ==> now.step == RecoveryStep::Complete
                && now.merged == merged
            &&& n > 2 && replies[2] is Failed ==> now.step == RecoveryStep::GaveUp
            &&& n == 3 && replies[0] is Done && replies[2] is Done ==> now.step == (if merged {
                RecoveryStep::RemoveCheckpoints
            } else {
                RecoveryStep::Recovered
            })
            &&& n > 3 && replies[0] is Done && replies[2] is Done ==> now.step
                == RecoveryStep::Recovered
        }),
    decreases replies.len(),
{
    if replies.len() > 0 {
        let head = replies.drop_last();
        lemma_recovery_course(head);
        assert(forall|i: int| 0 <= i < head.len() ==> head[i] == replies[i]);
    }
}

/// A recovery gathers once the meeting is loaded, completes the meeting once that is done,
/// and removes the checkpoints if and only if they were merged. It ends well if and only if
/// the meeting was loaded and completed, and gives up as soon as one of these fails.
pub proof fn law_recoveries_take_all_their_steps(replies: Seq<RecoveryReply>)
    ensures
        ({
            let step = recovery_run(
                Recovery { step: RecoveryStep::Load, merged: false },
                replies,
            ).step;
            let loaded = replies[0] is Done;
            let merged = replies[1] == (RecoveryReply::Done { merge_succeeded: true });
            let completed = replies[2] is Done;
            &&& replies.len() == 0 ==> step == RecoveryStep::Load
            &&& replies.len() == 1 && loaded ==> step == RecoveryStep::Gather
            &&& replies.len() == 2 && loaded ==> step == RecoveryStep::Complete
            &&& replies.len() == 3 && loaded && completed && merged ==> step
                == RecoveryStep::RemoveCheckpoints
            &&& replies.len() == 3 && loaded && completed && !merged ==> step
                == RecoveryStep::Recovered
            &&& replies.len() >= 4 ==> (step == RecoveryStep::Recovered <==> loaded && completed)
            &&& replies.len() >= 1 && !loaded ==> step == RecoveryStep::GaveUp
            &&& replies.len() >= 3 && !completed ==> step == RecoveryStep::GaveUp
        }),
{
    lemma_recovery_course(replies);
}

/// Checkpoints count as merged if and only if a merge ran and says `success`: a partial merge,
/// one that failed, and a meeting without checkpoints keep what is on disk.
pub proof fn law_only_full_merges_succeed(merge: AudioMerge)
    ensures
        merge_succeeded(merge) <==> merge is Merged && merge->status@ == "success"@,
{
    reveal_strlit("none");
    reveal_strlit("failed");
    reveal_strlit("success");
    assert("none"@.len() != "success"@.len());
    assert("failed"@.len() != "success"@.len());
}

/// Whatever became of the audio, the result names the meeting, its title and all its
/// segments. A file is named only where a merge named it, and the message is the merge's own
/// or the cause of its failure.
pub proof fn law_results_keep_the_transcript(
    meeting_id: Seq<char>,
    title: Seq<char>,
    transcript_count: usize,
    merge: AudioMerge,
)
    ensures
        recovered(meeting_id, title, transcript_count, merge).meeting_id == meeting_id,
        recovered(meeting_id, title, transcript_count, merge).title == title,
        recovered(meeting_id, title, transcript_count, merge).transcript_count == transcript_count,
        recovered(meeting_id, title, transcript_count, merge).audio_file_path is Some
            ==> merge is Merged,
        merge is Merged ==> {
            let r = recovered(meeting_id, title, transcript_count, merge);
            &&& r.audio_status == merge->status@
            &&& r.audio_file_path == text::opt_text(merge->audio_file_path)
            &&& r.message == merge->message@
        },
        merge is Failed ==> {
            let r = recovered(meeting_id, title, transcript_count, merge);
            r.audio_status == "failed"@ && r.message == merge->Failed_0@
        },
        merge is NoCheckpoints ==> recovered(
            meeting_id,
            title,
            transcript_count,
            merge,
        ).audio_status == "none"@,
{
}

/// There is an error if and only if the meeting was not found. It names the meeting, and
/// where the database failed also the cause.
pub proof fn law_errors_name_the_meeting(meeting_id: Seq<char>, outcome: LoadOutcome)
    ensures
        load_failure(meeting_id, outcome) is None <==> outcome is Found,
        complete_failure(meeting_id, outcome) is None <==> outcome is Found,
        outcome !is Found ==> text::has(load_failure(meeting_id, outcome)->0, meeting_id)
            && text::has(complete_failure(meeting_id, outcome)->0, meeting_id),
        outcome is Failed ==> text::has(load_failure(meeting_id, outcome)->0, outcome->Failed_0@)
            && text::has(complete_failure(meeting_id, outcome)->0, outcome->Failed_0@),
{
    let none = Seq::<char>::empty();
    match outcome {
        LoadOutcome::Found => {},
        LoadOutcome::Missing => {
            text::law_pieces_stand_in_the_whole("Meeting "@, meeting_id, " not found"@);
            text::law_pieces_stand_in_the_whole(
                "Meeting "@,
                meeting_id,
                " disappeared during recovery"@,
            );
        },
        LoadOutcome::Failed(cause) => {
            let load = "Failed to load meeting "@;
            let complete = "Failed to finalize meeting "@;
            text::law_pieces_stand_in_the_whole(load, meeting_id, ": "@ + cause@);
            assert(load + meeting_id + (": "@ + cause@) =~= load + meeting_id + ": "@ + cause@);
            text::law_pieces_stand_in_the_whole(load + meeting_id + ": "@, cause@, none);
            assert(load + meeting_id + ": "@ + cause@ + none =~= load + meeting_id + ": "@
                + cause@);
            text::law_pieces_stand_in_the_whole(complete, meeting_id, ": "@ + cause@);
            assert(complete + meeting_id + (": "@ + cause@) =~= complete + meeting_id + ": "@
                + cause@);
            text::law_pieces_stand_in_the_whole(complete + meeting_id + ": "@, cause@, none);
            assert(complete + meeting_id + ": "@ + cause@ + none =~= complete + meeting_id + ": "@
                + cause@);
        },
    }
}

} // verus!
