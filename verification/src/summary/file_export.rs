//! The summary as a file in the meeting's folder.
use crate::clock;
use crate::clock::Moment;
use crate::text;
use vstd::prelude::*;

verus! {

/// The name of the file.
pub const SUMMARY_FILE: &'static str = "summary.md";

/// The member of a stored summary that holds its text.
pub const SUMMARY_TEXT_KEY: &'static str = "markdown";

/// What the database says of a meeting whose summary is exported.
#[derive(Debug, Clone)]
pub enum MeetingLookup {
    Found { title: String, folder_path: Option<String>, created_at: Moment },
    Missing,
    Failed(String),
}

/// Why a summary is not exported.
#[derive(Debug, Clone, Copy, PartialEq, Eq, Structural)]
pub enum SkipReason {
    MeetingMissing,
    LookupFailed,
    NoFolder,
    FolderGone,
    NoMarkdown,
}

/// What is to be written, and where.
#[derive(Debug, Clone)]
pub enum ExportPlan {
    Skip(SkipReason),
    Write { folder: String, content: String },
}

/// The text of the file: a header with the meeting's title, id and dates, a separator, and
/// the summary.
pub open spec fn summary_text(
    title: Seq<char>,
    meeting_id: Seq<char>,
    date: Seq<char>,
    updated: Seq<char>,
    markdown: Seq<char>,
) -> Seq<char> {
    "# Meeting Summary: "@ + title + "\n\n**Meeting ID:** "@ + meeting_id + "\n**Date:** "@ + date
        + "\n**Last updated:** "@ + updated + "\n\n---\n\n"@ + markdown
}

/// Writes the text of the file.
pub fn summary_document(
    title: &str,
    meeting_id: &str,
    date: &str,
    updated: &str,
    markdown: &str,
) -> (r: String)
    ensures
        r@ == summary_text(title@, meeting_id@, date@, updated@, markdown@),
{
    let mut out = "# Meeting Summary: ".to_owned();
    out.append(title);
    out.append("\n\n**Meeting ID:** ");
    out.append(meeting_id);
    out.append("\n**Date:** ");
    out.append(date);
    out.append("\n**Last updated:** ");
    out.append(updated);
    out.append("\n\n---\n\n");
    out.append(markdown);
    out
}

/// The reason not to export a summary, if there is one: what is missing first counts.
pub open spec fn skip_reason(
    meeting: MeetingLookup,
    folder_exists: bool,
    markdown: Option<Seq<char>>,
) -> Option<SkipReason> {
    match meeting {
        MeetingLookup::Missing => Some(SkipReason::MeetingMissing),
        MeetingLookup::Failed(_) => Some(SkipReason::LookupFailed),
        MeetingLookup::Found { folder_path, .. } => {
            if text::text_or(text::opt_text(folder_path), Seq::empty()).len() == 0 {
                Some(SkipReason::NoFolder)
            } else if !folder_exists {
                Some(SkipReason::FolderGone)
            } else if text::text_or(markdown, Seq::empty()).len() == 0 {
                Some(SkipReason::NoMarkdown)
            } else {
                None
            }
        },
    }
}

/// A plan as texts.
pub enum ExportView {
    Skip(SkipReason),
    Write { folder: Seq<char>, content: Seq<char> },
}

impl View for ExportPlan {
    type V = ExportView;

    open spec fn view(&self) -> ExportView {
        match *self {
            ExportPlan::Skip(reason) => ExportView::Skip(reason),
            ExportPlan::Write { folder, content } => ExportView::Write {
                folder: folder@,
                content: content@,
            },
        }
    }
}

/// What is written of the summary of this meeting, and where.
pub open spec fn export_of(
    meeting: MeetingLookup,
    meeting_id: Seq<char>,
    folder_exists: bool,
    markdown: Option<Seq<char>>,
    now: Moment,
) -> ExportView {
    match skip_reason(meeting, folder_exists, markdown) {
        Some(reason) => ExportView::Skip(reason),
        None => ExportView::Write {
            folder: meeting->folder_path->0@,
            content: summary_text(
                meeting->title@,
                meeting_id,
                clock::formatted_text(
                    meeting->created_at.secs,
                    meeting->created_at.nanos,
                    clock::LONG_FORMAT@,
                ),
                clock::formatted_text(now.secs, now.nanos, clock::LONG_FORMAT@),
                markdown->0,
            ),
        },
    }
}

/// Decides whether the summary is written to the meeting's folder, and with which text.
/// `markdown` is the text of the summary, if it has one.
pub fn save_summary_to_folder(
    meeting: MeetingLookup,
    meeting_id: &str,
    folder_exists: bool,
    markdown: Option<&str>,
    now: Moment,
) -> (r: ExportPlan)
    requires
        now.valid(),
        meeting is Found ==> meeting->created_at.valid(),
    ensures
        match r {
            ExportPlan::Skip(reason) => skip_reason(
                meeting,
                folder_exists,
                text::opt_str(markdown),
            ) == Some(reason),
            ExportPlan::Write { folder, content } => {
                &&& skip_reason(meeting, folder_exists, text::opt_str(markdown)) is None
                &&& meeting->folder_path == Some(folder)
                &&& content@ == summary_text(
                    meeting->title@,
                    meeting_id@,
                    clock::formatted_text(
                        meeting->created_at.secs,
                        meeting->created_at.nanos,
                        clock::LONG_FORMAT@,
                    ),
                    clock::formatted_text(now.secs, now.nanos, clock::LONG_FORMAT@),
                    markdown->0@,
                )
            },
        },
        r@ == export_of(meeting, meeting_id@, folder_exists, text::opt_str(markdown), now),
{
    let (title, folder_path, created_at) = match meeting {
        MeetingLookup::Missing => {
            return ExportPlan::Skip(SkipReason::MeetingMissing);
        },
        MeetingLookup::Failed(_) => {
            return ExportPlan::Skip(SkipReason::LookupFailed);
        },
        MeetingLookup::Found { title, folder_path, created_at } => (
            title,
            folder_path,
            created_at,
        ),
    };
    let folder = match folder_path {
        Some(folder) => folder,
        None => {
            return ExportPlan::Skip(SkipReason::NoFolder);
        },
    };
    if folder.as_str().is_empty() {
        return ExportPlan::Skip(SkipReason::NoFolder);
    }
    if !folder_exists {
        return ExportPlan::Skip(SkipReason::FolderGone);
    }
    let markdown = match markdown {
        Some(md) => md,
        None => {
            return ExportPlan::Skip(SkipReason::NoMarkdown);
        },
    };
    if markdown.is_empty() {
        return ExportPlan::Skip(SkipReason::NoMarkdown);
    }
    let date = clock::formatted(created_at, clock::LONG_FORMAT);
    let updated = clock::formatted(now, clock::LONG_FORMAT);
    let content = summary_document(
        title.as_str(),
        meeting_id,
        date.as_str(),
        updated.as_str(),
        markdown,
    );
    ExportPlan::Write { folder, content }
}

/// The file holds the title, the id and both dates of the meeting.
pub proof fn law_the_header_names_the_meeting(
    title: Seq<char>,
    meeting_id: Seq<char>,
    date: Seq<char>,
    updated: Seq<char>,
    markdown: Seq<char>,
)
    ensures
        text::has(summary_text(title, meeting_id, date, updated, markdown), title),
        text::has(summary_text(title, meeting_id, date, updated, markdown), meeting_id),
        text::has(summary_text(title, meeting_id, date, updated, markdown), date),
        text::has(summary_text(title, meeting_id, date, updated, markdown), updated),
{
    let whole = summary_text(title, meeting_id, date, updated, markdown);
    let s1 = "# Meeting Summary: "@;
    let s2 = "\n\n**Meeting ID:** "@;
    let s3 = "\n**Date:** "@;
    let s4 = "\n**Last updated:** "@;
    let s5 = "\n\n---\n\n"@;
    let after_updated = s5 + markdown;
    let after_date = s4 + updated + after_updated;
    let after_id = s3 + date + after_date;
    let after_title = s2 + meeting_id + after_id;
    let to_id = s1 + title + s2;
    let to_date = to_id + meeting_id + s3;
    let to_updated = to_date + date + s4;
    text::law_pieces_stand_in_the_whole(s1, title, after_title);
    assert(s1 + title + after_title =~= whole);
    text::law_pieces_stand_in_the_whole(to_id, meeting_id, after_id);
    assert(to_id + meeting_id + after_id =~= whole);
    text::law_pieces_stand_in_the_whole(to_date, date, after_date);
    assert(to_date + date + after_date =~= whole);
    text::law_pieces_stand_in_the_whole(to_updated, updated, after_updated);
    assert(to_updated + updated + after_updated =~= whole);
}

/// The summary stands whole and unchanged at the end of the file, and what stands before it
/// does not depend on it.
pub proof fn law_the_summary_stands_whole(
    title: Seq<char>,
    meeting_id: Seq<char>,
    date: Seq<char>,
    updated: Seq<char>,
    markdown: Seq<char>,
)
    ensures
        summary_text(title, meeting_id, date, updated, markdown) == summary_text(
            title,
            meeting_id,
            date,
            updated,
            Seq::empty(),
        ) + markdown,
{
    assert(summary_text(title, meeting_id, date, updated, markdown) =~= summary_text(
        title,
        meeting_id,
        date,
        updated,
        Seq::empty(),
    ) + markdown);
}

/// A summary is written if and only if the meeting was found, has a folder that exists, and
/// the summary has a text. It goes to the meeting's own folder, with the meeting's title and
/// the whole text.
pub proof fn law_when_summaries_are_written(
    meeting: MeetingLookup,
    meeting_id: Seq<char>,
    folder_exists: bool,
    markdown: Option<Seq<char>>,
    now: Moment,
)
    ensures
        export_of(meeting, meeting_id, folder_exists, markdown, now) is Write <==> {
            &&& meeting is Found
            &&& meeting->folder_path is Some
            &&& meeting->folder_path->0@.len() > 0
            &&& folder_exists
            &&& markdown is Some
            &&& markdown->0.len() > 0
        },
        export_of(meeting, meeting_id, folder_exists, markdown, now) is Write ==> {
            let plan = export_of(meeting, meeting_id, folder_exists, markdown, now);
            &&& plan->folder == meeting->folder_path->0@
            &&& text::has(plan->content, meeting->title@)
            &&& text::has(plan->content, meeting_id)
            &&& plan->content.skip(plan->content.len() - markdown->0.len()) == markdown->0
        },
        meeting is Missing <==> export_of(meeting, meeting_id, folder_exists, markdown, now)
            == ExportView::Skip(SkipReason::MeetingMissing),
        meeting is Failed <==> export_of(meeting, meeting_id, folder_exists, markdown, now)
            == ExportView::Skip(SkipReason::LookupFailed),
{
    let plan = export_of(meeting, meeting_id, folder_exists, markdown, now);
    if plan is Write {
        let date = clock::formatted_text(
            meeting->created_at.secs,
            meeting->created_at.nanos,
            clock::LONG_FORMAT@,
        );
        let updated = clock::formatted_text(now.secs, now.nanos, clock::LONG_FORMAT@);
        law_the_header_names_the_meeting(meeting->title@, meeting_id, date, updated, markdown->0);
        law_the_summary_stands_whole(meeting->title@, meeting_id, date, updated, markdown->0);
        assert(plan->content.skip(plan->content.len() - markdown->0.len()) =~= markdown->0);
    }
}

} // verus!
