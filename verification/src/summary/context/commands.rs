//! The commands on a meeting's summary context: adding, removing and opening attachments.
use crate::clock;
use crate::clock::Moment;
use crate::database::query;
use crate::database::query::Query;
use crate::ids;
use crate::summary::context::storage;
use crate::summary::context::types;
use crate::summary::context::types::{
    ContextAttachmentInfo, ContextAttachmentRow, SummaryContextData,
};
use crate::text;
use vstd::prelude::*;

verus! {

/// A meeting has at most so many attachments.
pub const MAX_ATTACHMENTS_PER_MEETING: i64 = 10;

/// The attachments of a meeting have at most so many bytes together.
pub const MAX_TOTAL_BYTES: i64 = 1048576;

/// What adding an attachment has to do next.
#[derive(Debug, Clone, Copy, PartialEq, Eq, Structural)]
pub enum AddStep {
    CountAttachments,
    ReadSource,
    SumSizes,
    LookUpFolder,
    WriteFile,
    NextPlace,
    InsertRow,
    /// Take back what was written of the file, because of this failure.
    DeleteFile(AddOutcome),
    Finished(AddOutcome),
}

/// What adding an attachment came to.
#[derive(Debug, Clone, Copy, PartialEq, Eq, Structural)]
pub enum AddOutcome {
    Added,
    TooMany,
    TooLarge,
    /// The database failed.
    Database,
    /// The source cannot be read, or is no text.
    Source,
    /// The meeting has no folder, or the folder is gone.
    Folder,
    /// The file could not be written.
    Write,
    /// The row could not be stored.
    Insert,
}

/// What doing a step came to, as far as the next step depends on it.
#[derive(Debug, Clone, Copy, PartialEq, Eq, Structural)]
pub enum AddReply {
    /// The step was done; with the number it gives: the count of attachments, the size of
    /// the text to store, or the total size.
    Done(i64),
    Failed,
}

/// An attachment being added.
#[derive(Debug, Clone, Copy, PartialEq, Eq, Structural)]
pub struct AddAttachment {
    pub step: AddStep,
    /// The size of the text to store, once it is read.
    pub size: i64,
}

/// Where adding stands after a step. The limits are held before anything is written, and
/// whatever fails from the writing of the file on, the file is taken back.
pub open spec fn add_after(a: AddAttachment, reply: AddReply) -> AddAttachment {
    match (a.step, reply) {
        (AddStep::CountAttachments, AddReply::Done(count)) => AddAttachment {
            step: if count >= MAX_ATTACHMENTS_PER_MEETING {
                AddStep::Finished(AddOutcome::TooMany)
            } else {
                AddStep::ReadSource
            },
            ..a
        },
        (AddStep::ReadSource, AddReply::Done(size)) => AddAttachment {
            step: AddStep::SumSizes,
            size,
        },
        (AddStep::SumSizes, AddReply::Done(total)) => AddAttachment {
            step: if total + a.size > MAX_TOTAL_BYTES {
                AddStep::Finished(AddOutcome::TooLarge)
            } else {
                AddStep::LookUpFolder
            },
            ..a
        },
        (AddStep::LookUpFolder, AddReply::Done(_)) => AddAttachment {
            step: AddStep::WriteFile,
            ..a
        },
        (AddStep::WriteFile, AddReply::Done(_)) => AddAttachment { step: AddStep::NextPlace, ..a },
        (AddStep::NextPlace, AddReply::Done(_)) => AddAttachment { step: AddStep::InsertRow, ..a },
        (AddStep::InsertRow, AddReply::Done(_)) => AddAttachment {
            step: AddStep::Finished(AddOutcome::Added),
            ..a
        },
        (AddStep::CountAttachments, AddReply::Failed) => AddAttachment {
            step: AddStep::Finished(AddOutcome::Database),
            ..a
        },
        (AddStep::ReadSource, AddReply::Failed) => AddAttachment {
            step: AddStep::Finished(AddOutcome::Source),
            ..a
        },
        (AddStep::SumSizes, AddReply::Failed) => AddAttachment {
            step: AddStep::Finished(AddOutcome::Database),
            ..a
        },
        (AddStep::LookUpFolder, AddReply::Failed) => AddAttachment {
            step: AddStep::Finished(AddOutcome::Folder),
            ..a
        },
        (AddStep::WriteFile, AddReply::Failed) => AddAttachment {
            step: AddStep::DeleteFile(AddOutcome::Write),
            ..a
        },
        (AddStep::NextPlace, AddReply::Failed) => AddAttachment {
            step: AddStep::DeleteFile(AddOutcome::Database),
            ..a
        },
        (AddStep::InsertRow, AddReply::Failed) => AddAttachment {
            step: AddStep::DeleteFile(AddOutcome::Insert),
            ..a
        },
        (AddStep::DeleteFile(outcome), _) => AddAttachment {
            step: AddStep::Finished(outcome),
            ..a
        },
        (AddStep::Finished(_), _) => a,
    }
}

impl AddAttachment {
    /// Adding starts with counting the attachments.
    pub fn start() -> (r: AddAttachment)
        ensures
            r == (AddAttachment { step: AddStep::CountAttachments, size: 0 }),
    {
        AddAttachment { step: AddStep::CountAttachments, size: 0 }
    }

    /// Takes the outcome of the current step.
    pub fn after(self, reply: AddReply) -> (r: AddAttachment)
        requires
            self.step == AddStep::SumSizes && reply is Done ==> i64::MIN <= reply->Done_0
                + self.size <= i64::MAX,
        ensures
            r == add_after(self, reply),
    {
        let step = match self.step {
            AddStep::CountAttachments => match reply {
                AddReply::Done(count) => if count >= MAX_ATTACHMENTS_PER_MEETING {
                    AddStep::Finished(AddOutcome::TooMany)
                } else {
                    AddStep::ReadSource
                },
                AddReply::Failed => AddStep::Finished(AddOutcome::Database),
            },
            AddStep::ReadSource => match reply {
                AddReply::Done(size) => {
                    return AddAttachment { step: AddStep::SumSizes, size };
                },
                AddReply::Failed => AddStep::Finished(AddOutcome::Source),
            },
            AddStep::SumSizes => match reply {
                AddReply::Done(total) => if total + self.size > MAX_TOTAL_BYTES {
                    AddStep::Finished(AddOutcome::TooLarge)
                } else {
                    AddStep::LookUpFolder
                },
                AddReply::Failed => AddStep::Finished(AddOutcome::Database),
            },
            AddStep::LookUpFolder => match reply {
                AddReply::Done(_) => AddStep::WriteFile,
                AddReply::Failed => AddStep::Finished(AddOutcome::Folder),
            },
            AddStep::WriteFile => match reply {
                AddReply::Done(_) => AddStep::NextPlace,
                AddReply::Failed => AddStep::DeleteFile(AddOutcome::Write),
            },
            AddStep::NextPlace => match reply {
                AddReply::Done(_) => AddStep::InsertRow,
                AddReply::Failed => AddStep::DeleteFile(AddOutcome::Database),
            },
            AddStep::InsertRow => match reply {
                AddReply::Done(_) => AddStep::Finished(AddOutcome::Added),
                AddReply::Failed => AddStep::DeleteFile(AddOutcome::Insert),
            },
            AddStep::DeleteFile(outcome) => AddStep::Finished(outcome),
            AddStep::Finished(outcome) => AddStep::Finished(outcome),
        };
        AddAttachment { step, size: self.size }
    }
}

/// What the user is told of an attachment that was not added. `detail` is the cause that
/// the failed step gave, where there is one.
pub open spec fn add_error(outcome: AddOutcome, detail: Seq<char>) -> Option<Seq<char>> {
    match outcome {
        AddOutcome::Added => None,
        AddOutcome::TooMany => Some("Limite de 10 anexos atingido para esta reunião"@),
        AddOutcome::TooLarge => Some("Limite total de 1 MB de anexos atingido"@),
        AddOutcome::Database => Some("DB error: "@ + detail),
        AddOutcome::Source => Some(detail),
        AddOutcome::Folder => Some(detail),
        AddOutcome::Write => Some("Failed to write attachment: "@ + detail),
        AddOutcome::Insert => Some("Failed to record attachment: "@ + detail),
    }
}

/// What the user is told of an attachment that was not added.
pub fn add_error_message(outcome: AddOutcome, detail: &str) -> (r: Option<String>)
    ensures
        text::opt_text(r) == add_error(outcome, detail@),
{
    match outcome {
        AddOutcome::Added => None,
        AddOutcome::TooMany => Some("Limite de 10 anexos atingido para esta reunião".to_owned()),
        AddOutcome::TooLarge => Some("Limite total de 1 MB de anexos atingido".to_owned()),
        AddOutcome::Database => Some(text::concat2("DB error: ", detail)),
        AddOutcome::Source => Some(detail.to_owned()),
        AddOutcome::Folder => Some(detail.to_owned()),
        AddOutcome::Write => Some(text::concat2("Failed to write attachment: ", detail)),
        AddOutcome::Insert => Some(text::concat2("Failed to record attachment: ", detail)),
    }
}

/// The stored folder of a meeting.
pub const MEETING_FOLDER: &'static str = "SELECT folder_path FROM meetings WHERE id = ?";

/// Asks for the folder of a meeting.
pub fn find_meeting_folder(meeting_id: &str) -> (r: Query)
    ensures
        r@ == query::text_query(MEETING_FOLDER@, seq![meeting_id@]),
{
    query::query1(MEETING_FOLDER, meeting_id)
}

/// The folder to use, or why there is none.
pub open spec fn usable_folder(row: Option<Option<String>>, exists: bool) -> Result<
    Seq<char>,
    Seq<char>,
> {
    match row {
        Some(Some(folder)) => if exists {
            Ok(folder@)
        } else {
            Err("Meeting folder does not exist on disk: "@ + folder@)
        },
        _ => Err("Meeting folder is not initialized — start a recording at least once"@),
    }
}

/// The stored folder of a meeting and whether it exists on disk, as the database and the
/// file system say.
pub fn resolve_meeting_folder(row: Option<Option<String>>, exists: bool) -> (r: Result<
    String,
    String,
>)
    ensures
        match row {
            Some(Some(folder)) => if exists {
                r == Ok::<String, String>(folder)
            } else {
                r matches Err(e) && e@ == "Meeting folder does not exist on disk: "@ + folder@
            },
            _ => r matches Err(e) && e@
                == "Meeting folder is not initialized — start a recording at least once"@,
        },
        match (r, usable_folder(row, exists)) {
            (Ok(folder), Ok(f)) => folder@ == f,
            (Err(e), Err(reason)) => e@ == reason,
            _ => false,
        },
{
    match row {
        Some(Some(folder)) => {
            if !exists {
                return Err(
                    text::concat2("Meeting folder does not exist on disk: ", folder.as_str()),
                );
            }
            Ok(folder)
        },
        _ => Err(
            "Meeting folder is not initialized — start a recording at least once".to_owned(),
        ),
    }
}

/// The name of the file to attach; a path without a file's name stands for "attachment".
pub fn original_name(file_name: Option<String>) -> (r: String)
    ensures
        r@ == text::text_or(text::opt_text(file_name), "attachment"@),
{
    match file_name {
        Some(name) => name,
        None => "attachment".to_owned(),
    }
}

/// The size of the text that is stored, in bytes.
pub fn stored_size(read: &storage::ReadResult) -> (r: i64)
    requires
        vstd::utf8::encode_utf8(read.content@).len() <= i64::MAX,
        vstd::utf8::encode_utf8(read.content@).len() <= usize::MAX,
    ensures
        r == vstd::utf8::encode_utf8(read.content@).len(),
{
    read.content.as_str().len() as i64
}

/// The row of a new attachment.
pub fn new_row(
    meeting_id: String,
    source_path: String,
    name: String,
    stored_filename: String,
    size: i64,
    truncated: bool,
    sort_order: i64,
    now: Moment,
) -> (r: ContextAttachmentRow)
    requires
        now.valid(),
    ensures
        ids::is_uuid_text(r.id@),
        r.meeting_id == meeting_id,
        r.original_path == source_path,
        r.stored_filename == stored_filename,
        r.display_name == name,
        r.size_bytes == size,
        r.truncated == truncated,
        r.sort_order == sort_order,
        r.created_at@ == clock::rfc3339_text(now.secs, now.nanos),
{
    ContextAttachmentRow {
        id: ids::new_uuid(),
        meeting_id,
        original_path: source_path,
        stored_filename,
        display_name: name,
        size_bytes: size,
        truncated,
        sort_order,
        created_at: clock::rfc3339(now),
    }
}

/// What the user sees of all attachments.
pub open spec fn shown_attachments(rows: Seq<ContextAttachmentRow>) -> Seq<ContextAttachmentInfo> {
    rows.map_values(|row: ContextAttachmentRow| types::shown_of(row))
}

/// The whole summary context: the text, and what the user sees of each attachment.
pub fn api_get_summary_context(
    context_prompt: String,
    rows: &[ContextAttachmentRow],
) -> (r: SummaryContextData)
    ensures
        r.context_prompt == context_prompt,
        r.attachments@ == rows@.map_values(|row: ContextAttachmentRow| types::shown_of(row)),
        r.attachments@ == shown_attachments(rows@),
{
    let mut attachments: Vec<ContextAttachmentInfo> = Vec::new();
    let mut i: usize = 0;
    while i < rows.len()
        invariant
            i <= rows@.len(),
            attachments@ == rows@.take(i as int).map_values(
                |row: ContextAttachmentRow| types::shown_of(row),
            ),
        decreases rows@.len() - i,
    {
        attachments.push(ContextAttachmentInfo::from(&rows[i]));
        proof {
            assert(attachments@ =~= rows@.take(i + 1).map_values(
                |row: ContextAttachmentRow| types::shown_of(row),
            ));
        }
        i = i + 1;
    }
    proof {
        assert(rows@.take(rows@.len() as int) =~= rows@);
    }
    SummaryContextData { context_prompt, attachments }
}

/// An attachment to remove or open must be stored.
pub fn require_attachment(found: Option<ContextAttachmentRow>) -> (r: Result<
    ContextAttachmentRow,
    String,
>)
    ensures
        match found {
            Some(row) => r == Ok::<ContextAttachmentRow, String>(row),
            None => r matches Err(e) && e@ == "Attachment not found"@,
        },
{
    match found {
        Some(row) => Ok(row),
        None => Err("Attachment not found".to_owned()),
    }
}

/// A stored attachment can be opened only while its file is there.
pub fn require_file(exists: bool) -> (r: Result<(), String>)
    ensures
        match r {
            Ok(_) => exists,
            Err(e) => !exists && e@ == "Arquivo não encontrado. Remova e re-anexe."@,
        },
{
    if !exists {
        return Err("Arquivo não encontrado. Remova e re-anexe.".to_owned());
    }
    Ok(())
}

/// The replies to a count of attachments, the size of a text and a total size that leave
/// room for one more.
pub open spec fn has_room(count: i64, size: i64, total: i64) -> bool {
    count < MAX_ATTACHMENTS_PER_MEETING && total + size <= MAX_TOTAL_BYTES
}

/// Where adding stands after a number of replies.
pub open spec fn add_run(replies: Seq<AddReply>) -> AddAttachment
    decreases replies.len(),
{
    if replies.len() == 0 {
        AddAttachment { step: AddStep::CountAttachments, size: 0 }
    } else {
        add_after(add_run(replies.drop_last()), replies.last())
    }
}

/// Something of the file may be on disk.
pub open spec fn may_have_written(step: AddStep) -> bool {
    match step {
        AddStep::WriteFile => true,
        AddStep::NextPlace => true,
        AddStep::InsertRow => true,
        AddStep::DeleteFile(_) => true,
        AddStep::Finished(AddOutcome::Added) => true,
        _ => false,
    }
}

/// Nothing is written, on disk or to the database, for a meeting without room: the count
/// of attachments, the size of the text and the total size that were given before leave
/// room for one more attachment. So a meeting within its limits stays within them.
pub proof fn law_limits_are_held(replies: Seq<AddReply>)
    requires
        may_have_written(add_run(replies).step),
    ensures
        replies.len() >= 3,
        replies[0] is Done && replies[1] is Done && replies[2] is Done,
        has_room(replies[0]->Done_0, replies[1]->Done_0, replies[2]->Done_0),
{
    lemma_add_run(replies);
}

proof fn lemma_add_run(replies: Seq<AddReply>)
    ensures
        ({
            let now = add_run(replies);
            &&& now.step == AddStep::CountAttachments ==> replies.len() == 0
            &&& now.step == AddStep::ReadSource ==> replies.len() == 1 && replies[0] is Done
                && replies[0]->Done_0 < MAX_ATTACHMENTS_PER_MEETING
            &&& now.step == AddStep::SumSizes ==> replies.len() == 2 && replies[0] is Done
                && replies[0]->Done_0 < MAX_ATTACHMENTS_PER_MEETING && replies[1]
                == AddReply::Done(now.size)
            &&& may_have_written(now.step) || now.step == AddStep::LookUpFolder ==> replies.len()
                >= 3 && replies[0] is Done && replies[1] is Done && replies[2] is Done && has_room(
                replies[0]->Done_0,
                replies[1]->Done_0,
                replies[2]->Done_0,
            )
            &&& now.step matches AddStep::DeleteFile(outcome) ==> outcome != AddOutcome::Added
        }),
    decreases replies.len(),
{
    if replies.len() > 0 {
        let head = replies.drop_last();
        lemma_add_run(head);
        if head.len() >= 1 {
            assert(head[0] == replies[0]);
        }
        if head.len() >= 2 {
            assert(head[1] == replies[1]);
        }
        if head.len() >= 3 {
            assert(head[2] == replies[2]);
        }
    }
}

/// Adding passed through a step on its way.
pub open spec fn add_passed(replies: Seq<AddReply>, step: AddStep) -> bool {
    exists|k: int| 0 <= k < replies.len() && (#[trigger] add_run(replies.take(k))).step == step
}

proof fn lemma_add_passed(replies: Seq<AddReply>, step: AddStep)
    requires
        replies.len() > 0,
    ensures
        add_passed(replies, step) <==> add_passed(replies.drop_last(), step) || add_run(
            replies.drop_last(),
        ).step == step,
{
    let head = replies.drop_last();
    let end = head.len() as int;
    assert(replies.take(end) =~= head);
    if add_passed(head, step) {
        let k = choose|k: int|
            0 <= k < head.len() && (#[trigger] add_run(head.take(k))).step == step;
        assert(head.take(k) =~= replies.take(k));
        assert(add_run(replies.take(k)).step == step);
    }
    if add_run(head).step == step {
        assert(add_run(replies.take(end)).step == step);
    }
    if add_passed(replies, step) {
        let k = choose|k: int|
            0 <= k < replies.len() && (#[trigger] add_run(replies.take(k))).step == step;
        if k < end {
            assert(head.take(k) =~= replies.take(k));
            assert(add_run(head.take(k)).step == step);
        }
    }
}

proof fn lemma_taken_back(replies: Seq<AddReply>)
    ensures
        ({
            let now = add_run(replies);
            &&& add_passed(replies, AddStep::WriteFile) ==> may_have_written(now.step) || (now.step
                matches AddStep::Finished(outcome) && add_passed(
                replies,
                AddStep::DeleteFile(outcome),
            ))
        }),
    decreases replies.len(),
{
    if replies.len() > 0 {
        let head = replies.drop_last();
        lemma_taken_back(head);
        lemma_add_passed(replies, AddStep::WriteFile);
        match add_run(replies).step {
            AddStep::Finished(outcome) => {
                lemma_add_passed(replies, AddStep::DeleteFile(outcome));
            },
            _ => {},
        }
    } else {
        assert(!add_passed(replies, AddStep::WriteFile));
    }
}

/// Whatever fails once the writing of the file has begun, the file is taken back before the
/// failure is reported: no file stays behind without its row.
pub proof fn law_failures_take_the_file_back(replies: Seq<AddReply>, outcome: AddOutcome)
    requires
        add_run(replies).step == AddStep::Finished(outcome),
        outcome != AddOutcome::Added,
        add_passed(replies, AddStep::WriteFile),
    ensures
        add_passed(replies, AddStep::DeleteFile(outcome)),
{
    lemma_taken_back(replies);
}

/// The first replies all say that their step was done, and leave room for the attachment: a
/// meeting has at most 10, of 1048576 bytes together.
pub open spec fn all_well(replies: Seq<AddReply>, n: int) -> bool {
    &&& n <= replies.len()
    &&& forall|i: int| 0 <= i < n ==> (#[trigger] replies[i]) is Done
    &&& n >= 1 ==> replies[0]->Done_0 < 10
    &&& n >= 3 ==> replies[1]->Done_0 + replies[2]->Done_0 <= 1048576
}

proof fn lemma_add_course(replies: Seq<AddReply>)
    ensures
        ({
            let now = add_run(replies);
            let n = replies.len() as int;
            &&& n <= 7 && all_well(replies, n) ==> now.step == stage_of(n) && (n >= 2 ==> now.size
                == replies[1]->Done_0)
            &&& n > 7 && all_well(replies, 7) ==> now.step == stage_of(7)
        }),
    decreases replies.len(),
{
    if replies.len() > 0 {
        let head = replies.drop_last();
        let n = replies.len() as int;
        lemma_add_course(head);
        assert(forall|i: int| 0 <= i < head.len() ==> head[i] == replies[i]);
        if n <= 7 && all_well(replies, n) {
            assert(all_well(head, n - 1));
            assert(replies[n - 1] is Done);
        }
        if n > 7 && all_well(replies, 7) {
            assert(all_well(head, 7));
        }
    }
}

/// The step that follows so many steps that went well.
pub open spec fn stage_of(done: int) -> AddStep {
    if done == 0 {
        AddStep::CountAttachments
    } else if done == 1 {
        AddStep::ReadSource
    } else if done == 2 {
        AddStep::SumSizes
    } else if done == 3 {
        AddStep::LookUpFolder
    } else if done == 4 {
        AddStep::WriteFile
    } else if done == 5 {
        AddStep::NextPlace
    } else if done == 6 {
        AddStep::InsertRow
    } else {
        AddStep::Finished(AddOutcome::Added)
    }
}

/// Where there is room and every step is done, the attachment is added: after the limits are
/// looked at the file is written, then the row is stored, and no step is left out.
pub proof fn law_attachments_with_room_are_added(replies: Seq<AddReply>)
    ensures
        replies.len() <= 7 && all_well(replies, replies.len() as int) ==> add_run(replies).step
            == stage_of(replies.len() as int),
        replies.len() >= 7 && all_well(replies, 7) ==> add_run(replies).step == AddStep::Finished(
            AddOutcome::Added,
        ),
{
    lemma_add_course(replies);
}

/// What is reported where the step after so many that went well fails.
pub open spec fn failure_of(done: int) -> AddOutcome {
    if done == 1 {
        AddOutcome::Source
    } else if done == 3 {
        AddOutcome::Folder
    } else if done == 4 {
        AddOutcome::Write
    } else if done == 6 {
        AddOutcome::Insert
    } else {
        AddOutcome::Database
    }
}

proof fn lemma_add_stays(replies: Seq<AddReply>, n: int)
    requires
        0 <= n <= replies.len(),
        add_run(replies.take(n)).step is Finished,
    ensures
        add_run(replies).step == add_run(replies.take(n)).step,
    decreases replies.len(),
{
    if n < replies.len() {
        let head = replies.drop_last();
        assert(head.take(n) =~= replies.take(n));
        lemma_add_stays(head, n);
    } else {
        assert(replies.take(n) =~= replies);
    }
}

/// A step that fails is reported as what it was, whatever comes later. Before the file is
/// written nothing needs to be undone; from then on the file is taken back first.
pub proof fn law_failures_are_reported_as_they_were(replies: Seq<AddReply>, k: int)
    requires
        0 <= k < 7,
        k < replies.len(),
        all_well(replies, k),
        replies[k] is Failed,
    ensures
        k < 4 ==> add_run(replies).step == AddStep::Finished(failure_of(k)),
        k >= 4 && replies.len() == k + 1 ==> add_run(replies).step == AddStep::DeleteFile(
            failure_of(k),
        ),
        k >= 4 && replies.len() >= k + 2 ==> add_run(replies).step == AddStep::Finished(
            failure_of(k),
        ),
{
    let well = replies.take(k);
    let failed = replies.take(k + 1);
    assert(all_well(well, k)) by {
        assert(forall|i: int| 0 <= i < k ==> well[i] == replies[i]);
    }
    lemma_add_course(well);
    assert(failed.drop_last() =~= well);
    assert(failed.last() == replies[k]);
    if k < 4 {
        lemma_add_stays(replies, k + 1);
    } else if replies.len() >= k + 2 {
        let undone = replies.take(k + 2);
        assert(undone.drop_last() =~= failed);
        lemma_add_stays(replies, k + 2);
    } else {
        assert(failed =~= replies);
    }
}

/// A meeting that has 10 attachments gets no other, and one that would have more than 1048576
/// bytes of them does not get this one, whatever comes later.
pub proof fn law_attachments_without_room_are_refused(replies: Seq<AddReply>)
    ensures
        replies.len() >= 1 && replies[0] is Done && replies[0]->Done_0 >= 10 ==> add_run(
            replies,
        ).step == AddStep::Finished(AddOutcome::TooMany),
        replies.len() >= 3 && all_well(replies, 2) && replies[2] is Done && replies[1]->Done_0
            + replies[2]->Done_0 > 1048576 ==> add_run(replies).step == AddStep::Finished(
            AddOutcome::TooLarge,
        ),
{
    if replies.len() >= 1 && replies[0] is Done && replies[0]->Done_0 >= 10 {
        let one = replies.take(1);
        assert(one.drop_last() =~= Seq::empty());
        assert(one.last() == replies[0]);
        reveal_with_fuel(add_run, 2);
        lemma_add_stays(replies, 1);
    }
    if replies.len() >= 3 && all_well(replies, 2) && replies[2] is Done && replies[1]->Done_0
        + replies[2]->Done_0 > 1048576 {
        let two = replies.take(2);
        assert(all_well(two, 2)) by {
            assert(forall|i: int| 0 <= i < 2 ==> two[i] == replies[i]);
        }
        assert(two[1] == replies[1]);
        lemma_add_course(two);
        let three = replies.take(3);
        assert(three.drop_last() =~= two);
        assert(three.last() == replies[2]);
        lemma_add_stays(replies, 3);
    }
}

/// The user is told of everything but a success, and of the cause wherever a step gave one.
pub proof fn law_causes_are_told(outcome: AddOutcome, detail: Seq<char>)
    ensures
        add_error(outcome, detail) is None <==> outcome == AddOutcome::Added,
        outcome != AddOutcome::Added && outcome != AddOutcome::TooMany && outcome
            != AddOutcome::TooLarge ==> text::has(add_error(outcome, detail)->0, detail),
{
    let none = Seq::<char>::empty();
    let told = add_error(outcome, detail);
    if told is Some {
        let whole = told->0;
        let lead = whole.take(whole.len() - detail.len());
        if outcome != AddOutcome::TooMany && outcome != AddOutcome::TooLarge {
            text::law_pieces_stand_in_the_whole(lead, detail, none);
            assert(lead + detail + none =~= whole);
        }
    }
}

/// A folder is used if and only if it is stored and exists, and it is the stored one. One
/// that is gone is named to the user.
pub proof fn law_only_existing_folders_are_used(row: Option<Option<String>>, exists: bool)
    ensures
        usable_folder(row, exists) is Ok <==> row is Some && row->0 is Some && exists,
        usable_folder(row, exists) is Ok ==> usable_folder(row, exists)->Ok_0 == row->0->0@,
        row is Some && row->0 is Some && !exists ==> text::has(
            usable_folder(row, exists)->Err_0,
            row->0->0@,
        ),
{
    if row is Some && row->0 is Some && !exists {
        let lead = "Meeting folder does not exist on disk: "@;
        let none = Seq::<char>::empty();
        text::law_pieces_stand_in_the_whole(lead, row->0->0@, none);
        assert(lead + row->0->0@ + none =~= lead + row->0->0@);
    }
}

/// Every attachment is shown, in its place, and with its own id, name, size and date; a cut
/// one is marked so, and no other.
pub proof fn law_every_attachment_is_shown(rows: Seq<ContextAttachmentRow>, i: int)
    requires
        0 <= i < rows.len(),
    ensures
        shown_attachments(rows).len() == rows.len(),
        shown_attachments(rows)[i].id == rows[i].id,
        shown_attachments(rows)[i].display_name == rows[i].display_name,
        shown_attachments(rows)[i].size_bytes == rows[i].size_bytes,
        shown_attachments(rows)[i].truncated == rows[i].truncated,
        shown_attachments(rows)[i].created_at == rows[i].created_at,
{
}

} // verus!
