//! The summary context in the database: what is asked of it, and how its rows are taken.
use crate::clock;
use crate::clock::Moment;
use crate::database::query;
use crate::database::query::{Param, ParamView, Query, QueryView};
use crate::summary::context::types::ContextAttachmentRow;
use crate::text;
use vstd::prelude::*;

verus! {

/// The stored text of a meeting.
pub const GET_PROMPT: &'static str = "SELECT context_prompt FROM meeting_summary_context WHERE meeting_id = ?";

/// Stores the text of a meeting; its template stays.
pub const UPSERT_PROMPT: &'static str = "INSERT INTO meeting_summary_context (meeting_id, context_prompt, updated_at) VALUES (?, ?, ?) ON CONFLICT(meeting_id) DO UPDATE SET context_prompt = excluded.context_prompt, updated_at = excluded.updated_at";

/// The stored template of a meeting.
pub const GET_TEMPLATE: &'static str = "SELECT template_id FROM meeting_summary_context WHERE meeting_id = ?";

/// Stores the template of a meeting; its text stays.
pub const UPSERT_TEMPLATE: &'static str = "INSERT INTO meeting_summary_context (meeting_id, template_id, updated_at) VALUES (?, ?, ?) ON CONFLICT(meeting_id) DO UPDATE SET template_id = excluded.template_id, updated_at = excluded.updated_at";

/// All attachments of a meeting, by place and then by age.
pub const LIST_ATTACHMENTS: &'static str = "SELECT id, meeting_id, original_path, stored_filename, display_name, size_bytes, truncated, sort_order, created_at FROM meeting_context_attachments WHERE meeting_id = ? ORDER BY sort_order ASC, created_at ASC";

/// One attachment of a meeting.
pub const GET_ATTACHMENT: &'static str = "SELECT id, meeting_id, original_path, stored_filename, display_name, size_bytes, truncated, sort_order, created_at FROM meeting_context_attachments WHERE meeting_id = ? AND id = ?";

/// The number of a meeting's attachments.
pub const COUNT_ATTACHMENTS: &'static str = "SELECT COUNT(*) FROM meeting_context_attachments WHERE meeting_id = ?";

/// The bytes of a meeting's attachments.
pub const TOTAL_SIZE: &'static str = "SELECT COALESCE(SUM(size_bytes), 0) FROM meeting_context_attachments WHERE meeting_id = ?";

/// Stores an attachment.
pub const INSERT_ATTACHMENT: &'static str = "INSERT INTO meeting_context_attachments (id, meeting_id, original_path, stored_filename, display_name, size_bytes, truncated, sort_order, created_at) VALUES (?, ?, ?, ?, ?, ?, ?, ?, ?)";

/// Deletes an attachment.
pub const DELETE_ATTACHMENT: &'static str = "DELETE FROM meeting_context_attachments WHERE meeting_id = ? AND id = ?";

/// The last place that an attachment of a meeting has.
pub const LAST_SORT_ORDER: &'static str = "SELECT MAX(sort_order) FROM meeting_context_attachments WHERE meeting_id = ?";

/// The context text and template of a meeting.
pub struct SummaryContextRepository;

impl SummaryContextRepository {
    /// Asks for the stored text.
    pub fn get_prompt(meeting_id: &str) -> (r: Query)
        ensures
            r@ == query::text_query(GET_PROMPT@, seq![meeting_id@]),
    {
        query::query1(GET_PROMPT, meeting_id)
    }

    /// The stored text, or an empty one where nothing was stored.
    pub fn stored_prompt(row: Option<String>) -> (r: String)
        ensures
            r@ == text::text_or(text::opt_text(row), Seq::empty()),
    {
        match row {
            Some(s) => s,
            None => String::new(),
        }
    }

    /// Stores the text.
    pub fn upsert_prompt(meeting_id: &str, context_prompt: &str, now: Moment) -> (r: Query)
        requires
            now.valid(),
        ensures
            r@ == query::text_query(
                UPSERT_PROMPT@,
                seq![meeting_id@, context_prompt@, clock::rfc3339_text(now.secs, now.nanos)],
            ),
    {
        query::query3(UPSERT_PROMPT, meeting_id, context_prompt, clock::rfc3339(now).as_str())
    }

    /// Asks for the stored template.
    pub fn get_template(meeting_id: &str) -> (r: Query)
        ensures
            r@ == query::text_query(GET_TEMPLATE@, seq![meeting_id@]),
    {
        query::query1(GET_TEMPLATE, meeting_id)
    }

    /// The stored template, if the meeting has a row and the row has one.
    pub fn stored_template(row: Option<Option<String>>) -> (r: Option<String>)
        ensures
            r == match row {
                Some(t) => t,
                None => None,
            },
    {
        match row {
            Some(t) => t,
            None => None,
        }
    }

    /// Stores the template.
    pub fn upsert_template(meeting_id: &str, template_id: &str, now: Moment) -> (r: Query)
        requires
            now.valid(),
        ensures
            r@ == query::text_query(
                UPSERT_TEMPLATE@,
                seq![meeting_id@, template_id@, clock::rfc3339_text(now.secs, now.nanos)],
            ),
    {
        query::query3(UPSERT_TEMPLATE, meeting_id, template_id, clock::rfc3339(now).as_str())
    }
}

/// The attachments of a meeting.
pub struct ContextAttachmentsRepository;

/// The values of an attachment, in the order in which they are stored.
pub open spec fn row_values(row: ContextAttachmentRow) -> Seq<ParamView> {
    seq![
        ParamView::Text(row.id@),
        ParamView::Text(row.meeting_id@),
        ParamView::Text(row.original_path@),
        ParamView::Text(row.stored_filename@),
        ParamView::Text(row.display_name@),
        ParamView::Integer(row.size_bytes),
        ParamView::Flag(row.truncated),
        ParamView::Integer(row.sort_order),
        ParamView::Text(row.created_at@),
    ]
}

/// The place after the last one that is taken, or the first.
pub open spec fn next_place(max: Option<i64>) -> int {
    match max {
        Some(m) => m + 1,
        None => 0,
    }
}

impl ContextAttachmentsRepository {
    /// Asks for all attachments of a meeting.
    pub fn list(meeting_id: &str) -> (r: Query)
        ensures
            r@ == query::text_query(LIST_ATTACHMENTS@, seq![meeting_id@]),
    {
        query::query1(LIST_ATTACHMENTS, meeting_id)
    }

    /// Asks for one attachment.
    pub fn get(meeting_id: &str, attachment_id: &str) -> (r: Query)
        ensures
            r@ == query::text_query(GET_ATTACHMENT@, seq![meeting_id@, attachment_id@]),
    {
        query::query2(GET_ATTACHMENT, meeting_id, attachment_id)
    }

    /// Asks how many attachments a meeting has.
    pub fn count(meeting_id: &str) -> (r: Query)
        ensures
            r@ == query::text_query(COUNT_ATTACHMENTS@, seq![meeting_id@]),
    {
        query::query1(COUNT_ATTACHMENTS, meeting_id)
    }

    /// Asks how many bytes the attachments of a meeting have.
    pub fn total_size(meeting_id: &str) -> (r: Query)
        ensures
            r@ == query::text_query(TOTAL_SIZE@, seq![meeting_id@]),
    {
        query::query1(TOTAL_SIZE, meeting_id)
    }

    /// Stores an attachment.
    pub fn insert(row: &ContextAttachmentRow) -> (r: Query)
        ensures
            r@ == (QueryView { sql: INSERT_ATTACHMENT@, params: row_values(*row) }),
    {
        let mut params: Vec<Param> = Vec::new();
        params.push(Param::Text(row.id.clone()));
        params.push(Param::Text(row.meeting_id.clone()));
        params.push(Param::Text(row.original_path.clone()));
        params.push(Param::Text(row.stored_filename.clone()));
        params.push(Param::Text(row.display_name.clone()));
        params.push(Param::Integer(row.size_bytes));
        params.push(Param::Flag(row.truncated));
        params.push(Param::Integer(row.sort_order));
        params.push(Param::Text(row.created_at.clone()));
        let r = Query { sql: INSERT_ATTACHMENT, params };
        proof {
            assert(r@.params =~= row_values(*row));
        }
        r
    }

    /// Deletes an attachment.
    pub fn delete(meeting_id: &str, attachment_id: &str) -> (r: Query)
        ensures
            r@ == query::text_query(DELETE_ATTACHMENT@, seq![meeting_id@, attachment_id@]),
    {
        query::query2(DELETE_ATTACHMENT, meeting_id, attachment_id)
    }

    /// Was there an attachment to delete?
    pub fn was_deleted(rows: u64) -> (r: bool)
        ensures
            r == (rows > 0),
    {
        rows > 0
    }

    /// Asks for the last place that an attachment has.
    pub fn next_sort_order(meeting_id: &str) -> (r: Query)
        ensures
            r@ == query::text_query(LAST_SORT_ORDER@, seq![meeting_id@]),
    {
        query::query1(LAST_SORT_ORDER, meeting_id)
    }

    /// The place after the last attachment, or the first place.
    pub fn place_after(max: Option<i64>) -> (r: i64)
        requires
            max != Some(i64::MAX),
        ensures
            r == match max {
                Some(m) => m + 1,
                None => 0,
            },
            r == next_place(max),
    {
        match max {
            Some(m) => m + 1,
            None => 0,
        }
    }
}

/// What is stored of an attachment tells everything of it: attachments that are stored alike
/// are alike.
pub proof fn law_stored_attachments_lose_nothing(a: ContextAttachmentRow, b: ContextAttachmentRow)
    requires
        row_values(a) == row_values(b),
    ensures
        a.id@ == b.id@ && a.meeting_id@ == b.meeting_id@,
        a.original_path@ == b.original_path@,
        a.stored_filename@ == b.stored_filename@,
        a.display_name@ == b.display_name@,
        a.size_bytes == b.size_bytes,
        a.truncated == b.truncated,
        a.sort_order == b.sort_order,
        a.created_at@ == b.created_at@,
{
    let v = row_values(a);
    let w = row_values(b);
    assert(v[0] == w[0] && v[1] == w[1] && v[2] == w[2]);
    assert(v[3] == w[3] && v[4] == w[4] && v[5] == w[5]);
    assert(v[6] == w[6] && v[7] == w[7] && v[8] == w[8]);
}

/// A new attachment comes after all that a meeting has, and leaves no place free between.
pub proof fn law_new_attachments_come_last(places: Seq<i64>, max: Option<i64>)
    requires
        max is None <==> places.len() == 0,
        max is Some ==> places.contains(max->0),
        forall|i: int| 0 <= i < places.len() ==> #[trigger] places[i] <= max->0,
    ensures
        forall|i: int| 0 <= i < places.len() ==> #[trigger] places[i] < next_place(max),
        places.len() > 0 ==> exists|i: int|
            0 <= i < places.len() && #[trigger] places[i] == next_place(max) - 1,
        places.len() == 0 ==> next_place(max) == 0,
{
    if places.len() > 0 {
        let i = choose|i: int| 0 <= i < places.len() && places[i] == max->0;
        assert(places[i] == next_place(max) - 1);
    }
}

} // verus!
