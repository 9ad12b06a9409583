//! The data of a meeting's summary context.
use vstd::prelude::*;
use vstd::std_specs::convert::FromSpecImpl;

verus! {

/// An attachment as shown to the user: no content and no paths.
#[derive(Debug, Clone)]
pub struct ContextAttachmentInfo {
    pub id: String,
    pub display_name: String,
    pub size_bytes: i64,
    pub truncated: bool,
    pub created_at: String,
}

/// The whole summary context of a meeting.
#[derive(Debug, Clone)]
pub struct SummaryContextData {
    pub context_prompt: String,
    pub attachments: Vec<ContextAttachmentInfo>,
}

/// An attachment as it is stored.
#[derive(Debug, Clone)]
pub struct ContextAttachmentRow {
    pub id: String,
    pub meeting_id: String,
    pub original_path: String,
    pub stored_filename: String,
    pub display_name: String,
    pub size_bytes: i64,
    pub truncated: bool,
    pub sort_order: i64,
    pub created_at: String,
}

/// An attachment with its text, as it goes into the prompt.
#[derive(Debug, Clone)]
pub struct AttachmentContent {
    pub display_name: String,
    pub content: String,
    pub truncated: bool,
}

/// What the user sees of a stored attachment.
pub open spec fn shown_of(row: ContextAttachmentRow) -> ContextAttachmentInfo {
    ContextAttachmentInfo {
        id: row.id,
        display_name: row.display_name,
        size_bytes: row.size_bytes,
        truncated: row.truncated,
        created_at: row.created_at,
    }
}

impl<'a> From<&'a ContextAttachmentRow> for ContextAttachmentInfo {
    fn from(row: &'a ContextAttachmentRow) -> (r: ContextAttachmentInfo) {
        ContextAttachmentInfo {
            id: row.id.clone(),
            display_name: row.display_name.clone(),
            size_bytes: row.size_bytes,
            truncated: row.truncated,
            created_at: row.created_at.clone(),
        }
    }
}

impl<'a> FromSpecImpl<&'a ContextAttachmentRow> for ContextAttachmentInfo {
    open spec fn obeys_from_spec() -> bool {
        true
    }

    open spec fn from_spec(row: &'a ContextAttachmentRow) -> ContextAttachmentInfo {
        shown_of(*row)
    }
}

} // verus!
