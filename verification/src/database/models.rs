//! Rows of the database that the library reasons about.
use vstd::prelude::*;

verus! {

/// A tag with the number of meetings that carry it.
#[derive(Debug, Clone)]
pub struct TagModel {
    pub id: String,
    pub name: String,
    pub color: Option<String>,
    pub description: Option<String>,
    pub created_at: String,
    pub updated_at: String,
    pub meeting_count: i64,
}

/// The status of a meeting whose recording has ended.
pub const STATUS_COMPLETED: &'static str = "completed";

} // verus!
