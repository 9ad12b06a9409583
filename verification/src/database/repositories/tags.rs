//! The rules of tags: which names and ids are accepted, what is asked of the database and
//! written to it, and how its answers are taken.
use crate::clock;
use crate::clock::Moment;
use crate::database::models::{TagModel, STATUS_COMPLETED};
use crate::database::query;
use crate::database::query::{Param, ParamView, Query, QueryView};
use crate::ids;
use crate::text;
use vstd::prelude::*;

verus! {

/// All tags by name, in whatever case, with the number of their meetings.
pub const LIST_TAGS: &'static str = "SELECT tags.id, tags.name, tags.color, tags.description, tags.created_at, tags.updated_at, COUNT(meeting_tags.meeting_id) AS meeting_count FROM tags LEFT JOIN meeting_tags ON meeting_tags.tag_id = tags.id GROUP BY tags.id ORDER BY LOWER(tags.name) ASC";

/// One tag, with the number of its meetings.
pub const GET_TAG: &'static str = "SELECT tags.id, tags.name, tags.color, tags.description, tags.created_at, tags.updated_at, COUNT(meeting_tags.meeting_id) AS meeting_count FROM tags LEFT JOIN meeting_tags ON meeting_tags.tag_id = tags.id WHERE tags.id = ? GROUP BY tags.id";

/// The tag that has a name, in whatever case.
pub const TAG_OF_NAME: &'static str = "SELECT id FROM tags WHERE LOWER(name) = LOWER(?)";

/// Another tag that has a name, in whatever case.
pub const OTHER_TAG_OF_NAME: &'static str = "SELECT id FROM tags WHERE LOWER(name) = LOWER(?) AND id != ?";

/// Stores a tag.
pub const INSERT_TAG: &'static str = "INSERT INTO tags (id, name, color, description, created_at, updated_at) VALUES (?, ?, ?, ?, ?, ?)";

/// Writes over a tag.
pub const UPDATE_TAG: &'static str = "UPDATE tags SET name = ?, color = ?, description = ?, updated_at = ? WHERE id = ?";

/// Takes a tag off all meetings.
pub const UNLINK_TAG: &'static str = "DELETE FROM meeting_tags WHERE tag_id = ?";

/// Deletes a tag.
pub const DELETE_TAG: &'static str = "DELETE FROM tags WHERE id = ?";

/// The tags of a meeting by name, in whatever case, with the number of their meetings.
pub const MEETING_TAGS: &'static str = "SELECT tags.id, tags.name, tags.color, tags.description, tags.created_at, tags.updated_at, (SELECT COUNT(*) FROM meeting_tags counts WHERE counts.tag_id = tags.id) AS meeting_count FROM tags INNER JOIN meeting_tags ON meeting_tags.tag_id = tags.id WHERE meeting_tags.meeting_id = ? ORDER BY LOWER(tags.name) ASC";

/// Is there such a meeting?
pub const FIND_MEETING: &'static str = "SELECT 1 FROM meetings WHERE id = ?";

/// Takes all tags off a meeting.
pub const CLEAR_MEETING: &'static str = "DELETE FROM meeting_tags WHERE meeting_id = ?";

/// Puts a tag on a meeting, if there is such a tag and the meeting does not have it.
pub const LINK_TAG: &'static str = "INSERT OR IGNORE INTO meeting_tags (meeting_id, tag_id, created_at) SELECT ?, id, ? FROM tags WHERE id = ?";

/// The meetings with a tag and a status, the newest first.
pub const MEETINGS_FOR_TAG: &'static str = "SELECT meetings.* FROM meetings INNER JOIN meeting_tags ON meeting_tags.meeting_id = meetings.id WHERE meeting_tags.tag_id = ? AND meetings.status = ? ORDER BY meetings.created_at DESC";

/// Every tag of every meeting.
pub const MEETING_TAG_LINKS: &'static str = "SELECT meeting_tags.meeting_id, tags.id AS tag_id, tags.name, tags.color FROM meeting_tags INNER JOIN tags ON tags.id = meeting_tags.tag_id ORDER BY meeting_tags.meeting_id, LOWER(tags.name) ASC";

/// The operations on tags.
pub struct TagsRepository;

/// Why an operation on tags failed.
#[derive(Debug, Clone)]
pub enum TagError {
    /// The request itself is refused; with the reason.
    Protocol(String),
    /// There is no such row.
    RowNotFound,
}

/// The trimmed text, or nothing where it is blank.
pub open spec fn nonblank(value: Option<Seq<char>>) -> Option<Seq<char>> {
    match value {
        Some(v) if !text::is_blank(v) => Some(text::trimmed(v)),
        _ => None,
    }
}

/// Trims an optional text and turns a blank one into nothing.
pub fn normalize_optional(value: Option<&str>) -> (r: Option<String>)
    ensures
        text::opt_text(r) == nonblank(text::opt_str(value)),
{
    match value {
        Some(v) => {
            let t = text::trim(v);
            if t.is_empty() {
                None
            } else {
                Some(t.to_owned())
            }
        },
        None => None,
    }
}

/// Trims a tag's name; a blank one is refused.
pub fn normalize_name(name: &str) -> (r: Result<String, TagError>)
    ensures
        match r {
            Ok(t) => !text::is_blank(name@) && t@ == text::trimmed(name@),
            Err(e) => text::is_blank(name@) && (e matches TagError::Protocol(m) && m@
                == "tag name cannot be empty"@),
        },
{
    let t = text::trim(name);
    if t.is_empty() {
        return Err(TagError::Protocol("tag name cannot be empty".to_owned()));
    }
    Ok(t.to_owned())
}

/// What follows once the database was asked for a tag of the new tag's name.
#[derive(Debug, Clone)]
pub enum CreateStep {
    /// The name is taken: fetch the tag of this id and hand it out as it is.
    Fetch(String),
    /// Store this new tag and hand it out.
    Insert(TagModel),
}

/// A new tag: the trimmed name, blank color and description dropped, no meetings yet,
/// and the same moment for creation and change.
pub open spec fn is_new_tag(
    t: TagModel,
    name: Seq<char>,
    color: Option<Seq<char>>,
    description: Option<Seq<char>>,
    id: Seq<char>,
    now: Moment,
) -> bool {
    &&& t.id@ == id
    &&& t.name@ == name
    &&& text::opt_text(t.color) == nonblank(color)
    &&& text::opt_text(t.description) == nonblank(description)
    &&& t.created_at@ == clock::rfc3339_text(now.secs, now.nanos)
    &&& t.updated_at@ == clock::rfc3339_text(now.secs, now.nanos)
    &&& t.meeting_count == 0
}

/// Makes the row of a new tag.
pub fn new_tag(
    id: String,
    name: String,
    color: Option<&str>,
    description: Option<&str>,
    now: Moment,
) -> (t: TagModel)
    requires
        now.valid(),
    ensures
        is_new_tag(t, name@, text::opt_str(color), text::opt_str(description), id@, now),
{
    let stamp = clock::rfc3339(now);
    TagModel {
        id,
        name,
        color: normalize_optional(color),
        description: normalize_optional(description),
        created_at: stamp.clone(),
        updated_at: stamp,
        meeting_count: 0,
    }
}

/// What is written over a tag that changes.
#[derive(Debug, Clone)]
pub struct TagUpdate {
    pub name: String,
    pub color: Option<String>,
    pub description: Option<String>,
    pub updated_at: String,
}

/// A change of a tag as texts.
pub struct ChangeView {
    pub name: Seq<char>,
    pub color: Option<Seq<char>>,
    pub description: Option<Seq<char>>,
    pub updated_at: Seq<char>,
}

impl View for TagUpdate {
    type V = ChangeView;

    open spec fn view(&self) -> ChangeView {
        ChangeView {
            name: self.name@,
            color: text::opt_text(self.color),
            description: text::opt_text(self.description),
            updated_at: self.updated_at@,
        }
    }
}

/// The change that a tag is asked to make, or the reason to refuse it: another tag has the
/// name.
pub open spec fn change_of(
    name: Seq<char>,
    color: Option<Seq<char>>,
    description: Option<Seq<char>>,
    conflict: bool,
    now: Moment,
) -> Result<ChangeView, Seq<char>> {
    if conflict {
        Err("a tag named \""@ + name + "\" already exists"@)
    } else {
        Ok(
            ChangeView {
                name,
                color: nonblank(color),
                description: nonblank(description),
                updated_at: clock::rfc3339_text(now.secs, now.nanos),
            },
        )
    }
}

/// The values of a tag, in the order in which they are stored.
pub open spec fn tag_values(t: TagModel) -> Seq<ParamView> {
    seq![
        ParamView::Text(t.id@),
        ParamView::Text(t.name@),
        ParamView::MaybeText(text::opt_text(t.color)),
        ParamView::MaybeText(text::opt_text(t.description)),
        ParamView::Text(t.created_at@),
        ParamView::Text(t.updated_at@),
    ]
}

/// The values that are written over a tag, and the tag's id.
pub open spec fn update_values(u: TagUpdate, tag_id: Seq<char>) -> Seq<ParamView> {
    seq![
        ParamView::Text(u.name@),
        ParamView::MaybeText(text::opt_text(u.color)),
        ParamView::MaybeText(text::opt_text(u.description)),
        ParamView::Text(u.updated_at@),
        ParamView::Text(tag_id),
    ]
}

impl TagsRepository {
    /// Asks for all tags.
    pub fn list_tags() -> (r: Query)
        ensures
            r@ == query::text_query(LIST_TAGS@, Seq::empty()),
    {
        query::query0(LIST_TAGS)
    }

    /// Asks for one tag.
    pub fn get_tag(tag_id: &str) -> (r: Query)
        ensures
            r@ == query::text_query(GET_TAG@, seq![tag_id@]),
    {
        query::query1(GET_TAG, tag_id)
    }

    /// Asks whether a normalized name is taken.
    pub fn tag_of_name(name: &str) -> (r: Query)
        ensures
            r@ == query::text_query(TAG_OF_NAME@, seq![name@]),
    {
        query::query1(TAG_OF_NAME, name)
    }

    /// Asks whether a normalized name is taken by another tag than this one.
    pub fn other_tag_of_name(name: &str, tag_id: &str) -> (r: Query)
        ensures
            r@ == query::text_query(OTHER_TAG_OF_NAME@, seq![name@, tag_id@]),
    {
        query::query2(OTHER_TAG_OF_NAME, name, tag_id)
    }

    /// Stores a new tag.
    pub fn insert_tag(t: &TagModel) -> (r: Query)
        ensures
            r@ == (QueryView { sql: INSERT_TAG@, params: tag_values(*t) }),
    {
        let mut params: Vec<Param> = Vec::new();
        params.push(Param::Text(t.id.clone()));
        params.push(Param::Text(t.name.clone()));
        params.push(Param::MaybeText(text::clone_opt(&t.color)));
        params.push(Param::MaybeText(text::clone_opt(&t.description)));
        params.push(Param::Text(t.created_at.clone()));
        params.push(Param::Text(t.updated_at.clone()));
        let r = Query { sql: INSERT_TAG, params };
        proof {
            assert(r@.params =~= tag_values(*t));
        }
        r
    }

    /// Writes over a tag.
    pub fn write_update(u: &TagUpdate, tag_id: &str) -> (r: Query)
        ensures
            r@ == (QueryView { sql: UPDATE_TAG@, params: update_values(*u, tag_id@) }),
    {
        let mut params: Vec<Param> = Vec::new();
        params.push(Param::Text(u.name.clone()));
        params.push(Param::MaybeText(text::clone_opt(&u.color)));
        params.push(Param::MaybeText(text::clone_opt(&u.description)));
        params.push(Param::Text(u.updated_at.clone()));
        params.push(Param::Text(tag_id.to_owned()));
        let r = Query { sql: UPDATE_TAG, params };
        proof {
            assert(r@.params =~= update_values(*u, tag_id@));
        }
        r
    }

    /// Creates a tag, or hands out the one that has the name already, in whatever case. A
    /// tag that exists keeps its own color and description. `name` is a normalized name,
    /// and `existing` the id of the tag that has it.
    pub fn create_tag(
        name: String,
        color: Option<&str>,
        description: Option<&str>,
        existing: Option<String>,
        now: Moment,
    ) -> (r: CreateStep)
        requires
            now.valid(),
        ensures
            match existing {
                Some(id) => r == CreateStep::Fetch(id),
                None => r matches CreateStep::Insert(t) && ids::is_uuid_text(t.id@)
                    && is_new_tag(
                    t,
                    name@,
                    text::opt_str(color),
                    text::opt_str(description),
                    t.id@,
                    now,
                ),
            },
    {
        match existing {
            Some(id) => CreateStep::Fetch(id),
            None => {
                let id = ids::new_uuid();
                CreateStep::Insert(new_tag(id, name, color, description, now))
            },
        }
    }

    /// A tag that was just looked up by its id must be there.
    pub fn require_tag(found: Option<TagModel>) -> (r: Result<TagModel, TagError>)
        ensures
            match found {
                Some(t) => r == Ok::<TagModel, TagError>(t),
                None => r == Err::<TagModel, TagError>(TagError::RowNotFound),
            },
    {
        match found {
            Some(t) => Ok(t),
            None => Err(TagError::RowNotFound),
        }
    }

    /// Renames and restyles a tag. `name` is a normalized name; `conflict` says that
    /// another tag has it.
    pub fn update_tag(
        name: String,
        color: Option<&str>,
        description: Option<&str>,
        conflict: bool,
        now: Moment,
    ) -> (r: Result<TagUpdate, TagError>)
        requires
            now.valid(),
        ensures
            match (r, change_of(
                name@,
                text::opt_str(color),
                text::opt_str(description),
                conflict,
                now,
            )) {
                (Ok(u), Ok(v)) => u@ == v,
                (Err(e), Err(reason)) => refuses(e, reason),
                _ => false,
            },
            match r {
                Ok(u) => !conflict && u.name == name && text::opt_text(u.color) == nonblank(
                    text::opt_str(color),
                ) && text::opt_text(u.description) == nonblank(text::opt_str(description))
                    && u.updated_at@ == clock::rfc3339_text(now.secs, now.nanos),
                Err(e) => conflict && (e matches TagError::Protocol(m) && m@ == "a tag named \""@
                    + name@ + "\" already exists"@),
            },
    {
        if conflict {
            return Err(
                TagError::Protocol(
                    text::concat3("a tag named \"", name.as_str(), "\" already exists"),
                ),
            );
        }
        Ok(
            TagUpdate {
                name,
                color: normalize_optional(color),
                description: normalize_optional(description),
                updated_at: clock::rfc3339(now),
            },
        )
    }

    /// A tag that was changed must have been there.
    pub fn require_changed(rows: u64) -> (r: Result<(), TagError>)
        ensures
            r == if rows == 0 {
                Err::<(), TagError>(TagError::RowNotFound)
            } else {
                Ok(())
            },
    {
        if rows == 0 {
            return Err(TagError::RowNotFound);
        }
        Ok(())
    }

    /// Deletes a tag: first it comes off all meetings. Both statements make one change.
    pub fn delete_tag(tag_id: &str) -> (r: Vec<Query>)
        ensures
            query::statements(r@) == seq![
                query::text_query(UNLINK_TAG@, seq![tag_id@]),
                query::text_query(DELETE_TAG@, seq![tag_id@]),
            ],
            query::statements(r@) == delete_statements(tag_id@),
    {
        let mut r: Vec<Query> = Vec::new();
        r.push(query::query1(UNLINK_TAG, tag_id));
        r.push(query::query1(DELETE_TAG, tag_id));
        proof {
            assert(query::statements(r@) =~= seq![
                query::text_query(UNLINK_TAG@, seq![tag_id@]),
                query::text_query(DELETE_TAG@, seq![tag_id@]),
            ]);
        }
        r
    }

    /// Was there a tag to delete?
    pub fn was_deleted(rows: u64) -> (r: bool)
        ensures
            r == (rows > 0),
    {
        rows > 0
    }

    /// A meeting's tags, or its existence, can be asked for only with its id.
    fn require_meeting_id(meeting_id: &str) -> (r: Result<(), TagError>)
        ensures
            match r {
                Ok(_) => !text::is_blank(meeting_id@),
                Err(e) => text::is_blank(meeting_id@) && refuses(e, "meeting_id cannot be empty"@),
            },
    {
        if text::trim(meeting_id).is_empty() {
            return Err(TagError::Protocol("meeting_id cannot be empty".to_owned()));
        }
        Ok(())
    }

    /// Asks for the tags of a meeting; a blank id is refused.
    pub fn get_meeting_tags(meeting_id: &str) -> (r: Result<Query, TagError>)
        ensures
            match r {
                Ok(q) => !text::is_blank(meeting_id@) && q@ == query::text_query(
                    MEETING_TAGS@,
                    seq![meeting_id@],
                ),
                Err(e) => text::is_blank(meeting_id@) && refuses(e, "meeting_id cannot be empty"@),
            },
    {
        match Self::require_meeting_id(meeting_id) {
            Ok(_) => Ok(query::query1(MEETING_TAGS, meeting_id)),
            Err(e) => Err(e),
        }
    }

    /// Asks whether there is a meeting, before its tags are set; a blank id is refused.
    pub fn find_meeting(meeting_id: &str) -> (r: Result<Query, TagError>)
        ensures
            match r {
                Ok(q) => !text::is_blank(meeting_id@) && q@ == query::text_query(
                    FIND_MEETING@,
                    seq![meeting_id@],
                ),
                Err(e) => text::is_blank(meeting_id@) && refuses(e, "meeting_id cannot be empty"@),
            },
    {
        match Self::require_meeting_id(meeting_id) {
            Ok(_) => Ok(query::query1(FIND_MEETING, meeting_id)),
            Err(e) => Err(e),
        }
    }

    /// Asks for the completed meetings with a tag; a blank id is refused.
    pub fn get_meetings_for_tag(tag_id: &str) -> (r: Result<Query, TagError>)
        ensures
            match r {
                Ok(q) => !text::is_blank(tag_id@) && q@ == query::text_query(
                    MEETINGS_FOR_TAG@,
                    seq![tag_id@, STATUS_COMPLETED@],
                ),
                Err(e) => text::is_blank(tag_id@) && refuses(e, "tag_id cannot be empty"@),
            },
    {
        if text::trim(tag_id).is_empty() {
            return Err(TagError::Protocol("tag_id cannot be empty".to_owned()));
        }
        Ok(query::query2(MEETINGS_FOR_TAG, tag_id, STATUS_COMPLETED))
    }

    /// Puts tags on a meeting in place of all that it had: all statements make one change. A
    /// blank meeting id and a meeting that does not exist are refused, and blank tag ids are
    /// passed over.
    pub fn set_meeting_tags(
        meeting_id: &str,
        meeting_exists: bool,
        tag_ids: &[String],
        now: Moment,
    ) -> (r: Result<Vec<Query>, TagError>)
        requires
            now.valid(),
        ensures
            match r {
                Ok(queries) => !text::is_blank(meeting_id@) && meeting_exists && query::statements(
                    queries@,
                ) == link_statements(
                    meeting_id@,
                    linked_ids(text::texts(tag_ids@)),
                    clock::rfc3339_text(now.secs, now.nanos),
                ),
                Err(e) => if text::is_blank(meeting_id@) {
                    refuses(e, "meeting_id cannot be empty"@)
                } else {
                    !meeting_exists && e is RowNotFound
                },
            },
    {
        match Self::require_meeting_id(meeting_id) {
            Ok(_) => {},
            Err(e) => {
                return Err(e);
            },
        }
        if !meeting_exists {
            return Err(TagError::RowNotFound);
        }
        let stamp = clock::rfc3339(now);
        let mut queries: Vec<Query> = Vec::new();
        queries.push(query::query1(CLEAR_MEETING, meeting_id));
        proof {
            assert(query::statements(queries@) =~= link_statements(
                meeting_id@,
                linked_ids(text::texts(tag_ids@).take(0)),
                stamp@,
            ));
        }
        let mut i: usize = 0;
        while i < tag_ids.len()
            invariant
                i <= tag_ids@.len(),
                query::statements(queries@) == link_statements(
                    meeting_id@,
                    linked_ids(text::texts(tag_ids@).take(i as int)),
                    stamp@,
                ),
            decreases tag_ids@.len() - i,
        {
            let ghost done = linked_ids(text::texts(tag_ids@).take(i as int));
            proof {
                let now = text::texts(tag_ids@).take(i + 1);
                assert(now.drop_last() =~= text::texts(tag_ids@).take(i as int));
                assert(now.last() == tag_ids@[i as int]@);
            }
            let id = text::trim(tag_ids[i].as_str());
            if !id.is_empty() {
                let ghost before = queries@;
                let q = query::query3(LINK_TAG, meeting_id, stamp.as_str(), id);
                queries.push(q);
                proof {
                    assert(query::statements(queries@) =~= query::statements(before).push(q@));
                    assert(query::statements(queries@) =~= link_statements(
                        meeting_id@,
                        done.push(id@),
                        stamp@,
                    ));
                }
            }
            i = i + 1;
        }
        proof {
            assert(text::texts(tag_ids@).take(tag_ids@.len() as int) =~= text::texts(tag_ids@));
        }
        Ok(queries)
    }

    /// Asks for every tag of every meeting.
    pub fn list_meeting_tag_links() -> (r: Query)
        ensures
            r@ == query::text_query(MEETING_TAG_LINKS@, Seq::empty()),
    {
        query::query0(MEETING_TAG_LINKS)
    }
}

/// The request is refused for this reason.
pub open spec fn refuses(e: TagError, reason: Seq<char>) -> bool {
    e matches TagError::Protocol(m) && m@ == reason
}

/// The statements that delete a tag: it comes off all meetings, then it goes.
pub open spec fn delete_statements(tag_id: Seq<char>) -> Seq<QueryView> {
    seq![
        query::text_query(UNLINK_TAG@, seq![tag_id]),
        query::text_query(DELETE_TAG@, seq![tag_id]),
    ]
}

/// The statements that put tags on a meeting: all its tags come off, then each tag goes on.
pub open spec fn link_statements(
    meeting_id: Seq<char>,
    ids: Seq<Seq<char>>,
    stamp: Seq<char>,
) -> Seq<QueryView> {
    seq![query::text_query(CLEAR_MEETING@, seq![meeting_id])] + ids.map_values(
        |id: Seq<char>| query::text_query(LINK_TAG@, seq![meeting_id, stamp, id]),
    )
}

/// The ids that are not blank, trimmed, in their order.
pub open spec fn linked_ids(ids: Seq<Seq<char>>) -> Seq<Seq<char>>
    decreases ids.len(),
{
    if ids.len() == 0 {
        Seq::empty()
    } else {
        let before = linked_ids(ids.drop_last());
        if text::is_blank(ids.last()) {
            before
        } else {
            before.push(text::trimmed(ids.last()))
        }
    }
}

/// A tag is put on a meeting if and only if it is one of the given ids that are not blank,
/// with the white space around it taken off.
pub proof fn law_linked_ids_are_the_given_ones(ids: Seq<Seq<char>>, id: Seq<char>)
    ensures
        linked_ids(ids).contains(id) <==> exists|k: int|
            0 <= k < ids.len() && #[trigger] gives_id(ids[k], id),
    decreases ids.len(),
{
    let all = linked_ids(ids);
    if ids.len() == 0 {
        assert(!all.contains(id));
    } else {
        let head = ids.drop_last();
        let before = linked_ids(head);
        let last = ids.len() - 1;
        law_linked_ids_are_the_given_ones(head, id);
        if all.contains(id) {
            let i = choose|i: int| 0 <= i < all.len() && all[i] == id;
            if i < before.len() {
                assert(before[i] == id);
                let k = choose|k: int| 0 <= k < head.len() && #[trigger] gives_id(head[k], id);
                assert(gives_id(ids[k], id));
            } else {
                assert(gives_id(ids[last], id));
            }
        }
        if exists|k: int| 0 <= k < ids.len() && #[trigger] gives_id(ids[k], id) {
            let k = choose|k: int| 0 <= k < ids.len() && #[trigger] gives_id(ids[k], id);
            if k < last {
                assert(gives_id(head[k], id));
                let i = choose|i: int| 0 <= i < before.len() && before[i] == id;
                assert(all[i] == id);
            } else {
                assert(all[before.len() as int] == id);
            }
        }
    }
}

/// A given id stands for this one.
pub open spec fn gives_id(given: Seq<char>, id: Seq<char>) -> bool {
    !text::is_blank(given) && text::trimmed(given) == id
}

/// Setting a meeting's tags touches no other meeting: every statement is given this
/// meeting's id first.
pub proof fn law_other_meetings_keep_their_tags(
    meeting_id: Seq<char>,
    ids: Seq<Seq<char>>,
    stamp: Seq<char>,
)
    ensures
        forall|i: int|
            0 <= i < link_statements(meeting_id, ids, stamp).len() ==> (#[trigger] link_statements(
                meeting_id,
                ids,
                stamp,
            )[i]).params[0] == ParamView::Text(meeting_id),
{
}

/// A text is kept from its first to its last character that is not white space; where there
/// is none, and where there is no text, nothing is kept.
pub proof fn law_blank_values_are_dropped(
    before: Seq<char>,
    value: Seq<char>,
    after: Seq<char>,
)
    requires
        forall|i: int| 0 <= i < before.len() ==> text::is_white_space(#[trigger] before[i]),
        forall|i: int| 0 <= i < after.len() ==> text::is_white_space(#[trigger] after[i]),
        value.len() > 0 ==> !text::is_white_space(value[0]) && !text::is_white_space(
            value[value.len() - 1],
        ),
    ensures
        value.len() > 0 ==> nonblank(Some(before + value + after)) == Some(value),
        value.len() == 0 ==> nonblank(Some(before + value + after)) is None,
        nonblank(None) is None,
{
    text::law_trimming_takes_only_white_space(before, value, after);
}

/// A change is refused if and only if another tag has the name, and the reason holds that
/// name. Otherwise the tag gets this name, and color and description as a new tag of these
/// values would.
pub proof fn law_taken_names_are_refused(
    name: Seq<char>,
    color: Option<Seq<char>>,
    description: Option<Seq<char>>,
    conflict: bool,
    now: Moment,
    t: TagModel,
)
    ensures
        change_of(name, color, description, conflict, now) is Err <==> conflict,
        conflict ==> text::has(change_of(name, color, description, conflict, now)->Err_0, name),
        !conflict && is_new_tag(t, name, color, description, t.id@, now) ==> {
            let change = change_of(name, color, description, conflict, now)->Ok_0;
            &&& change.name == name && t.name@ == name
            &&& change.color == text::opt_text(t.color)
            &&& change.description == text::opt_text(t.description)
            &&& change.updated_at == t.updated_at@ && change.updated_at == t.created_at@
        },
{
    text::law_pieces_stand_in_the_whole("a tag named \""@, name, "\" already exists"@);
}

/// A new tag is on no meeting, was changed when it was created, and has the name that it was
/// given. A color or description that is not blank is kept, and only such a one.
pub proof fn law_new_tags_hold_what_was_given(
    t: TagModel,
    name: Seq<char>,
    color: Option<Seq<char>>,
    description: Option<Seq<char>>,
    id: Seq<char>,
    now: Moment,
)
    requires
        is_new_tag(t, name, color, description, id, now),
    ensures
        t.id@ == id && t.name@ == name,
        t.meeting_count == 0,
        t.created_at@ == t.updated_at@,
        t.color is Some <==> color is Some && !text::is_blank(color->0),
        t.color is Some ==> t.color->0@ == text::trimmed(color->0),
        t.description is Some <==> description is Some && !text::is_blank(description->0),
        t.description is Some ==> t.description->0@ == text::trimmed(description->0),
{
}

/// What is stored of a tag tells everything of it but the number of its meetings, which the
/// database counts: tags that are stored alike are alike.
pub proof fn law_stored_tags_lose_nothing(a: TagModel, b: TagModel)
    requires
        tag_values(a) == tag_values(b),
    ensures
        a.id@ == b.id@ && a.name@ == b.name@,
        text::opt_text(a.color) == text::opt_text(b.color),
        text::opt_text(a.description) == text::opt_text(b.description),
        a.created_at@ == b.created_at@ && a.updated_at@ == b.updated_at@,
{
    let v = tag_values(a);
    let w = tag_values(b);
    assert(v[0] == w[0] && v[1] == w[1] && v[2] == w[2]);
    assert(v[3] == w[3] && v[4] == w[4] && v[5] == w[5]);
}

/// What is written of a change tells everything of it, and the tag that it is for.
pub proof fn law_written_changes_lose_nothing(
    a: TagUpdate,
    b: TagUpdate,
    tag_id: Seq<char>,
    other_id: Seq<char>,
)
    requires
        update_values(a, tag_id) == update_values(b, other_id),
    ensures
        tag_id == other_id,
        a@ == b@,
{
    let v = update_values(a, tag_id);
    let w = update_values(b, other_id);
    assert(v[0] == w[0] && v[1] == w[1] && v[2] == w[2]);
    assert(v[3] == w[3] && v[4] == w[4]);
}

/// Deleting a tag touches nothing but this tag, and takes it off its meetings before it goes.
pub proof fn law_deleted_tags_leave_no_links(tag_id: Seq<char>)
    ensures
        delete_statements(tag_id).len() == 2,
        delete_statements(tag_id)[0].sql == UNLINK_TAG@,
        delete_statements(tag_id)[1].sql == DELETE_TAG@,
        forall|i: int|
            0 <= i < 2 ==> (#[trigger] delete_statements(tag_id)[i]).params == seq![
                ParamView::Text(tag_id),
            ],
{
    let all = delete_statements(tag_id);
    assert(all[0].params =~= seq![ParamView::Text(tag_id)]);
    assert(all[1].params =~= seq![ParamView::Text(tag_id)]);
}

/// Ids are taken one by one, in their order and as often as they are given: an id that is not
/// blank without the white space around it, and a blank one not at all.
pub proof fn law_ids_are_taken_one_by_one(some: Seq<Seq<char>>, more: Seq<Seq<char>>)
    ensures
        linked_ids(some + more) == linked_ids(some) + linked_ids(more),
        some.len() == 1 && !text::is_blank(some[0]) ==> linked_ids(some) == seq![
            text::trimmed(some[0]),
        ],
        some.len() == 1 && text::is_blank(some[0]) ==> linked_ids(some).len() == 0,
    decreases more.len(),
{
    if more.len() > 0 {
        law_ids_are_taken_one_by_one(some, more.drop_last());
        assert((some + more).drop_last() =~= some + more.drop_last());
        assert((some + more).last() == more.last());
        assert(linked_ids(some + more) =~= linked_ids(some) + linked_ids(more));
    } else {
        assert(some + more =~= some);
        assert(linked_ids(some) + linked_ids(more) =~= linked_ids(some));
    }
    if some.len() == 1 {
        assert(some.drop_last() =~= Seq::empty());
        reveal_with_fuel(linked_ids, 2);
        if !text::is_blank(some[0]) {
            assert(linked_ids(some) =~= seq![text::trimmed(some[0])]);
        }
    }
}

/// Setting a meeting's tags first takes all its tags off, and then puts on every tag that was
/// asked for, in their order, with nothing after or between.
pub proof fn law_new_tags_replace_the_old_ones(
    meeting_id: Seq<char>,
    ids: Seq<Seq<char>>,
    stamp: Seq<char>,
    i: int,
)
    ensures
        link_statements(meeting_id, ids, stamp).len() == ids.len() + 1,
        link_statements(meeting_id, ids, stamp)[0].sql == CLEAR_MEETING@,
        link_statements(meeting_id, ids, stamp)[0].params == seq![ParamView::Text(meeting_id)],
        0 <= i < ids.len() ==> {
            let put = link_statements(meeting_id, ids, stamp)[i + 1];
            &&& put.sql == LINK_TAG@
            &&& put.params == seq![
                ParamView::Text(meeting_id),
                ParamView::Text(stamp),
                ParamView::Text(ids[i]),
            ]
        },
{
    let all = link_statements(meeting_id, ids, stamp);
    assert(all[0].params =~= seq![ParamView::Text(meeting_id)]);
    if 0 <= i < ids.len() {
        assert(all[i + 1] == query::text_query(LINK_TAG@, seq![meeting_id, stamp, ids[i]]));
        assert(all[i + 1].params =~= seq![
            ParamView::Text(meeting_id),
            ParamView::Text(stamp),
            ParamView::Text(ids[i]),
        ]);
    }
}

} // verus!
