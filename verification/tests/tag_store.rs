use meetily::clock::Moment;
use meetily::database::models::TagModel;
use meetily::database::query::{Param, Query};
use meetily::database::repositories::tags::{normalize_name, CreateStep, TagError, TagsRepository};
use sqlx::sqlite::{SqlitePoolOptions, SqliteRow};
use sqlx::{FromRow, Sqlite, SqlitePool};

const NOW: Moment = Moment { secs: 1_700_000_000, nanos: 0 };

const SCHEMA: &str = "CREATE TABLE meetings (
    id TEXT PRIMARY KEY,
    title TEXT NOT NULL,
    created_at TEXT NOT NULL,
    updated_at TEXT NOT NULL,
    folder_path TEXT,
    status TEXT NOT NULL DEFAULT 'completed'
);
CREATE TABLE tags (
    id TEXT PRIMARY KEY,
    name TEXT NOT NULL UNIQUE,
    created_at TEXT NOT NULL,
    updated_at TEXT NOT NULL,
    color TEXT,
    description TEXT
);
CREATE TABLE meeting_tags (
    meeting_id TEXT NOT NULL,
    tag_id TEXT NOT NULL,
    created_at TEXT NOT NULL,
    PRIMARY KEY (meeting_id, tag_id),
    FOREIGN KEY (meeting_id) REFERENCES meetings(id) ON DELETE CASCADE,
    FOREIGN KEY (tag_id) REFERENCES tags(id) ON DELETE CASCADE
);
INSERT INTO meetings (id, title, created_at, updated_at)
    VALUES ('meeting-a', 'Payzli Payment Integration', '2026-01-01', '2026-01-01');
INSERT INTO meetings (id, title, created_at, updated_at)
    VALUES ('meeting-b', 'Soul Bank Planning', '2026-01-01', '2026-01-01');";

struct Db {
    runtime: tokio::runtime::Runtime,
    pool: SqlitePool,
}

impl Db {
    fn open(schema: &'static str) -> Db {
        let runtime = tokio::runtime::Builder::new_current_thread().enable_all().build().unwrap();
        let pool = runtime.block_on(async {
            let pool = SqlitePoolOptions::new()
                .max_connections(1)
                .connect("sqlite::memory:")
                .await
                .unwrap();
            sqlx::query::<Sqlite>(schema).execute(&pool).await.unwrap();
            pool
        });
        Db { runtime, pool }
    }

    fn rows<O>(&self, query: Query) -> Vec<O>
    where
        O: for<'r> FromRow<'r, SqliteRow> + Send + Unpin,
    {
        let mut statement = sqlx::query_as::<Sqlite, O>(query.sql);
        for param in query.params {
            statement = match param {
                Param::Text(t) => statement.bind(t),
                Param::MaybeText(t) => statement.bind(t),
                Param::Integer(n) => statement.bind(n),
                Param::Flag(b) => statement.bind(b),
            };
        }
        self.runtime.block_on(statement.fetch_all(&self.pool)).unwrap()
    }

    fn change(&self, query: Query) -> u64 {
        let mut statement = sqlx::query::<Sqlite>(query.sql);
        for param in query.params {
            statement = match param {
                Param::Text(t) => statement.bind(t),
                Param::MaybeText(t) => statement.bind(t),
                Param::Integer(n) => statement.bind(n),
                Param::Flag(b) => statement.bind(b),
            };
        }
        self.runtime.block_on(statement.execute(&self.pool)).unwrap().rows_affected()
    }

    fn run(&self, sql: &'static str) {
        self.change(Query { sql, params: Vec::new() });
    }
}

type TagRow = (String, String, Option<String>, Option<String>, String, String, i64);
type MeetingRow = (String, String, String, String, Option<String>, String);
type LinkRow = (String, String, String, Option<String>);

fn tag((id, name, color, description, created_at, updated_at, meeting_count): TagRow) -> TagModel {
    TagModel { id, name, color, description, created_at, updated_at, meeting_count }
}

fn test_pool() -> Db {
    Db::open(SCHEMA)
}

impl Db {
    fn tags(&self, query: Query) -> Vec<TagModel> {
        self.rows::<TagRow>(query).into_iter().map(tag).collect()
    }

    fn list_tags(&self) -> Vec<TagModel> {
        self.tags(TagsRepository::list_tags())
    }

    fn get_tag(&self, id: &str) -> Result<TagModel, TagError> {
        TagsRepository::require_tag(self.tags(TagsRepository::get_tag(id)).pop())
    }

    fn create_tag(
        &self,
        name: &str,
        color: Option<&str>,
        description: Option<&str>,
    ) -> Result<TagModel, TagError> {
        let name = normalize_name(name)?;
        let existing = self.rows::<(String,)>(TagsRepository::tag_of_name(&name)).pop();
        let existing = existing.map(|(id,)| id);
        match TagsRepository::create_tag(name, color, description, existing, NOW) {
            CreateStep::Fetch(id) => self.get_tag(&id),
            CreateStep::Insert(t) => {
                self.change(TagsRepository::insert_tag(&t));
                Ok(t)
            }
        }
    }

    fn update_tag(
        &self,
        id: &str,
        name: &str,
        color: Option<&str>,
        description: Option<&str>,
    ) -> Result<TagModel, TagError> {
        let name = normalize_name(name)?;
        let conflict =
            !self.rows::<(String,)>(TagsRepository::other_tag_of_name(&name, id)).is_empty();
        let update = TagsRepository::update_tag(name, color, description, conflict, NOW)?;
        TagsRepository::require_changed(self.change(TagsRepository::write_update(&update, id)))?;
        self.get_tag(id)
    }

    fn delete_tag(&self, id: &str) -> bool {
        let mut affected = 0;
        for statement in TagsRepository::delete_tag(id) {
            affected = self.change(statement);
        }
        TagsRepository::was_deleted(affected)
    }

    fn get_meeting_tags(&self, id: &str) -> Result<Vec<TagModel>, TagError> {
        Ok(self.tags(TagsRepository::get_meeting_tags(id)?))
    }

    fn set_meeting_tags(
        &self,
        id: &str,
        tag_ids: Vec<String>,
    ) -> Result<Vec<TagModel>, TagError> {
        let exists = !self.rows::<(i64,)>(TagsRepository::find_meeting(id)?).is_empty();
        for statement in TagsRepository::set_meeting_tags(id, exists, &tag_ids, NOW)? {
            self.change(statement);
        }
        self.get_meeting_tags(id)
    }

    fn get_meetings_for_tag(&self, id: &str) -> Result<Vec<MeetingRow>, TagError> {
        Ok(self.rows(TagsRepository::get_meetings_for_tag(id)?))
    }

    fn list_meeting_tag_links(&self) -> Vec<LinkRow> {
        self.rows(TagsRepository::list_meeting_tag_links())
    }
}

#[test]
fn create_tag_trims_name_and_lists_with_zero_count() {
    let pool = test_pool();

    let tag = pool.create_tag("  Payzli  ", Some("blue"), Some("  ")).expect("create tag");
    assert_eq!(tag.name, "Payzli");
    assert_eq!(tag.color.as_deref(), Some("blue"));
    assert_eq!(tag.description, None);
    assert_eq!(tag.meeting_count, 0);

    let tags = pool.list_tags();
    assert_eq!(tags.len(), 1);
    assert_eq!(tags[0].name, "Payzli");
    assert_eq!(tags[0].color.as_deref(), Some("blue"));
    assert_eq!(tags[0].meeting_count, 0);
}

#[test]
fn create_tag_with_existing_name_returns_existing_tag() {
    let pool = test_pool();
    let first = pool.create_tag("Payzli", Some("blue"), None).expect("create tag");

    let second = pool.create_tag("payzli", Some("red"), None).expect("create duplicate tag");

    assert_eq!(second.id, first.id);
    assert_eq!(second.color.as_deref(), Some("blue"));
    assert_eq!(pool.list_tags().len(), 1);
}

#[test]
fn assigning_tags_updates_meeting_tags_and_counts() {
    let pool = test_pool();
    let payzli = pool.create_tag("Payzli", None, None).expect("create payzli tag");
    let follow_up = pool.create_tag("Follow-up", None, None).expect("create follow up tag");

    pool.set_meeting_tags("meeting-a", vec![payzli.id.clone(), follow_up.id.clone()])
        .expect("set meeting tags");

    let meeting_tags = pool.get_meeting_tags("meeting-a").expect("get meeting tags");
    assert_eq!(
        meeting_tags.iter().map(|tag| tag.name.as_str()).collect::<Vec<_>>(),
        vec!["Follow-up", "Payzli"]
    );

    let tags = pool.list_tags();
    assert_eq!(
        tags.iter().map(|tag| (tag.name.as_str(), tag.meeting_count)).collect::<Vec<_>>(),
        vec![("Follow-up", 1), ("Payzli", 1)]
    );
}

#[test]
fn filtering_meetings_by_tag_returns_only_assigned_meetings() {
    let pool = test_pool();
    let payzli = pool.create_tag("Payzli", None, None).expect("create payzli tag");
    pool.set_meeting_tags("meeting-a", vec![payzli.id.clone()]).expect("assign tag");

    let meetings = pool.get_meetings_for_tag(&payzli.id).expect("filter meetings");

    assert_eq!(meetings.len(), 1);
    assert_eq!(meetings[0].0, "meeting-a");
    assert_eq!(meetings[0].1, "Payzli Payment Integration");
}

#[test]
fn filtering_meetings_by_tag_skips_meetings_still_recording() {
    let pool = test_pool();
    let payzli = pool.create_tag("Payzli", None, None).expect("create payzli tag");
    pool.set_meeting_tags("meeting-a", vec![payzli.id.clone()]).expect("assign tag");
    pool.run("UPDATE meetings SET status = 'recording' WHERE id = 'meeting-a'");

    let meetings = pool.get_meetings_for_tag(&payzli.id).expect("filter meetings");

    assert!(meetings.is_empty());
}

#[test]
fn update_tag_changes_name_color_and_description() {
    let pool = test_pool();
    let tag = pool.create_tag("Payzli", None, None).expect("create tag");

    let updated = pool
        .update_tag(
            &tag.id,
            " Payzli Client ",
            Some("green"),
            Some("Payment integration meetings"),
        )
        .expect("update tag");

    assert_eq!(updated.id, tag.id);
    assert_eq!(updated.name, "Payzli Client");
    assert_eq!(updated.color.as_deref(), Some("green"));
    assert_eq!(updated.description.as_deref(), Some("Payment integration meetings"));
}

#[test]
fn update_tag_keeps_own_name_with_different_case() {
    let pool = test_pool();
    let tag = pool.create_tag("Payzli", None, None).expect("create tag");

    let updated = pool
        .update_tag(&tag.id, "PAYZLI", None, None)
        .expect("rename to same name with different case");

    assert_eq!(updated.name, "PAYZLI");
}

#[test]
fn update_tag_rejects_name_of_another_tag() {
    let pool = test_pool();
    pool.create_tag("Payzli", None, None).expect("create payzli tag");
    let other = pool.create_tag("Follow-up", None, None).expect("create follow up tag");

    let result = pool.update_tag(&other.id, "payzli", None, None);

    assert!(matches!(result, Err(TagError::Protocol(_))));
}

#[test]
fn update_missing_tag_is_not_found() {
    let pool = test_pool();

    let result = pool.update_tag("missing", "Payzli", None, None);

    assert!(matches!(result, Err(TagError::RowNotFound)));
}

#[test]
fn delete_tag_removes_links() {
    let pool = test_pool();
    let payzli = pool.create_tag("Payzli", None, None).expect("create payzli tag");
    pool.set_meeting_tags("meeting-a", vec![payzli.id.clone()]).expect("assign tag");

    assert!(pool.delete_tag(&payzli.id));

    assert!(pool.list_tags().is_empty());
    assert!(pool.list_meeting_tag_links().is_empty());
    assert!(!pool.delete_tag(&payzli.id));
}

#[test]
fn meeting_tag_links_cover_every_assignment() {
    let pool = test_pool();
    let payzli = pool.create_tag("Payzli", Some("blue"), None).expect("create payzli tag");
    let follow_up = pool.create_tag("Follow-up", None, None).expect("create follow up tag");
    pool.set_meeting_tags("meeting-a", vec![payzli.id.clone(), follow_up.id.clone()])
        .expect("assign meeting a");
    pool.set_meeting_tags("meeting-b", vec![payzli.id.clone()]).expect("assign meeting b");

    let links = pool.list_meeting_tag_links();

    assert_eq!(
        links.iter().map(|l| (l.0.as_str(), l.2.as_str(), l.3.as_deref())).collect::<Vec<_>>(),
        vec![
            ("meeting-a", "Follow-up", None),
            ("meeting-a", "Payzli", Some("blue")),
            ("meeting-b", "Payzli", Some("blue")),
        ]
    );
}

#[test]
fn setting_tags_replaces_those_of_the_meeting_alone() {
    let pool = test_pool();
    let payzli = pool.create_tag("Payzli", None, None).expect("create payzli tag");
    let follow_up = pool.create_tag("Follow-up", None, None).expect("create follow up tag");
    pool.set_meeting_tags("meeting-a", vec![payzli.id.clone()]).expect("assign meeting a");
    pool.set_meeting_tags("meeting-b", vec![payzli.id.clone()]).expect("assign meeting b");

    let ids = vec![format!(" {} ", follow_up.id), " ".to_string(), "no such tag".to_string()];
    let tags = pool.set_meeting_tags("meeting-a", ids).expect("replace tags");

    assert_eq!(tags.iter().map(|t| t.name.as_str()).collect::<Vec<_>>(), vec!["Follow-up"]);
    assert_eq!(pool.get_meeting_tags("meeting-b").expect("other meeting").len(), 1);
    assert!(matches!(
        pool.set_meeting_tags("meeting-c", vec![payzli.id]),
        Err(TagError::RowNotFound)
    ));
}
