use meetily::clock::Moment;
use meetily::database::query::{Param, Query};
use meetily::summary::context::commands::{find_meeting_folder, resolve_meeting_folder};
use meetily::summary::context::repository::{
    ContextAttachmentsRepository, SummaryContextRepository,
};
use meetily::summary::context::types::ContextAttachmentRow;
use sqlx::sqlite::{SqlitePoolOptions, SqliteRow};
use sqlx::{FromRow, Sqlite, SqlitePool};

const NOW: Moment = Moment { secs: 1_700_000_000, nanos: 0 };

const SCHEMA: &str = "CREATE TABLE meetings (
    id TEXT PRIMARY KEY,
    title TEXT NOT NULL,
    created_at TEXT NOT NULL,
    updated_at TEXT NOT NULL,
    folder_path TEXT
);
CREATE TABLE meeting_summary_context (
    meeting_id TEXT PRIMARY KEY NOT NULL,
    context_prompt TEXT NOT NULL DEFAULT '',
    template_id TEXT,
    updated_at TEXT NOT NULL,
    FOREIGN KEY (meeting_id) REFERENCES meetings(id) ON DELETE CASCADE
);
CREATE TABLE meeting_context_attachments (
    id TEXT PRIMARY KEY NOT NULL,
    meeting_id TEXT NOT NULL,
    original_path TEXT NOT NULL,
    stored_filename TEXT NOT NULL,
    display_name TEXT NOT NULL,
    size_bytes INTEGER NOT NULL,
    truncated INTEGER NOT NULL DEFAULT 0,
    sort_order INTEGER NOT NULL DEFAULT 0,
    created_at TEXT NOT NULL,
    FOREIGN KEY (meeting_id) REFERENCES meetings(id) ON DELETE CASCADE
);
INSERT INTO meetings (id, title, created_at, updated_at)
    VALUES ('m1', 'Test', '2026-05-22T00:00:00Z', '2026-05-22T00:00:00Z');";

struct Db {
    runtime: tokio::runtime::Runtime,
    pool: SqlitePool,
}

impl Db {
    fn open(schema: &'static str) -> Db {
        let runtime = tokio::runtime::Builder::new_current_thread().enable_all().build().unwrap();
        let pool = runtime.block_on(async {
            let pool = SqlitePoolOptions::new()
                .max_connections(1)
                .connect("sqlite::memory:")
                .await
                .unwrap();
            sqlx::query::<Sqlite>(schema).execute(&pool).await.unwrap();
            pool
        });
        Db { runtime, pool }
    }

    fn rows<O>(&self, query: Query) -> Vec<O>
    where
        O: for<'r> FromRow<'r, SqliteRow> + Send + Unpin,
    {
        let mut statement = sqlx::query_as::<Sqlite, O>(query.sql);
        for param in query.params {
            statement = match param {
                Param::Text(t) => statement.bind(t),
                Param::MaybeText(t) => statement.bind(t),
                Param::Integer(n) => statement.bind(n),
                Param::Flag(b) => statement.bind(b),
            };
        }
        self.runtime.block_on(statement.fetch_all(&self.pool)).unwrap()
    }

    fn change(&self, query: Query) -> u64 {
        let mut statement = sqlx::query::<Sqlite>(query.sql);
        for param in query.params {
            statement = match param {
                Param::Text(t) => statement.bind(t),
                Param::MaybeText(t) => statement.bind(t),
                Param::Integer(n) => statement.bind(n),
                Param::Flag(b) => statement.bind(b),
            };
        }
        self.runtime.block_on(statement.execute(&self.pool)).unwrap().rows_affected()
    }

    fn run(&self, sql: &'static str) {
        self.change(Query { sql, params: Vec::new() });
    }
}

type AttachmentRow = (String, String, String, String, String, i64, bool, i64, String);

fn setup_pool() -> Db {
    Db::open(SCHEMA)
}

impl Db {
    fn get_prompt(&self, id: &str) -> String {
        let row = self.rows::<(String,)>(SummaryContextRepository::get_prompt(id)).pop();
        SummaryContextRepository::stored_prompt(row.map(|(s,)| s))
    }

    fn upsert_prompt(&self, id: &str, prompt: &str) {
        self.change(SummaryContextRepository::upsert_prompt(id, prompt, NOW));
    }

    fn get_template(&self, id: &str) -> Option<String> {
        let row = self.rows::<(Option<String>,)>(SummaryContextRepository::get_template(id)).pop();
        SummaryContextRepository::stored_template(row.map(|(t,)| t))
    }

    fn upsert_template(&self, id: &str, template: &str) {
        self.change(SummaryContextRepository::upsert_template(id, template, NOW));
    }

    fn list(&self, id: &str) -> Vec<AttachmentRow> {
        self.rows(ContextAttachmentsRepository::list(id))
    }

    fn insert(&self, row: &ContextAttachmentRow) {
        self.change(ContextAttachmentsRepository::insert(row));
    }

    fn number(&self, query: Query) -> Option<i64> {
        self.rows::<(Option<i64>,)>(query)[0].0
    }

    fn next_sort_order(&self, id: &str) -> i64 {
        let max = self.number(ContextAttachmentsRepository::next_sort_order(id));
        ContextAttachmentsRepository::place_after(max)
    }

    fn delete(&self, id: &str, attachment: &str) -> bool {
        let rows = self.change(ContextAttachmentsRepository::delete(id, attachment));
        ContextAttachmentsRepository::was_deleted(rows)
    }
}

#[test]
fn get_prompt_returns_empty_when_no_row() {
    let pool = setup_pool();
    assert_eq!(pool.get_prompt("m1"), "");
}

#[test]
fn upsert_then_get_returns_value() {
    let pool = setup_pool();
    pool.upsert_prompt("m1", "Hello world");
    assert_eq!(pool.get_prompt("m1"), "Hello world");
}

#[test]
fn upsert_overwrites_existing() {
    let pool = setup_pool();
    pool.upsert_prompt("m1", "First");
    pool.upsert_prompt("m1", "Second");
    assert_eq!(pool.get_prompt("m1"), "Second");
}

#[test]
fn get_template_returns_none_when_no_row() {
    let pool = setup_pool();
    assert_eq!(pool.get_template("m1"), None);
}

#[test]
fn upsert_then_get_template_returns_value() {
    let pool = setup_pool();
    pool.upsert_template("m1", "daily_standup");
    assert_eq!(pool.get_template("m1"), Some("daily_standup".to_string()));
}

#[test]
fn template_and_prompt_are_independent() {
    let pool = setup_pool();
    pool.upsert_template("m1", "standard_meeting");
    assert_eq!(pool.get_prompt("m1"), "");
    pool.upsert_prompt("m1", "Hello");
    assert_eq!(pool.get_prompt("m1"), "Hello");
    assert_eq!(pool.get_template("m1"), Some("standard_meeting".to_string()));
}

#[test]
fn cascade_delete_removes_context_row() {
    let pool = setup_pool();
    pool.upsert_prompt("m1", "Hello");
    pool.run("PRAGMA foreign_keys = ON");
    pool.run("DELETE FROM meetings WHERE id = 'm1'");
    assert_eq!(pool.get_prompt("m1"), "");
}

fn sample_row(id: &str, meeting_id: &str, sort_order: i64) -> ContextAttachmentRow {
    ContextAttachmentRow {
        id: id.to_string(),
        meeting_id: meeting_id.to_string(),
        original_path: format!("/orig/{}.txt", id),
        stored_filename: format!("{}_file.txt", id),
        display_name: format!("{}.txt", id),
        size_bytes: 100,
        truncated: false,
        sort_order,
        created_at: "2026-05-22T00:00:00Z".to_string(),
    }
}

#[test]
fn list_empty_returns_empty_vec() {
    let pool = setup_pool();
    assert!(pool.list("m1").is_empty());
}

#[test]
fn insert_then_list_returns_one_row() {
    let pool = setup_pool();
    pool.insert(&sample_row("a1", "m1", 0));
    let rows = pool.list("m1");
    assert_eq!(rows.len(), 1);
    assert_eq!(rows[0].0, "a1");
}

#[test]
fn list_orders_by_sort_order_then_created_at() {
    let pool = setup_pool();
    pool.insert(&sample_row("a2", "m1", 1));
    pool.insert(&sample_row("a1", "m1", 0));
    let rows = pool.list("m1");
    assert_eq!(rows[0].0, "a1");
    assert_eq!(rows[1].0, "a2");
}

#[test]
fn count_and_total_size() {
    let pool = setup_pool();
    let mut row = sample_row("a1", "m1", 0);
    row.size_bytes = 100;
    pool.insert(&row);
    let mut row2 = sample_row("a2", "m1", 1);
    row2.size_bytes = 250;
    pool.insert(&row2);
    assert_eq!(pool.number(ContextAttachmentsRepository::count("m1")), Some(2));
    assert_eq!(pool.number(ContextAttachmentsRepository::total_size("m1")), Some(350));
}

#[test]
fn delete_returns_true_when_row_exists() {
    let pool = setup_pool();
    pool.insert(&sample_row("a1", "m1", 0));
    assert!(pool.delete("m1", "a1"));
    assert!(pool.list("m1").is_empty());
}

#[test]
fn delete_returns_false_when_no_row() {
    let pool = setup_pool();
    assert!(!pool.delete("m1", "missing"));
}

#[test]
fn next_sort_order_starts_at_zero() {
    let pool = setup_pool();
    assert_eq!(pool.next_sort_order("m1"), 0);
}

#[test]
fn next_sort_order_increments() {
    let pool = setup_pool();
    pool.insert(&sample_row("a1", "m1", 5));
    assert_eq!(pool.next_sort_order("m1"), 6);
}

#[test]
fn cascade_delete_removes_attachments() {
    let pool = setup_pool();
    pool.insert(&sample_row("a1", "m1", 0));
    pool.run("PRAGMA foreign_keys = ON");
    pool.run("DELETE FROM meetings WHERE id = 'm1'");
    assert!(pool.list("m1").is_empty());
}

#[test]
fn inserted_values_come_back() {
    let pool = setup_pool();
    let mut row = sample_row("a1", "m1", 3);
    row.truncated = true;
    pool.insert(&row);
    let found = first(pool.rows(ContextAttachmentsRepository::get("m1", "a1")));
    let (id, meeting, path, stored, shown, size, truncated, place, at) = found;
    assert_eq!((id, meeting, path), (row.id, row.meeting_id, row.original_path));
    assert_eq!((stored, shown, size), (row.stored_filename, row.display_name, 100));
    assert_eq!((truncated, place, at), (true, 3, row.created_at));
    assert!(pool.rows::<AttachmentRow>(ContextAttachmentsRepository::get("m2", "a1")).is_empty());
}

fn first(mut rows: Vec<AttachmentRow>) -> AttachmentRow {
    rows.remove(0)
}

#[test]
fn the_folder_of_a_meeting_is_looked_up() {
    let pool = setup_pool();
    let row = |id: &str| {
        let found: Option<(Option<String>,)> = pool.rows(find_meeting_folder(id)).pop();
        found.map(|(path,)| path)
    };
    assert!(resolve_meeting_folder(row("m1"), true).is_err());
    assert!(resolve_meeting_folder(row("m2"), true).is_err());
    pool.run("UPDATE meetings SET folder_path = '/tmp/m1'");
    assert_eq!(resolve_meeting_folder(row("m1"), true).unwrap(), "/tmp/m1");
}
