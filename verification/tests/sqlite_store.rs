// The store's statements run against an in-memory SQLite database.
use chrono::{DateTime, Utc};
use diary_core::backend::SQLITE_SCHEMA;
use diary_core::entry::Entry;
use diary_core::query::{
    create_entry_statement, delete_entry_statement, entry_exists_statement,
    read_entries_statement, read_entry_statement, update_entry_statement, Dialect, SortOrder,
    SqlValue, Statement,
};
use sqlx::sqlite::{SqlitePool, SqliteRow};
use sqlx::Row;

fn run<F: std::future::Future>(f: F) -> F::Output {
    tokio::runtime::Runtime::new().unwrap().block_on(f)
}

async fn create_test_pool() -> SqlitePool {
    let pool = SqlitePool::connect("sqlite::memory:")
        .await
        .expect("Failed to create test pool");
    sqlx::query(SQLITE_SCHEMA)
        .execute(&pool)
        .await
        .expect("Failed to create test pool");
    pool
}

fn query_of(st: &Statement) -> sqlx::query::Query<'_, sqlx::Sqlite, sqlx::sqlite::SqliteArguments<'_>> {
    let mut q = sqlx::query(st.sql.as_str());
    for p in &st.params {
        q = match p {
            SqlValue::Int(i) => q.bind(*i),
            SqlValue::Text(s) => q.bind(s.as_str()),
            SqlValue::Bool(b) => q.bind(*b),
        };
    }
    q
}

fn entry_of(row: &SqliteRow) -> Entry {
    let created: DateTime<Utc> = row.get("created_at");
    let updated: Option<DateTime<Utc>> = row.get("updated_at");
    Entry {
        id: row.get("id"),
        content: row.get("content"),
        created_at: created.timestamp(),
        updated_at: updated.map(|t| t.timestamp()),
        pinned: row.get("pinned"),
    }
}

async fn fetch_one(pool: &SqlitePool, st: &Statement) -> Result<Entry, sqlx::Error> {
    let row = query_of(st).fetch_one(pool).await?;
    Ok(entry_of(&row))
}

async fn fetch_all(pool: &SqlitePool, st: &Statement) -> Vec<Entry> {
    query_of(st)
        .fetch_all(pool)
        .await
        .expect("Failed to read entries")
        .iter()
        .map(entry_of)
        .collect()
}

async fn entry_exists(pool: &SqlitePool, id: i64) -> bool {
    query_of(&entry_exists_statement(id))
        .fetch_optional(pool)
        .await
        .unwrap()
        .is_some()
}

async fn create(pool: &SqlitePool, content: &str, pinned: bool) -> Entry {
    fetch_one(pool, &create_entry_statement(content, pinned))
        .await
        .expect("Failed to create entry")
}

async fn list(
    pool: &SqlitePool,
    page: Option<i64>,
    per_page: Option<i64>,
    sort: Option<SortOrder>,
    pinned: Option<bool>,
    substring: Option<&str>,
) -> Vec<Entry> {
    let st = read_entries_statement(Dialect::Sqlite, page, per_page, sort, pinned, substring)
        .expect("Failed to read entries");
    fetch_all(pool, &st).await
}

async fn update(
    pool: &SqlitePool,
    id: i64,
    content: Option<&str>,
    pinned: Option<bool>,
) -> Result<Entry, String> {
    let found = entry_exists(pool, id).await;
    let st = update_entry_statement(id, content, pinned, found).map_err(|e| e.message())?;
    fetch_one(pool, &st).await.map_err(|e| e.to_string())
}

async fn delete(pool: &SqlitePool, id: i64) -> Result<(), String> {
    let found = entry_exists(pool, id).await;
    let st = delete_entry_statement(id, found).map_err(|e| e.message())?;
    query_of(&st).execute(pool).await.map_err(|e| e.to_string())?;
    Ok(())
}

#[test]
fn test_create_entry() {
    run(async {
        let pool = create_test_pool().await;
        let content = "Test entry content";
        let pinned = true;

        let created_entry = create(&pool, content, pinned).await;

        assert_eq!(created_entry.id, 1);
        assert!(entry_exists(&pool, 1).await);
        assert_eq!(created_entry.content, content);
        assert_eq!(created_entry.pinned, pinned);
        pool.close().await;
    });
}

#[test]
fn test_read_entries() {
    run(async {
        let pool = create_test_pool().await;
        let entries = vec![
            create(&pool, "First entry", true).await,
            create(&pool, "Second entry", false).await,
            create(&pool, "Third pinned entry", true).await,
        ];

        let results = list(&pool, None, None, None, None, None).await;
        assert_eq!(results.len(), 3);

        let paginated = list(&pool, Some(1), Some(2), None, None, None).await;
        assert_eq!(paginated.len(), 2);

        let pinned = list(&pool, None, None, None, Some(true), None).await;
        assert_eq!(pinned.len(), 2);

        let search = list(&pool, None, None, None, None, Some("Second")).await;
        assert_eq!(search.len(), 1);
        assert_eq!(search[0].content, "Second entry");

        let asc_sorted = list(&pool, None, None, Some(SortOrder::ASC), None, None).await;
        assert_eq!(asc_sorted[0].id, entries[0].id);
        pool.close().await;
    });
}

#[test]
fn test_read_entry() {
    run(async {
        let pool = create_test_pool().await;
        let entry = create(&pool, "Test entry", false).await;

        let read_entry = fetch_one(&pool, &read_entry_statement(entry.id))
            .await
            .expect("Failed to read entry");
        assert_eq!(read_entry.id, entry.id);
        assert_eq!(read_entry.content, entry.content);
        assert_eq!(read_entry.pinned, entry.pinned);

        let non_existent = fetch_one(&pool, &read_entry_statement(999)).await;
        assert!(non_existent.is_err());
        pool.close().await;
    });
}

#[test]
fn test_update_entry() {
    run(async {
        let pool = create_test_pool().await;
        let entry = create(&pool, "Original content", false).await;

        let updated_content = update(&pool, entry.id, Some("Updated content"), None)
            .await
            .expect("Failed to update entry content");
        assert_eq!(updated_content.content, "Updated content");
        assert_eq!(updated_content.pinned, false);

        let updated_pinned = update(&pool, entry.id, None, Some(true))
            .await
            .expect("Failed to update entry pinned status");
        assert_eq!(updated_pinned.content, "Updated content");
        assert_eq!(updated_pinned.pinned, true);

        let fully_updated = update(&pool, entry.id, Some("Both updated"), Some(false))
            .await
            .expect("Failed to update entry completely");
        assert_eq!(fully_updated.content, "Both updated");
        assert_eq!(fully_updated.pinned, false);

        let non_existent = update(&pool, 999, Some("Should fail"), None).await;
        assert!(non_existent.is_err());

        let no_fields = update(&pool, entry.id, None, None).await;
        assert!(no_fields.is_err());
        pool.close().await;
    });
}

#[test]
fn test_delete_entry() {
    run(async {
        let pool = create_test_pool().await;
        let entry = create(&pool, "To be deleted", false).await;

        assert!(entry_exists(&pool, entry.id).await);

        let delete_result = delete(&pool, entry.id).await;
        assert!(delete_result.is_ok());

        assert!(!entry_exists(&pool, entry.id).await);

        let non_existent = delete(&pool, 999).await;
        assert!(non_existent.is_err());
        pool.close().await;
    });
}

#[test]
fn listing_pages_do_not_overlap_in_sqlite() {
    run(async {
        let pool = create_test_pool().await;
        for i in 0..5 {
            create(&pool, &format!("entry {}", i), i % 2 == 0).await;
        }
        let first = list(&pool, Some(1), Some(2), Some(SortOrder::ASC), None, None).await;
        let second = list(&pool, Some(2), Some(2), Some(SortOrder::ASC), None, None).await;
        let third = list(&pool, Some(3), Some(2), Some(SortOrder::ASC), None, None).await;
        let ids: Vec<i64> = first.iter().chain(&second).chain(&third).map(|e| e.id).collect();
        assert_eq!(ids, vec![1, 2, 3, 4, 5]);

        let newest = list(&pool, None, None, None, None, None).await;
        assert_eq!(newest.iter().map(|e| e.id).collect::<Vec<_>>(), vec![5, 4, 3, 2, 1]);

        let unpinned_with_1 = list(&pool, None, None, None, Some(false), Some("1")).await;
        assert_eq!(unpinned_with_1.len(), 1);
        assert_eq!(unpinned_with_1[0].content, "entry 1");
        pool.close().await;
    });
}
