//! Choosing the database behind the diary from its URL, and the statements
//! that prepare a database before entries are stored in it.
use crate::query::{placeholder, push_placeholder, Dialect, ParamView, SqlValue, Statement};
use crate::text::{has_prefix, replace_str, replace_all};
use vstd::prelude::*;

verus! {

/// The kind of database a URL names.
#[derive(Debug, Clone, Copy, PartialEq, Eq, Structural)]
pub enum Backend {
    Sqlite,
    Postgres,
}

/// Why a database cannot be set up from its URL.
#[derive(Debug, Clone, Copy, PartialEq, Eq, Structural)]
pub enum SetupError {
    /// The URL names neither SQLite nor PostgreSQL.
    UnsupportedUrl,
    /// A PostgreSQL URL that names no database.
    MissingDatabaseName,
}

pub open spec fn setup_error_message(e: SetupError) -> Seq<char> {
    match e {
        SetupError::UnsupportedUrl => "Unsupported database URL"@,
        SetupError::MissingDatabaseName => "Database name not specified in URL"@,
    }
}

impl SetupError {
    /// The message this error is reported with.
    pub fn message(&self) -> (r: String)
        ensures
            r@ == setup_error_message(*self),
    {
        match self {
            SetupError::UnsupportedUrl => String::from_str("Unsupported database URL"),
            SetupError::MissingDatabaseName => String::from_str(
                "Database name not specified in URL",
            ),
        }
    }
}

/// The database a URL names: `sqlite:...` is SQLite, `postgres:...` is PostgreSQL.
pub open spec fn backend_of(url: Seq<char>) -> Option<Backend> {
    if "sqlite:"@.is_prefix_of(url) {
        Some(Backend::Sqlite)
    } else if "postgres:"@.is_prefix_of(url) {
        Some(Backend::Postgres)
    } else {
        None
    }
}

impl Backend {
    /// The database a URL names, or `UnsupportedUrl`.
    pub fn from_url(url: &str) -> (r: Result<Backend, SetupError>)
        ensures
            match backend_of(url@) {
                Some(b) => r == Ok::<Backend, SetupError>(b),
                None => r == Err::<Backend, SetupError>(SetupError::UnsupportedUrl),
            },
    {
        if has_prefix(url, "sqlite:") {
            Ok(Backend::Sqlite)
        } else if has_prefix(url, "postgres:") {
            Ok(Backend::Postgres)
        } else {
            Err(SetupError::UnsupportedUrl)
        }
    }

    /// The SQL dialect this database speaks.
    pub fn dialect(&self) -> (r: Dialect)
        ensures
            r == (match *self {
                Backend::Sqlite => Dialect::Sqlite,
                Backend::Postgres => Dialect::Postgres,
            }),
    {
        match self {
            Backend::Sqlite => Dialect::Sqlite,
            Backend::Postgres => Dialect::Postgres,
        }
    }
}

/// What opening a SQLite database takes.
#[derive(Debug, Clone, Copy, PartialEq, Eq, Structural)]
pub enum SqliteOpen {
    /// Create the database file, then create the schema in it.
    CreateWithSchema,
    /// Connect to the database as it is.
    Connect,
}

impl SqliteOpen {
    /// A database that does not exist yet is created with its schema; one
    /// that exists is connected to as it is.
    pub fn for_database(exists: bool) -> (r: SqliteOpen)
        ensures
            r == (if exists {
                SqliteOpen::Connect
            } else {
                SqliteOpen::CreateWithSchema
            }),
    {
        if exists {
            SqliteOpen::Connect
        } else {
            SqliteOpen::CreateWithSchema
        }
    }
}

/// The schema of a SQLite diary: the entries table, and a trigger that
/// stamps `updated_at` whenever an entry changes.
pub const SQLITE_SCHEMA: &'static str = "
          CREATE TABLE IF NOT EXISTS entries (
              id         INTEGER PRIMARY KEY NOT NULL,
              content    TEXT NOT NULL,
              created_at DATETIME NOT NULL DEFAULT (datetime('now')),
              updated_at DATETIME DEFAULT (datetime('now')),
              pinned     BOOLEAN NOT NULL DEFAULT 0
          );

          CREATE TRIGGER IF NOT EXISTS update_entries_updated_at
          AFTER UPDATE ON entries
          FOR EACH ROW
          BEGIN
              UPDATE entries
              SET updated_at = datetime('now')
              WHERE id = OLD.id;
          END;
      ";

/// Runs first on a PostgreSQL diary: timestamps are kept in UTC.
pub const POSTGRES_SET_TIME_ZONE: &'static str = "SET TIME ZONE 'UTC';";

/// Removes an earlier version of the update trigger.
pub const POSTGRES_DROP_TRIGGER: &'static str = "DROP TRIGGER IF EXISTS update_entries_updated_at ON entries;";

/// Removes an earlier version of the trigger's function.
pub const POSTGRES_DROP_FUNCTION: &'static str = "DROP FUNCTION IF EXISTS update_updated_at_column();";

/// The entries table of a PostgreSQL diary.
pub const POSTGRES_CREATE_TABLE: &'static str = "
            CREATE TABLE IF NOT EXISTS entries (
                id         BIGSERIAL PRIMARY KEY,
                content    TEXT NOT NULL,
                created_at TIMESTAMPTZ NOT NULL DEFAULT CURRENT_TIMESTAMP,
                updated_at TIMESTAMPTZ,
                pinned     BOOLEAN NOT NULL DEFAULT FALSE
            );";

/// The function that stamps `updated_at` when a row really changes.
pub const POSTGRES_CREATE_FUNCTION: &'static str = "
            CREATE OR REPLACE FUNCTION update_updated_at_column()
            RETURNS TRIGGER AS $$
            BEGIN
                IF NEW.* IS DISTINCT FROM OLD.* THEN
                    NEW.updated_at = CURRENT_TIMESTAMP;
                END IF;
                RETURN NEW;
            END;
            $$ language 'plpgsql';";

/// The trigger that calls that function before each update of an entry.
pub const POSTGRES_CREATE_TRIGGER: &'static str = "
            CREATE TRIGGER update_entries_updated_at
                BEFORE UPDATE ON entries
                FOR EACH ROW
                EXECUTE FUNCTION update_updated_at_column();";

/// The URL of the server's `postgres` database, made from the diary's URL
/// by writing `postgres` in place of each occurrence of the diary's
/// database name, as `str::replace` does.
pub fn postgres_admin_url(url: &str, database: Option<&str>) -> (r: Result<String, SetupError>)
    ensures
        match database {
            None => r matches Err(e) && e == SetupError::MissingDatabaseName,
            Some(name) => r matches Ok(u) && u@ == replace_all(url@, name@, "postgres"@),
        },
{
    match database {
        None => Err(SetupError::MissingDatabaseName),
        Some(name) => Ok(replace_str(url, name, "postgres")),
    }
}

/// The query that yields a row exactly when the server has the database.
pub open spec fn database_exists_spec(name: Seq<char>) -> (Seq<char>, Seq<ParamView>) {
    ("SELECT TRUE FROM pg_database WHERE datname = "@ + placeholder(1), seq![ParamView::Text(name)])
}

/// The query that finds whether the server has a database of the given name.
pub fn database_exists_statement(name: &str) -> (r: Statement)
    ensures
        r@ == database_exists_spec(name@),
{
    let mut params: Vec<SqlValue> = Vec::new();
    params.push(SqlValue::Text(String::from_str(name)));
    let mut sql = String::from_str("SELECT TRUE FROM pg_database WHERE datname = ");
    push_placeholder(&mut sql, 1);
    let st = Statement { sql, params };
    assert(st@.0 =~= database_exists_spec(name@).0);
    assert(st@.1 =~= database_exists_spec(name@).1);
    st
}

/// The statement that creates a database of the given name, quoted as an identifier.
pub open spec fn create_database_spec(name: Seq<char>) -> (Seq<char>, Seq<ParamView>) {
    ("CREATE DATABASE \""@ + name + "\";"@, Seq::empty())
}

/// The statement that creates the diary's database on the server.
pub fn create_database_statement(name: &str) -> (r: Statement)
    ensures
        r@ == create_database_spec(name@),
{
    let mut sql = String::from_str("CREATE DATABASE \"");
    sql.append(name);
    sql.append("\";");
    let st = Statement { sql, params: Vec::new() };
    assert(st@.1 =~= create_database_spec(name@).1);
    st
}

/// Any URL that starts with `sqlite:` names SQLite and any that starts with
/// `postgres:` names PostgreSQL, whatever follows; a URL that starts with
/// neither names no database.
pub proof fn lemma_url_scheme(rest: Seq<char>, url: Seq<char>)
    ensures
        backend_of("sqlite:"@ + rest) == Some(Backend::Sqlite),
        backend_of("postgres:"@ + rest) == Some(Backend::Postgres),
        (url.len() < 7 || url.take(7) != "sqlite:"@) && (url.len() < 9 || url.take(9)
            != "postgres:"@) ==> backend_of(url) is None,
{
    reveal_strlit("sqlite:");
    reveal_strlit("postgres:");
    assert(("sqlite:"@ + rest).subrange(0, 7) =~= "sqlite:"@);
    assert(("postgres:"@ + rest).subrange(0, 9) =~= "postgres:"@);
    assert(("postgres:"@ + rest).subrange(0, 7)[0] == 'p');
    assert(!"sqlite:"@.is_prefix_of("postgres:"@ + rest));
    if "sqlite:"@.is_prefix_of(url) {
        assert(url.take(7) =~= url.subrange(0, 7));
    }
    if "postgres:"@.is_prefix_of(url) {
        assert(url.take(9) =~= url.subrange(0, 9));
    }
}

} // verus!
