use diary_core::backend::{
    create_database_statement, database_exists_statement, postgres_admin_url, Backend,
    SetupError, SqliteOpen,
};
use diary_core::query::{Dialect, SqlValue};

#[test]
fn url_scheme_chooses_the_database() {
    assert_eq!(Backend::from_url("sqlite:diary.db"), Ok(Backend::Sqlite));
    assert_eq!(Backend::from_url("sqlite::memory:"), Ok(Backend::Sqlite));
    assert_eq!(Backend::from_url("postgres://u:p@localhost/diary"), Ok(Backend::Postgres));
    assert_eq!(Backend::from_url("mysql://localhost/diary"), Err(SetupError::UnsupportedUrl));
    assert_eq!(Backend::from_url("sqlite"), Err(SetupError::UnsupportedUrl));
    assert_eq!(Backend::from_url(""), Err(SetupError::UnsupportedUrl));
    assert_eq!(SetupError::UnsupportedUrl.message(), "Unsupported database URL");
    assert_eq!(Backend::Sqlite.dialect(), Dialect::Sqlite);
    assert_eq!(Backend::Postgres.dialect(), Dialect::Postgres);
}

#[test]
fn admin_url_replaces_the_database_name() {
    assert_eq!(
        postgres_admin_url("postgres://me@host:5432/diary", Some("diary")).unwrap(),
        "postgres://me@host:5432/postgres"
    );
    // Every occurrence is replaced, as `str::replace` does.
    assert_eq!(
        postgres_admin_url("postgres://diary@host/diary", Some("diary")).unwrap(),
        "postgres://postgres@host/postgres"
    );
    assert_eq!(
        postgres_admin_url("postgres://h/aaa", Some("aa")).unwrap(),
        "postgres://h/postgresa"
    );
    assert_eq!(postgres_admin_url("ab", Some("")).unwrap(), "ab".replace("", "postgres"));
    assert_eq!(postgres_admin_url("postgres://h/", None), Err(SetupError::MissingDatabaseName));
    assert_eq!(
        SetupError::MissingDatabaseName.message(),
        "Database name not specified in URL"
    );
}

#[test]
fn admin_url_agrees_with_str_replace() {
    let cases = [
        ("postgres://ümlaut@h/ümlaut", "ümlaut"),
        ("xxxx", "xx"),
        ("postgres://h/d", "zz"),
        ("", "d"),
        ("", ""),
    ];
    for (url, name) in cases {
        assert_eq!(postgres_admin_url(url, Some(name)).unwrap(), url.replace(name, "postgres"));
    }
}

#[test]
fn database_statements() {
    let st = database_exists_statement("diary");
    assert_eq!(st.sql, "SELECT TRUE FROM pg_database WHERE datname = $1");
    assert_eq!(st.params.len(), 1);
    assert!(matches!(&st.params[0], SqlValue::Text(s) if s == "diary"));
    let st = create_database_statement("diary");
    assert_eq!(st.sql, "CREATE DATABASE \"diary\";");
    assert!(st.params.is_empty());
}

#[test]
fn sqlite_is_created_only_when_missing() {
    assert_eq!(SqliteOpen::for_database(false), SqliteOpen::CreateWithSchema);
    assert_eq!(SqliteOpen::for_database(true), SqliteOpen::Connect);
}
