use diary_core::config::{Config, ConfigError, DEFAULT_DB_URL};

#[test]
fn url_is_read_from_the_database_section() {
    let c = Config::from_ini_text("[Database]\nurl = postgres://me@localhost/diary\n").unwrap();
    assert_eq!(c.db_url, "postgres://me@localhost/diary");
}

#[test]
fn first_database_section_and_first_url_win() {
    let text = "[Other]\nurl=a\n[Database]\nname=x\nurl=sqlite:first.db\n[Database]\nurl=sqlite:second.db\n";
    let c = Config::from_ini_text(text).unwrap();
    assert_eq!(c.db_url, "sqlite:first.db");
}

#[test]
fn missing_section_and_missing_url() {
    let e = Config::from_ini_text("[Other]\nurl=sqlite:x.db\n").unwrap_err();
    assert!(matches!(e, ConfigError::MissingSection));
    assert_eq!(e.message(), "Database section not found");
    let e = Config::from_ini_text("url=sqlite:x.db\n").unwrap_err();
    assert!(matches!(e, ConfigError::MissingSection));
    let e = Config::from_ini_text("[Database]\nuser=me\n").unwrap_err();
    assert!(matches!(e, ConfigError::MissingUrl));
    assert_eq!(e.message(), "Database URL not found");
}

#[test]
fn section_names_are_case_sensitive() {
    let e = Config::from_ini_text("[database]\nurl=sqlite:x.db\n").unwrap_err();
    assert!(matches!(e, ConfigError::MissingSection));
}

#[test]
fn syntax_errors_are_reported_with_their_position() {
    let e = Config::from_ini_text("[Database\nurl=x\n").unwrap_err();
    match &e {
        ConfigError::Syntax(s) => {
            assert_eq!(e.message(), format!("{}:{} {}", s.line, s.col, s.msg));
        }
        other => panic!("expected a syntax error, got {:?}", other),
    }
}

#[test]
fn default_url_is_a_sqlite_file() {
    assert!(DEFAULT_DB_URL.starts_with("sqlite:"));
}
