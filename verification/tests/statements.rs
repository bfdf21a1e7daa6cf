use diary_core::query::{
    all_entries_statement, create_entry_statement, delete_entry_statement,
    entry_exists_statement, read_entries_statement, read_entry_statement,
    update_entry_statement, DbError, Dialect, SortOrder, SqlValue,
};

fn ints(params: &[SqlValue]) -> Vec<String> {
    params
        .iter()
        .map(|p| match p {
            SqlValue::Int(i) => format!("int {}", i),
            SqlValue::Text(s) => format!("text {}", s),
            SqlValue::Bool(b) => format!("bool {}", b),
        })
        .collect()
}

#[test]
fn default_listing_is_first_ten_newest_first() {
    let st = read_entries_statement(Dialect::Sqlite, None, None, None, None, None).unwrap();
    assert_eq!(
        st.sql,
        "SELECT * FROM entries ORDER BY created_at DESC, id DESC LIMIT $1 OFFSET $2;"
    );
    assert_eq!(ints(&st.params), vec!["int 10", "int 0"]);
}

#[test]
fn listing_with_both_filters_numbers_placeholders_in_order() {
    let st = read_entries_statement(
        Dialect::Sqlite,
        Some(3),
        Some(7),
        Some(SortOrder::ASC),
        Some(true),
        Some("tea"),
    )
    .unwrap();
    assert_eq!(
        st.sql,
        "SELECT * FROM entries WHERE pinned = $1 AND content LIKE $2 ORDER BY created_at ASC, id ASC LIMIT $3 OFFSET $4;"
    );
    assert_eq!(ints(&st.params), vec!["bool true", "text %tea%", "int 7", "int 14"]);
}

#[test]
fn postgres_listing_matches_content_case_insensitively() {
    let st = read_entries_statement(Dialect::Postgres, None, None, None, None, Some("x")).unwrap();
    assert_eq!(
        st.sql,
        "SELECT * FROM entries WHERE content ILIKE $1 ORDER BY created_at DESC, id DESC LIMIT $2 OFFSET $3;"
    );
    assert_eq!(ints(&st.params), vec!["text %x%", "int 10", "int 0"]);
}

#[test]
fn listing_by_pin_only() {
    let st = read_entries_statement(Dialect::Sqlite, Some(2), None, None, Some(false), None).unwrap();
    assert_eq!(
        st.sql,
        "SELECT * FROM entries WHERE pinned = $1 ORDER BY created_at DESC, id DESC LIMIT $2 OFFSET $3;"
    );
    assert_eq!(ints(&st.params), vec!["bool false", "int 10", "int 10"]);
}

#[test]
fn listing_refuses_pages_below_one() {
    for (page, per_page) in [(Some(0), None), (None, Some(0)), (Some(-4), Some(5)), (Some(1), Some(-1))] {
        let r = read_entries_statement(Dialect::Sqlite, page, per_page, None, None, None);
        assert_eq!(r.unwrap_err(), DbError::PageNotPositive);
    }
    assert_eq!(DbError::PageNotPositive.message(), "Page and per_page must be positive");
}

#[test]
fn listing_offset_of_large_pages() {
    let st = read_entries_statement(Dialect::Sqlite, Some(1_000_001), Some(1_000_000), None, None, None)
        .unwrap();
    assert_eq!(ints(&st.params), vec!["int 1000000", "int 1000000000000"]);
}

#[test]
fn single_entry_statements() {
    let st = create_entry_statement("hello", true);
    assert_eq!(st.sql, "INSERT INTO entries (content, pinned) VALUES($1, $2) RETURNING *;");
    assert_eq!(ints(&st.params), vec!["text hello", "bool true"]);

    let st = entry_exists_statement(42);
    assert_eq!(st.sql, "SELECT 1 FROM entries WHERE id = $1;");
    assert_eq!(ints(&st.params), vec!["int 42"]);

    let st = read_entry_statement(-3);
    assert_eq!(st.sql, "SELECT * FROM entries WHERE id = $1;");
    assert_eq!(ints(&st.params), vec!["int -3"]);

    let st = all_entries_statement();
    assert_eq!(st.sql, "SELECT * FROM entries ORDER BY created_at ASC, id ASC;");
    assert!(st.params.is_empty());
}

#[test]
fn update_statements_set_given_fields() {
    let st = update_entry_statement(5, Some("new"), None, true).unwrap();
    assert_eq!(st.sql, "UPDATE entries SET content = $2 WHERE id = $1 RETURNING *;");
    assert_eq!(ints(&st.params), vec!["int 5", "text new"]);

    let st = update_entry_statement(5, None, Some(true), true).unwrap();
    assert_eq!(st.sql, "UPDATE entries SET pinned = $2 WHERE id = $1 RETURNING *;");
    assert_eq!(ints(&st.params), vec!["int 5", "bool true"]);

    let st = update_entry_statement(5, Some("both"), Some(false), true).unwrap();
    assert_eq!(
        st.sql,
        "UPDATE entries SET content = $2, pinned = $3 WHERE id = $1 RETURNING *;"
    );
    assert_eq!(ints(&st.params), vec!["int 5", "text both", "bool false"]);
}

#[test]
fn update_refusals() {
    let missing = update_entry_statement(999, None, None, false).unwrap_err();
    assert_eq!(missing, DbError::EntryNotFound(999));
    assert_eq!(missing.message(), "Entry with id: 999 doesn't exist");
    let nothing = update_entry_statement(1, None, None, true).unwrap_err();
    assert_eq!(nothing, DbError::NothingToUpdate);
    assert_eq!(nothing.message(), "At least one field must be provided for update");
    assert_eq!(
        DbError::EntryNotFound(-12).message(),
        "Entry with id: -12 doesn't exist"
    );
    assert_eq!(
        DbError::EntryNotFound(i64::MIN).message(),
        "Entry with id: -9223372036854775808 doesn't exist"
    );
}

#[test]
fn delete_statement_and_refusal() {
    let st = delete_entry_statement(8, true).unwrap();
    assert_eq!(st.sql, "DELETE FROM entries WHERE id = $1");
    assert_eq!(ints(&st.params), vec!["int 8"]);
    assert_eq!(delete_entry_statement(8, false).unwrap_err(), DbError::EntryNotFound(8));
}

/// The numbers of the `$n` placeholders of a statement's text, in order.
fn placeholder_numbers(sql: &str) -> Vec<usize> {
    let chars: Vec<char> = sql.chars().collect();
    let mut out = Vec::new();
    let mut i = 0;
    while i < chars.len() {
        if chars[i] == '$' {
            let mut j = i + 1;
            while j < chars.len() && chars[j].is_ascii_digit() {
                j += 1;
            }
            if j > i + 1 {
                out.push(chars[i + 1..j].iter().collect::<String>().parse().unwrap());
            }
            i = j;
        } else {
            i += 1;
        }
    }
    out
}

fn each_placeholder_once(sql: &str, n: usize) -> bool {
    let mut ps = placeholder_numbers(sql);
    ps.sort();
    ps == (1..=n).collect::<Vec<_>>()
}

#[test]
fn every_statement_binds_each_placeholder_once() {
    for d in [Dialect::Sqlite, Dialect::Postgres] {
        for pinned in [None, Some(true)] {
            for sub in [None, Some("q")] {
                let st = read_entries_statement(d, Some(2), Some(3), None, pinned, sub).unwrap();
                assert!(each_placeholder_once(&st.sql, st.params.len()), "{}", st.sql);
                assert_eq!(placeholder_numbers(&st.sql), (1..=st.params.len()).collect::<Vec<_>>());
            }
        }
    }
    for (c, p) in [(Some("c"), None), (None, Some(true)), (Some("c"), Some(false))] {
        let st = update_entry_statement(1, c, p, true).unwrap();
        assert!(each_placeholder_once(&st.sql, st.params.len()), "{}", st.sql);
    }
    for st in [
        create_entry_statement("x", false),
        entry_exists_statement(1),
        read_entry_statement(1),
        delete_entry_statement(1, true).unwrap(),
        all_entries_statement(),
        diary_core::backend::database_exists_statement("d"),
    ] {
        assert!(each_placeholder_once(&st.sql, st.params.len()), "{}", st.sql);
    }
}

#[test]
fn defaults_are_page_one_of_ten_newest_first() {
    for d in [Dialect::Sqlite, Dialect::Postgres] {
        let a = read_entries_statement(d, None, None, None, Some(false), Some("s")).unwrap();
        let b = read_entries_statement(d, Some(1), Some(10), Some(SortOrder::DESC), Some(false), Some("s"))
            .unwrap();
        assert_eq!(a.sql, b.sql);
        assert_eq!(ints(&a.params), ints(&b.params));
    }
}

#[test]
fn consecutive_pages_tile() {
    let offset = |page: i64| {
        let st = read_entries_statement(Dialect::Sqlite, Some(page), Some(4), None, None, None).unwrap();
        match st.params[st.params.len() - 1] {
            SqlValue::Int(o) => o,
            _ => panic!("offset is an integer"),
        }
    };
    assert_eq!(offset(1), 0);
    for p in 1..20 {
        assert_eq!(offset(p + 1), offset(p) + 4);
    }
}
