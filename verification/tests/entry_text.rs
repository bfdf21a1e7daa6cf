use chrono::{DateTime, Utc};
use diary_core::cli::entries_report;
use diary_core::entry::Entry;

fn at(s: &str) -> i64 {
    DateTime::parse_from_str(s, "%Y-%m-%d %H:%M:%S %z")
        .unwrap()
        .with_timezone(&Utc)
        .timestamp()
}

// The expected texts of the two display tests were written on a machine whose
// local time was two hours east of UTC; the offset is passed explicitly.
const EAST_TWO_HOURS: i32 = 7200;

#[test]
fn test_display_without_updated_at() {
    let entry = Entry {
        id: 1,
        content: "Hello test".to_string(),
        created_at: at("2024-01-01 12:30:00 +0000"),
        updated_at: None,
        pinned: false,
    };

    let actual_output = entry.render(EAST_TWO_HOURS, EAST_TWO_HOURS);
    let expected_output = "Monday, January 1, 2024 2:30 PM\n\
                      -------------------------------------------\n\
                      Hello test\n\
                      -------------------------------------------\n";

    assert_eq!(actual_output, expected_output);
}

#[test]
fn test_display_with_updated_at() {
    let entry = Entry {
        id: 1,
        content: "Hello test".to_string(),
        created_at: at("2024-01-01 12:30:00 +0000"),
        updated_at: Some(at("2025-02-02 12:30:00 +0000")),
        pinned: false,
    };

    let actual_output = entry.render(EAST_TWO_HOURS, EAST_TWO_HOURS);
    let expected_output = "Monday, January 1, 2024 2:30 PM\n\
                      -------------------------------------------\n\
                      Hello test\n\
                      -------------------------------------------\n\
                      Updated at: Sunday, February 2, 2025 2:30 PM\n";

    assert_eq!(actual_output, expected_output);
}

#[test]
fn render_in_utc_and_west_of_it() {
    let entry = Entry {
        id: 2,
        content: "x".to_string(),
        created_at: at("2024-03-05 00:05:00 +0000"),
        updated_at: None,
        pinned: true,
    };
    assert!(entry.render(0, 0).starts_with("Tuesday, March 5, 2024 12:05 AM\n"));
    assert!(entry.render(-3600, 0).starts_with("Monday, March 4, 2024 11:05 PM\n"));
}

#[test]
fn local_display_matches_chrono_local_time() {
    let created = at("2024-01-01 12:30:00 +0000");
    let entry = Entry {
        id: 1,
        content: "Hello test".to_string(),
        created_at: created,
        updated_at: None,
        pinned: false,
    };
    let local = DateTime::from_timestamp(created, 0)
        .unwrap()
        .with_timezone(&chrono::Local)
        .format("%A, %B %-d, %Y %-I:%M %p")
        .to_string();
    assert_eq!(
        entry.to_display_string(),
        format!("{}\n{}\nHello test\n{}\n", local, "-".repeat(43), "-".repeat(43))
    );
}

#[test]
fn report_counts_and_separates_entries() {
    let e = |id: i64, c: &str| Entry {
        id,
        content: c.to_string(),
        created_at: 0,
        updated_at: None,
        pinned: false,
    };
    let entries = vec![e(1, "a"), e(2, "b")];
    let report = entries_report(&entries);
    let expected = format!(
        "\nFound 2 entries.\n\n{}\n\n{}\n",
        entries[0].to_display_string(),
        entries[1].to_display_string()
    );
    assert_eq!(report, expected);
    assert_eq!(entries_report(&Vec::new()), "\nFound 0 entries.\n\n\n");
}

#[test]
fn chrono_range_claimed_by_the_library() {
    assert!(DateTime::from_timestamp(8210266876799, 0).is_some());
    assert!(DateTime::from_timestamp(8210266876800, 0).is_none());
    assert!(DateTime::from_timestamp(-8334601228800, 0).is_some());
    assert!(DateTime::from_timestamp(-8334601228801, 0).is_none());
    for secs in [8210266876799i64, -8334601228800] {
        let entry = Entry {
            id: 1,
            content: "edge".to_string(),
            created_at: secs,
            updated_at: Some(secs),
            pinned: false,
        };
        for offset in [-86399, 0, 86399] {
            let text = entry.render(offset, offset);
            assert!(!text.starts_with('\n'), "{}", text);
            assert!(text.contains("Updated at: ") && !text.contains("Updated at: \n"));
        }
    }
}
