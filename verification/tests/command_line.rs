use diary_core::cli::{request_from_args, Args, CliError, Mode, Request};
use diary_core::query::SortOrder;

fn args(mode: Mode) -> Args {
    Args {
        mode,
        id: None,
        content: None,
        pinned: None,
        config: "config.ini".to_string(),
        per_page: None,
        page: None,
        sort: None,
        substr: None,
        path: None,
    }
}

#[test]
fn create_needs_content_and_is_unpinned_by_default() {
    let e = request_from_args(args(Mode::Create)).unwrap_err();
    assert_eq!(e, CliError::MissingContent);
    assert_eq!(e.message(), "Content must be provided for this operation");
    let mut a = args(Mode::Create);
    a.content = Some("hi".to_string());
    match request_from_args(a).unwrap() {
        Request::Create { content, pinned } => {
            assert_eq!(content, "hi");
            assert!(!pinned);
        }
        other => panic!("unexpected {:?}", other),
    }
    let mut a = args(Mode::Create);
    a.content = Some("hi".to_string());
    a.pinned = Some(true);
    assert!(matches!(request_from_args(a).unwrap(), Request::Create { pinned: true, .. }));
}

#[test]
fn read_with_id_reads_one_entry() {
    let mut a = args(Mode::Read);
    a.id = Some(4);
    a.page = Some(2);
    assert!(matches!(request_from_args(a).unwrap(), Request::ReadOne { id: 4 }));
}

#[test]
fn read_without_id_lists_a_page() {
    let mut a = args(Mode::Read);
    a.page = Some(2);
    a.per_page = Some(5);
    a.sort = Some(SortOrder::ASC);
    a.pinned = Some(false);
    a.substr = Some("x".to_string());
    match request_from_args(a).unwrap() {
        Request::ReadPage { page, per_page, sort, pinned, substring } => {
            assert_eq!(page, Some(2));
            assert_eq!(per_page, Some(5));
            assert_eq!(sort, Some(SortOrder::ASC));
            assert_eq!(pinned, Some(false));
            assert_eq!(substring.as_deref(), Some("x"));
        }
        other => panic!("unexpected {:?}", other),
    }
}

#[test]
fn delete_and_update_need_an_id() {
    for mode in [Mode::Delete, Mode::Update] {
        let e = request_from_args(args(mode)).unwrap_err();
        assert_eq!(e, CliError::MissingId);
        assert_eq!(e.message(), "Entry ID must be provided for this operation.");
    }
    let mut a = args(Mode::Delete);
    a.id = Some(9);
    assert!(matches!(request_from_args(a).unwrap(), Request::Delete { id: 9 }));
    let mut a = args(Mode::Update);
    a.id = Some(9);
    a.content = Some("c".to_string());
    match request_from_args(a).unwrap() {
        Request::Update { id, content, pinned } => {
            assert_eq!(id, 9);
            assert_eq!(content.as_deref(), Some("c"));
            assert_eq!(pinned, None);
        }
        other => panic!("unexpected {:?}", other),
    }
}

#[test]
fn dump_passes_the_path() {
    let mut a = args(Mode::DumpAll);
    a.path = Some("out.txt".to_string());
    match request_from_args(a).unwrap() {
        Request::DumpAll { path } => assert_eq!(path.as_deref(), Some("out.txt")),
        other => panic!("unexpected {:?}", other),
    }
    assert!(matches!(request_from_args(args(Mode::DumpAll)).unwrap(), Request::DumpAll { path: None }));
}
