use diaspor_vfs::clipboard::{
    build_uri_list, check_paste, copies_into_itself, copy_destination, describe_paste_failure,
    parse_uri_list, path_within, removes_sources, self_copy_check, summarize_paste,
    ClipboardAdapter, ClipboardContent, ClipboardOperation, ClipboardSource, PasteRefusal,
    SelfCopyCheck, UniqueNameSearch,
};

#[test]
fn test_clipboard_copy_and_get() {
    let mut clipboard = ClipboardAdapter::new();
    let paths = vec!["/test/file1.txt".to_string(), "/test/file2.txt".to_string()];
    clipboard.copy_files(ClipboardSource::Native, paths.clone());
    let content = clipboard.get_clipboard().unwrap();
    assert_eq!(content.paths, paths);
    assert_eq!(content.operation, ClipboardOperation::Copy);
}

#[test]
fn test_clipboard_cut() {
    let mut clipboard = ClipboardAdapter::new();
    let paths = vec!["/test/file.txt".to_string()];
    clipboard.cut_files(ClipboardSource::Vfs { source_id: "local".to_string() }, paths.clone());
    let content = clipboard.get_clipboard().unwrap();
    assert!(content.is_cut());
    assert!(content.is_vfs());
}

#[test]
fn test_clipboard_clear() {
    let mut clipboard = ClipboardAdapter::new();
    clipboard.copy_files(ClipboardSource::Native, vec!["/test/file.txt".to_string()]);
    assert!(clipboard.has_files());
    clipboard.clear_clipboard();
    assert!(clipboard.get_clipboard().is_none());
}

#[test]
fn test_file_name_extraction() {
    assert_eq!(ClipboardAdapter::file_name("/path/to/file.txt"), "file.txt");
    assert_eq!(ClipboardAdapter::file_name("file.txt"), "file.txt");
    assert_eq!(ClipboardAdapter::file_name("/path/to/folder"), "folder");
}

#[test]
fn file_name_falls_back_to_unnamed() {
    assert_eq!(ClipboardAdapter::file_name("/"), "unnamed");
}

#[test]
fn native_paths_are_adopted_only_when_present() {
    let mut clipboard = ClipboardAdapter::new();
    assert!(clipboard.adopt_native(vec![]).is_none());
    assert!(clipboard.get_clipboard().is_none());
    let c = clipboard.adopt_native(vec!["/tmp/x".to_string()]).unwrap();
    assert!(!c.is_cut() && !c.is_vfs());
    assert_eq!(clipboard.get_clipboard().unwrap().paths, vec!["/tmp/x".to_string()]);
}

#[test]
fn unique_names_follow_the_finder_pattern() {
    let mut s = UniqueNameSearch::start("/docs", "report.pdf");
    assert_eq!(s.candidate(), "/docs/report.pdf");
    assert!(s.next().is_ok());
    assert_eq!(s.candidate(), "/docs/report copy.pdf");
    assert!(s.next().is_ok());
    assert_eq!(s.candidate(), "/docs/report copy 2.pdf");
    let mut t = UniqueNameSearch::start("/docs", "folder");
    t.next().unwrap();
    assert_eq!(t.candidate(), "/docs/folder copy");
    let mut u = UniqueNameSearch::start("d", "x");
    for _ in 0..1000 {
        assert!(u.next().is_ok());
    }
    assert_eq!(u.candidate(), "d/x copy 1000");
    assert!(u.next().is_err());
}

#[test]
fn self_copies_are_detected() {
    assert_eq!(self_copy_check("/a/b.txt", "/a/b.txt", "/a", false), SelfCopyCheck::UniqueName);
    assert_eq!(self_copy_check("/dir", "/dir/sub/dir", "/dir/sub", true), SelfCopyCheck::IntoItself);
    assert_eq!(self_copy_check("/a", "/a/b.txt", "/a", false), SelfCopyCheck::UniqueNameIfTaken);
    assert_eq!(self_copy_check("/a/x", "/b/x", "/b", true), SelfCopyCheck::Proceed);
    assert!(copies_into_itself("/src/", "src/inner"));
    assert!(!copies_into_itself("/", "/anything"));
    assert!(path_within("a/b", "a"));
    assert!(!path_within("ab", "a"));
}

#[test]
fn copy_destinations() {
    assert_eq!(copy_destination("/x/file.txt", "/dest").unwrap(), "/dest/file.txt");
    assert_eq!(copy_destination("/x/file.txt", "rel").unwrap(), "/rel/file.txt");
    assert_eq!(copy_destination("/x/file.txt", "").unwrap(), "/file.txt");
}

#[test]
fn pastes_are_checked_and_summarized() {
    let content = Some(ClipboardContent::copy(ClipboardSource::Native, vec!["/a".to_string()]));
    assert_eq!(check_paste("  ", &content), Err(PasteRefusal::EmptyDestinationSource));
    assert_eq!(check_paste("local", &None), Err(PasteRefusal::EmptyClipboard));
    let empty = Some(ClipboardContent::copy(ClipboardSource::Native, vec![]));
    assert_eq!(check_paste("local", &empty), Err(PasteRefusal::NoFiles));
    assert_eq!(check_paste("local", &content), Ok(()));
    let r = summarize_paste(
        vec![Ok("/d/a".to_string()), Err("boom".to_string()), Ok("/d/c".to_string())],
        Some("op-1".to_string()),
    );
    assert_eq!(r.files_pasted, 2);
    assert_eq!(r.files_failed, 1);
    assert_eq!(r.pasted_paths, vec!["/d/a".to_string(), "/d/c".to_string()]);
    assert_eq!(r.errors, vec!["boom".to_string()]);
    let cut = ClipboardContent::cut(ClipboardSource::Native, vec!["/a".to_string()]);
    assert!(!removes_sources(&cut, &r));
    let ok = summarize_paste(vec![Ok("/d/a".to_string())], None);
    assert!(removes_sources(&cut, &ok));
}

#[test]
fn paste_failures_are_described() {
    assert_eq!(
        describe_paste_failure("f", "/s/f", "/d/f", "Cannot copy folder into itself"),
        "\"f\": Cannot copy folder into itself"
    );
    assert_eq!(
        describe_paste_failure("f", "/s/f", "/d/f", "boom"),
        "\"f\": Failed to copy \"/s/f\" to \"/d/f\". Error: boom"
    );
    assert!(describe_paste_failure("f", "/s", "/d", "403").contains("Permission denied."));
    assert!(describe_paste_failure("f", "/s", "/d", "invalid key").contains("Invalid destination path."));
}

#[test]
fn uri_lists_round_trip() {
    let text = build_uri_list(&vec!["/tmp/a b.txt".to_string(), "/tmp/c".to_string()]);
    assert_eq!(text, "file://%2Ftmp%2Fa%20b.txt\nfile://%2Ftmp%2Fc");
    let paths = parse_uri_list(&format!("{}\r\n# comment\n", text));
    assert_eq!(paths, vec!["/tmp/a b.txt".to_string(), "/tmp/c".to_string()]);
}

#[test]
fn uri_lists_read_back_to_their_paths() {
    let paths = vec![
        "/tmp/a b.txt".to_string(),
        "/home/ünï/çødé.rs".to_string(),
        "/odd/line\nbreak%20and%".to_string(),
        "".to_string(),
    ];
    assert_eq!(parse_uri_list(&build_uri_list(&paths)), paths);
    assert!(parse_uri_list(&build_uri_list(&Vec::new())).is_empty());
}

#[test]
fn a_clean_cut_deletes_every_source_and_empties_the_clipboard() {
    let mut board = ClipboardAdapter::new();
    let src = ClipboardSource::Vfs { source_id: "s3".to_string() };
    board.cut_files(src.clone(), vec!["/a".to_string(), "/b".to_string()]);
    let content = board.get_clipboard().unwrap();
    let (result, doomed) = board.finish_paste(
        &content,
        vec![Ok("/d/a".to_string()), Ok("/d/b".to_string())],
        "/d",
        "op-1".to_string(),
    );
    assert_eq!(result.files_pasted, 2);
    assert_eq!(result.operation_id.as_deref(), Some("op-1"));
    assert_eq!(doomed, vec!["/a".to_string(), "/b".to_string()]);
    assert!(board.get_clipboard().is_none());

    board.cut_files(src, vec!["/a".to_string(), "/b".to_string()]);
    let content = board.get_clipboard().unwrap();
    let (result, doomed) = board.finish_paste(
        &content,
        vec![Ok("/d/a".to_string()), Err("boom".to_string())],
        "/d",
        "op-2".to_string(),
    );
    assert_eq!(result.files_failed, 1);
    assert_eq!(result.errors, vec!["\"b\": Failed to copy \"/b\" to \"/d/b\". Error: boom".to_string()]);
    assert_eq!(result.pasted_paths, vec!["/d/a".to_string()]);
    assert!(doomed.is_empty());
    assert!(board.get_clipboard().is_some());

    board.copy_files(ClipboardSource::Native, vec!["/x".to_string()]);
    let content = board.get_clipboard().unwrap();
    let (_, doomed) = board.finish_paste(&content, vec![Ok("/d/x".to_string())], "/d", "op-3".to_string());
    assert!(doomed.is_empty());
    assert!(board.get_clipboard().is_some());
}

#[test]
fn uri_list_decodes_escapes_and_keeps_stray_percents() {
    let paths = parse_uri_list("file:///tmp/%41b%2fc\nfile:///tmp/100%\nfile:///tmp/a%zz%4\nfile:///tmp/%C3%A9t%C3%A9\nfile:///tmp/%FF");
    assert_eq!(
        paths,
        vec![
            "/tmp/Ab/c".to_string(),
            "/tmp/100%".to_string(),
            "/tmp/a%zz%4".to_string(),
            "/tmp/été".to_string(),
            "/tmp/%FF".to_string(),
        ]
    );
}
