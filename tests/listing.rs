use aiop_files::{
    entries_json, json_record, list_entries, listing_reply, missing_path_message, DirChild,
    ErrorKind, FileInfo,
};

fn child(name: &str, is_dir: bool) -> Option<DirChild> {
    Some(DirChild { name: name.to_string(), is_dir })
}

#[test]
fn listing_keeps_readable_children_with_kinds() {
    let children = vec![child("a.txt", false), None, child("sub", true)];
    let files = list_entries("/d", &children);
    assert_eq!(files.len(), 2);
    assert_eq!(files[0].name, "a.txt");
    assert_eq!(files[0].kind, "file");
    assert_eq!(files[0].path, "/d/a.txt");
    assert_eq!(files[1].name, "sub");
    assert_eq!(files[1].kind, "directory");
    assert_eq!(files[1].path, "/d/sub");
}

#[test]
fn listing_of_unreadable_children_is_empty() {
    let files = list_entries("/d", &vec![None, None]);
    assert!(files.is_empty());
}

#[test]
fn json_of_listing() {
    let children = vec![child("a.txt", false), child("sub", true)];
    let files = list_entries("/d", &children);
    assert_eq!(
        entries_json(&files),
        "[{\"name\":\"a.txt\",\"kind\":\"file\",\"path\":\"/d/a.txt\"},\
         {\"name\":\"sub\",\"kind\":\"directory\",\"path\":\"/d/sub\"}]"
    );
    assert_eq!(entries_json(&Vec::new()), "[]");
}

#[test]
fn json_escapes_names() {
    let files = vec![FileInfo {
        name: "a\"b".to_string(),
        kind: "file".to_string(),
        path: "c\\d".to_string(),
    }];
    assert_eq!(
        entries_json(&files),
        "[{\"name\":\"a\\\"b\",\"kind\":\"file\",\"path\":\"c\\\\d\"}]"
    );
}

#[test]
fn json_escapes_control_characters() {
    let files = vec![FileInfo {
        name: "a\nb\u{1}\u{1f}\t".to_string(),
        kind: "file".to_string(),
        path: "\u{8}\u{c}\r/é".to_string(),
    }];
    assert_eq!(
        entries_json(&files),
        "[{\"name\":\"a\\nb\\u0001\\u001f\\t\",\"kind\":\"file\",\"path\":\"\\b\\f\\r/é\"}]"
    );
}

#[test]
fn json_record_frames_fields() {
    assert_eq!(json_record("\"n\"", "\"k\"", "\"p\""), "{\"name\":\"n\",\"kind\":\"k\",\"path\":\"p\"}");
}

#[test]
fn listing_missing_directory_not_found() {
    let r = listing_reply("/nope", false, None);
    let e = r.unwrap_err();
    assert_eq!(e.kind, ErrorKind::NotFound);
    assert_eq!(e.message, "Path does not exist: \"/nope\"");
    assert_eq!(missing_path_message("\"x\""), "Path does not exist: \"x\"");
}

#[test]
fn listing_unopenable_directory_is_empty_array() {
    assert_eq!(listing_reply("/d", true, None).unwrap(), "[]");
}

#[test]
fn listing_reply_lists_children() {
    let children = vec![None, child("x", false)];
    assert_eq!(
        listing_reply("/d/", true, Some(&children)).unwrap(),
        "[{\"name\":\"x\",\"kind\":\"file\",\"path\":\"/d/x\"}]"
    );
}
