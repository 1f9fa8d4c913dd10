use aiop_files::{
    delete_action, greet, removal_check, removal_reply, write_status, ErrorKind, Post, Removal,
};

#[test]
fn delete_file_or_tree() {
    assert_eq!(delete_action(true, false).unwrap(), Removal::File);
    assert_eq!(delete_action(false, true).unwrap(), Removal::Tree);
}

#[test]
fn delete_missing_path_not_found() {
    let e = delete_action(false, false).unwrap_err();
    assert_eq!(e.kind, ErrorKind::NotFound);
    assert_eq!(e.message(), "Path does not exist");
}

#[test]
fn remove_missing_extension_not_found() {
    let e = removal_check("X", false).unwrap_err();
    assert_eq!(e.kind(), ErrorKind::NotFound);
    assert_eq!(e.message, "Extension folder 'X' does not exist.");
    assert!(removal_check("X", true).is_ok());
}

#[test]
fn remove_extension_rejects_paths() {
    for name in ["", ".", "..", "a/b", "a\\b", "/"] {
        let e = removal_check(name, true).unwrap_err();
        assert_eq!(e.kind, ErrorKind::InvalidPath);
    }
    assert_eq!(
        removal_check("..", true).unwrap_err().message,
        "Invalid extension folder name '..'"
    );
    assert!(removal_check(".x", true).is_ok());
}

#[test]
fn remove_extension_replies() {
    assert_eq!(removal_reply("X", &Ok(())).unwrap(), "Successfully removed extension folder 'X'");
    let e = removal_reply("X", &Err("busy".to_string())).unwrap_err();
    assert_eq!(e.kind, ErrorKind::IoFailure);
    assert_eq!(e.message, "Failed to remove extension folder 'X': busy");
}

#[test]
fn write_status_text() {
    assert_eq!(write_status(true), "OK");
    assert_eq!(write_status(false), "ERROR");
}

#[test]
fn greeting() {
    assert_eq!(greet("Ada"), "Hello, Ada! You've been greeted from Rust!");
}

#[test]
fn post_holds_fields() {
    let p = Post {
        title: "t".to_string(),
        created: "c".to_string(),
        link: "l".to_string(),
        description: "d".to_string(),
        content: "x".to_string(),
        author: "a".to_string(),
    };
    let q = p.clone();
    assert_eq!(q.title, "t");
    assert_eq!(q.author, "a");
}
