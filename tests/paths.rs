use aiop_files::{base_name, is_separator, join, relative_part};

#[test]
fn join_inserts_one_separator() {
    assert_eq!(join("a", "b"), "a/b");
    assert_eq!(join("a/", "b"), "a/b");
    assert_eq!(join("C:\\data\\", "b"), "C:\\data\\b");
    assert_eq!(join("", "b"), "b");
    assert_eq!(join("a", ""), "a");
}

#[test]
fn separators() {
    assert!(is_separator('/'));
    assert!(is_separator('\\'));
    assert!(!is_separator('a'));
}

#[test]
fn base_name_takes_last_name() {
    assert_eq!(base_name("/x/ext"), Some("ext".to_string()));
    assert_eq!(base_name("/x/ext//"), Some("ext".to_string()));
    assert_eq!(base_name("ext"), Some("ext".to_string()));
    assert_eq!(base_name("C:\\x\\ext"), Some("ext".to_string()));
}

#[test]
fn base_name_absent() {
    assert_eq!(base_name(""), None);
    assert_eq!(base_name("/"), None);
    assert_eq!(base_name("a/.."), None);
    assert_eq!(base_name("."), None);
}

#[test]
fn relative_part_below_root() {
    assert_eq!(relative_part("/s", "/s/a.txt"), Some("a.txt".to_string()));
    assert_eq!(relative_part("/s/", "/s/sub/b.txt"), Some("sub/b.txt".to_string()));
    assert_eq!(relative_part("/s", "/s"), Some(String::new()));
    assert_eq!(relative_part("", "a/b"), Some("a/b".to_string()));
}

#[test]
fn relative_part_outside_root() {
    assert_eq!(relative_part("/s", "/sx/a"), None);
    assert_eq!(relative_part("/s", "/t/a"), None);
    assert_eq!(relative_part("/s/a", "/s"), None);
}
