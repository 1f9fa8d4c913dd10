use aiop_files::{
    copy_destination, copy_reply, copy_report, copy_step, extensions_root, plan_copy, CopyOutcome, CopyStep,
    ErrorKind, WalkEntry,
};

fn describe(steps: &[CopyStep]) -> Vec<String> {
    steps
        .iter()
        .map(|s| match s {
            CopyStep::CopyFile { from, to } => format!("copy {} -> {}", from, to),
            CopyStep::MakeDir { path } => format!("mkdir {}", path),
        })
        .collect()
}

fn sample_tree() -> Vec<WalkEntry> {
    vec![
        WalkEntry::Dir("/src/ext".to_string()),
        WalkEntry::File("/src/ext/a.txt".to_string()),
        WalkEntry::Dir("/src/ext/sub".to_string()),
        WalkEntry::File("/src/ext/sub/b.txt".to_string()),
    ]
}

#[test]
fn copy_tree_into_extensions_folder() {
    let root = extensions_root("/data");
    assert_eq!(root, "/data/AIOP/Extensions");
    let dest = copy_destination(&root, "/src/ext").unwrap();
    assert_eq!(dest, "/data/AIOP/Extensions/ext");
    let steps = plan_copy("/src/ext", &dest, &sample_tree()).unwrap();
    assert_eq!(
        describe(&steps),
        vec![
            "mkdir /data/AIOP/Extensions/ext",
            "copy /src/ext/a.txt -> /data/AIOP/Extensions/ext/a.txt",
            "mkdir /data/AIOP/Extensions/ext/sub",
            "copy /src/ext/sub/b.txt -> /data/AIOP/Extensions/ext/sub/b.txt",
        ]
    );
}

#[test]
fn copy_skips_unreadable_entry() {
    let mut entries = sample_tree();
    entries.insert(2, WalkEntry::Unreadable);
    let with = plan_copy("/src/ext", "/dst", &entries).unwrap();
    let without = plan_copy("/src/ext", "/dst", &sample_tree()).unwrap();
    assert_eq!(describe(&with), describe(&without));
    assert_eq!(with.len(), 4);
}

#[test]
fn copy_ignores_other_entries() {
    let entries = vec![WalkEntry::Other("/src/ext/link".to_string())];
    assert!(plan_copy("/src/ext", "/dst", &entries).unwrap().is_empty());
    assert!(copy_step("/src/ext", "/dst", &entries[0]).unwrap().is_none());
}

#[test]
fn copy_entry_outside_source_fails() {
    let entries = vec![
        WalkEntry::File("/src/ext/a.txt".to_string()),
        WalkEntry::File("/elsewhere/x".to_string()),
    ];
    let e = plan_copy("/src/ext", "/dst", &entries).unwrap_err();
    assert_eq!(e.kind, ErrorKind::IoFailure);
    assert_eq!(e.message, "prefix not found");
    assert!(copy_step("/src/ext", "/dst", &WalkEntry::Dir("/x".to_string())).is_err());
}

#[test]
fn copy_destination_needs_a_name() {
    let e = copy_destination("/root", "/").unwrap_err();
    assert_eq!(e.kind, ErrorKind::InvalidPath);
    assert!(copy_destination("/root", "a/..").is_err());
}

#[test]
fn copy_reply_messages() {
    assert_eq!(
        copy_reply("/data/ext", &CopyOutcome::Done).unwrap(),
        "Successfully copied extension to \"/data/ext\""
    );
    let e = copy_reply("/t", &CopyOutcome::RootFailed("denied".to_string())).unwrap_err();
    assert_eq!(e.kind, ErrorKind::IoFailure);
    assert_eq!(e.message, "Failed to create target folder: denied");
    let e = copy_reply("/t", &CopyOutcome::CopyFailed("disk full".to_string())).unwrap_err();
    assert_eq!(e.message, "Failed to copy directory: disk full");
}

#[test]
fn copy_report_skips_failed_steps() {
    let steps = plan_copy("/src/ext", "/dst", &sample_tree()).unwrap();
    let tried: Vec<(CopyStep, Option<String>)> = steps
        .into_iter()
        .enumerate()
        .map(|(i, s)| (s, if i == 1 { Some("permission denied".to_string()) } else { None }))
        .collect();
    let (outcome, failed) = copy_report(&tried);
    assert!(matches!(outcome, CopyOutcome::Done));
    assert_eq!(describe(&failed), vec!["copy /src/ext/a.txt -> /dst/a.txt"]);
    assert!(copy_reply("/dst", &outcome).is_ok());
}

#[test]
fn copy_report_all_succeeded() {
    let steps = plan_copy("/src/ext", "/dst", &sample_tree()).unwrap();
    let tried: Vec<(CopyStep, Option<String>)> = steps.into_iter().map(|s| (s, None)).collect();
    let (outcome, failed) = copy_report(&tried);
    assert!(matches!(outcome, CopyOutcome::Done));
    assert!(failed.is_empty());
}
