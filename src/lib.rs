//! File-system operations behind a desktop front-end: directory listing,
//! recursive copy of extension bundles, deletion and extension removal.
//!
//! The library holds the decisions and the text that the operations produce;
//! the caller performs the file-system calls and hands their outcomes in.

pub mod copy;
pub mod entry;
pub mod error;
pub mod extension;
pub mod file_ops;
pub mod listing;
pub mod paths;

pub use copy::{copy_report, copy_step, plan_copy, CopyStep, WalkEntry};
pub use entry::{DirChild, FileInfo, Post};
pub use extension::{
    copy_destination, copy_reply, extensions_root, removal_check, removal_reply, CopyOutcome,
};
pub use file_ops::{delete_action, greet, write_status, Removal};
pub use error::{ErrorKind, OpError};
pub use listing::{entries_json, json_record, list_entries, listing_reply, missing_path_message};
pub use paths::{base_name, is_separator, join, relative_part};
