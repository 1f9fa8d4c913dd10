use vstd::prelude::*;
use crate::error::{ErrorKind, OpError};

verus! {

/// What deleting a path does.
#[derive(Clone, Copy, Debug, PartialEq, Eq, Structural)]
pub enum Removal {
    /// Remove the file.
    File,
    /// Remove the directory and everything below it.
    Tree,
}

/// What deleting a path does, from whether it is a file and whether it is a
/// directory: a file is removed alone, a directory with all it holds, and a
/// path that is neither is not found.
pub fn delete_action(is_file: bool, is_dir: bool) -> (r: Result<Removal, OpError>)
    ensures
        is_file ==> r == Ok::<Removal, OpError>(Removal::File),
        !is_file && is_dir ==> r == Ok::<Removal, OpError>(Removal::Tree),
        !is_file && !is_dir ==> (r matches Err(e) && e.kind == ErrorKind::NotFound
            && e.message@ == "Path does not exist"@),
{
    if is_file {
        Ok(Removal::File)
    } else if is_dir {
        Ok(Removal::Tree)
    } else {
        Err(OpError { kind: ErrorKind::NotFound, message: "Path does not exist".to_string() })
    }
}

/// The status text of a file write: `OK` where it succeeded, else `ERROR`.
pub fn write_status(written: bool) -> (r: String)
    ensures
        written ==> r@ == "OK"@,
        !written ==> r@ == "ERROR"@,
{
    if written {
        "OK".to_string()
    } else {
        "ERROR".to_string()
    }
}

/// The greeting for `name`.
pub fn greet(name: &str) -> (r: String)
    ensures
        r@ == "Hello, "@ + name@ + "! You've been greeted from Rust!"@,
{
    proof {
        reveal_strlit("Hello, ");
        reveal_strlit("! You've been greeted from Rust!");
    }
    let mut r = "Hello, ".to_string();
    r.append(name);
    r.append("! You've been greeted from Rust!");
    r
}

} // verus!
