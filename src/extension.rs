use vstd::prelude::*;
use crate::copy::{plan_of, step_of, StepView, WalkEntry};
use crate::error::{ErrorKind, OpError};
use crate::listing::{debug_text, quote_debug};
use crate::paths::{
    base_name, base_of, is_sep, is_separator, join, joined, lemma_joined_twice,
    lemma_relative_of_joined, relative_of, trim_start_seps,
};

verus! {

/// The folder that holds the extensions, below the application-data folder.
pub open spec fn extensions_root_of(data_dir: Seq<char>) -> Seq<char> {
    joined(joined(data_dir, "AIOP"@), "Extensions"@)
}

/// The extensions folder under the application-data folder `data_dir`.
pub fn extensions_root(data_dir: &str) -> (r: String)
    ensures
        r@ == extensions_root_of(data_dir@),
{
    let a = join(data_dir, "AIOP");
    join(a.as_str(), "Extensions")
}

/// Where a copy of the tree at `source` goes under the folder `root`: the
/// folder named as the last name of `source`. Fails where `source` has no such
/// name.
pub fn copy_destination(root: &str, source: &str) -> (r: Result<String, OpError>)
    ensures
        r is Ok <==> base_of(source@) is Some,
        r matches Ok(d) ==> d@ == joined(root@, base_of(source@).unwrap()),
        r matches Err(e) ==> e.kind == ErrorKind::InvalidPath
            && e.message@ == "Source path has no final name"@,
{
    match base_name(source) {
        Some(b) => Ok(join(root, b.as_str())),
        None => Err(
            OpError { kind: ErrorKind::InvalidPath, message: "Source path has no final name".to_string() },
        ),
    }
}

/// Copying a tree that holds the files `a.txt` and `sub/b.txt` into the
/// extensions folder succeeds, and copies each file to the same place below the
/// folder that is named after the source. The tree's walk gives the source,
/// `a.txt`, `sub` and `sub/b.txt`, in this order.
pub proof fn two_file_tree_lands_in_extensions(data_dir: Seq<char>, source: Seq<char>, es: Seq<WalkEntry>)
    requires
        base_of(source) is Some,
        es.len() == 4,
        (es[0] matches WalkEntry::Dir(p) && p@ == source),
        (es[1] matches WalkEntry::File(p) && p@ == joined(source, "a.txt"@)),
        (es[2] matches WalkEntry::Dir(p) && p@ == joined(source, "sub"@)),
        (es[3] matches WalkEntry::File(p) && p@ == joined(joined(source, "sub"@), "b.txt"@)),
    ensures
        ({
            let dest = joined(extensions_root_of(data_dir), base_of(source).unwrap());
            plan_of(source, dest, es) == Some(
                seq![
                    StepView::MakeDir(dest),
                    StepView::CopyFile(joined(source, "a.txt"@), joined(dest, "a.txt"@)),
                    StepView::MakeDir(joined(dest, "sub"@)),
                    StepView::CopyFile(
                        joined(joined(source, "sub"@), "b.txt"@),
                        joined(joined(dest, "sub"@), "b.txt"@),
                    ),
                ],
            )
        }),
{
    reveal_strlit("a.txt");
    reveal_strlit("sub");
    reveal_strlit("b.txt");
    let dest = joined(extensions_root_of(data_dir), base_of(source).unwrap());
    let a = "a.txt"@;
    let sub = "sub"@;
    let b = "b.txt"@;
    let sub_b = sub + seq!['/'] + b;
    assert(sub.last() == 'b');
    assert(sub_b[0] == 's');
    lemma_relative_of_joined(source, a);
    lemma_relative_of_joined(source, sub);
    lemma_joined_twice(source, sub, b);
    lemma_relative_of_joined(source, sub_b);
    lemma_joined_twice(dest, sub, b);
    assert(source.take(source.len() as int) == source);
    assert(source.skip(source.len() as int).len() == 0);
    assert(trim_start_seps(source.skip(source.len() as int)) == source.skip(source.len() as int));
    assert(relative_of(source, source) == Some(Seq::<char>::empty()));
    let e1 = es.drop_last();
    let e2 = e1.drop_last();
    let e3 = e2.drop_last();
    let e4 = e3.drop_last();
    assert(e4.len() == 0);
    assert(e3.last() == es[0] && e2.last() == es[1] && e1.last() == es[2] && es.last() == es[3]);
    assert(joined(dest, Seq::<char>::empty()) == dest);
    assert(step_of(source, dest, es[0]) == Some(Some(StepView::MakeDir(dest))));
    assert(step_of(source, dest, es[1]) == Some(
        Some(StepView::CopyFile(joined(source, a), joined(dest, a))),
    ));
    assert(step_of(source, dest, es[2]) == Some(Some(StepView::MakeDir(joined(dest, sub)))));
    assert(step_of(source, dest, es[3]) == Some(
        Some(StepView::CopyFile(joined(joined(source, sub), b), joined(joined(dest, sub), b))),
    ));
    let s0 = Seq::<StepView>::empty().push(StepView::MakeDir(dest));
    let s1 = s0.push(StepView::CopyFile(joined(source, a), joined(dest, a)));
    let s2 = s1.push(StepView::MakeDir(joined(dest, sub)));
    let s3 = s2.push(
        StepView::CopyFile(joined(joined(source, sub), b), joined(joined(dest, sub), b)),
    );
    assert(plan_of(source, dest, e4) == Some(Seq::<StepView>::empty()));
    assert(plan_of(source, dest, e3) == Some(s0));
    assert(plan_of(source, dest, e2) == Some(s1));
    assert(plan_of(source, dest, e1) == Some(s2));
    assert(plan_of(source, dest, es) == Some(s3));
    assert(s3 =~= seq![
        StepView::MakeDir(dest),
        StepView::CopyFile(joined(source, a), joined(dest, a)),
        StepView::MakeDir(joined(dest, sub)),
        StepView::CopyFile(joined(joined(source, sub), b), joined(joined(dest, sub), b)),
    ]);
}

/// How an extension copy went.
#[derive(Clone, Debug)]
pub enum CopyOutcome {
    /// Every planned step was tried; entries that could not be read or copied
    /// were skipped.
    Done,
    /// The extensions folder could not be created; the error's text.
    RootFailed(String),
    /// Copying failed; the error's text.
    CopyFailed(String),
}

/// The reply to an extension copy whose destination is `target`.
pub fn copy_reply(target: &str, outcome: &CopyOutcome) -> (r: Result<String, OpError>)
    ensures
        outcome is Done ==> (r matches Ok(m)
            && m@ == "Successfully copied extension to "@ + debug_text(target@)),
        outcome matches CopyOutcome::RootFailed(d) ==> (r matches Err(e)
            && e.kind == ErrorKind::IoFailure
            && e.message@ == "Failed to create target folder: "@ + d@),
        outcome matches CopyOutcome::CopyFailed(d) ==> (r matches Err(e)
            && e.kind == ErrorKind::IoFailure
            && e.message@ == "Failed to copy directory: "@ + d@),
{
    match outcome {
        CopyOutcome::Done => {
            proof {
                reveal_strlit("Successfully copied extension to ");
            }
            let q = quote_debug(target);
            let mut m = "Successfully copied extension to ".to_string();
            m.append(q.as_str());
            Ok(m)
        },
        CopyOutcome::RootFailed(d) => {
            proof {
                reveal_strlit("Failed to create target folder: ");
            }
            let mut m = "Failed to create target folder: ".to_string();
            m.append(d.as_str());
            Err(OpError { kind: ErrorKind::IoFailure, message: m })
        },
        CopyOutcome::CopyFailed(d) => {
            proof {
                reveal_strlit("Failed to copy directory: ");
            }
            let mut m = "Failed to copy directory: ".to_string();
            m.append(d.as_str());
            Err(OpError { kind: ErrorKind::IoFailure, message: m })
        },
    }
}

/// `prefix`, the name in single quotes, then `suffix`.
pub open spec fn quoted_name_text(prefix: Seq<char>, name: Seq<char>, suffix: Seq<char>) -> Seq<char> {
    prefix + "'"@ + name + "'"@ + suffix
}

fn quoted_name_message(prefix: &str, name: &str, suffix: &str) -> (r: String)
    ensures
        r@ == quoted_name_text(prefix@, name@, suffix@),
{
    proof {
        reveal_strlit("'");
    }
    let mut m = prefix.to_string();
    m.append("'");
    m.append(name);
    m.append("'");
    m.append(suffix);
    m
}

/// A single plain folder name: not empty, not `.` or `..`, and without a
/// separator.
pub open spec fn is_plain_name(name: Seq<char>) -> bool {
    &&& name.len() > 0
    &&& name != seq!['.']
    &&& name != seq!['.', '.']
    &&& forall|k: int| 0 <= k < name.len() ==> !is_sep(#[trigger] name[k])
}

fn plain_name(name: &str) -> (r: bool)
    ensures
        r == is_plain_name(name@),
{
    let n = name.unicode_len();
    if n == 0 {
        return false;
    }
    if n == 1 && name.get_char(0) == '.' {
        assert(name@ == seq!['.']);
        return false;
    }
    if n == 2 && name.get_char(0) == '.' && name.get_char(1) == '.' {
        assert(name@ == seq!['.', '.']);
        return false;
    }
    let mut i: usize = 0;
    while i < n
        invariant
            i <= n == name@.len(),
            forall|k: int| 0 <= k < i ==> !is_sep(#[trigger] name@[k]),
        decreases n - i,
    {
        if is_separator(name.get_char(i)) {
            return false;
        }
        i = i + 1;
    }
    assert(name@ != seq!['.']) by {
        if n == 1 {
            assert(name@[0] != seq!['.'][0]);
        }
    }
    assert(name@ != seq!['.', '.']) by {
        if n == 2 {
            if name@[0] != '.' {
                assert(name@[0] != seq!['.', '.'][0]);
            } else {
                assert(name@[1] != seq!['.', '.'][1]);
            }
        }
    }
    true
}

/// Whether the extension folder `name`, which `exists` says is present or not,
/// may be removed: `name` must be a plain folder name, and the folder must
/// exist.
pub fn removal_check(name: &str, exists: bool) -> (r: Result<(), OpError>)
    ensures
        r is Ok <==> is_plain_name(name@) && exists,
        !is_plain_name(name@) ==> (r matches Err(e) && e.kind == ErrorKind::InvalidPath
            && e.message@ == quoted_name_text("Invalid extension folder name "@, name@, ""@)),
        is_plain_name(name@) && !exists ==> (r matches Err(e) && e.kind == ErrorKind::NotFound
            && e.message@ == quoted_name_text("Extension folder "@, name@, " does not exist."@)),
{
    if !plain_name(name) {
        Err(
            OpError {
                kind: ErrorKind::InvalidPath,
                message: quoted_name_message("Invalid extension folder name ", name, ""),
            },
        )
    } else if exists {
        Ok(())
    } else {
        Err(
            OpError {
                kind: ErrorKind::NotFound,
                message: quoted_name_message("Extension folder ", name, " does not exist."),
            },
        )
    }
}

/// The reply once removal of the extension folder `name` was attempted:
/// `outcome` holds the error's text where it failed.
pub fn removal_reply(name: &str, outcome: &Result<(), String>) -> (r: Result<String, OpError>)
    ensures
        outcome is Ok ==> (r matches Ok(m)
            && m@ == quoted_name_text("Successfully removed extension folder "@, name@, ""@)),
        outcome matches Err(d) ==> (r matches Err(e) && e.kind == ErrorKind::IoFailure
            && e.message@ == quoted_name_text("Failed to remove extension folder "@, name@, ": "@ + d@)),
{
    match outcome {
        Ok(()) => Ok(quoted_name_message("Successfully removed extension folder ", name, "")),
        Err(d) => {
            proof {
                reveal_strlit(": ");
            }
            let mut tail = ": ".to_string();
            tail.append(d.as_str());
            Err(
                OpError {
                    kind: ErrorKind::IoFailure,
                    message: quoted_name_message("Failed to remove extension folder ", name, tail.as_str()),
                },
            )
        },
    }
}

} // verus!
