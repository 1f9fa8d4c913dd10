use vstd::prelude::*;
use crate::error::{ErrorKind, OpError};
use crate::extension::CopyOutcome;
use crate::paths::{join, joined, relative_of, relative_part};

verus! {

/// One item that walking a source tree produced.
#[derive(Clone, Debug)]
pub enum WalkEntry {
    /// A regular file, by its path.
    File(String),
    /// A directory, by its path.
    Dir(String),
    /// Neither a file nor a directory (a dangling link), by its path.
    Other(String),
    /// An item that the walk could not read; it is skipped.
    Unreadable,
}

/// One file-system action of a tree copy.
#[derive(Clone, Debug)]
pub enum CopyStep {
    /// Copy the file `from` to `to`, overwriting it.
    CopyFile { from: String, to: String },
    /// Create the directory and its missing ancestors.
    MakeDir { path: String },
}

/// The abstract value of a `CopyStep`.
pub enum StepView {
    CopyFile(Seq<char>, Seq<char>),
    MakeDir(Seq<char>),
}

impl View for CopyStep {
    type V = StepView;

    open spec fn view(&self) -> StepView {
        match self {
            CopyStep::CopyFile { from, to } => StepView::CopyFile(from@, to@),
            CopyStep::MakeDir { path } => StepView::MakeDir(path@),
        }
    }
}

impl CopyStep {
    /// A copy of the step.
    pub fn duplicate(&self) -> (r: CopyStep)
        ensures
            r@ == self@,
    {
        match self {
            CopyStep::CopyFile { from, to } => CopyStep::CopyFile { from: from.clone(), to: to.clone() },
            CopyStep::MakeDir { path } => CopyStep::MakeDir { path: path.clone() },
        }
    }
}

pub open spec fn step_views(s: Seq<CopyStep>) -> Seq<StepView> {
    s.map_values(|c: CopyStep| c@)
}

/// The step for one walk entry when the tree at `source` is copied to
/// `target`: `Some(None)` where the entry needs no action, `None` where the
/// entry does not lie below `source`.
pub open spec fn step_of(source: Seq<char>, target: Seq<char>, e: WalkEntry) -> Option<Option<StepView>> {
    match e {
        WalkEntry::Unreadable => Some(None),
        WalkEntry::File(p) => match relative_of(source, p@) {
            Some(rel) => Some(Some(StepView::CopyFile(p@, joined(target, rel)))),
            None => None,
        },
        WalkEntry::Dir(p) => match relative_of(source, p@) {
            Some(rel) => Some(Some(StepView::MakeDir(joined(target, rel)))),
            None => None,
        },
        WalkEntry::Other(p) => match relative_of(source, p@) {
            Some(rel) => Some(None),
            None => None,
        },
    }
}

/// The steps that copy the walked tree at `source` to `target`, in walk
/// order; none if some readable entry does not lie below `source`.
pub open spec fn plan_of(source: Seq<char>, target: Seq<char>, es: Seq<WalkEntry>) -> Option<Seq<StepView>>
    decreases es.len(),
{
    if es.len() == 0 {
        Some(Seq::empty())
    } else {
        match plan_of(source, target, es.drop_last()) {
            None => None,
            Some(p) => match step_of(source, target, es.last()) {
                None => None,
                Some(None) => Some(p),
                Some(Some(s)) => Some(p.push(s)),
            },
        }
    }
}

fn outside_source() -> (r: OpError)
    ensures
        r.kind == ErrorKind::IoFailure,
        r.message@ == "prefix not found"@,
{
    OpError { kind: ErrorKind::IoFailure, message: "prefix not found".to_string() }
}

/// The step for one walk entry, as `step_of` gives it.
pub fn copy_step(source: &str, target: &str, e: &WalkEntry) -> (r: Result<Option<CopyStep>, OpError>)
    ensures
        r is Err <==> step_of(source@, target@, *e) is None,
        r matches Ok(Some(s)) ==> step_of(source@, target@, *e) == Some(Some(s@)),
        r matches Ok(None) ==> step_of(source@, target@, *e) == Some(None::<StepView>),
        r matches Err(err) ==> err.kind == ErrorKind::IoFailure && err.message@ == "prefix not found"@,
{
    match e {
        WalkEntry::Unreadable => Ok(None),
        WalkEntry::File(p) => match relative_part(source, p.as_str()) {
            Some(rel) => Ok(
                Some(CopyStep::CopyFile { from: p.clone(), to: join(target, rel.as_str()) }),
            ),
            None => Err(outside_source()),
        },
        WalkEntry::Dir(p) => match relative_part(source, p.as_str()) {
            Some(rel) => Ok(Some(CopyStep::MakeDir { path: join(target, rel.as_str()) })),
            None => Err(outside_source()),
        },
        WalkEntry::Other(p) => match relative_part(source, p.as_str()) {
            Some(_) => Ok(None),
            None => Err(outside_source()),
        },
    }
}

/// The steps that copy the walked tree at `source` to `target`, as `plan_of`
/// gives them. Unreadable entries are skipped and do not fail the copy.
pub fn plan_copy(source: &str, target: &str, entries: &Vec<WalkEntry>) -> (r: Result<Vec<CopyStep>, OpError>)
    ensures
        r is Err <==> plan_of(source@, target@, entries@) is None,
        r matches Ok(steps) ==> plan_of(source@, target@, entries@) == Some(step_views(steps@)),
        r matches Err(err) ==> err.kind == ErrorKind::IoFailure && err.message@ == "prefix not found"@,
{
    let mut steps: Vec<CopyStep> = Vec::new();
    let mut i: usize = 0;
    while i < entries.len()
        invariant
            i <= entries@.len(),
            plan_of(source@, target@, entries@.take(i as int)) == Some(step_views(steps@)),
        decreases entries@.len() - i,
    {
        let ghost prev = entries@.take(i as int);
        let ghost next = entries@.take(i + 1);
        assert(next.drop_last() == prev);
        assert(next.last() == entries@[i as int]);
        match copy_step(source, target, &entries[i]) {
            Err(err) => {
                proof {
                    lemma_plan_fails_on(source@, target@, entries@, i + 1);
                }
                return Err(err);
            },
            Ok(None) => {},
            Ok(Some(s)) => {
                let ghost old_steps = steps@;
                steps.push(s);
                assert(step_views(steps@) =~= step_views(old_steps).push(s@));
            },
        }
        i = i + 1;
    }
    assert(entries@.take(i as int) == entries@);
    Ok(steps)
}

/// Once a prefix of the entries has no plan, the whole has none.
proof fn lemma_plan_fails_on(source: Seq<char>, target: Seq<char>, es: Seq<WalkEntry>, n: int)
    requires
        0 <= n <= es.len(),
        plan_of(source, target, es.take(n)) is None,
    ensures
        plan_of(source, target, es) is None,
    decreases es.len() - n,
{
    if n < es.len() {
        assert(es.take(n + 1).drop_last() == es.take(n));
        lemma_plan_fails_on(source, target, es, n + 1);
    } else {
        assert(es.take(n) == es);
    }
}

/// A walk item that could not be read changes nothing in a copy: inserting one
/// anywhere among the entries leaves the planned steps, and their success, as
/// they were.
pub proof fn unreadable_entry_is_skipped(source: Seq<char>, target: Seq<char>, es: Seq<WalkEntry>, i: int)
    requires
        0 <= i <= es.len(),
    ensures
        plan_of(source, target, es.insert(i, WalkEntry::Unreadable)) == plan_of(source, target, es),
    decreases es.len(),
{
    let ins = es.insert(i, WalkEntry::Unreadable);
    if i == es.len() {
        assert(ins.drop_last() == es);
    } else {
        assert(ins.drop_last() == es.drop_last().insert(i, WalkEntry::Unreadable));
        assert(ins.last() == es.last());
        unreadable_entry_is_skipped(source, target, es.drop_last(), i);
    }
}

/// The steps that failed, in the order they were tried, from each tried step
/// with the error's text where it failed.
pub open spec fn failed_steps(tried: Seq<(CopyStep, Option<String>)>) -> Seq<StepView>
    decreases tried.len(),
{
    if tried.len() == 0 {
        Seq::empty()
    } else if tried.last().1 is Some {
        failed_steps(tried.drop_last()).push(tried.last().0@)
    } else {
        failed_steps(tried.drop_last())
    }
}

/// The outcome of a tree copy once every planned step was tried, each with
/// `None` where it succeeded, else the error's text. A failed step is skipped:
/// the copy succeeds, and the steps that failed are handed back in order.
pub fn copy_report(tried: &Vec<(CopyStep, Option<String>)>) -> (r: (CopyOutcome, Vec<CopyStep>))
    ensures
        r.0 is Done,
        step_views(r.1@) == failed_steps(tried@),
{
    let mut failed: Vec<CopyStep> = Vec::new();
    let mut i: usize = 0;
    while i < tried.len()
        invariant
            i <= tried@.len(),
            step_views(failed@) == failed_steps(tried@.take(i as int)),
        decreases tried@.len() - i,
    {
        let ghost prev = tried@.take(i as int);
        let ghost next = tried@.take(i + 1);
        assert(next.drop_last() == prev);
        assert(next.last() == tried@[i as int]);
        if tried[i].1.is_some() {
            let ghost before = failed@;
            failed.push(tried[i].0.duplicate());
            assert(step_views(failed@) =~= step_views(before).push(tried@[i as int].0@));
        }
        i = i + 1;
    }
    assert(tried@.take(i as int) == tried@);
    (CopyOutcome::Done, failed)
}

} // verus!
