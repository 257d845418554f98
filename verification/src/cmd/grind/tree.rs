//! `barista grind tree`: the dependency tree of the lockfile.

use vstd::prelude::*;
use vstd::string::*;

use super::TreeError;
use crate::cli::{OutputFormat, TreeFormat};
use crate::lockfile;
use crate::lockfile::Lockfile;
use crate::output::human;
use crate::output::report::GrindTreeReport;
use crate::paths;
use crate::project::{ProjectRoot, ResolveError};
use crate::text;

verus! {

/// What is told where there is no lockfile.
pub const NO_LOCKFILE_HINT: &'static str =
    "run `barista pull --no-fetch` to create one, or wait for the full M3.x wiring that resolves the tree from the resolver directly.";

/// What `grind tree` does next.
#[derive(Debug)]
pub enum TreeStep {
    ResolveRoot,
    ReadLockfile(String),
    Failed(TreeError),
    /// Show the tree: as an indented JSON document, or in the invocation's format.
    Show { report: GrindTreeReport, indented_json: bool },
}

/// What `grind tree` does next: the root, then the lockfile, then the tree. `--format json`
/// asks for the document where the invocation's output is for people.
pub fn run_inner(
    root: Option<Result<ProjectRoot, ResolveError>>,
    on_disk: Option<Result<Option<Lockfile>, String>>,
    output: OutputFormat,
    format: TreeFormat,
) -> (r: TreeStep)
    ensures
        match root {
            None => r is ResolveRoot,
            Some(Err(e)) => r == TreeStep::Failed(TreeError::Project(e)),
            Some(Ok(p)) => match on_disk {
                None => r matches TreeStep::ReadLockfile(path) && path@ == paths::joined_path(
                    p.root@,
                    lockfile::LOCKFILE_LEAF@,
                ),
                Some(Err(d)) => r == TreeStep::Failed(TreeError::Lockfile(d)),
                Some(Ok(None)) => r matches TreeStep::Failed(
                    TreeError::NoLockfile { expected_at, hint },
                ) && expected_at@ == paths::joined_path(p.root@, lockfile::LOCKFILE_LEAF@) && hint@
                    == NO_LOCKFILE_HINT@,
                Some(Ok(Some(lf))) => r matches TreeStep::Show { report, indented_json }
                    && lockfile::shows(report, lf) && indented_json == (output
                    == OutputFormat::Human && format == TreeFormat::Json),
            },
        },
{
    let p = match root {
        None => return TreeStep::ResolveRoot,
        Some(Err(e)) => return TreeStep::Failed(TreeError::Project(e)),
        Some(Ok(p)) => p,
    };
    let path = paths::join(p.root.as_str(), lockfile::LOCKFILE_LEAF);
    match on_disk {
        None => TreeStep::ReadLockfile(path),
        Some(Err(d)) => TreeStep::Failed(TreeError::Lockfile(d)),
        Some(Ok(None)) => TreeStep::Failed(
            TreeError::NoLockfile { expected_at: path, hint: NO_LOCKFILE_HINT.to_owned() },
        ),
        Some(Ok(Some(lf))) => TreeStep::Show {
            report: build_report(&lf),
            indented_json: output == OutputFormat::Human && format == TreeFormat::Json,
        },
    }
}

/// What `grind tree` shows of its outcome, and its exit code: nothing more after a tree, else
/// a line for people or the message of an error document.
pub fn run(outcome: &Result<(), TreeError>, output: OutputFormat) -> (r: (Option<String>, i32))
    ensures
        match outcome {
            Ok(_) => r.0 is None && r.1 == 0,
            Err(e) => r.1 == 1 && text::opt_text(r.0) == Some(
                if output == OutputFormat::Human {
                    "error: barista grind tree failed: "@ + super::tree_fault_text(*e)
                } else {
                    super::tree_fault_text(*e)
                },
            ),
        },
{
    match outcome {
        Ok(_) => (None, 0),
        Err(e) => {
            let message = e.to_message();
            if output == OutputFormat::Human {
                (Some(text::two("error: barista grind tree failed: ", message.as_str())), 1)
            } else {
                (Some(message), 1)
            }
        },
    }
}

/// The dependency tree of a lockfile.
pub fn build_report(lf: &Lockfile) -> (r: GrindTreeReport)
    ensures
        lockfile::shows(r, *lf),
{
    lockfile::report_from_lockfile(lf)
}

/// The dependency tree of a lockfile, as text.
pub fn render_text(lf: &Lockfile) -> (r: String)
    ensures
        exists|report: GrindTreeReport| #[trigger]
            lockfile::shows(report, *lf) && r@ == human::tree_text(report),
        forall|report: GrindTreeReport| #[trigger]
            lockfile::shows(report, *lf) ==> r@ == human::tree_text(report),
{
    let report = build_report(lf);
    proof {
        assert forall|other: GrindTreeReport| #[trigger] lockfile::shows(other, *lf) implies human::tree_text(
            report,
        ) == human::tree_text(other) by {
            one_tree_for_a_lockfile(*lf, report, other);
        }
    }
    human::render_tree_text(&report)
}

/// The roots of two reports of one lockfile read the same.
proof fn same_roots(lf: Lockfile, a: GrindTreeReport, b: GrindTreeReport, k: nat)
    requires
        lockfile::shows(a, lf),
        lockfile::shows(b, lf),
        human::nodes_of(a.nodes@) == human::nodes_of(b.nodes@),
        k <= lf.reactor@.len(),
    ensures
        human::root_lines(a, k) == human::root_lines(b, k),
    decreases k,
{
    if k > 0 {
        same_roots(lf, a, b, (k - 1) as nat);
        assert(lockfile::module_shown(a.reactor@[k - 1], lf.reactor@[k - 1]));
        assert(lockfile::module_shown(b.reactor@[k - 1], lf.reactor@[k - 1]));
    }
}

/// A lockfile has one tree: any two reports of it read the same.
pub proof fn one_tree_for_a_lockfile(lf: Lockfile, a: GrindTreeReport, b: GrindTreeReport)
    requires
        lockfile::shows(a, lf),
        lockfile::shows(b, lf),
    ensures
        human::tree_text(a) == human::tree_text(b),
{
    let x = human::nodes_of(a.nodes@);
    let y = human::nodes_of(b.nodes@);
    assert forall|j: int| 0 <= j < x.len() implies x[j] == y[j] by {
        assert(lockfile::node_shown(a.nodes@[j], lf.entries@[j]));
        assert(lockfile::node_shown(b.nodes@[j], lf.entries@[j]));
    }
    assert(x =~= y);
    same_roots(lf, a, b, lf.reactor@.len());
}

/// The tree is that of the project's lockfile: the root is settled first, then its lockfile is
/// read, and one that is missing is named. JSON is indented only for people who ask for it.
pub proof fn tree_is_that_of_the_lockfile(
    root: Option<Result<ProjectRoot, ResolveError>>,
    on_disk: Option<Result<Option<Lockfile>, String>>,
    output: OutputFormat,
    format: TreeFormat,
    r: TreeStep,
)
    requires
        call_ensures(run_inner, (root, on_disk, output, format), r),
    ensures
        r is ResolveRoot <==> root is None,
        root matches Some(Ok(p)) ==> (on_disk is None ==> (r matches TreeStep::ReadLockfile(path)
            && path@ == paths::joined_path(p.root@, "barista.lock"@))),
        root matches Some(Ok(p)) ==> (on_disk matches Some(Ok(None)) ==> (
        r matches TreeStep::Failed(TreeError::NoLockfile { expected_at, .. }) && expected_at@
            == paths::joined_path(p.root@, "barista.lock"@))),
        root matches Some(Ok(_)) ==> (on_disk matches Some(Ok(Some(lf))) ==> (
        r matches TreeStep::Show { report, indented_json } && lockfile::shows(report, lf) && (
        indented_json <==> output is Human && format is Json))),
{
}

/// A tree that was shown exits with 0; one that was not exits with 1 and says why.
pub proof fn tree_tells_how_it_went(
    outcome: &Result<(), TreeError>,
    output: OutputFormat,
    r: (Option<String>, i32),
)
    requires
        call_ensures(run, (outcome, output), r),
    ensures
        *outcome is Ok <==> r.1 == 0,
        *outcome is Err <==> r.1 == 1,
        *outcome is Err <==> r.0 is Some,
{
}

} // verus!
