//! `barista grind`: views of the dependency graph.

pub mod tree;

use vstd::prelude::*;
use vstd::string::*;

use crate::cli::{GrindCommand, TreeFormat};
use crate::output;
use crate::output::RenderError;
use crate::project;
use crate::project::ResolveError;
use crate::text;

verus! {

/// What `grind` does.
#[derive(Debug)]
pub enum GrindRoute {
    /// Show the dependency tree.
    Tree(TreeFormat),
    /// Print a message and exit with a code.
    Stub(String, i32),
}

/// What a view that does not exist yet prints.
pub open spec fn stub_text(sub: Seq<char>) -> Seq<char> {
    "barista: `grind "@ + sub
        + "` not yet implemented in this build. The full implementation lands in a subsequent milestone."@
}

/// What a view that does not exist yet does.
fn stub(sub: &str) -> (r: GrindRoute)
    ensures
        r matches GrindRoute::Stub(m, c) && m@ == stub_text(sub@) && c == 2,
{
    let mut s = "barista: `grind ".to_owned();
    s.append(sub);
    s.append(
        "` not yet implemented in this build. The full implementation lands in a subsequent milestone.",
    );
    GrindRoute::Stub(s, 2)
}

/// What `grind` does.
pub fn run(cmd: &GrindCommand) -> (r: GrindRoute)
    ensures
        match cmd {
            GrindCommand::Tree(args) => r == GrindRoute::Tree(args.format),
            GrindCommand::Diff(_) => r matches GrindRoute::Stub(m, c) && m@ == stub_text("diff"@)
                && c == 2,
            GrindCommand::Audit(_) => r matches GrindRoute::Stub(m, c) && m@ == stub_text(
                "audit"@,
            ) && c == 2,
            GrindCommand::Why(_) => r matches GrindRoute::Stub(m, c) && m@ == stub_text("why"@)
                && c == 2,
        },
{
    match cmd {
        GrindCommand::Tree(args) => GrindRoute::Tree(args.format),
        GrindCommand::Diff(_) => stub("diff"),
        GrindCommand::Audit(_) => stub("audit"),
        GrindCommand::Why(_) => stub("why"),
    }
}

/// Why the dependency tree could not be shown.
#[derive(Debug)]
pub enum TreeError {
    Project(ResolveError),
    NoLockfile { expected_at: String, hint: String },
    Lockfile(String),
    Serialize(String),
    Render(RenderError),
}

/// The message of an error.
pub open spec fn tree_fault_text(e: TreeError) -> Seq<char> {
    match e {
        TreeError::Project(e) => "project setup: "@ + project::fault_text(e@),
        TreeError::NoLockfile { expected_at, hint } => "no barista.lock at "@
            + text::quoted_path_text(expected_at@) + "\n  hint: "@ + hint@,
        TreeError::Lockfile(d) => "lockfile: "@ + d@,
        TreeError::Serialize(d) => "serialization: "@ + d@,
        TreeError::Render(e) => "output: "@ + output::render_text(e),
    }
}

impl TreeError {
    /// The message of this error.
    pub fn to_message(&self) -> (r: String)
        ensures
            r@ == tree_fault_text(*self),
    {
        match self {
            TreeError::Project(e) => text::two("project setup: ", e.to_message().as_str()),
            TreeError::NoLockfile { expected_at, hint } => text::four(
                "no barista.lock at ",
                text::quoted_path(expected_at.as_str()).as_str(),
                "\n  hint: ",
                hint.as_str(),
            ),
            TreeError::Lockfile(d) => text::two("lockfile: ", d.as_str()),
            TreeError::Serialize(d) => text::two("serialization: ", d.as_str()),
            TreeError::Render(e) => text::two("output: ", e.to_message().as_str()),
        }
    }
}

/// Only the tree can be shown; what cannot says so and exits with 2.
pub proof fn only_the_tree_is_shown(cmd: &GrindCommand, r: GrindRoute)
    requires
        call_ensures(run, (cmd,), r),
    ensures
        *cmd matches GrindCommand::Tree(args) ==> r == GrindRoute::Tree(args.format),
        *cmd !is Tree ==> (r matches GrindRoute::Stub(_, c) && c == 2),
        *cmd is Diff ==> (r matches GrindRoute::Stub(m, _) && ("barista: `grind "@ + "diff"@
            + "` not yet implemented"@).is_prefix_of(m@)),
        *cmd is Audit ==> (r matches GrindRoute::Stub(m, _) && ("barista: `grind "@ + "audit"@
            + "` not yet implemented"@).is_prefix_of(m@)),
        *cmd is Why ==> (r matches GrindRoute::Stub(m, _) && ("barista: `grind "@ + "why"@
            + "` not yet implemented"@).is_prefix_of(m@)),
{
    reveal_strlit("` not yet implemented");
    reveal_strlit(
        "` not yet implemented in this build. The full implementation lands in a subsequent milestone.",
    );
}

} // verus!
