//! The structured reports that the commands produce.

use vstd::prelude::*;
use vstd::string::*;

use crate::text;

verus! {

/// What `pull` did.
#[derive(Debug)]
pub struct PullReport {
    /// The project root.
    pub project_root: String,
    /// What happened to the lockfile.
    pub lockfile_status: LockfileStatus,
    /// The number of entries in the lockfile.
    pub entries: usize,
    /// The number of artifacts that were fetched.
    pub fetched: usize,
    /// The shortened project signature, where it is known.
    pub project_signature: Option<String>,
    /// The project's coordinate.
    pub coords: Option<String>,
    /// Whether `--no-fetch` was given.
    pub no_fetch: bool,
    /// Whether `--strict` was given.
    pub strict: bool,
}

/// What `pull` did with the lockfile.
#[derive(Debug, Clone, Copy, PartialEq, Eq, Structural)]
pub enum LockfileStatus {
    /// There is none.
    Absent,
    /// It was left as it is.
    Unchanged,
    /// It was written.
    Written,
    /// It would have been written.
    WouldWrite,
}

/// What `grind tree` shows.
#[derive(Debug)]
pub struct GrindTreeReport {
    /// The version of this shape.
    pub schema_version: u32,
    /// The modules of the reactor, in the lockfile's order.
    pub reactor: Vec<ReactorModule>,
    /// The resolved entries, in the lockfile's order.
    pub nodes: Vec<TreeNode>,
}

/// One module of a reactor.
#[derive(Debug)]
pub struct ReactorModule {
    pub coords: String,
    pub version: String,
    pub relative_path: String,
}

/// One resolved entry.
#[derive(Debug)]
pub struct TreeNode {
    pub coords: String,
    pub version: String,
    pub scope: String,
    pub depth: u32,
    /// The coordinates from the direct dependency down to this entry's parent.
    pub from_path: Vec<String>,
}

/// What `pour` did.
#[derive(Debug)]
pub struct PourReport {
    /// The directory that was filled.
    pub target: String,
    /// The scope that was asked for.
    pub scope: String,
    /// The number of entries in the lockfile.
    pub considered: usize,
    /// The number of entries of the scope.
    pub planned: usize,
    /// The number of entries that were written.
    pub materialized: usize,
    /// Whether this was a dry run.
    pub dry_run: bool,
    /// The files that were (or would be) written, one for each planned entry.
    pub planned_paths: Vec<String>,
}

/// What one action came to.
#[derive(Debug)]
pub struct MojoInvocation {
    pub phase: String,
    pub mojo: String,
    pub module: String,
    pub exit_code: i32,
    pub status: String,
    pub failure_message: String,
    pub error_code: String,
    pub duration_ms: u64,
}

/// What a lifecycle command did.
#[derive(Debug)]
pub struct VerifyReport {
    pub project_root: String,
    pub phase: String,
    pub planned_actions: usize,
    pub executed_actions: usize,
    pub failed_actions: usize,
    pub daemon_respawns: u32,
    pub invocations: Vec<MojoInvocation>,
    pub duration_ms: u64,
}

/// The summary line of a pour.
pub open spec fn pour_summary(r: PourReport) -> Seq<char> {
    (if r.dry_run {
        "dry-run: "@
    } else {
        Seq::empty()
    }) + text::dec(
        if r.dry_run {
            r.planned as nat
        } else {
            r.materialized as nat
        },
    ) + " of "@ + text::dec(r.considered as nat) + " entries (scope="@ + r.scope@ + ") → "@
        + r.target@
}

impl PourReport {
    /// One line that sums the report up.
    pub fn summary(&self) -> (r: String)
        ensures
            r@ == pour_summary(*self),
    {
        let mut out = String::new();
        let count: usize = if self.dry_run {
            self.planned
        } else {
            self.materialized
        };
        if self.dry_run {
            out.append("dry-run: ");
            assert(out@ =~= "dry-run: "@);
        }
        out.append(text::dec_u64(count as u64).as_str());
        out.append(" of ");
        out.append(text::dec_u64(self.considered as u64).as_str());
        out.append(" entries (scope=");
        out.append(self.scope.as_str());
        out.append(") → ");
        out.append(self.target.as_str());
        out
    }
}

/// The coordinate of a pull as it is shown.
pub open spec fn shown_coords(r: PullReport) -> Seq<char> {
    match r.coords {
        Some(c) => c@,
        None => "<unknown>"@,
    }
}

/// The summary line of a pull.
pub open spec fn pull_summary(r: PullReport) -> Seq<char> {
    let coords = shown_coords(r);
    let entries = text::dec(r.entries as nat);
    match r.lockfile_status {
        LockfileStatus::Absent => "--no-fetch: "@ + coords
            + ": no existing barista.lock (would resolve and write one)"@,
        LockfileStatus::Unchanged => match r.project_signature {
            Some(sig) => "--no-fetch: "@ + coords + ": existing barista.lock has "@ + entries
                + " entries (signature "@ + sig@ + ")"@,
            None => "--no-fetch: "@ + coords + ": existing barista.lock has "@ + entries
                + " entries"@,
        },
        LockfileStatus::Written => coords + ": wrote barista.lock with "@ + entries + " entries"@,
        LockfileStatus::WouldWrite => coords + ": would write barista.lock with "@ + entries
            + " entries"@,
    }
}

impl PullReport {
    /// One line that sums the report up.
    pub fn summary(&self) -> (r: String)
        ensures
            r@ == pull_summary(*self),
    {
        let coords = match &self.coords {
            Some(c) => c.clone(),
            None => "<unknown>".to_owned(),
        };
        let entries = text::dec_u64(self.entries as u64);
        match self.lockfile_status {
            LockfileStatus::Absent => {
                let mut out = "--no-fetch: ".to_owned();
                out.append(coords.as_str());
                out.append(": no existing barista.lock (would resolve and write one)");
                out
            },
            LockfileStatus::Unchanged => {
                let mut out = "--no-fetch: ".to_owned();
                out.append(coords.as_str());
                out.append(": existing barista.lock has ");
                out.append(entries.as_str());
                match &self.project_signature {
                    Some(sig) => {
                        out.append(" entries (signature ");
                        out.append(sig.as_str());
                        out.append(")");
                    },
                    None => {
                        out.append(" entries");
                    },
                }
                out
            },
            LockfileStatus::Written => {
                let mut out = coords;
                out.append(": wrote barista.lock with ");
                out.append(entries.as_str());
                out.append(" entries");
                out
            },
            LockfileStatus::WouldWrite => {
                let mut out = coords;
                out.append(": would write barista.lock with ");
                out.append(entries.as_str());
                out.append(" entries");
                out
            },
        }
    }
}

/// The summary line of a lifecycle command.
pub open spec fn verify_summary(r: VerifyReport) -> Seq<char> {
    text::dec(r.executed_actions as nat) + " of "@ + text::dec(r.planned_actions as nat)
        + " actions run, "@ + text::dec(r.failed_actions as nat) + " failed, "@ + text::dec(
        r.daemon_respawns as nat,
    ) + " daemon respawns, "@ + text::dec(r.duration_ms as nat) + " ms"@
}

impl VerifyReport {
    /// One line that sums the report up.
    pub fn summary(&self) -> (r: String)
        ensures
            r@ == verify_summary(*self),
    {
        let mut out = text::dec_u64(self.executed_actions as u64);
        out.append(" of ");
        out.append(text::dec_u64(self.planned_actions as u64).as_str());
        out.append(" actions run, ");
        out.append(text::dec_u64(self.failed_actions as u64).as_str());
        out.append(" failed, ");
        out.append(text::dec_u64(self.daemon_respawns as u64).as_str());
        out.append(" daemon respawns, ");
        out.append(text::dec_u64(self.duration_ms).as_str());
        out.append(" ms");
        out
    }
}

/// A pour is summed up by what it did, of how much, for which scope and where; one that only
/// planned says so in front.
pub proof fn pour_is_summed_up_by_what_it_did(r: PourReport)
    ensures
        ({
            let rest = " of "@ + text::dec(r.considered as nat) + " entries (scope="@ + r.scope@
                + ") → "@ + r.target@;
            &&& r.dry_run ==> pour_summary(r) == "dry-run: "@ + text::dec(r.planned as nat) + rest
            &&& !r.dry_run ==> pour_summary(r) == text::dec(r.materialized as nat) + rest
        }),
{
    let rest = " of "@ + text::dec(r.considered as nat) + " entries (scope="@ + r.scope@ + ") → "@
        + r.target@;
    if r.dry_run {
        assert(pour_summary(r) =~= "dry-run: "@ + text::dec(r.planned as nat) + rest);
    } else {
        assert(pour_summary(r) =~= text::dec(r.materialized as nat) + rest);
    }
}

/// A pull is summed up by the project and by what became of its lockfile.
pub proof fn pull_is_summed_up_by_its_lockfile(r: PullReport, project: Seq<char>)
    requires
        r.coords matches Some(c) ==> project == c@,
        r.coords is None ==> project == "<unknown>"@,
    ensures
        r.lockfile_status is Written ==> pull_summary(r) == project
            + ": wrote barista.lock with "@ + text::dec(r.entries as nat) + " entries"@,
        r.lockfile_status is WouldWrite ==> pull_summary(r) == project
            + ": would write barista.lock with "@ + text::dec(r.entries as nat) + " entries"@,
        r.lockfile_status is Absent ==> pull_summary(r) == "--no-fetch: "@ + project
            + ": no existing barista.lock (would resolve and write one)"@,
        r.lockfile_status is Unchanged && r.project_signature is None ==> pull_summary(r)
            == "--no-fetch: "@ + project + ": existing barista.lock has "@ + text::dec(
            r.entries as nat,
        ) + " entries"@,
        r.lockfile_status is Unchanged ==> (r.project_signature matches Some(sig) ==> pull_summary(r)
            == "--no-fetch: "@ + project + ": existing barista.lock has "@ + text::dec(
            r.entries as nat,
        ) + " entries (signature "@ + sig@ + ")"@),
{
}

/// A run is summed up by how much of its plan ran, what failed, how often a daemon was started
/// anew and how long it took.
pub proof fn run_is_summed_up_by_its_counts(r: VerifyReport)
    ensures
        verify_summary(r) == text::dec(r.executed_actions as nat) + " of "@ + text::dec(
            r.planned_actions as nat,
        ) + " actions run, "@ + text::dec(r.failed_actions as nat) + " failed, "@ + text::dec(
            r.daemon_respawns as nat,
        ) + " daemon respawns, "@ + text::dec(r.duration_ms as nat) + " ms"@,
{
}

} // verus!
