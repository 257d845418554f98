//! `barista pour`: link the locked artifacts of a scope into a directory.
//!
//! The work outside is asked for one piece at a time. What came back is kept as answers, and
//! what to do next is a function of the answers alone.

use vstd::prelude::*;
use vstd::string::*;

use crate::cli::ScopeArg;
use crate::lockfile;
use crate::lockfile::{Lockfile, LockfileEntry};
use crate::output::report;
use crate::output::report::PourReport;
use crate::paths;
use crate::project;
use crate::project::{ProjectRoot, ResolveError};
use crate::text;

verus! {

/// What is told where there is no lockfile.
pub const NO_LOCKFILE_HINT: &'static str =
    "run `barista pull` first to resolve dependencies and create barista.lock";

// ---------------------------------------------------------------------------
// Errors
// ---------------------------------------------------------------------------

/// Why `pour` failed.
#[derive(Debug)]
pub enum PourError {
    Project(ResolveError),
    Config(String),
    Lockfile(String),
    NoLockfile { expected_at: String, hint: String },
    CasOpen { path: String, detail: String },
    BadHash { coord: String, detail: String },
    BadCoords { coord: String, detail: String },
    NotInCache { coords: Vec<String> },
    Mirror { coord: String, detail: String },
    NotYetImplemented { detail: String },
}

/// A failure, by contents.
pub enum PourFault {
    Project(project::ResolveFault),
    Config(Seq<char>),
    Lockfile(Seq<char>),
    NoLockfile { expected_at: Seq<char>, hint: Seq<char> },
    CasOpen { path: Seq<char>, detail: Seq<char> },
    BadHash { coord: Seq<char>, detail: Seq<char> },
    BadCoords { coord: Seq<char>, detail: Seq<char> },
    NotInCache { coords: Seq<Seq<char>> },
    Mirror { coord: Seq<char>, detail: Seq<char> },
    NotYetImplemented { detail: Seq<char> },
}

impl View for PourError {
    type V = PourFault;

    open spec fn view(&self) -> PourFault {
        match self {
            PourError::Project(e) => PourFault::Project(e@),
            PourError::Config(d) => PourFault::Config(d@),
            PourError::Lockfile(d) => PourFault::Lockfile(d@),
            PourError::NoLockfile { expected_at, hint } => PourFault::NoLockfile {
                expected_at: expected_at@,
                hint: hint@,
            },
            PourError::CasOpen { path, detail } => PourFault::CasOpen {
                path: path@,
                detail: detail@,
            },
            PourError::BadHash { coord, detail } => PourFault::BadHash {
                coord: coord@,
                detail: detail@,
            },
            PourError::BadCoords { coord, detail } => PourFault::BadCoords {
                coord: coord@,
                detail: detail@,
            },
            PourError::NotInCache { coords } => PourFault::NotInCache {
                coords: text::texts(coords@),
            },
            PourError::Mirror { coord, detail } => PourFault::Mirror {
                coord: coord@,
                detail: detail@,
            },
            PourError::NotYetImplemented { detail } => PourFault::NotYetImplemented {
                detail: detail@,
            },
        }
    }
}

/// The message of a failure.
pub open spec fn fault_text(e: PourFault) -> Seq<char> {
    match e {
        PourFault::Project(e) => "project setup: "@ + project::fault_text(e),
        PourFault::Config(d) => "config load: "@ + d,
        PourFault::Lockfile(d) => "lockfile: "@ + d,
        PourFault::NoLockfile { expected_at, hint } => "no barista.lock at "@
            + text::quoted_path_text(expected_at) + "\n  hint: "@ + hint,
        PourFault::CasOpen { path, detail } => "opening cache at "@ + text::quoted_path_text(path)
            + ": "@ + detail,
        PourFault::BadHash { coord, detail } => "bad sha256 on entry "@ + coord + ": "@ + detail,
        PourFault::BadCoords { coord, detail } => "invalid coords "@ + text::quoted_text(coord)
            + ": "@ + detail,
        PourFault::NotInCache { coords } => text::dec(coords.len())
            + " artifact(s) missing from the local cache; run `barista pull` to fetch them:\n  - "@
            + text::joined(coords, "\n  - "@),
        PourFault::Mirror { coord, detail } => "materializing "@ + coord + ": "@ + detail,
        PourFault::NotYetImplemented { detail } => "not yet implemented: "@ + detail,
    }
}

/// Whether a failure is the user's to mend.
pub open spec fn precondition(e: PourFault) -> bool {
    e is Project || e is NoLockfile || e is NotInCache || e is BadCoords || e is BadHash
        || e is NotYetImplemented
}

impl PourError {
    /// The message of this error.
    pub fn to_message(&self) -> (r: String)
        ensures
            r@ == fault_text(self@),
    {
        match self {
            PourError::Project(e) => text::two("project setup: ", e.to_message().as_str()),
            PourError::Config(d) => text::two("config load: ", d.as_str()),
            PourError::Lockfile(d) => text::two("lockfile: ", d.as_str()),
            PourError::NoLockfile { expected_at, hint } => text::four(
                "no barista.lock at ",
                text::quoted_path(expected_at.as_str()).as_str(),
                "\n  hint: ",
                hint.as_str(),
            ),
            PourError::CasOpen { path, detail } => text::four(
                "opening cache at ",
                text::quoted_path(path.as_str()).as_str(),
                ": ",
                detail.as_str(),
            ),
            PourError::BadHash { coord, detail } => text::four(
                "bad sha256 on entry ",
                coord.as_str(),
                ": ",
                detail.as_str(),
            ),
            PourError::BadCoords { coord, detail } => text::four(
                "invalid coords ",
                text::quoted(coord.as_str()).as_str(),
                ": ",
                detail.as_str(),
            ),
            PourError::NotInCache { coords } => {
                let mut s = text::dec_u64(coords.len() as u64);
                s.append(
                    " artifact(s) missing from the local cache; run `barista pull` to fetch them:\n  - ",
                );
                s.append(text::join(coords, "\n  - ").as_str());
                assert(text::texts(coords@).len() == coords@.len());
                s
            },
            PourError::Mirror { coord, detail } => text::four(
                "materializing ",
                coord.as_str(),
                ": ",
                detail.as_str(),
            ),
            PourError::NotYetImplemented { detail } => text::two(
                "not yet implemented: ",
                detail.as_str(),
            ),
        }
    }

    /// Whether this error is the user's to mend.
    pub fn is_precondition(&self) -> (r: bool)
        ensures
            r == precondition(self@),
    {
        match self {
            PourError::Project(_) | PourError::NoLockfile { .. } | PourError::NotInCache { .. }
            | PourError::BadCoords { .. } | PourError::BadHash { .. }
            | PourError::NotYetImplemented { .. } => true,
            _ => false,
        }
    }
}

/// What `pour` prints of its outcome, and its exit code. `quiet` leaves the summary out,
/// never an error.
pub fn run(outcome: &Result<PourReport, PourError>, quiet: bool) -> (r: (Option<String>, i32))
    ensures
        match outcome {
            Ok(report) => r.1 == 0 && text::opt_text(r.0) == (if quiet {
                None
            } else {
                Some("pour: "@ + report::pour_summary(*report))
            }),
            Err(e) => r.1 == (if precondition(e@) {
                2int
            } else {
                1
            }) && text::opt_text(r.0) == Some("error: barista pour failed: "@ + fault_text(e@)),
        },
{
    match outcome {
        Ok(report) => {
            if quiet {
                (None, 0)
            } else {
                (Some(text::two("pour: ", report.summary().as_str())), 0)
            }
        },
        Err(e) => {
            let code: i32 = if e.is_precondition() {
                2
            } else {
                1
            };
            (Some(text::two("error: barista pour failed: ", e.to_message().as_str())), code)
        },
    }
}

// ---------------------------------------------------------------------------
// Scopes
// ---------------------------------------------------------------------------

/// The name of a scope in the lockfile.
pub open spec fn scope_name(s: ScopeArg) -> Seq<char> {
    match s {
        ScopeArg::Compile => "compile"@,
        ScopeArg::Runtime => "runtime"@,
        ScopeArg::Test => "test"@,
        ScopeArg::Provided => "provided"@,
        ScopeArg::System => "system"@,
    }
}

/// The name of a scope in the lockfile.
pub fn scope_str(s: ScopeArg) -> (r: &'static str)
    ensures
        r@ == scope_name(s),
{
    match s {
        ScopeArg::Compile => "compile",
        ScopeArg::Runtime => "runtime",
        ScopeArg::Test => "test",
        ScopeArg::Provided => "provided",
        ScopeArg::System => "system",
    }
}

/// Whether an entry is of the requested scope, whatever its case.
pub fn scope_matches(requested: &str, entry_scope: &str) -> (r: bool)
    ensures
        r == (text::lowered(requested@) == text::lowered(entry_scope@)),
{
    text::same_ignoring_case(requested, entry_scope)
}

/// The places of the entries of a scope among the first `k`.
pub open spec fn picked(es: Seq<LockfileEntry>, scope: Seq<char>, k: nat) -> Seq<usize>
    decreases k,
{
    if k == 0 {
        Seq::empty()
    } else {
        let before = picked(es, scope, (k - 1) as nat);
        if text::lowered(scope) == text::lowered(es[k - 1].scope@) {
            before.push((k - 1) as usize)
        } else {
            before
        }
    }
}

/// The places of the entries of a scope.
fn pick(es: &Vec<LockfileEntry>, scope: &str) -> (r: Vec<usize>)
    ensures
        r@ == picked(es@, scope@, es@.len()),
        forall|j: int| 0 <= j < r@.len() ==> (#[trigger] r@[j]) < es@.len(),
{
    let mut out: Vec<usize> = Vec::new();
    let mut k: usize = 0;
    while k < es.len()
        invariant
            k <= es@.len(),
            out@ == picked(es@, scope@, k as nat),
            forall|j: int| 0 <= j < out@.len() ==> (#[trigger] out@[j]) < k,
        decreases es@.len() - k,
    {
        if scope_matches(scope, es[k].scope.as_str()) {
            out.push(k);
        }
        k = k + 1;
    }
    out
}

// ---------------------------------------------------------------------------
// The run
// ---------------------------------------------------------------------------

/// What a pour is asked for.
#[derive(Debug)]
pub struct PourInputs {
    pub project_root: String,
    /// `--target`.
    pub target: Option<String>,
    /// The local repository of the configuration.
    pub m2_repository: String,
    /// The directory of the cache.
    pub cache_dir: String,
    pub scope: ScopeArg,
    pub dry_run: bool,
}

/// Why an artifact could not be linked.
#[derive(Debug)]
pub enum LinkError {
    /// The entry's coordinates are malformed.
    Coords(String),
    /// The link failed.
    Mirror(String),
}

/// What came back so far, in the order in which it is asked for.
#[derive(Debug)]
pub struct PourAnswers {
    pub on_disk: Option<Result<Option<Lockfile>, String>>,
    /// The destinations of a dry run, one for each picked entry.
    pub planned: Vec<Result<String, String>>,
    /// Whether the cache could be opened.
    pub opened: Option<Result<(), String>>,
    /// Whether the cache holds the artifacts, one for each picked entry.
    pub present: Vec<Result<bool, String>>,
    /// The files that were linked, one for each picked entry.
    pub linked: Vec<Result<String, LinkError>>,
}

/// What a pour needs next; `entry` is a place in the lockfile.
#[derive(Debug)]
pub enum PourAsk {
    ReadLockfile(String),
    /// The destination of an entry below a directory.
    Plan { entry: usize, target: String },
    OpenCas(String),
    Contains { entry: usize },
    Link { entry: usize, target: String },
}

/// What a pour does next.
#[derive(Debug)]
pub enum PourStep {
    Need(PourAsk),
    Done(Result<PourReport, PourError>),
}

/// A report, by contents.
pub struct ReportModel {
    pub target: Seq<char>,
    pub scope: Seq<char>,
    pub considered: nat,
    pub planned: nat,
    pub materialized: nat,
    pub dry_run: bool,
    pub planned_paths: Seq<Seq<char>>,
}

/// A need, by contents.
pub enum AskModel {
    ReadLockfile(Seq<char>),
    Plan { entry: usize, target: Seq<char> },
    OpenCas(Seq<char>),
    Contains { entry: usize },
    Link { entry: usize, target: Seq<char> },
}

/// A step, by contents.
pub enum StepModel {
    Need(AskModel),
    Failed(PourFault),
    Finished(ReportModel),
}

/// The contents of a report.
pub open spec fn report_model(r: PourReport) -> ReportModel {
    ReportModel {
        target: r.target@,
        scope: r.scope@,
        considered: r.considered as nat,
        planned: r.planned as nat,
        materialized: r.materialized as nat,
        dry_run: r.dry_run,
        planned_paths: text::texts(r.planned_paths@),
    }
}

/// The contents of a step.
pub open spec fn step_model(s: PourStep) -> StepModel {
    match s {
        PourStep::Need(a) => StepModel::Need(
            match a {
                PourAsk::ReadLockfile(p) => AskModel::ReadLockfile(p@),
                PourAsk::Plan { entry, target } => AskModel::Plan { entry, target: target@ },
                PourAsk::OpenCas(p) => AskModel::OpenCas(p@),
                PourAsk::Contains { entry } => AskModel::Contains { entry },
                PourAsk::Link { entry, target } => AskModel::Link { entry, target: target@ },
            },
        ),
        PourStep::Done(Ok(r)) => StepModel::Finished(report_model(r)),
        PourStep::Done(Err(e)) => StepModel::Failed(e@),
    }
}

/// The directory that is filled.
pub open spec fn target_of(i: PourInputs) -> Seq<char> {
    match i.target {
        Some(t) => t@,
        None => i.m2_repository@,
    }
}

/// The path of the lockfile.
pub open spec fn lock_path(i: PourInputs) -> Seq<char> {
    paths::joined_path(i.project_root@, lockfile::LOCKFILE_LEAF@)
}

/// The destination that the picked entries from `k` on wait for, or the one that has none.
pub open spec fn planning(
    i: PourInputs,
    a: PourAnswers,
    es: Seq<LockfileEntry>,
    sel: Seq<usize>,
    k: nat,
) -> Option<StepModel>
    decreases sel.len() - k,
{
    if k >= sel.len() {
        None
    } else if k >= a.planned@.len() {
        Some(StepModel::Need(AskModel::Plan { entry: sel[k as int], target: target_of(i) }))
    } else {
        match a.planned@[k as int] {
            Err(d) => Some(
                StepModel::Failed(
                    PourFault::BadCoords { coord: es[sel[k as int] as int].coords@, detail: d@ },
                ),
            ),
            Ok(_) => planning(i, a, es, sel, k + 1),
        }
    }
}

/// The look into the cache that the picked entries from `k` on wait for, or the entry whose
/// digest is malformed.
pub open spec fn checking(
    a: PourAnswers,
    es: Seq<LockfileEntry>,
    sel: Seq<usize>,
    k: nat,
) -> Option<StepModel>
    decreases sel.len() - k,
{
    if k >= sel.len() {
        None
    } else if k >= a.present@.len() {
        Some(StepModel::Need(AskModel::Contains { entry: sel[k as int] }))
    } else {
        match a.present@[k as int] {
            Err(d) => Some(
                StepModel::Failed(
                    PourFault::BadHash {
                        coord: lockfile::coord_text(es[sel[k as int] as int]@),
                        detail: d@,
                    },
                ),
            ),
            Ok(_) => checking(a, es, sel, k + 1),
        }
    }
}

/// The coordinates of those of the first `k` picked entries that the cache does not hold.
pub open spec fn missing(
    a: PourAnswers,
    es: Seq<LockfileEntry>,
    sel: Seq<usize>,
    k: nat,
) -> Seq<Seq<char>>
    decreases k,
{
    if k == 0 {
        Seq::empty()
    } else {
        let before = missing(a, es, sel, (k - 1) as nat);
        if a.present@[k - 1]->Ok_0 {
            before
        } else {
            before.push(lockfile::coord_text(es[sel[k - 1] as int]@))
        }
    }
}

/// The link that the picked entries from `k` on wait for, or the one that failed.
pub open spec fn linking(
    i: PourInputs,
    a: PourAnswers,
    es: Seq<LockfileEntry>,
    sel: Seq<usize>,
    k: nat,
) -> Option<StepModel>
    decreases sel.len() - k,
{
    if k >= sel.len() {
        None
    } else if k >= a.linked@.len() {
        Some(StepModel::Need(AskModel::Link { entry: sel[k as int], target: target_of(i) }))
    } else {
        match a.linked@[k as int] {
            Err(LinkError::Coords(d)) => Some(
                StepModel::Failed(
                    PourFault::BadCoords { coord: es[sel[k as int] as int].coords@, detail: d@ },
                ),
            ),
            Err(LinkError::Mirror(d)) => Some(
                StepModel::Failed(
                    PourFault::Mirror {
                        coord: lockfile::coord_text(es[sel[k as int] as int]@),
                        detail: d@,
                    },
                ),
            ),
            Ok(_) => linking(i, a, es, sel, k + 1),
        }
    }
}

/// What is done with the picked entries `sel` of the lockfile's entries `es`.
pub open spec fn poured(
    i: PourInputs,
    a: PourAnswers,
    es: Seq<LockfileEntry>,
    sel: Seq<usize>,
) -> StepModel {
    if i.dry_run {
        match planning(i, a, es, sel, 0) {
            Some(s) => s,
            None => StepModel::Finished(
                ReportModel {
                    target: target_of(i),
                    scope: scope_name(i.scope),
                    considered: es.len(),
                    planned: sel.len(),
                    materialized: 0,
                    dry_run: true,
                    planned_paths: Seq::new(sel.len(), |k: int| a.planned@[k]->Ok_0@),
                },
            ),
        }
    } else {
        match a.opened {
            None => StepModel::Need(AskModel::OpenCas(i.cache_dir@)),
            Some(Err(d)) => StepModel::Failed(
                PourFault::CasOpen { path: i.cache_dir@, detail: d@ },
            ),
            Some(Ok(_)) => match checking(a, es, sel, 0) {
                Some(s) => s,
                None => if missing(a, es, sel, sel.len()).len() > 0 {
                    StepModel::Failed(
                        PourFault::NotInCache { coords: missing(a, es, sel, sel.len()) },
                    )
                } else {
                    match linking(i, a, es, sel, 0) {
                        Some(s) => s,
                        None => StepModel::Finished(
                            ReportModel {
                                target: target_of(i),
                                scope: scope_name(i.scope),
                                considered: es.len(),
                                planned: sel.len(),
                                materialized: sel.len(),
                                dry_run: false,
                                planned_paths: Seq::new(sel.len(), |k: int| a.linked@[k]->Ok_0@),
                            },
                        ),
                    }
                },
            },
        }
    }
}

/// What a pour does next. Every picked entry is looked up before the first one is linked; a
/// dry run opens nothing.
pub open spec fn pour(i: PourInputs, a: PourAnswers) -> StepModel {
    match a.on_disk {
        None => StepModel::Need(AskModel::ReadLockfile(lock_path(i))),
        Some(Err(d)) => StepModel::Failed(PourFault::Lockfile(d@)),
        Some(Ok(None)) => StepModel::Failed(
            PourFault::NoLockfile { expected_at: lock_path(i), hint: NO_LOCKFILE_HINT@ },
        ),
        Some(Ok(Some(lf))) => poured(
            i,
            a,
            lf.entries@,
            picked(lf.entries@, scope_name(i.scope), lf.entries@.len()),
        ),
    }
}

/// The directory that is filled.
fn target_dir(i: &PourInputs) -> (r: String)
    ensures
        r@ == target_of(*i),
{
    match &i.target {
        Some(t) => t.clone(),
        None => i.m2_repository.clone(),
    }
}

/// The destinations of a dry run, or the step that is needed before.
fn plan_dry_run(i: &PourInputs, a: &PourAnswers, es: &Vec<LockfileEntry>, sel: &Vec<usize>) -> (r:
    Result<Vec<String>, PourStep>)
    requires
        forall|j: int| 0 <= j < sel@.len() ==> (#[trigger] sel@[j]) < es@.len(),
    ensures
        match r {
            Err(s) => planning(*i, *a, es@, sel@, 0) == Some(step_model(s)),
            Ok(v) => planning(*i, *a, es@, sel@, 0) is None && text::texts(v@) == Seq::new(
                sel@.len(),
                |k: int| a.planned@[k]->Ok_0@,
            ),
        },
{
    let mut out: Vec<String> = Vec::new();
    let mut k: usize = 0;
    while k < sel.len()
        invariant
            k <= sel@.len(),
            out@.len() == k,
            forall|j: int| 0 <= j < sel@.len() ==> (#[trigger] sel@[j]) < es@.len(),
            planning(*i, *a, es@, sel@, 0) == planning(*i, *a, es@, sel@, k as nat),
            forall|j: int| 0 <= j < k ==> (#[trigger] out@[j])@ == a.planned@[j]->Ok_0@,
        decreases sel@.len() - k,
    {
        let e: usize = sel[k];
        if k >= a.planned.len() {
            return Err(PourStep::Need(PourAsk::Plan { entry: e, target: target_dir(i) }));
        }
        match &a.planned[k] {
            Err(d) => {
                return Err(
                    PourStep::Done(
                        Err(
                            PourError::BadCoords {
                                coord: es[e].coords.clone(),
                                detail: d.clone(),
                            },
                        ),
                    ),
                );
            },
            Ok(p) => {
                out.push(p.clone());
            },
        }
        k = k + 1;
    }
    assert(text::texts(out@) =~= Seq::new(sel@.len(), |k: int| a.planned@[k]->Ok_0@));
    Ok(out)
}

/// The coordinates that the cache does not hold, or the step that is needed before.
fn check_cache(a: &PourAnswers, es: &Vec<LockfileEntry>, sel: &Vec<usize>) -> (r: Result<
    Vec<String>,
    PourStep,
>)
    requires
        forall|j: int| 0 <= j < sel@.len() ==> (#[trigger] sel@[j]) < es@.len(),
    ensures
        match r {
            Err(s) => checking(*a, es@, sel@, 0) == Some(step_model(s)),
            Ok(v) => checking(*a, es@, sel@, 0) is None && text::texts(v@) == missing(
                *a,
                es@,
                sel@,
                sel@.len(),
            ),
        },
{
    let mut out: Vec<String> = Vec::new();
    let mut k: usize = 0;
    assert(text::texts(out@) =~= Seq::empty());
    while k < sel.len()
        invariant
            k <= sel@.len(),
            forall|j: int| 0 <= j < sel@.len() ==> (#[trigger] sel@[j]) < es@.len(),
            checking(*a, es@, sel@, 0) == checking(*a, es@, sel@, k as nat),
            text::texts(out@) == missing(*a, es@, sel@, k as nat),
        decreases sel@.len() - k,
    {
        let e: usize = sel[k];
        if k >= a.present.len() {
            return Err(PourStep::Need(PourAsk::Contains { entry: e }));
        }
        match &a.present[k] {
            Err(d) => {
                return Err(
                    PourStep::Done(
                        Err(
                            PourError::BadHash {
                                coord: lockfile::format_coord(&es[e]),
                                detail: d.clone(),
                            },
                        ),
                    ),
                );
            },
            Ok(held) => {
                if !*held {
                    let ghost before = text::texts(out@);
                    out.push(lockfile::format_coord(&es[e]));
                    assert(text::texts(out@) =~= before.push(
                        lockfile::coord_text(es@[e as int]@),
                    ));
                }
            },
        }
        k = k + 1;
    }
    Ok(out)
}

/// The files that were linked, or the step that is needed before.
fn link_all(i: &PourInputs, a: &PourAnswers, es: &Vec<LockfileEntry>, sel: &Vec<usize>) -> (r:
    Result<Vec<String>, PourStep>)
    requires
        forall|j: int| 0 <= j < sel@.len() ==> (#[trigger] sel@[j]) < es@.len(),
    ensures
        match r {
            Err(s) => linking(*i, *a, es@, sel@, 0) == Some(step_model(s)),
            Ok(v) => linking(*i, *a, es@, sel@, 0) is None && text::texts(v@) == Seq::new(
                sel@.len(),
                |k: int| a.linked@[k]->Ok_0@,
            ),
        },
{
    let mut out: Vec<String> = Vec::new();
    let mut k: usize = 0;
    while k < sel.len()
        invariant
            k <= sel@.len(),
            out@.len() == k,
            forall|j: int| 0 <= j < sel@.len() ==> (#[trigger] sel@[j]) < es@.len(),
            linking(*i, *a, es@, sel@, 0) == linking(*i, *a, es@, sel@, k as nat),
            forall|j: int| 0 <= j < k ==> (#[trigger] out@[j])@ == a.linked@[j]->Ok_0@,
        decreases sel@.len() - k,
    {
        let e: usize = sel[k];
        if k >= a.linked.len() {
            return Err(PourStep::Need(PourAsk::Link { entry: e, target: target_dir(i) }));
        }
        match &a.linked[k] {
            Err(LinkError::Coords(d)) => {
                return Err(
                    PourStep::Done(
                        Err(
                            PourError::BadCoords {
                                coord: es[e].coords.clone(),
                                detail: d.clone(),
                            },
                        ),
                    ),
                );
            },
            Err(LinkError::Mirror(d)) => {
                return Err(
                    PourStep::Done(
                        Err(
                            PourError::Mirror {
                                coord: lockfile::format_coord(&es[e]),
                                detail: d.clone(),
                            },
                        ),
                    ),
                );
            },
            Ok(p) => {
                out.push(p.clone());
            },
        }
        k = k + 1;
    }
    assert(text::texts(out@) =~= Seq::new(sel@.len(), |k: int| a.linked@[k]->Ok_0@));
    Ok(out)
}

/// What a pour does next.
pub fn run_inner(i: &PourInputs, a: &PourAnswers) -> (r: PourStep)
    ensures
        step_model(r) == pour(*i, *a),
{
    let lf = match &a.on_disk {
        None => return PourStep::Need(
            PourAsk::ReadLockfile(paths::join(i.project_root.as_str(), lockfile::LOCKFILE_LEAF)),
        ),
        Some(Err(d)) => return PourStep::Done(Err(PourError::Lockfile(d.clone()))),
        Some(Ok(None)) => return PourStep::Done(
            Err(
                PourError::NoLockfile {
                    expected_at: paths::join(i.project_root.as_str(), lockfile::LOCKFILE_LEAF),
                    hint: NO_LOCKFILE_HINT.to_owned(),
                },
            ),
        ),
        Some(Ok(Some(lf))) => lf,
    };
    let scope = scope_str(i.scope);
    let sel = pick(&lf.entries, scope);
    let considered: usize = lf.entries.len();
    let planned: usize = sel.len();
    if i.dry_run {
        return match plan_dry_run(i, a, &lf.entries, &sel) {
            Err(s) => s,
            Ok(planned_paths) => PourStep::Done(
                Ok(
                    PourReport {
                        target: target_dir(i),
                        scope: scope.to_owned(),
                        considered,
                        planned,
                        materialized: 0,
                        dry_run: true,
                        planned_paths,
                    },
                ),
            ),
        };
    }
    match &a.opened {
        None => return PourStep::Need(PourAsk::OpenCas(i.cache_dir.clone())),
        Some(Err(d)) => return PourStep::Done(
            Err(PourError::CasOpen { path: i.cache_dir.clone(), detail: d.clone() }),
        ),
        Some(Ok(_)) => {},
    }
    let coords = match check_cache(a, &lf.entries, &sel) {
        Err(s) => return s,
        Ok(v) => v,
    };
    assert(text::texts(coords@).len() == coords@.len());
    if coords.len() > 0 {
        return PourStep::Done(Err(PourError::NotInCache { coords }));
    }
    match link_all(i, a, &lf.entries, &sel) {
        Err(s) => s,
        Ok(planned_paths) => PourStep::Done(
            Ok(
                PourReport {
                    target: target_dir(i),
                    scope: scope.to_owned(),
                    considered,
                    planned,
                    materialized: planned,
                    dry_run: false,
                    planned_paths,
                },
            ),
        ),
    }
}

// ---------------------------------------------------------------------------
// Setting up
// ---------------------------------------------------------------------------

/// The directories of the configuration.
#[derive(Debug)]
pub struct PourDirs {
    pub m2_repository: String,
    pub cache_dir: String,
}

/// What is done before the lockfile is read.
#[derive(Debug)]
pub enum PourSetup {
    ResolveRoot,
    /// Load the configuration; the project's own file is given.
    LoadConfig(String),
    Failed(PourError),
    Ready(ProjectRoot, PourDirs),
}

/// What is done before the lockfile is read: the root, then the configuration, whose file
/// `--config` may have named.
pub fn setup(
    named: &Option<String>,
    root: Option<Result<ProjectRoot, ResolveError>>,
    config: Option<Result<PourDirs, String>>,
) -> (r: PourSetup)
    ensures
        match root {
            None => r is ResolveRoot,
            Some(Err(e)) => r matches PourSetup::Failed(f) && f@ == PourFault::Project(e@),
            Some(Ok(p)) => match config {
                None => r matches PourSetup::LoadConfig(c) && c@ == project::config_path(
                    text::opt_text(*named),
                    p.root@,
                ),
                Some(Err(d)) => r matches PourSetup::Failed(f) && f@ == PourFault::Config(d@),
                Some(Ok(dirs)) => r == PourSetup::Ready(p, dirs),
            },
        },
{
    let p = match root {
        None => return PourSetup::ResolveRoot,
        Some(Err(e)) => return PourSetup::Failed(PourError::Project(e)),
        Some(Ok(p)) => p,
    };
    match config {
        None => PourSetup::LoadConfig(project::project_config(named, p.root.as_str())),
        Some(Err(d)) => PourSetup::Failed(PourError::Config(d)),
        Some(Ok(dirs)) => PourSetup::Ready(p, dirs),
    }
}

// ---------------------------------------------------------------------------
// Laws
// ---------------------------------------------------------------------------

/// The entries that are picked are those of the scope, each once and in the lockfile's order.
pub proof fn picked_is_the_scope(es: Seq<LockfileEntry>, scope: Seq<char>, k: nat)
    requires
        k <= es.len() <= usize::MAX,
    ensures
        forall|j: int, m: int|
            0 <= j < m < picked(es, scope, k).len() ==> (#[trigger] picked(es, scope, k)[j])
                < #[trigger] picked(es, scope, k)[m],
        forall|j: int|
            0 <= j < picked(es, scope, k).len() ==> (#[trigger] picked(es, scope, k)[j]) < k
                && text::lowered(es[picked(es, scope, k)[j] as int].scope@) == text::lowered(
                scope,
            ),
        forall|e: usize|
            e < k && text::lowered(es[e as int].scope@) == text::lowered(scope)
                ==> #[trigger] picked(es, scope, k).contains(e),
    decreases k,
{
    if k > 0 {
        picked_is_the_scope(es, scope, (k - 1) as nat);
        let before = picked(es, scope, (k - 1) as nat);
        let now = picked(es, scope, k);
        assert forall|e: usize|
            e < k && text::lowered(es[e as int].scope@) == text::lowered(
                scope,
            ) implies #[trigger] now.contains(e) by {
            if e < k - 1 {
                assert(before.contains(e));
                let j = choose|j: int| 0 <= j < before.len() && before[j] == e;
                assert(now[j] == e);
            } else {
                assert(now[now.len() - 1] == e);
            }
        }
    }
}

/// The steps of the picked entries from `k` on ask for nothing but their own kind.
proof fn steps_keep_their_kind(
    i: PourInputs,
    a: PourAnswers,
    es: Seq<LockfileEntry>,
    sel: Seq<usize>,
    k: nat,
)
    ensures
        planning(i, a, es, sel, k) matches Some(s) ==> !(s is Finished) && (s matches
            StepModel::Need(n) ==> n is Plan),
        checking(a, es, sel, k) matches Some(s) ==> !(s is Finished) && (s matches StepModel::Need(
            n,
        ) ==> n is Contains),
        linking(i, a, es, sel, k) matches Some(s) ==> !(s is Finished) && (s matches
            StepModel::Need(n) ==> n is Link),
    decreases sel.len() - k,
{
    if k < sel.len() {
        steps_keep_their_kind(i, a, es, sel, k + 1);
    }
}

/// A dry run opens no cache and links nothing, and reports nothing as materialized.
pub proof fn dry_run_changes_nothing(i: PourInputs, a: PourAnswers)
    requires
        i.dry_run,
    ensures
        pour(i, a) matches StepModel::Need(n) ==> n is ReadLockfile || n is Plan,
        pour(i, a) matches StepModel::Finished(r) ==> r.materialized == 0 && r.dry_run,
{
    match a.on_disk {
        Some(Ok(Some(lf))) => {
            steps_keep_their_kind(
                i,
                a,
                lf.entries@,
                picked(lf.entries@, scope_name(i.scope), lf.entries@.len()),
                0,
            );
        },
        _ => {},
    }
}

/// Nothing is linked while an artifact of the scope is missing from the cache: the run fails
/// and names every missing one.
pub proof fn nothing_is_linked_while_one_is_missing(
    i: PourInputs,
    a: PourAnswers,
    lf: Lockfile,
    sel: Seq<usize>,
)
    requires
        a.on_disk == Some(Ok::<Option<Lockfile>, String>(Some(lf))),
        sel == picked(lf.entries@, scope_name(i.scope), lf.entries@.len()),
        checking(a, lf.entries@, sel, 0) is Some || missing(a, lf.entries@, sel, sel.len()).len()
            > 0,
    ensures
        !(pour(i, a) matches StepModel::Need(AskModel::Link { .. })),
        !i.dry_run && checking(a, lf.entries@, sel, 0) is None && (a.opened matches Some(Ok(_)))
            ==> pour(i, a) == StepModel::Failed(
            (PourFault::NotInCache { coords: missing(a, lf.entries@, sel, sel.len()) }),
        ),
{
    steps_keep_their_kind(i, a, lf.entries@, sel, 0);
}

/// Every planned entry of a finished run has its path, and a real run materialized them all.
pub proof fn report_counts_agree(i: PourInputs, a: PourAnswers)
    ensures
        pour(i, a) matches StepModel::Finished(r) ==> r.planned_paths.len() == r.planned && (
        !r.dry_run ==> r.materialized == r.planned),
{
    match a.on_disk {
        Some(Ok(Some(lf))) => {
            steps_keep_their_kind(
                i,
                a,
                lf.entries@,
                picked(lf.entries@, scope_name(i.scope), lf.entries@.len()),
                0,
            );
        },
        _ => {},
    }
}

/// How many of the first `k` entries are of the scope `name`, in any case of its letters.
pub open spec fn of_scope(es: Seq<LockfileEntry>, name: Seq<char>, k: nat) -> nat
    decreases k,
{
    if k == 0 {
        0
    } else {
        of_scope(es, name, (k - 1) as nat) + (if text::reads_as(es[k - 1].scope@, name) {
            1nat
        } else {
            0
        })
    }
}

/// Whether `entry` is the one that comes after `done` others of the scope `name`.
pub open spec fn is_next_of_scope(
    es: Seq<LockfileEntry>,
    name: Seq<char>,
    done: nat,
    entry: usize,
) -> bool {
    &&& entry < es.len()
    &&& text::reads_as(es[entry as int].scope@, name)
    &&& of_scope(es, name, entry as nat) == done
}

/// Whether a step of a pour is about the scope `name` and nothing else: what is planned, looked
/// up or linked next is the next entry of that scope, and a run is finished only when all of
/// them were, and counts them.
pub open spec fn is_about(i: PourInputs, a: PourAnswers, lf: Lockfile, name: Seq<char>) -> bool {
    let es = lf.entries@;
    match pour(i, a) {
        StepModel::Need(AskModel::Plan { entry, target }) => i.dry_run && is_next_of_scope(
            es,
            name,
            a.planned@.len(),
            entry,
        ) && target == target_of(i),
        StepModel::Need(AskModel::Contains { entry }) => !i.dry_run && is_next_of_scope(
            es,
            name,
            a.present@.len(),
            entry,
        ),
        StepModel::Need(AskModel::Link { entry, target }) => !i.dry_run && is_next_of_scope(
            es,
            name,
            a.linked@.len(),
            entry,
        ) && target == target_of(i) && a.present@.len() >= of_scope(es, name, es.len()) && forall|
            k: int,
        |
            0 <= k < of_scope(es, name, es.len()) ==> #[trigger] a.present@[k] == Ok::<bool, String>(
                true,
            ),
        StepModel::Finished(r) => {
            &&& r.scope == name
            &&& r.considered == es.len()
            &&& r.planned == of_scope(es, name, es.len())
            &&& r.target == target_of(i)
            &&& r.dry_run == i.dry_run
            &&& r.materialized == (if i.dry_run {
                0
            } else {
                r.planned
            })
            &&& i.dry_run ==> a.planned@.len() >= r.planned && forall|k: int|
                0 <= k < r.planned ==> (#[trigger] r.planned_paths[k]) == a.planned@[k]->Ok_0@
            &&& !i.dry_run ==> a.linked@.len() >= r.planned && forall|k: int|
                0 <= k < r.planned ==> (#[trigger] r.planned_paths[k]) == a.linked@[k]->Ok_0@
        },
        StepModel::Need(AskModel::ReadLockfile(_)) => false,
        _ => true,
    }
}

/// The picked entries, counted: the one at place `j` comes after `j` others of its scope.
proof fn picked_are_counted(es: Seq<LockfileEntry>, name: Seq<char>, k: nat)
    requires
        k <= es.len() <= usize::MAX,
        text::is_lower_word(name),
    ensures
        picked(es, name, k).len() == of_scope(es, name, k),
        forall|j: int|
            0 <= j < picked(es, name, k).len() ==> is_next_of_scope(
                es,
                name,
                j as nat,
                #[trigger] picked(es, name, k)[j],
            ),
    decreases k,
{
    if k > 0 {
        picked_are_counted(es, name, (k - 1) as nat);
        text::case_does_not_matter(es[k - 1].scope@, name);
        let before = picked(es, name, (k - 1) as nat);
        let now = picked(es, name, k);
        assert forall|j: int| 0 <= j < now.len() implies is_next_of_scope(
            es,
            name,
            j as nat,
            #[trigger] now[j],
        ) by {
            if j < before.len() {
                assert(now[j] == before[j]);
            }
        }
    }
}

/// The plan, look-up or link that is waited for is that of the first entry without an answer.
proof fn first_without_an_answer(
    i: PourInputs,
    a: PourAnswers,
    es: Seq<LockfileEntry>,
    sel: Seq<usize>,
    k: nat,
)
    ensures
        k <= a.planned@.len() ==> (planning(i, a, es, sel, k) matches Some(
            StepModel::Need(AskModel::Plan { entry, target }),
        ) ==> k <= a.planned@.len() < sel.len() && entry == sel[a.planned@.len() as int] && target
            == target_of(i)),
        k <= a.present@.len() ==> (checking(a, es, sel, k) matches Some(
            StepModel::Need(AskModel::Contains { entry }),
        ) ==> k <= a.present@.len() < sel.len() && entry == sel[a.present@.len() as int]),
        k <= a.linked@.len() ==> (linking(i, a, es, sel, k) matches Some(
            StepModel::Need(AskModel::Link { entry, target }),
        ) ==> k <= a.linked@.len() < sel.len() && entry == sel[a.linked@.len() as int] && target
            == target_of(i)),
        k <= sel.len() && planning(i, a, es, sel, k) is None && k <= a.planned@.len()
            ==> a.planned@.len() >= sel.len(),
        k <= sel.len() && checking(a, es, sel, k) is None && k <= a.present@.len()
            ==> a.present@.len() >= sel.len() && forall|m: int|
            k <= m < sel.len() ==> (#[trigger] a.present@[m]) is Ok,
        k <= sel.len() && linking(i, a, es, sel, k) is None && k <= a.linked@.len()
            ==> a.linked@.len() >= sel.len(),
    decreases sel.len() - k,
{
    if k < sel.len() {
        first_without_an_answer(i, a, es, sel, k + 1);
    }
}

/// Where nothing is missing, the cache holds every picked entry.
proof fn nothing_missing_means_all_present(
    a: PourAnswers,
    es: Seq<LockfileEntry>,
    sel: Seq<usize>,
    k: nat,
)
    ensures
        missing(a, es, sel, k).len() == 0 ==> forall|m: int|
            0 <= m < k ==> (#[trigger] a.present@[m])->Ok_0,
        missing(a, es, sel, k).len() > 0 ==> exists|m: int|
            0 <= m < k && !((#[trigger] a.present@[m])->Ok_0),
    decreases k,
{
    if k > 0 {
        nothing_missing_means_all_present(a, es, sel, (k - 1) as nat);
        let last = a.present@[k - 1];
    }
}

proof fn scope_words()
    ensures
        text::is_lower_word("compile"@),
        text::is_lower_word("runtime"@),
        text::is_lower_word("test"@),
        text::is_lower_word("provided"@),
        text::is_lower_word("system"@),
{
    reveal_strlit("compile");
    reveal_strlit("runtime");
    reveal_strlit("test");
    reveal_strlit("provided");
    reveal_strlit("system");
}

/// A pour of a scope plans, looks up and links exactly the entries of the lockfile whose scope
/// reads as that scope's name, in their order, and no entry of another scope; it reports the
/// scope by that name. An entry is linked only once the cache is known to hold them all.
pub proof fn only_the_asked_scope_is_poured(i: PourInputs, a: PourAnswers, lf: Lockfile)
    requires
        a.on_disk == Some(Ok::<Option<Lockfile>, String>(Some(lf))),
    ensures
        i.scope == ScopeArg::Compile ==> is_about(i, a, lf, "compile"@),
        i.scope == ScopeArg::Runtime ==> is_about(i, a, lf, "runtime"@),
        i.scope == ScopeArg::Test ==> is_about(i, a, lf, "test"@),
        i.scope == ScopeArg::Provided ==> is_about(i, a, lf, "provided"@),
        i.scope == ScopeArg::System ==> is_about(i, a, lf, "system"@),
{
    scope_words();
    let es = lf.entries@;
    assert(es.len() == lf.entries.len());
    let name = scope_name(i.scope);
    let sel = picked(es, name, es.len());
    picked_are_counted(es, name, es.len());
    first_without_an_answer(i, a, es, sel, 0);
    steps_keep_their_kind(i, a, es, sel, 0);
    nothing_missing_means_all_present(a, es, sel, sel.len());
    assert(is_about(i, a, lf, name)) by {
        match pour(i, a) {
            StepModel::Need(AskModel::Plan { entry, .. }) => {
                assert(sel[a.planned@.len() as int] == entry);
            },
            StepModel::Need(AskModel::Contains { entry }) => {
                assert(sel[a.present@.len() as int] == entry);
            },
            StepModel::Need(AskModel::Link { entry, .. }) => {
                assert(sel[a.linked@.len() as int] == entry);
                assert forall|k: int| 0 <= k < sel.len() implies #[trigger] a.present@[k] == Ok::<
                    bool,
                    String,
                >(true) by {
                    assert(a.present@[k] is Ok);
                    assert(a.present@[k]->Ok_0);
                }
            },
            _ => {},
        }
    }
}

/// The scopes have different names, so that no entry is of two of them.
pub proof fn scopes_do_not_overlap(a: ScopeArg, b: ScopeArg, t: Seq<char>)
    requires
        text::reads_as(t, scope_name(a)),
        text::reads_as(t, scope_name(b)),
    ensures
        a == b,
{
    scope_words();
    reveal_strlit("compile");
    reveal_strlit("runtime");
    reveal_strlit("test");
    reveal_strlit("provided");
    reveal_strlit("system");
    let x = scope_name(a);
    let y = scope_name(b);
    assert(x.len() == t.len() && y.len() == t.len());
    assert(t[0] == x[0] || t[0] as u32 + 32 == x[0] as u32);
    assert(t[0] == y[0] || t[0] as u32 + 32 == y[0] as u32);
}

/// A pour reads the lockfile of its project, fills the directory that was named, else the local
/// repository, and opens the cache of the configuration; a dry run opens none.
pub proof fn pour_works_in_its_directories(i: PourInputs, a: PourAnswers)
    ensures
        a.on_disk is None ==> pour(i, a) == StepModel::Need(
            AskModel::ReadLockfile(paths::joined_path(i.project_root@, "barista.lock"@)),
        ),
        pour(i, a) matches StepModel::Need(AskModel::OpenCas(p)) ==> p == i.cache_dir@
            && !i.dry_run && a.opened is None,
        i.target matches Some(t) ==> target_of(i) == t@,
        i.target is None ==> target_of(i) == i.m2_repository@,
        a.on_disk matches Some(Ok(None)) ==> pour(i, a) == StepModel::Failed(
            (PourFault::NoLockfile {
                expected_at: paths::joined_path(i.project_root@, "barista.lock"@),
                hint: NO_LOCKFILE_HINT@,
            }),
        ),
        a.on_disk matches Some(Err(d)) ==> pour(i, a) == StepModel::Failed(
            PourFault::Lockfile(d@),
        ),
{
    match a.on_disk {
        Some(Ok(Some(lf))) => {
            steps_keep_their_kind(
                i,
                a,
                lf.entries@,
                picked(lf.entries@, scope_name(i.scope), lf.entries@.len()),
                0,
            );
        },
        _ => {},
    }
}

/// The names of what is missing are those of the looked-up entries that the cache does not
/// hold, all of them and no others.
pub proof fn missing_names_what_is_not_held(
    a: PourAnswers,
    es: Seq<LockfileEntry>,
    sel: Seq<usize>,
    k: nat,
    c: Seq<char>,
)
    ensures
        missing(a, es, sel, k).contains(c) <==> exists|m: int|
            0 <= m < k && !((#[trigger] a.present@[m])->Ok_0) && c == lockfile::coord_text(
                es[sel[m] as int]@,
            ),
    decreases k,
{
    if k > 0 {
        let below = (k - 1) as nat;
        missing_names_what_is_not_held(a, es, sel, below, c);
        let before = missing(a, es, sel, below);
        let now = missing(a, es, sel, k);
        let last = a.present@[k - 1];
        if !(last->Ok_0) {
            let own = lockfile::coord_text(es[sel[k - 1] as int]@);
            assert(now == before.push(own));
            assert(now[before.len() as int] == own);
            if before.contains(c) {
                let j = choose|j: int| 0 <= j < before.len() && before[j] == c;
                assert(now[j] == c);
            }
            if now.contains(c) {
                let j = choose|j: int| 0 <= j < now.len() && now[j] == c;
                if j < before.len() {
                    assert(before[j] == c);
                }
            }
        }
        if before.contains(c) {
            let m = choose|m: int|
                0 <= m < below && !((#[trigger] a.present@[m])->Ok_0) && c == lockfile::coord_text(
                    es[sel[m] as int]@,
                );
            assert(0 <= m < k && !(a.present@[m]->Ok_0));
        }
    }
}

/// What the user can mend is told apart from what they cannot: a project, lockfile or cache
/// that is not ready, against a failure of the work itself.
pub proof fn preconditions_are_told_apart(e: PourFault)
    ensures
        !precondition(e) <==> e is Config || e is Lockfile || e is CasOpen || e is Mirror,
{
}

/// The names of two scopes are equal up to case only where the scopes are the same.
pub proof fn names_are_told_apart(a: ScopeArg, b: ScopeArg)
    ensures
        text::lowered(scope_name(a)) == text::lowered(scope_name(b)) <==> a == b,
{
    scope_words();
    text::case_does_not_matter(scope_name(a), scope_name(b));
    text::case_does_not_matter(scope_name(a), scope_name(a));
    if text::lowered(scope_name(a)) == text::lowered(scope_name(b)) {
        scopes_do_not_overlap(a, b, scope_name(a));
    }
}

/// A pour that did its work exits with 0 and says what it did unless told to be quiet; one that
/// could not start exits with 2 and one that broke off with 1, and both say why.
pub proof fn pour_tells_how_it_went(
    outcome: &Result<PourReport, PourError>,
    quiet: bool,
    r: (Option<String>, i32),
)
    requires
        call_ensures(run, (outcome, quiet), r),
    ensures
        *outcome is Ok <==> r.1 == 0,
        *outcome is Ok ==> (r.0 is None <==> quiet),
        *outcome is Err ==> r.0 is Some,
        *outcome matches Err(e) ==> (r.1 == 2 <==> precondition(e@)) && (r.1 == 1
            <==> !precondition(e@)),
{
}

/// The name of a scope is the one that lockfiles use.
pub proof fn scopes_have_their_lockfile_names(s: ScopeArg, r: &'static str)
    requires
        call_ensures(scope_str, (s,), r),
    ensures
        s == ScopeArg::Compile ==> r@ == "compile"@,
        s == ScopeArg::Runtime ==> r@ == "runtime"@,
        s == ScopeArg::Test ==> r@ == "test"@,
        s == ScopeArg::Provided ==> r@ == "provided"@,
        s == ScopeArg::System ==> r@ == "system"@,
{
}

/// A pour settles its root first, then its configuration; whatever fails is reported as what
/// it was, and what was settled is what it works on.
pub proof fn pour_is_set_up_in_order(
    named: &Option<String>,
    root: Option<Result<ProjectRoot, ResolveError>>,
    config: Option<Result<PourDirs, String>>,
    r: PourSetup,
)
    requires
        call_ensures(setup, (named, root, config), r),
    ensures
        r is ResolveRoot <==> root is None,
        r is LoadConfig <==> (root matches Some(Ok(_))) && config is None,
        r matches PourSetup::Ready(p, dirs) ==> root == Some(Ok::<ProjectRoot, ResolveError>(p))
            && config == Some(Ok::<PourDirs, String>(dirs)),
        root matches Some(Err(e)) ==> (r matches PourSetup::Failed(f) && f@ is Project),
        (root matches Some(Ok(_))) && (config matches Some(Err(_))) ==> (
        r matches PourSetup::Failed(f) && f@ is Config),
{
}

/// What is said of a report or a step is said of what it holds.
pub proof fn models_are_of_their_reports(r: PourReport, e: PourError, entry: usize, path: String)
    ensures
        report_model(r).target == r.target@,
        report_model(r).scope == r.scope@,
        report_model(r).considered == r.considered,
        report_model(r).planned == r.planned,
        report_model(r).materialized == r.materialized,
        report_model(r).dry_run == r.dry_run,
        report_model(r).planned_paths == text::texts(r.planned_paths@),
        step_model(PourStep::Done(Ok(r))) == StepModel::Finished(report_model(r)),
        step_model(PourStep::Done(Err(e))) == StepModel::Failed(e@),
        step_model(PourStep::Need(PourAsk::OpenCas(path))) == StepModel::Need(
            AskModel::OpenCas(path@),
        ),
        step_model(PourStep::Need(PourAsk::ReadLockfile(path))) == StepModel::Need(
            AskModel::ReadLockfile(path@),
        ),
        e is Project <==> e@ is Project,
        e is Config <==> e@ is Config,
        e is Lockfile <==> e@ is Lockfile,
        e is CasOpen <==> e@ is CasOpen,
        e matches PourError::NoLockfile { expected_at, hint } ==> (e@ matches PourFault::NoLockfile {
            expected_at: a,
            hint: h,
        } && a == expected_at@ && h == hint@),
        e matches PourError::NotInCache { coords } ==> (e@ matches PourFault::NotInCache {
            coords: cs,
        } && cs == text::texts(coords@)),
        e matches PourError::BadHash { coord, detail } ==> (e@ matches PourFault::BadHash {
            coord: c,
            detail: d,
        } && c == coord@ && d == detail@),
        e matches PourError::BadCoords { coord, detail } ==> (e@ matches PourFault::BadCoords {
            coord: c,
            detail: d,
        } && c == coord@ && d == detail@),
        e matches PourError::Mirror { coord, detail } ==> (e@ matches PourFault::Mirror {
            coord: c,
            detail: d,
        } && c == coord@ && d == detail@),
{
}

/// An error says what was being done, to which artifact or file, and ends with what went
/// wrong; missing artifacts are counted and named, each on its own line.
pub proof fn errors_tell_what_went_wrong(e: PourFault)
    ensures
        e matches PourFault::Config(d) ==> text::is_beginning_and_end(
            fault_text(e),
            "config load: "@,
            d,
        ),
        e matches PourFault::Lockfile(d) ==> text::is_beginning_and_end(
            fault_text(e),
            "lockfile: "@,
            d,
        ),
        e matches PourFault::NoLockfile { expected_at, hint } ==> text::is_beginning_and_end(
            fault_text(e),
            "no barista.lock at "@ + text::quoted_path_text(expected_at) + "\n  hint: "@,
            hint,
        ),
        e matches PourFault::CasOpen { path, detail } ==> text::is_beginning_and_end(
            fault_text(e),
            "opening cache at "@ + text::quoted_path_text(path) + ": "@,
            detail,
        ),
        e matches PourFault::BadHash { coord, detail } ==> text::is_beginning_and_end(
            fault_text(e),
            "bad sha256 on entry "@ + coord + ": "@,
            detail,
        ),
        e matches PourFault::BadCoords { coord, detail } ==> text::is_beginning_and_end(
            fault_text(e),
            "invalid coords "@ + text::quoted_text(coord) + ": "@,
            detail,
        ),
        e matches PourFault::Mirror { coord, detail } ==> text::is_beginning_and_end(
            fault_text(e),
            "materializing "@ + coord + ": "@,
            detail,
        ),
        e matches PourFault::NotInCache { coords } ==> text::is_beginning_and_end(
            fault_text(e),
            text::dec(coords.len())
                + " artifact(s) missing from the local cache; run `barista pull` to fetch them:\n  - "@,
            text::joined(coords, "\n  - "@),
        ),
{
    match e {
        PourFault::Config(d) => text::two_parts_are_beginning_and_end("config load: "@, d),
        PourFault::Lockfile(d) => text::two_parts_are_beginning_and_end("lockfile: "@, d),
        PourFault::NoLockfile { expected_at, hint } => text::two_parts_are_beginning_and_end(
            "no barista.lock at "@ + text::quoted_path_text(expected_at) + "\n  hint: "@,
            hint,
        ),
        PourFault::CasOpen { path, detail } => text::two_parts_are_beginning_and_end(
            "opening cache at "@ + text::quoted_path_text(path) + ": "@,
            detail,
        ),
        PourFault::BadHash { coord, detail } => text::two_parts_are_beginning_and_end(
            "bad sha256 on entry "@ + coord + ": "@,
            detail,
        ),
        PourFault::BadCoords { coord, detail } => text::two_parts_are_beginning_and_end(
            "invalid coords "@ + text::quoted_text(coord) + ": "@,
            detail,
        ),
        PourFault::Mirror { coord, detail } => text::two_parts_are_beginning_and_end(
            "materializing "@ + coord + ": "@,
            detail,
        ),
        PourFault::NotInCache { coords } => text::two_parts_are_beginning_and_end(
            text::dec(coords.len())
                + " artifact(s) missing from the local cache; run `barista pull` to fetch them:\n  - "@,
            text::joined(coords, "\n  - "@),
        ),
        _ => {},
    }
}

} // verus!
