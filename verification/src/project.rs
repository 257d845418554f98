//! Project-root resolution.
//!
//! The directory that holds the top-level `pom.xml` comes from, in this order:
//!
//! 1. an explicit `--root <dir>`;
//! 2. an explicit `-f` / `--file <pom>`, a file or a directory;
//! 3. a walk up from the current directory, which never leaves the directory
//!    that holds `.git`;
//! 4. the root recorded in `~/.barista/run/last-project`.
//!
//! The resolver reads no file itself: it decides over recorded [`Facts`] and names
//! the next one it needs.

use vstd::prelude::*;
use vstd::string::*;

use crate::facts;
use crate::facts::{Facts, Lookup, PathKind, ReadOutcome};
use crate::paths;
use crate::text;

verus! {

/// A resolved project.
#[derive(Debug)]
pub struct ProjectRoot {
    /// The directory that holds `pom.xml`.
    pub root: String,
    /// The project's `pom.xml`.
    pub pom: String,
    /// How the root was found.
    pub source: RootSource,
}

/// How a [`ProjectRoot`] was found.
#[derive(Debug, Clone, Copy, PartialEq, Eq, Structural)]
pub enum RootSource {
    /// `--root <dir>`.
    ExplicitRoot,
    /// `-f <file>` or `--file <file>`.
    ExplicitFile,
    /// The walk up from the current directory.
    WalkUp,
    /// `~/.barista/run/last-project`.
    Sticky,
}

/// Why no root was found.
#[derive(Debug)]
pub enum ResolveError {
    /// No strategy found a `pom.xml`; the search started in `dir`.
    NoPomFound { dir: String },
    /// `--root` does not name a directory.
    RootNotDirectory { root: String },
    /// The named directory holds no `pom.xml`.
    RootMissingPom { root: String },
    /// `--file` names nothing.
    FileMissing { file: String },
    /// Reading failed.
    Io { path: String, source: String },
    /// The home directory is not known.
    NoHome,
}

/// The inputs of [`resolve_project_root`].
#[derive(Debug)]
pub struct ResolveInputs {
    /// `--root <dir>`.
    pub root: Option<String>,
    /// `-f` / `--file <pom>`.
    pub file: Option<String>,
    /// The current directory to use in place of the process's own.
    pub cwd_override: Option<String>,
    /// The home directory to use in place of `$HOME`.
    pub home_override: Option<String>,
    /// Leave out the recorded root.
    pub skip_sticky: bool,
    /// The process's current directory, or why it has none.
    pub process_cwd: Result<String, String>,
    /// `$HOME`.
    pub process_home: Option<String>,
}

// ---------------------------------------------------------------------------
// Model
// ---------------------------------------------------------------------------

/// The model of [`ProjectRoot`].
pub struct RootModel {
    pub root: Seq<char>,
    pub pom: Seq<char>,
    pub source: RootSource,
}

/// The model of [`ResolveError`].
pub enum ResolveFault {
    NoPomFound { dir: Seq<char> },
    RootNotDirectory { root: Seq<char> },
    RootMissingPom { root: Seq<char> },
    FileMissing { file: Seq<char> },
    Io { path: Seq<char>, source: Seq<char> },
    NoHome,
}

impl View for ProjectRoot {
    type V = RootModel;

    open spec fn view(&self) -> RootModel {
        RootModel { root: self.root@, pom: self.pom@, source: self.source }
    }
}

impl View for ResolveError {
    type V = ResolveFault;

    open spec fn view(&self) -> ResolveFault {
        match self {
            ResolveError::NoPomFound { dir } => ResolveFault::NoPomFound { dir: dir@ },
            ResolveError::RootNotDirectory { root } => ResolveFault::RootNotDirectory {
                root: root@,
            },
            ResolveError::RootMissingPom { root } => ResolveFault::RootMissingPom { root: root@ },
            ResolveError::FileMissing { file } => ResolveFault::FileMissing { file: file@ },
            ResolveError::Io { path, source } => ResolveFault::Io {
                path: path@,
                source: source@,
            },
            ResolveError::NoHome => ResolveFault::NoHome,
        }
    }
}

/// What a resolution came to, as far as the facts reach.
pub type Resolution = facts::Answer<Result<RootModel, ResolveFault>>;

/// The `pom.xml` of a directory.
pub open spec fn pom_of(dir: Seq<char>) -> Seq<char> {
    paths::joined_path(dir, "pom.xml"@)
}

/// The `.git` of a directory.
pub open spec fn git_of(dir: Seq<char>) -> Seq<char> {
    paths::joined_path(dir, ".git"@)
}

/// The file that records the last project's root.
pub open spec fn sticky_of(home: Seq<char>) -> Seq<char> {
    paths::joined_path(
        paths::joined_path(paths::joined_path(home, ".barista"@), "run"@),
        "last-project"@,
    )
}

/// The current directory of a resolution.
pub open spec fn cwd_of(i: ResolveInputs) -> Result<Seq<char>, ResolveFault> {
    match i.cwd_override {
        Some(c) => Ok(c@),
        None => match i.process_cwd {
            Ok(c) => Ok(c@),
            Err(e) => Err(ResolveFault::Io { path: Seq::empty(), source: e@ }),
        },
    }
}

/// The home directory of a resolution.
pub open spec fn home_of(i: ResolveInputs) -> Option<Seq<char>> {
    match i.home_override {
        Some(h) => Some(h@),
        None => text::opt_text(i.process_home),
    }
}

/// A path of the command line, taken from the current directory where it is relative.
pub open spec fn absolute_form(p: Seq<char>, i: ResolveInputs) -> Result<Seq<char>, ResolveFault> {
    if paths::absolute(p) {
        Ok(p)
    } else {
        match cwd_of(i) {
            Ok(c) => Ok(paths::joined_path(c, p)),
            Err(e) => Err(e),
        }
    }
}

pub open spec fn found(root: Seq<char>, pom: Seq<char>, source: RootSource) -> Resolution {
    facts::Answer::Known(Ok(RootModel { root, pom, source }))
}

pub open spec fn failed(e: ResolveFault) -> Resolution {
    facts::Answer::Known(Err(e))
}

/// What `--root root` comes to.
pub open spec fn by_root(root: Seq<char>, i: ResolveInputs, f: Facts) -> Resolution {
    match absolute_form(root, i) {
        Err(e) => failed(e),
        Ok(dir) => match f.kind_at(dir) {
            None => facts::Answer::NeedKind(dir),
            Some(k) => if k != PathKind::Dir {
                failed(ResolveFault::RootNotDirectory { root: dir })
            } else {
                match f.kind_at(pom_of(dir)) {
                    None => facts::Answer::NeedKind(pom_of(dir)),
                    Some(k) => if k == PathKind::File {
                        found(dir, pom_of(dir), RootSource::ExplicitRoot)
                    } else {
                        failed(ResolveFault::RootMissingPom { root: dir })
                    },
                }
            },
        },
    }
}

/// What `--file file` comes to.
pub open spec fn by_file(file: Seq<char>, i: ResolveInputs, f: Facts) -> Resolution {
    match absolute_form(file, i) {
        Err(e) => failed(e),
        Ok(p) => match f.kind_at(p) {
            None => facts::Answer::NeedKind(p),
            Some(PathKind::Missing) => failed(ResolveFault::FileMissing { file: p }),
            Some(PathKind::Dir) => match f.kind_at(pom_of(p)) {
                None => facts::Answer::NeedKind(pom_of(p)),
                Some(k) => if k == PathKind::File {
                    found(p, pom_of(p), RootSource::ExplicitFile)
                } else {
                    failed(ResolveFault::RootMissingPom { root: p })
                },
            },
            Some(_) => found(
                match paths::parent_path(p) {
                    Some(q) => q,
                    None => seq!['/'],
                },
                p,
                RootSource::ExplicitFile,
            ),
        },
    }
}

/// Where a walk up ends.
pub enum Climb {
    /// At a directory with a `pom.xml`.
    Found(Seq<char>),
    /// At the `.git` boundary or the top.
    Ended,
    /// What stands at this path is not known.
    Need(Seq<char>),
}

/// The walk up from `dir`.
pub open spec fn climb(dir: Seq<char>, f: Facts) -> Climb
    decreases dir.len(),
{
    match f.kind_at(pom_of(dir)) {
        None => Climb::Need(pom_of(dir)),
        Some(PathKind::File) => Climb::Found(dir),
        Some(_) => match f.kind_at(git_of(dir)) {
            None => Climb::Need(git_of(dir)),
            Some(PathKind::Missing) => match paths::parent_path(dir) {
                None => Climb::Ended,
                Some(up) => {
                    proof {
                        paths::parent_is_shorter(dir);
                    }
                    climb(up, f)
                },
            },
            Some(_) => Climb::Ended,
        },
    }
}

/// What the recorded root comes to, where the walk up from `cwd` ended.
pub open spec fn by_sticky(cwd: Seq<char>, i: ResolveInputs, f: Facts) -> Resolution {
    let none = failed(ResolveFault::NoPomFound { dir: cwd });
    if i.skip_sticky {
        none
    } else {
        match home_of(i) {
            None => failed(ResolveFault::NoHome),
            Some(home) => match f.read_at(sticky_of(home)) {
                None => facts::Answer::NeedText(sticky_of(home)),
                Some(facts::ReadText::NotFound) => none,
                Some(facts::ReadText::Failed(e)) => failed(
                    ResolveFault::Io { path: sticky_of(home), source: e },
                ),
                Some(facts::ReadText::Text(t)) => {
                    let dir = text::trimmed(t);
                    match f.kind_at(dir) {
                        None => facts::Answer::NeedKind(dir),
                        Some(k) => if k != PathKind::Dir {
                            none
                        } else {
                            match f.kind_at(pom_of(dir)) {
                                None => facts::Answer::NeedKind(pom_of(dir)),
                                Some(k) => if k == PathKind::File {
                                    found(dir, pom_of(dir), RootSource::Sticky)
                                } else {
                                    none
                                },
                            }
                        },
                    }
                },
            },
        }
    }
}

/// The project root that the inputs name, as far as the facts reach.
pub open spec fn resolution(i: ResolveInputs, f: Facts) -> Resolution {
    match i.root {
        Some(root) => by_root(root@, i, f),
        None => match i.file {
            Some(file) => by_file(file@, i, f),
            None => match cwd_of(i) {
                Err(e) => failed(e),
                Ok(cwd) => match climb(cwd, f) {
                    Climb::Found(dir) => found(dir, pom_of(dir), RootSource::WalkUp),
                    Climb::Need(p) => facts::Answer::NeedKind(p),
                    Climb::Ended => by_sticky(cwd, i, f),
                },
            },
        },
    }
}

/// The model of what [`resolve_project_root`] returns.
pub open spec fn resolution_of(r: Lookup<Result<ProjectRoot, ResolveError>>) -> Resolution {
    match r {
        Lookup::Known(Ok(p)) => facts::Answer::Known(Ok(p@)),
        Lookup::Known(Err(e)) => facts::Answer::Known(Err(e@)),
        Lookup::NeedKind(p) => facts::Answer::NeedKind(p@),
        Lookup::NeedText(p) => facts::Answer::NeedText(p@),
    }
}

// ---------------------------------------------------------------------------
// Resolution
// ---------------------------------------------------------------------------

fn fail(e: ResolveError) -> (r: Lookup<Result<ProjectRoot, ResolveError>>)
    ensures
        resolution_of(r) == failed(e@),
{
    Lookup::Known(Err(e))
}

fn succeed(root: String, pom: String, source: RootSource) -> (r: Lookup<
    Result<ProjectRoot, ResolveError>,
>)
    ensures
        resolution_of(r) == found(root@, pom@, source),
{
    Lookup::Known(Ok(ProjectRoot { root, pom, source }))
}

fn current_dir(inputs: &ResolveInputs) -> (r: Result<String, ResolveError>)
    ensures
        match r {
            Ok(c) => cwd_of(*inputs) == Ok::<Seq<char>, ResolveFault>(c@),
            Err(e) => cwd_of(*inputs) == Err::<Seq<char>, ResolveFault>(e@),
        },
{
    match &inputs.cwd_override {
        Some(c) => Ok(c.clone()),
        None => match &inputs.process_cwd {
            Ok(c) => Ok(c.clone()),
            Err(e) => {
                let path = String::new();
                Err(ResolveError::Io { path, source: e.clone() })
            },
        },
    }
}

fn absolutize(p: &str, inputs: &ResolveInputs) -> (r: Result<String, ResolveError>)
    ensures
        match r {
            Ok(c) => absolute_form(p@, *inputs) == Ok::<Seq<char>, ResolveFault>(c@),
            Err(e) => absolute_form(p@, *inputs) == Err::<Seq<char>, ResolveFault>(e@),
        },
{
    if paths::is_absolute(p) {
        return Ok(p.to_owned());
    }
    match current_dir(inputs) {
        Ok(c) => Ok(paths::join(c.as_str(), p)),
        Err(e) => Err(e),
    }
}

/// The `pom.xml` of a directory.
pub fn pom_path(dir: &str) -> (r: String)
    ensures
        r@ == pom_of(dir@),
{
    paths::join(dir, "pom.xml")
}

/// The file that records the last project's root.
pub fn sticky_path(home: &str) -> (r: String)
    ensures
        r@ == sticky_of(home@),
{
    let run = paths::join(paths::join(home, ".barista").as_str(), "run");
    paths::join(run.as_str(), "last-project")
}

fn resolve_by_root(root: &str, inputs: &ResolveInputs, known: &Facts) -> (r: Lookup<
    Result<ProjectRoot, ResolveError>,
>)
    ensures
        resolution_of(r) == by_root(root@, *inputs, *known),
{
    let dir = match absolutize(root, inputs) {
        Ok(d) => d,
        Err(e) => return fail(e),
    };
    match known.kind(dir.as_str()) {
        None => return Lookup::NeedKind(dir),
        Some(k) => {
            if k != PathKind::Dir {
                return fail(ResolveError::RootNotDirectory { root: dir });
            }
        },
    }
    let pom = pom_path(dir.as_str());
    match known.kind(pom.as_str()) {
        None => Lookup::NeedKind(pom),
        Some(k) => {
            if k == PathKind::File {
                succeed(dir, pom, RootSource::ExplicitRoot)
            } else {
                fail(ResolveError::RootMissingPom { root: dir })
            }
        },
    }
}

fn resolve_by_file(file: &str, inputs: &ResolveInputs, known: &Facts) -> (r: Lookup<
    Result<ProjectRoot, ResolveError>,
>)
    ensures
        resolution_of(r) == by_file(file@, *inputs, *known),
{
    let path = match absolutize(file, inputs) {
        Ok(d) => d,
        Err(e) => return fail(e),
    };
    match known.kind(path.as_str()) {
        None => Lookup::NeedKind(path),
        Some(PathKind::Missing) => fail(ResolveError::FileMissing { file: path }),
        Some(PathKind::Dir) => {
            let pom = pom_path(path.as_str());
            match known.kind(pom.as_str()) {
                None => Lookup::NeedKind(pom),
                Some(k) => {
                    if k == PathKind::File {
                        succeed(path, pom, RootSource::ExplicitFile)
                    } else {
                        fail(ResolveError::RootMissingPom { root: path })
                    }
                },
            }
        },
        Some(_) => {
            let root = match paths::parent(path.as_str()) {
                Some(q) => q,
                None => {
                    proof {
                        reveal_strlit("/");
                        assert("/"@ =~= seq!['/']);
                    }
                    "/".to_owned()
                },
            };
            succeed(root, path, RootSource::ExplicitFile)
        },
    }
}

/// Where a walk up ended, in executable form.
enum Walk {
    Found(String),
    Ended,
    Need(String),
}

fn walk_up(cwd: &str, known: &Facts) -> (r: Walk)
    ensures
        climb(cwd@, *known) == match r {
            Walk::Found(d) => Climb::Found(d@),
            Walk::Ended => Climb::Ended,
            Walk::Need(p) => Climb::Need(p@),
        },
{
    let mut cursor = cwd.to_owned();
    loop
        invariant
            climb(cursor@, *known) == climb(cwd@, *known),
        decreases cursor@.len(),
    {
        let pom = pom_path(cursor.as_str());
        match known.kind(pom.as_str()) {
            None => return Walk::Need(pom),
            Some(k) => {
                if k == PathKind::File {
                    return Walk::Found(cursor);
                }
            },
        }
        let git = paths::join(cursor.as_str(), ".git");
        match known.kind(git.as_str()) {
            None => return Walk::Need(git),
            Some(k) => {
                if k != PathKind::Missing {
                    return Walk::Ended;
                }
            },
        }
        proof {
            paths::parent_is_shorter(cursor@);
        }
        match paths::parent(cursor.as_str()) {
            None => return Walk::Ended,
            Some(up) => {
                cursor = up;
            },
        }
    }
}

fn resolve_by_sticky(cwd: String, inputs: &ResolveInputs, known: &Facts) -> (r: Lookup<
    Result<ProjectRoot, ResolveError>,
>)
    ensures
        resolution_of(r) == by_sticky(cwd@, *inputs, *known),
{
    if inputs.skip_sticky {
        return fail(ResolveError::NoPomFound { dir: cwd });
    }
    let home = match &inputs.home_override {
        Some(h) => h.clone(),
        None => match &inputs.process_home {
            Some(h) => h.clone(),
            None => return fail(ResolveError::NoHome),
        },
    };
    let record = sticky_path(home.as_str());
    let dir = match known.read(record.as_str()) {
        None => return Lookup::NeedText(record),
        Some(ReadOutcome::NotFound) => return fail(ResolveError::NoPomFound { dir: cwd }),
        Some(ReadOutcome::Failed(e)) => {
            return fail(ResolveError::Io { path: record, source: e.clone() });
        },
        Some(ReadOutcome::Text(t)) => text::trim(t.as_str()),
    };
    match known.kind(dir.as_str()) {
        None => return Lookup::NeedKind(dir),
        Some(k) => {
            if k != PathKind::Dir {
                return fail(ResolveError::NoPomFound { dir: cwd });
            }
        },
    }
    let pom = pom_path(dir.as_str());
    match known.kind(pom.as_str()) {
        None => Lookup::NeedKind(pom),
        Some(k) => {
            if k == PathKind::File {
                succeed(dir, pom, RootSource::Sticky)
            } else {
                fail(ResolveError::NoPomFound { dir: cwd })
            }
        },
    }
}

/// The configuration file of the project at `root`: the one that `--config` names, else
/// `barista.toml` at the root.
pub open spec fn config_path(named: Option<Seq<char>>, root: Seq<char>) -> Seq<char> {
    match named {
        Some(p) => p,
        None => paths::joined_path(root, "barista.toml"@),
    }
}

/// The configuration file of the project at `root`.
pub fn project_config(named: &Option<String>, root: &str) -> (r: String)
    ensures
        r@ == config_path(text::opt_text(*named), root@),
{
    match named {
        Some(p) => p.clone(),
        None => paths::join(root, "barista.toml"),
    }
}

/// Resolves the project root that the inputs name over the recorded facts, or names
/// the fact that is missing.
pub fn resolve_project_root(inputs: &ResolveInputs, known: &Facts) -> (r: Lookup<
    Result<ProjectRoot, ResolveError>,
>)
    ensures
        resolution_of(r) == resolution(*inputs, *known),
{
    if let Some(root) = &inputs.root {
        return resolve_by_root(root.as_str(), inputs, known);
    }
    if let Some(file) = &inputs.file {
        return resolve_by_file(file.as_str(), inputs, known);
    }
    let cwd = match current_dir(inputs) {
        Ok(c) => c,
        Err(e) => return fail(e),
    };
    match walk_up(cwd.as_str(), known) {
        Walk::Found(dir) => {
            let pom = pom_path(dir.as_str());
            succeed(dir, pom, RootSource::WalkUp)
        },
        Walk::Need(p) => Lookup::NeedKind(p),
        Walk::Ended => resolve_by_sticky(cwd, inputs, known),
    }
}

/// What recording a root has to write.
#[derive(Debug)]
pub struct StickyWrite {
    /// The directory to create first, with its parents.
    pub run_dir: String,
    /// The file to write.
    pub path: String,
    /// The contents of that file.
    pub contents: String,
}

/// The write that records `root` as the last project, so that a later run can find
/// it again. `home` takes the place of `$HOME` (`process_home`).
pub fn record_sticky(root: &str, home: Option<&str>, process_home: Option<&str>) -> (r: Result<
    StickyWrite,
    ResolveError,
>)
    ensures
        match (home, process_home) {
            (None, None) => r matches Err(e) && e@ == ResolveFault::NoHome,
            _ => {
                let h = match home {
                    Some(h) => h@,
                    None => process_home->0@,
                };
                r matches Ok(w) && w.run_dir@ == paths::joined_path(
                    paths::joined_path(h, ".barista"@),
                    "run"@,
                ) && w.path@ == sticky_of(h) && w.contents@ == root@
            },
        },
{
    let home = match home {
        Some(h) => h,
        None => match process_home {
            Some(h) => h,
            None => return Err(ResolveError::NoHome),
        },
    };
    let run_dir = paths::join(paths::join(home, ".barista").as_str(), "run");
    let path = paths::join(run_dir.as_str(), "last-project");
    Ok(StickyWrite { run_dir, path, contents: root.to_owned() })
}

/// The text of an error.
pub open spec fn fault_text(e: ResolveFault) -> Seq<char> {
    match e {
        ResolveFault::NoPomFound { dir } => "no pom.xml found in "@ + text::quoted_path_text(dir)
            + " (walked up from CWD; no fallback available)"@,
        ResolveFault::RootNotDirectory { root } => "`--root "@ + text::quoted_path_text(root)
            + "` is not a directory"@,
        ResolveFault::RootMissingPom { root } => "`--root "@ + text::quoted_path_text(root)
            + "` does not contain a pom.xml"@,
        ResolveFault::FileMissing { file } => "`-f "@ + text::quoted_path_text(file)
            + "` does not exist"@,
        ResolveFault::Io { path, source } => "I/O error at "@ + text::quoted_path_text(path)
            + ": "@ + source,
        ResolveFault::NoHome => "HOME directory could not be resolved"@,
    }
}

/// `head`, the quoted path, `tail`.
fn around_path(head: &str, path: &str, tail: &str) -> (r: String)
    ensures
        r@ == head@ + text::quoted_path_text(path@) + tail@,
{
    let mut out = head.to_owned();
    out.append(text::quoted_path(path).as_str());
    out.append(tail);
    out
}

impl ResolveError {
    /// The error as the user sees it.
    pub fn to_message(&self) -> (r: String)
        ensures
            r@ == fault_text(self@),
    {
        match self {
            ResolveError::NoPomFound { dir } => around_path(
                "no pom.xml found in ",
                dir.as_str(),
                " (walked up from CWD; no fallback available)",
            ),
            ResolveError::RootNotDirectory { root } => around_path(
                "`--root ",
                root.as_str(),
                "` is not a directory",
            ),
            ResolveError::RootMissingPom { root } => around_path(
                "`--root ",
                root.as_str(),
                "` does not contain a pom.xml",
            ),
            ResolveError::FileMissing { file } => around_path(
                "`-f ",
                file.as_str(),
                "` does not exist",
            ),
            ResolveError::Io { path, source } => {
                let mut out = around_path("I/O error at ", path.as_str(), ": ");
                out.append(source.as_str());
                out
            },
            ResolveError::NoHome => "HOME directory could not be resolved".to_owned(),
        }
    }
}

// ---------------------------------------------------------------------------
// Laws
// ---------------------------------------------------------------------------

/// `g` holds every fact that `f` holds.
pub open spec fn extends(f: Facts, g: Facts) -> bool {
    &&& forall|p: Seq<char>| #[trigger] f.kind_at(p) is Some ==> g.kind_at(p) == f.kind_at(p)
    &&& forall|p: Seq<char>| #[trigger] f.read_at(p) is Some ==> g.read_at(p) == f.read_at(p)
}

/// The directory `k` levels above `dir`.
pub open spec fn ancestor(dir: Seq<char>, k: nat) -> Option<Seq<char>>
    decreases k,
{
    if k == 0 {
        Some(dir)
    } else {
        match paths::parent_path(dir) {
            None => None,
            Some(up) => ancestor(up, (k - 1) as nat),
        }
    }
}

/// `--root` wins outright: nothing else on the command line, no recorded root and no
/// home directory changes what it comes to.
pub proof fn explicit_root_wins(i: ResolveInputs, j: ResolveInputs, f: Facts)
    requires
        i.root matches Some(a) && j.root matches Some(b) && a@ == b@,
        cwd_of(i) == cwd_of(j),
    ensures
        resolution(i, f) == resolution(j, f),
        resolution(i, f) == by_root(i.root->0@, i, f),
{
}

/// `--file` wins over the walk up and over the recorded root.
pub proof fn explicit_file_wins(i: ResolveInputs, j: ResolveInputs, f: Facts)
    requires
        i.root is None && j.root is None,
        i.file matches Some(a) && j.file matches Some(b) && a@ == b@,
        cwd_of(i) == cwd_of(j),
    ensures
        resolution(i, f) == resolution(j, f),
        resolution(i, f) == by_file(i.file->0@, i, f),
{
}

/// A root found by walking up is the nearest one, and no directory below it on the
/// way holds a `.git`: the walk never leaves the enclosing repository.
pub proof fn walk_up_stays_inside_git(cwd: Seq<char>, f: Facts, dir: Seq<char>) -> (k: nat)
    requires
        climb(cwd, f) == Climb::Found(dir),
    ensures
        ancestor(cwd, k) == Some(dir),
        f.kind_at(pom_of(dir)) == Some(PathKind::File),
        forall|j: nat|
            j < k ==> (#[trigger] ancestor(cwd, j) matches Some(d) && f.kind_at(git_of(d)) == Some(
                PathKind::Missing,
            ) && f.kind_at(pom_of(d)) is Some && f.kind_at(pom_of(d)) != Some(PathKind::File)),
    decreases cwd.len(),
{
    if f.kind_at(pom_of(cwd)) == Some(PathKind::File) {
        0
    } else {
        paths::parent_is_shorter(cwd);
        let up = paths::parent_path(cwd)->0;
        let k = walk_up_stays_inside_git(up, f, dir);
        assert forall|j: nat| j < k + 1 implies (#[trigger] ancestor(cwd, j) matches Some(d)
            && f.kind_at(git_of(d)) == Some(PathKind::Missing) && f.kind_at(pom_of(d)) is Some
            && f.kind_at(pom_of(d)) != Some(PathKind::File)) by {
            if j > 0 {
                assert(ancestor(cwd, j) == ancestor(up, (j - 1) as nat));
            }
        }
        k + 1
    }
}

proof fn climb_extends(dir: Seq<char>, f: Facts, g: Facts)
    requires
        extends(f, g),
        !(climb(dir, f) is Need),
    ensures
        climb(dir, g) == climb(dir, f),
    decreases dir.len(),
{
    paths::parent_is_shorter(dir);
    match paths::parent_path(dir) {
        Some(up) => {
            if f.kind_at(pom_of(dir)) != Some(PathKind::File) && f.kind_at(git_of(dir)) == Some(
                PathKind::Missing,
            ) {
                climb_extends(up, f, g);
            }
        },
        None => {},
    }
}

/// Further facts never change an answer.
pub proof fn answers_are_stable(i: ResolveInputs, f: Facts, g: Facts)
    requires
        extends(f, g),
        resolution(i, f) is Known,
    ensures
        resolution(i, g) == resolution(i, f),
{
    match cwd_of(i) {
        Ok(cwd) => {
            if i.root is None && i.file is None {
                climb_extends(cwd, f, g);
            }
        },
        Err(_) => {},
    }
}

proof fn climb_needs_unknown(dir: Seq<char>, f: Facts)
    ensures
        climb(dir, f) matches Climb::Need(p) ==> f.kind_at(p) is None,
    decreases dir.len(),
{
    paths::parent_is_shorter(dir);
    match paths::parent_path(dir) {
        Some(up) => {
            climb_needs_unknown(up, f);
        },
        None => {},
    }
}

/// Only facts that are not recorded are asked for, so each answer brings the
/// resolution forward.
pub proof fn only_missing_facts_are_needed(i: ResolveInputs, f: Facts)
    ensures
        resolution(i, f) matches facts::Answer::NeedKind(p) ==> f.kind_at(p) is None,
        resolution(i, f) matches facts::Answer::NeedText(p) ==> f.read_at(p) is None,
{
    match cwd_of(i) {
        Ok(cwd) => {
            climb_needs_unknown(cwd, f);
        },
        Err(_) => {},
    }
}

/// A recorded root is found again: where neither flag is given and the walk up finds
/// nothing, a file with what [`record_sticky`] writes leads back to that root, as
/// long as it is still a project.
pub proof fn recorded_root_is_found(
    i: ResolveInputs,
    f: Facts,
    cwd: Seq<char>,
    home: Seq<char>,
    root: Seq<char>,
)
    requires
        i.root is None,
        i.file is None,
        !i.skip_sticky,
        cwd_of(i) == Ok::<Seq<char>, ResolveFault>(cwd),
        climb(cwd, f) is Ended,
        home_of(i) == Some(home),
        f.read_at(sticky_of(home)) == Some(facts::ReadText::Text(root)),
        f.kind_at(root) == Some(PathKind::Dir),
        f.kind_at(pom_of(root)) == Some(PathKind::File),
        text::trimmed(root) == root,
    ensures
        resolution(i, f) == found(root, pom_of(root), RootSource::Sticky),
{
}

/// What was found is a project: a `pom.xml` that is a file, in the directory that is the root,
/// unless `--file` named another file of that directory.
pub proof fn found_root_is_a_project(i: ResolveInputs, f: Facts)
    ensures
        resolution(i, f) matches facts::Answer::Known(Ok(m)) ==> {
            &&& f.kind_at(m.pom) is Some
            &&& f.kind_at(m.pom) != Some(PathKind::Missing)
            &&& f.kind_at(m.pom) != Some(PathKind::Dir)
            &&& m.source != RootSource::ExplicitFile ==> f.kind_at(m.pom) == Some(PathKind::File)
                && m.pom == paths::joined_path(m.root, "pom.xml"@)
        },
{
    if i.root is None && i.file is None && cwd_of(i) is Ok {
        let cwd = cwd_of(i)->Ok_0;
        if let Climb::Found(dir) = climb(cwd, f) {
            let k = walk_up_stays_inside_git(cwd, f, dir);
        }
    }
}

/// The source of a root tells how it was asked for: `--root` before `--file`, and only where
/// neither is given the walk up from the current directory, and only where that finds nothing
/// the recorded root.
pub proof fn source_tells_how_it_was_found(i: ResolveInputs, f: Facts)
    ensures
        resolution(i, f) matches facts::Answer::Known(Ok(m)) ==> {
            &&& m.source == RootSource::ExplicitRoot <==> i.root is Some
            &&& m.source == RootSource::ExplicitFile <==> i.root is None && i.file is Some
            &&& m.source == RootSource::WalkUp ==> (cwd_of(i) matches Ok(cwd) && climb(cwd, f)
                == Climb::Found(m.root))
            &&& m.source == RootSource::Sticky ==> !i.skip_sticky && (cwd_of(i) matches Ok(cwd)
                && climb(cwd, f) is Ended)
        },
{
}

/// A root or a file that was named is taken as it is where it is absolute, and below the current
/// directory where it is not. A named directory has to hold a `pom.xml`; a named file stands for
/// its directory. What is wrong with it is told by its name.
pub proof fn named_places_are_taken_as_they_are(i: ResolveInputs, f: Facts, p: Seq<char>)
    requires
        p.len() > 0 && p[0] == '/',
    ensures
        (i.root matches Some(r) && r@ == p) ==> {
            &&& f.kind_at(p) == Some(PathKind::Dir) && f.kind_at(paths::joined_path(p, "pom.xml"@))
                == Some(PathKind::File) ==> (resolution(i, f) matches facts::Answer::Known(Ok(m))
                && m.root == p)
            &&& f.kind_at(p) == Some(PathKind::Dir) && f.kind_at(paths::joined_path(p, "pom.xml"@))
                == Some(PathKind::Missing) ==> resolution(i, f) == facts::Answer::Known(
                Err::<RootModel, ResolveFault>((ResolveFault::RootMissingPom { root: p })),
            )
            &&& f.kind_at(p) == Some(PathKind::File) || f.kind_at(p) == Some(PathKind::Missing)
                ==> resolution(i, f) == facts::Answer::Known(
                Err::<RootModel, ResolveFault>((ResolveFault::RootNotDirectory { root: p })),
            )
            &&& f.kind_at(p) is None ==> resolution(i, f) == facts::Answer::<
                Result<RootModel, ResolveFault>,
            >::NeedKind(p)
        },
        i.root is None && (i.file matches Some(r) && r@ == p) ==> {
            &&& f.kind_at(p) == Some(PathKind::File) ==> (resolution(i, f) matches
                facts::Answer::Known(Ok(m)) && m.pom == p && (paths::parent_path(p) matches Some(d)
                ==> m.root == d))
            &&& f.kind_at(p) == Some(PathKind::Missing) ==> resolution(i, f)
                == facts::Answer::Known(
                Err::<RootModel, ResolveFault>((ResolveFault::FileMissing { file: p })),
            )
            &&& f.kind_at(p) == Some(PathKind::Dir) && f.kind_at(paths::joined_path(p, "pom.xml"@))
                == Some(PathKind::File) ==> (resolution(i, f) matches facts::Answer::Known(Ok(m))
                && m.root == p && m.pom == paths::joined_path(p, "pom.xml"@))
            &&& f.kind_at(p) == Some(PathKind::Dir) && f.kind_at(paths::joined_path(p, "pom.xml"@))
                == Some(PathKind::Missing) ==> resolution(i, f) == facts::Answer::Known(
                Err::<RootModel, ResolveFault>((ResolveFault::RootMissingPom { root: p })),
            )
        },
{
}

/// A relative root or file lies below the current directory; an override of the current or the
/// home directory counts before the process's own.
pub proof fn relative_places_lie_below_the_current_directory(i: ResolveInputs, f: Facts)
    ensures
        i.cwd_override matches Some(c) ==> {
            &&& cwd_of(i) == Ok::<Seq<char>, ResolveFault>(c@)
            &&& i.root matches Some(r) ==> (r@.len() == 0 || r@[0] != '/') ==> (
            resolution(i, f) matches facts::Answer::Known(Ok(m)) ==> m.root == paths::joined_path(
                c@,
                r@,
            ))
        },
        i.cwd_override is None ==> (i.process_cwd matches Ok(c) ==> cwd_of(i) == Ok::<
            Seq<char>,
            ResolveFault,
        >(c@)),
        i.home_override matches Some(h) ==> home_of(i) == Some(h@),
        i.home_override is None ==> (i.process_home matches Some(h) ==> home_of(i) == Some(h@)),
        i.home_override is None && i.process_home is None ==> home_of(i) is None,
{
}

/// The walk up finds the nearest project: where a directory on the way up holds a `pom.xml`, and
/// none below it does or is the top of a repository, that directory is the root.
pub proof fn walk_up_finds_the_nearest_project(cwd: Seq<char>, f: Facts, k: nat)
    requires
        ancestor(cwd, k) matches Some(d) && f.kind_at(paths::joined_path(d, "pom.xml"@)) == Some(
            PathKind::File,
        ),
        forall|j: nat|
            j < k ==> (#[trigger] ancestor(cwd, j) matches Some(d) && f.kind_at(
                paths::joined_path(d, "pom.xml"@),
            ) == Some(PathKind::Missing) && f.kind_at(paths::joined_path(d, ".git"@)) == Some(
                PathKind::Missing,
            )),
    ensures
        climb(cwd, f) == Climb::Found(ancestor(cwd, k)->0),
    decreases k,
{
    if k > 0 {
        assert(ancestor(cwd, 0) == Some(cwd));
        let up = paths::parent_path(cwd)->0;
        assert(ancestor(cwd, k) == ancestor(up, (k - 1) as nat));
        assert forall|j: nat| j < k - 1 implies (#[trigger] ancestor(up, j) matches Some(d)
            && f.kind_at(paths::joined_path(d, "pom.xml"@)) == Some(PathKind::Missing) && f.kind_at(
            paths::joined_path(d, ".git"@),
        ) == Some(PathKind::Missing)) by {
            assert(ancestor(cwd, j + 1) == ancestor(up, j));
        }
        walk_up_finds_the_nearest_project(up, f, (k - 1) as nat);
    }
}

/// The walk up ends at the top of a repository: where a directory holds a `.git` and no
/// `pom.xml` was met up to it, nothing above it is looked at.
pub proof fn walk_up_ends_at_the_repository(cwd: Seq<char>, f: Facts, k: nat)
    requires
        ancestor(cwd, k) matches Some(d) && (f.kind_at(paths::joined_path(d, ".git"@)) == Some(
            PathKind::Dir,
        ) || f.kind_at(paths::joined_path(d, ".git"@)) == Some(PathKind::File)),
        forall|j: nat|
            j <= k ==> (#[trigger] ancestor(cwd, j) matches Some(d) && f.kind_at(
                paths::joined_path(d, "pom.xml"@),
            ) == Some(PathKind::Missing)),
        forall|j: nat|
            j < k ==> (#[trigger] ancestor(cwd, j) matches Some(d) && f.kind_at(
                paths::joined_path(d, ".git"@),
            ) == Some(PathKind::Missing)),
    ensures
        climb(cwd, f) is Ended,
    decreases k,
{
    assert(ancestor(cwd, 0) == Some(cwd));
    if k > 0 {
        let up = paths::parent_path(cwd)->0;
        assert(ancestor(cwd, k) == ancestor(up, (k - 1) as nat));
        assert forall|j: nat| j <= k - 1 implies (#[trigger] ancestor(up, j) matches Some(d)
            && f.kind_at(paths::joined_path(d, "pom.xml"@)) == Some(PathKind::Missing)) by {
            assert(ancestor(cwd, j + 1) == ancestor(up, j));
        }
        assert forall|j: nat| j < k - 1 implies (#[trigger] ancestor(up, j) matches Some(d)
            && f.kind_at(paths::joined_path(d, ".git"@)) == Some(PathKind::Missing)) by {
            assert(ancestor(cwd, j + 1) == ancestor(up, j));
        }
        walk_up_ends_at_the_repository(up, f, (k - 1) as nat);
    }
}

/// Where nothing was found the error names the directory that the search began in, unless the
/// recorded root could not be looked up at all.
pub proof fn nothing_found_names_the_start(i: ResolveInputs, f: Facts, cwd: Seq<char>)
    requires
        i.root is None,
        i.file is None,
        cwd_of(i) == Ok::<Seq<char>, ResolveFault>(cwd),
        climb(cwd, f) is Ended,
    ensures
        i.skip_sticky ==> resolution(i, f) == facts::Answer::Known(
            Err::<RootModel, ResolveFault>((ResolveFault::NoPomFound { dir: cwd })),
        ),
        !i.skip_sticky && home_of(i) is None ==> resolution(i, f) == facts::Answer::Known(
            Err::<RootModel, ResolveFault>(ResolveFault::NoHome),
        ),
        !i.skip_sticky ==> (home_of(i) matches Some(h) ==> (f.read_at(
            paths::joined_path(
                paths::joined_path(paths::joined_path(h, ".barista"@), "run"@),
                "last-project"@,
            ),
        ) == Some(facts::ReadText::NotFound) ==> resolution(i, f) == facts::Answer::Known(
            Err::<RootModel, ResolveFault>((ResolveFault::NoPomFound { dir: cwd })),
        ))),
{
}

/// The configuration of a project is the file that was named, else `barista.toml` in its root.
pub proof fn configuration_lies_in_the_root(named: Option<Seq<char>>, root: Seq<char>)
    ensures
        named matches Some(p) ==> config_path(named, root) == p,
        named is None ==> config_path(named, root) == paths::joined_path(root, "barista.toml"@),
{
}

/// What is said of a root or of an error is said of what it holds.
pub proof fn models_are_of_their_roots(p: ProjectRoot, e: ResolveError)
    ensures
        p@.root == p.root@,
        p@.pom == p.pom@,
        p@.source == p.source,
        resolution_of(Lookup::Known(Ok::<ProjectRoot, ResolveError>(p))) == facts::Answer::Known(
            Ok::<RootModel, ResolveFault>(p@),
        ),
        resolution_of(Lookup::Known(Err::<ProjectRoot, ResolveError>(e))) == facts::Answer::Known(
            Err::<RootModel, ResolveFault>(e@),
        ),
        e matches ResolveError::NoPomFound { dir } ==> (e@ matches ResolveFault::NoPomFound {
            dir: d,
        } && d == dir@),
        e matches ResolveError::RootNotDirectory { root } ==> (
        e@ matches ResolveFault::RootNotDirectory { root: r } && r == root@),
        e matches ResolveError::RootMissingPom { root } ==> (
        e@ matches ResolveFault::RootMissingPom { root: r } && r == root@),
        e matches ResolveError::FileMissing { file } ==> (e@ matches ResolveFault::FileMissing {
            file: f,
        } && f == file@),
        e is NoHome <==> e@ is NoHome,
        e is Io <==> e@ is Io,
{
}

/// The project that is remembered is kept below the home directory that is named, or that of
/// the process; without either it cannot be kept.
pub proof fn remembered_root_is_kept_below_home(
    root: &str,
    home: Option<&str>,
    process_home: Option<&str>,
    r: Result<StickyWrite, ResolveError>,
)
    requires
        call_ensures(record_sticky, (root, home, process_home), r),
    ensures
        home is None && process_home is None <==> r is Err,
        r matches Ok(w) ==> w.contents@ == root@,
        home matches Some(h) ==> (r matches Ok(w) && w.run_dir@ == paths::joined_path(
            paths::joined_path(h@, ".barista"@),
            "run"@,
        )),
        home is None ==> (process_home matches Some(h) ==> (r matches Ok(w) && w.run_dir@
            == paths::joined_path(paths::joined_path(h@, ".barista"@), "run"@))),
{
}

/// A root that cannot be found is told with the place that was looked at.
pub proof fn errors_name_the_place(dir: Seq<char>, source: Seq<char>)
    ensures
        fault_text(ResolveFault::NoPomFound { dir }) == "no pom.xml found in "@
            + text::quoted_path_text(dir) + " (walked up from CWD; no fallback available)"@,
        fault_text(ResolveFault::RootNotDirectory { root: dir }) == "`--root "@
            + text::quoted_path_text(dir) + "` is not a directory"@,
        fault_text(ResolveFault::RootMissingPom { root: dir }) == "`--root "@
            + text::quoted_path_text(dir) + "` does not contain a pom.xml"@,
        fault_text(ResolveFault::FileMissing { file: dir }) == "`-f "@ + text::quoted_path_text(
            dir,
        ) + "` does not exist"@,
        text::is_beginning_and_end(
            fault_text(ResolveFault::Io { path: dir, source }),
            "I/O error at "@ + text::quoted_path_text(dir) + ": "@,
            source,
        ),
        fault_text(ResolveFault::NoHome) == "HOME directory could not be resolved"@,
{
    text::two_parts_are_beginning_and_end(
        "I/O error at "@ + text::quoted_path_text(dir) + ": "@,
        source,
    );
}

} // verus!
