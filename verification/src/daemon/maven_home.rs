//! The Maven distribution that the daemon loads its embedded core from.
//!
//! The first source that answers wins: an explicit override, the environment variable
//! [`MAVEN_HOME_ENV`], the distribution bundled with the installation. Where none
//! answers the daemon reports the missing distribution itself.

use vstd::prelude::*;
use vstd::string::*;

use crate::facts::{Facts, PathKind};
use crate::paths;
use crate::text;

verus! {

/// The environment variable that names the Maven distribution.
pub const MAVEN_HOME_ENV: &'static str = "BARISTA_MAVEN_HOME";

/// The environment variable that overrides every other source.
pub const MAVEN_HOME_OVERRIDE_ENV: &'static str = "BARISTA_MAVEN_HOME_OVERRIDE";

/// Where a Maven home came from.
#[derive(Debug, Clone, Copy, PartialEq, Eq, Structural)]
pub enum MavenHomeSource {
    /// An explicit override.
    Override,
    /// The environment variable.
    Env,
    /// The distribution bundled with the installation.
    Bundled,
    /// Nothing answered.
    Unresolved,
}

/// The label of a source.
pub open spec fn source_label(s: MavenHomeSource) -> Seq<char> {
    match s {
        MavenHomeSource::Override => "override"@,
        MavenHomeSource::Env => "env"@,
        MavenHomeSource::Bundled => "bundled"@,
        MavenHomeSource::Unresolved => "none"@,
    }
}

impl MavenHomeSource {
    /// A stable lower-case label.
    pub fn label(self) -> (r: &'static str)
        ensures
            r@ == source_label(self),
    {
        match self {
            MavenHomeSource::Override => "override",
            MavenHomeSource::Env => "env",
            MavenHomeSource::Bundled => "bundled",
            MavenHomeSource::Unresolved => "none",
        }
    }
}

/// A resolved Maven home and its source.
#[derive(Debug)]
pub struct ResolvedMavenHome {
    /// The distribution, unless the source is [`MavenHomeSource::Unresolved`].
    pub path: Option<String>,
    /// Which source answered.
    pub source: MavenHomeSource,
}

/// The two questions that the bundled distribution is validated with. A probe that is not
/// verified need not say what its spec functions are.
pub trait FsProbe {
    /// What [`FsProbe::is_dir`] answers.
    closed spec fn holds_dir(&self, p: Seq<char>) -> bool {
        vstd::pervasive::arbitrary()
    }

    /// What [`FsProbe::is_file`] answers.
    closed spec fn holds_file(&self, p: Seq<char>) -> bool {
        vstd::pervasive::arbitrary()
    }

    /// Whether `p` exists and is a directory.
    fn is_dir(&self, p: &str) -> (r: bool)
        ensures
            r == self.holds_dir(p@),
    ;

    /// Whether `p` exists and is a regular file.
    fn is_file(&self, p: &str) -> (r: bool)
        ensures
            r == self.holds_file(p@),
    ;
}

/// Recorded facts answer for what they record; any other path is taken to be missing.
impl FsProbe for Facts {
    open spec fn holds_dir(&self, p: Seq<char>) -> bool {
        self.kind_at(p) == Some(PathKind::Dir)
    }

    open spec fn holds_file(&self, p: Seq<char>) -> bool {
        self.kind_at(p) == Some(PathKind::File)
    }

    fn is_dir(&self, p: &str) -> (r: bool) {
        match self.kind(p) {
            Some(k) => k == PathKind::Dir,
            None => false,
        }
    }

    fn is_file(&self, p: &str) -> (r: bool) {
        match self.kind(p) {
            Some(k) => k == PathKind::File,
            None => false,
        }
    }
}

/// The bundled distribution of an installation.
pub open spec fn bundled_dir(install_root: Seq<char>) -> Seq<char> {
    paths::joined_path(
        paths::joined_path(paths::joined_path(install_root, "share"@), "barista"@),
        "maven-4"@,
    )
}

/// Whether `dir` is a Maven distribution: it has a launcher and a `lib` directory.
pub open spec fn is_maven_home<F: FsProbe>(dir: Seq<char>, fs: &F) -> bool {
    let bin = paths::joined_path(dir, "bin"@);
    &&& fs.holds_dir(dir)
    &&& (fs.holds_file(paths::joined_path(bin, "mvn"@)) || fs.holds_file(
        paths::joined_path(bin, "mvn.cmd"@),
    ))
    &&& fs.holds_dir(paths::joined_path(dir, "lib"@))
}

/// The distribution bundled with the executable `exe`, which lies two levels below the
/// installation's root.
pub open spec fn bundled<F: FsProbe>(exe: Seq<char>, fs: &F) -> Option<Seq<char>> {
    match paths::parent_path(exe) {
        None => None,
        Some(bin) => match paths::parent_path(bin) {
            None => None,
            Some(root) => if is_maven_home(bundled_dir(root), fs) {
                Some(bundled_dir(root))
            } else {
                None
            },
        },
    }
}

/// The bundled distribution, if the executable's installation has a valid one.
pub fn bundled_maven_home<F: FsProbe>(current_exe: &str, fs: &F) -> (r: Option<String>)
    ensures
        text::opt_text(r) == bundled(current_exe@, fs),
{
    let bin = match paths::parent(current_exe) {
        Some(p) => p,
        None => return None,
    };
    let root = match paths::parent(bin.as_str()) {
        Some(p) => p,
        None => return None,
    };
    let share = paths::join(root.as_str(), "share");
    let candidate = paths::join(paths::join(share.as_str(), "barista").as_str(), "maven-4");
    if !fs.is_dir(candidate.as_str()) {
        return None;
    }
    let tools = paths::join(candidate.as_str(), "bin");
    let has_launcher = fs.is_file(paths::join(tools.as_str(), "mvn").as_str()) || fs.is_file(
        paths::join(tools.as_str(), "mvn.cmd").as_str(),
    );
    let has_lib = fs.is_dir(paths::join(candidate.as_str(), "lib").as_str());
    if has_launcher && has_lib {
        Some(candidate)
    } else {
        None
    }
}

/// The Maven home that the sources give, with the source that answered.
pub open spec fn maven_home<F: FsProbe>(
    override_home: Option<Seq<char>>,
    env_home: Option<Seq<char>>,
    exe: Option<Seq<char>>,
    fs: &F,
) -> (Option<Seq<char>>, MavenHomeSource) {
    if override_home is Some {
        (override_home, MavenHomeSource::Override)
    } else if env_home is Some {
        (env_home, MavenHomeSource::Env)
    } else if exe is Some && bundled(exe->0, fs) is Some {
        (bundled(exe->0, fs), MavenHomeSource::Bundled)
    } else {
        (None, MavenHomeSource::Unresolved)
    }
}

/// The contents of an optional `str`.
pub open spec fn opt_str(o: Option<&str>) -> Option<Seq<char>> {
    match o {
        Some(s) => Some(s@),
        None => None,
    }
}

/// Resolves the Maven home for a new daemon.
pub fn resolve_maven_home<F: FsProbe>(
    override_home: Option<String>,
    env_home: Option<String>,
    current_exe: Option<&str>,
    fs: &F,
) -> (r: ResolvedMavenHome)
    ensures
        (text::opt_text(r.path), r.source) == maven_home(
            text::opt_text(override_home),
            text::opt_text(env_home),
            opt_str(current_exe),
            fs,
        ),
{
    if override_home.is_some() {
        return ResolvedMavenHome { path: override_home, source: MavenHomeSource::Override };
    }
    if env_home.is_some() {
        return ResolvedMavenHome { path: env_home, source: MavenHomeSource::Env };
    }
    if let Some(exe) = current_exe {
        let home = bundled_maven_home(exe, fs);
        if home.is_some() {
            return ResolvedMavenHome { path: home, source: MavenHomeSource::Bundled };
        }
    }
    ResolvedMavenHome { path: None, source: MavenHomeSource::Unresolved }
}

/// A variable's value; an empty one counts as unset.
pub open spec fn set_value(v: Option<Seq<char>>) -> Option<Seq<char>> {
    match v {
        Some(s) => if s.len() == 0 {
            None
        } else {
            Some(s)
        },
        None => None,
    }
}

fn non_empty(v: Option<String>) -> (r: Option<String>)
    ensures
        text::opt_text(r) == set_value(text::opt_text(v)),
{
    match v {
        Some(s) => if s.as_str().is_empty() {
            None
        } else {
            Some(s)
        },
        None => None,
    }
}

/// Resolves the Maven home from what the environment holds: the values of
/// [`MAVEN_HOME_OVERRIDE_ENV`] and [`MAVEN_HOME_ENV`], of which an empty one counts as
/// unset, and the path of the running executable.
pub fn resolve_maven_home_from_env<F: FsProbe>(
    override_var: Option<String>,
    home_var: Option<String>,
    current_exe: Option<&str>,
    fs: &F,
) -> (r: ResolvedMavenHome)
    ensures
        (text::opt_text(r.path), r.source) == maven_home(
            set_value(text::opt_text(override_var)),
            set_value(text::opt_text(home_var)),
            opt_str(current_exe),
            fs,
        ),
{
    resolve_maven_home(non_empty(override_var), non_empty(home_var), current_exe, fs)
}

// ---------------------------------------------------------------------------
// Laws
// ---------------------------------------------------------------------------

/// An override beats every other source.
pub proof fn override_beats_everything<F: FsProbe>(
    home: Seq<char>,
    env_home: Option<Seq<char>>,
    exe: Option<Seq<char>>,
    fs: &F,
)
    ensures
        maven_home(Some(home), env_home, exe, fs) == (Some(home), MavenHomeSource::Override),
{
}

/// The environment variable beats the bundled distribution.
pub proof fn env_beats_bundled<F: FsProbe>(home: Seq<char>, exe: Option<Seq<char>>, fs: &F)
    ensures
        maven_home(None, Some(home), exe, fs) == (Some(home), MavenHomeSource::Env),
{
}

/// No path is given exactly where no source answered.
pub proof fn no_path_means_no_source<F: FsProbe>(
    override_home: Option<Seq<char>>,
    env_home: Option<Seq<char>>,
    exe: Option<Seq<char>>,
    fs: &F,
)
    ensures
        maven_home(override_home, env_home, exe, fs).0 is None <==> maven_home(
            override_home,
            env_home,
            exe,
            fs,
        ).1 == MavenHomeSource::Unresolved,
{
}

/// What is answered from the bundle is always a valid distribution.
pub proof fn bundled_home_is_valid<F: FsProbe>(exe: Seq<char>, fs: &F)
    ensures
        bundled(exe, fs) matches Some(dir) ==> is_maven_home(dir, fs),
{
}

/// A distribution has a launcher in `bin`, for shells or for Windows, and a `lib`.
pub proof fn distribution_has_a_launcher_and_a_lib<F: FsProbe>(dir: Seq<char>, fs: &F)
    ensures
        is_maven_home(dir, fs) <==> {
            let bin = paths::joined_path(dir, "bin"@);
            &&& fs.holds_dir(dir)
            &&& fs.holds_dir(paths::joined_path(dir, "lib"@))
            &&& fs.holds_file(paths::joined_path(bin, "mvn"@)) || fs.holds_file(
                paths::joined_path(bin, "mvn.cmd"@),
            )
        },
{
}

/// The bundled distribution stands in `share/barista/maven-4` of the directory above the one
/// of the program.
pub proof fn bundle_stands_beside_the_program<F: FsProbe>(root: Seq<char>, exe: Seq<char>, fs: &F)
    requires
        paths::parent_path(exe) matches Some(bin) && paths::parent_path(bin) == Some(root),
    ensures
        ({
            let dir = paths::joined_path(
                paths::joined_path(paths::joined_path(root, "share"@), "barista"@),
                "maven-4"@,
            );
            &&& is_maven_home(dir, fs) ==> bundled(exe, fs) == Some(dir)
            &&& !is_maven_home(dir, fs) ==> bundled(exe, fs) is None
            &&& bundled(exe, fs) is Some ==> maven_home(None, None, Some(exe), fs) == (
                Some(dir),
                MavenHomeSource::Bundled,
            )
        }),
{
}

/// A variable that is set to nothing counts as not set, and any other value is kept.
pub proof fn empty_variables_are_not_set(v: Option<Seq<char>>)
    ensures
        set_value(v) is Some <==> (v matches Some(s) && s.len() > 0),
        set_value(v) is Some ==> set_value(v) == v,
{
}

/// Every source has its own label.
pub proof fn sources_have_their_own_labels(s: MavenHomeSource)
    ensures
        s == MavenHomeSource::Override <==> source_label(s) == "override"@,
        s == MavenHomeSource::Env <==> source_label(s) == "env"@,
        s == MavenHomeSource::Bundled <==> source_label(s) == "bundled"@,
        s == MavenHomeSource::Unresolved <==> source_label(s) == "none"@,
{
    reveal_strlit("override");
    reveal_strlit("env");
    reveal_strlit("bundled");
    reveal_strlit("none");
    assert("override"@.len() == 8 && "env"@.len() == 3 && "bundled"@.len() == 7 && "none"@.len()
        == 4);
}

/// Recorded facts hold a directory where one was recorded, and a file where one was; what was
/// not recorded is neither.
pub proof fn facts_hold_what_they_record(f: Facts, p: Seq<char>)
    ensures
        f.kind_at(p) == Some(PathKind::Dir) ==> f.holds_dir(p) && !f.holds_file(p),
        f.kind_at(p) == Some(PathKind::File) ==> f.holds_file(p) && !f.holds_dir(p),
        f.kind_at(p) == Some(PathKind::Missing) || f.kind_at(p) is None ==> !f.holds_file(p)
            && !f.holds_dir(p),
{
}

} // verus!
