//! `--no-daemon`: the lifecycle commands on upstream Maven.

use vstd::prelude::*;
use vstd::string::*;

use crate::cli::{GlobalFlags, MavenVocabArgs};
use crate::cmd::ci_repro;
use crate::cmd::ci_repro::ReproducibilitySeed;
use crate::cmd::maven_vocab;
use crate::cmd::maven_vocab::MavenPhase;
use crate::facts;
use crate::facts::{Binding, Facts, PathKind};
use crate::paths;
use crate::text;

verus! {

/// The exit code where no upstream Maven is found.
pub const EXIT_MVN_NOT_FOUND: i32 = 2;

/// The error code where no upstream Maven is found.
pub const ERR_CODE_MVN_NOT_FOUND: &'static str = "BAR-NODAEMON-MVN-NOT-FOUND";

/// The name of Maven's launcher.
pub const MVN_BIN_NAME: &'static str = "mvn";

/// The name of Maven's launcher on Windows.
pub const MVN_BIN_NAME_WINDOWS: &'static str = "mvn.cmd";

/// The name of Maven's launcher on a platform.
pub fn mvn_bin_name(windows: bool) -> (r: &'static str)
    ensures
        r@ == (if windows {
            "mvn.cmd"@
        } else {
            "mvn"@
        }),
{
    if windows {
        MVN_BIN_NAME_WINDOWS
    } else {
        MVN_BIN_NAME
    }
}

/// Why no upstream Maven can be run.
#[derive(Debug)]
pub enum ResolveMvnError {
    /// Neither `$MAVEN_HOME` nor `$PATH` leads to one.
    NotFound { tried_maven_home: Option<String> },
}

/// The message of an error.
pub open spec fn not_found_text(tried: Option<Seq<char>>) -> Seq<char> {
    "barista: `--no-daemon` needs an upstream `mvn` on the system, but none was found.\n\n  code:  "@
        + ERR_CODE_MVN_NOT_FOUND@ + "\n  tried: $MAVEN_HOME, then $PATH\n  hint:  "@ + (
    match tried {
        Some(p) => "MAVEN_HOME was set to "@ + p + " but no `bin/mvn` was found there.\n"@,
        None => "MAVEN_HOME is unset.\n"@,
    })
        + "        Install Maven (https://maven.apache.org/install.html) or point MAVEN_HOME at an existing installation.\n"@
}

impl ResolveMvnError {
    /// The message of this error.
    pub fn render(&self) -> (r: String)
        ensures
            match self {
                ResolveMvnError::NotFound { tried_maven_home } => r@ == not_found_text(
                    text::opt_text(*tried_maven_home),
                ),
            },
    {
        match self {
            ResolveMvnError::NotFound { tried_maven_home } => {
                let mut s =
                    "barista: `--no-daemon` needs an upstream `mvn` on the system, but none was found.\n\n  code:  ".to_owned();
                s.append(ERR_CODE_MVN_NOT_FOUND);
                s.append("\n  tried: $MAVEN_HOME, then $PATH\n  hint:  ");
                let hint = match tried_maven_home {
                    Some(p) => {
                        let mut h = "MAVEN_HOME was set to ".to_owned();
                        h.append(p.as_str());
                        h.append(" but no `bin/mvn` was found there.\n");
                        h
                    },
                    None => "MAVEN_HOME is unset.\n".to_owned(),
                };
                s.append(hint.as_str());
                s.append(
                    "        Install Maven (https://maven.apache.org/install.html) or point MAVEN_HOME at an existing installation.\n",
                );
                s
            },
        }
    }
}

/// What the search for upstream Maven comes to.
#[derive(Debug)]
pub enum MvnLookup {
    /// What stands at this path has to be recorded first.
    NeedKind(String),
    /// `$PATH` has to be searched for the launcher first.
    NeedWhich,
    Known(Result<String, ResolveMvnError>),
}

/// The launcher below a Maven home.
pub open spec fn home_launcher(home: Seq<char>, bin: Seq<char>) -> Seq<char> {
    paths::joined_path(paths::joined_path(home, "bin"@), bin)
}

/// Whether the launcher below `$MAVEN_HOME` is known to be a file.
pub open spec fn home_has_mvn(home: Option<Seq<char>>, bin: Seq<char>, f: Facts) -> bool {
    home matches Some(h) && f.kind_at(home_launcher(h, bin)) == Some(PathKind::File)
}

/// Whether nothing is known yet of the launcher below `$MAVEN_HOME`.
pub open spec fn home_is_open(home: Option<Seq<char>>, bin: Seq<char>, f: Facts) -> bool {
    home matches Some(h) && f.kind_at(home_launcher(h, bin)) is None
}

/// Whether `r` is what the search comes to: the launcher below `$MAVEN_HOME`, else the one on
/// `$PATH`.
pub open spec fn is_mvn(
    home: Option<Seq<char>>,
    bin: Seq<char>,
    f: Facts,
    on_path: Option<Option<String>>,
    r: MvnLookup,
) -> bool {
    if home_is_open(home, bin, f) {
        r matches MvnLookup::NeedKind(p) && p@ == home_launcher(home->0, bin)
    } else if home_has_mvn(home, bin, f) {
        r matches MvnLookup::Known(Ok(p)) && p@ == home_launcher(home->0, bin)
    } else {
        match on_path {
            None => r is NeedWhich,
            Some(Some(p)) => r matches MvnLookup::Known(Ok(q)) && q@ == p@,
            Some(None) => r matches MvnLookup::Known(
                Err(ResolveMvnError::NotFound { tried_maven_home }),
            ) && text::opt_text(tried_maven_home) == home,
        }
    }
}

/// Looks for upstream Maven. `bin` is the launcher's name, `on_path` what the search of `$PATH`
/// found, once it was made.
pub fn resolve_mvn(
    maven_home: &Option<String>,
    bin: &str,
    known: &Facts,
    on_path: &Option<Option<String>>,
) -> (r: MvnLookup)
    ensures
        is_mvn(text::opt_text(*maven_home), bin@, *known, *on_path, r),
{
    match maven_home {
        Some(home) => {
            let dir = paths::join(home.as_str(), "bin");
            let candidate = paths::join(dir.as_str(), bin);
            match known.kind(candidate.as_str()) {
                None => return MvnLookup::NeedKind(candidate),
                Some(k) => {
                    if k == PathKind::File {
                        return MvnLookup::Known(Ok(candidate));
                    }
                },
            }
        },
        None => {},
    }
    match on_path {
        None => MvnLookup::NeedWhich,
        Some(Some(p)) => MvnLookup::Known(Ok(p.clone())),
        Some(None) => MvnLookup::Known(
            Err(ResolveMvnError::NotFound { tried_maven_home: text::clone_opt(maven_home) }),
        ),
    }
}

/// The arguments of upstream Maven: the flags that the global ones stand for, the phase, and
/// the user's own arguments as they are.
pub open spec fn mvn_args(
    quiet: bool,
    verbose: u8,
    no_color: bool,
    phase: MavenPhase,
    args: Seq<Seq<char>>,
) -> Seq<Seq<char>> {
    (if quiet {
        seq!["-q"@]
    } else if verbose >= 2 {
        seq!["-X"@]
    } else {
        Seq::empty()
    }) + (if no_color {
        seq!["-B"@]
    } else {
        Seq::empty()
    }) + seq![maven_vocab::phase_name(phase)] + args
}

/// Adds a text to a list.
fn put(out: &mut Vec<String>, s: &str)
    ensures
        text::texts(final(out)@) == text::texts(old(out)@).push(s@),
{
    out.push(s.to_owned());
    assert(text::texts(out@) =~= text::texts(old(out)@).push(s@));
}

/// The arguments of upstream Maven.
pub fn build_mvn_argv(global: &GlobalFlags, phase: MavenPhase, args: &MavenVocabArgs) -> (r: Vec<
    String,
>)
    ensures
        text::texts(r@) == mvn_args(
            global.quiet,
            global.verbose,
            global.no_color,
            phase,
            text::texts(args.args@),
        ),
{
    let mut argv: Vec<String> = Vec::new();
    let ghost user = text::texts(args.args@);
    let ghost whole = mvn_args(global.quiet, global.verbose, global.no_color, phase, user);
    if global.quiet {
        put(&mut argv, "-q");
    } else if global.verbose >= 2 {
        put(&mut argv, "-X");
    }
    if global.no_color {
        put(&mut argv, "-B");
    }
    put(&mut argv, phase.as_str());
    let ghost head = text::texts(argv@);
    assert(whole =~= head + user);
    let mut k: usize = 0;
    assert(head + user.take(0) =~= head);
    while k < args.args.len()
        invariant
            k <= args.args@.len(),
            user == text::texts(args.args@),
            text::texts(argv@) == head + user.take(k as int),
        decreases args.args@.len() - k,
    {
        put(&mut argv, args.args[k].as_str());
        assert(head + user.take(k + 1) =~= (head + user.take(k as int)).push(user[k as int]));
        k = k + 1;
    }
    assert(user.take(user.len() as int) =~= user);
    argv
}

/// Where upstream Maven runs, or the path that has to be recorded first: `--root`, else the
/// directory that `-f` names or lies in, else the current one.
pub fn resolve_working_dir(global: &GlobalFlags, known: &Facts, cwd: &str) -> (r: Result<
    String,
    String,
>)
    ensures
        match global.root {
            Some(root) => r matches Ok(d) && d@ == root@,
            None => match global.file {
                None => r matches Ok(d) && d@ == cwd@,
                Some(file) => match known.kind_at(file@) {
                    None => r matches Err(p) && p@ == file@,
                    Some(PathKind::Dir) => r matches Ok(d) && d@ == file@,
                    Some(_) => r matches Ok(d) && d@ == (match paths::parent_path(file@) {
                        Some(p) => p,
                        None => cwd@,
                    }),
                },
            },
        },
{
    match &global.root {
        Some(root) => return Ok(root.clone()),
        None => {},
    }
    match &global.file {
        Some(file) => {
            match known.kind(file.as_str()) {
                None => return Err(file.clone()),
                Some(k) => {
                    if k == PathKind::Dir {
                        return Ok(file.clone());
                    }
                },
            }
            match paths::parent(file.as_str()) {
                Some(p) => Ok(p),
                None => Ok(cwd.to_owned()),
            }
        },
        None => Ok(cwd.to_owned()),
    }
}

/// What surrounds a run of upstream Maven.
#[derive(Debug)]
pub struct ForkSetup {
    /// The name of Maven's launcher on this platform.
    pub bin_name: String,
    /// `$MAVEN_HOME`.
    pub maven_home: Option<String>,
    /// The settings file in force, where the configuration names one.
    pub settings: Option<String>,
    /// `$HOME`.
    pub home: Option<String>,
    /// The environment.
    pub vars: Vec<Binding>,
    /// The time of the project's last commit.
    pub git_head: Option<u64>,
    /// The current directory.
    pub cwd: String,
}

/// The settings file that Maven finds by itself.
pub open spec fn default_settings(home: Seq<char>) -> Seq<char> {
    paths::joined_path(paths::joined_path(home, ".m2"@), "settings.xml"@)
}

/// `-s` and the settings file, where it is not the one that Maven finds by itself.
pub open spec fn settings_args(settings: Option<Seq<char>>, home: Option<Seq<char>>) -> Seq<
    Seq<char>,
> {
    match settings {
        None => Seq::empty(),
        Some(p) => if home matches Some(h) && default_settings(h) == p {
            Seq::empty()
        } else {
            seq!["-s"@, p]
        },
    }
}

/// `-D<key>=<value>` for each of the properties.
pub open spec fn property_flags(ps: Seq<(Seq<char>, Seq<char>)>) -> Seq<Seq<char>> {
    ps.map_values(|p: (Seq<char>, Seq<char>)| "-D"@ + p.0 + "="@ + p.1)
}

/// Whether `argv` and `env` are what upstream Maven is run with. Under `--ci` the variables
/// that are not set yet are set, and the properties that the user does not define follow the
/// user's own arguments.
pub open spec fn is_fork(
    global: GlobalFlags,
    phase: MavenPhase,
    args: Seq<Seq<char>>,
    setup: ForkSetup,
    argv: Seq<Seq<char>>,
    env: Seq<(Seq<char>, Seq<char>)>,
) -> bool {
    let plain = settings_args(text::opt_text(setup.settings), text::opt_text(setup.home))
        + mvn_args(global.quiet, global.verbose, global.no_color, phase, args);
    let vars = facts::pairs(setup.vars@);
    if global.ci {
        exists|s: ReproducibilitySeed|
            {
                &&& #[trigger] ci_repro::is_seed(
                    s,
                    ci_repro::epoch_of(
                        facts::bound(vars, ci_repro::EPOCH_OVERRIDE_ENV@),
                        setup.git_head,
                    ),
                )
                &&& argv == plain + property_flags(
                    ci_repro::unclaimed_pairs(facts::pairs(s.system_properties@), args),
                )
                &&& env == ci_repro::unset_pairs(facts::pairs(s.env@), vars)
            }
    } else {
        argv == plain && env == Seq::<(Seq<char>, Seq<char>)>::empty()
    }
}

/// Adds the settings file, where Maven has to be told of it.
fn put_settings(argv: &mut Vec<String>, settings: &Option<String>, home: &Option<String>)
    ensures
        text::texts(final(argv)@) == text::texts(old(argv)@) + settings_args(
            text::opt_text(*settings),
            text::opt_text(*home),
        ),
{
    let ghost before = text::texts(argv@);
    match settings {
        None => {
            assert(before + Seq::<Seq<char>>::empty() =~= before);
        },
        Some(p) => {
            let usual = match home {
                Some(h) => {
                    let dir = paths::join(h.as_str(), ".m2");
                    let file = paths::join(dir.as_str(), "settings.xml");
                    text::same_text(file.as_str(), p.as_str())
                },
                None => false,
            };
            if !usual {
                put(argv, "-s");
                put(argv, p.as_str());
                assert(text::texts(argv@) =~= before + seq!["-s"@, p@]);
            } else {
                assert(before + Seq::<Seq<char>>::empty() =~= before);
            }
        },
    }
}

/// Adds the flags of properties.
fn put_properties(argv: &mut Vec<String>, ps: &Vec<Binding>)
    ensures
        text::texts(final(argv)@) == text::texts(old(argv)@) + property_flags(facts::pairs(ps@)),
{
    let ghost before = text::texts(argv@);
    let ghost all = property_flags(facts::pairs(ps@));
    let mut k: usize = 0;
    assert(before + all.take(0) =~= before);
    while k < ps.len()
        invariant
            k <= ps@.len(),
            all == property_flags(facts::pairs(ps@)),
            text::texts(argv@) == before + all.take(k as int),
        decreases ps@.len() - k,
    {
        let flag = text::four("-D", ps[k].key.as_str(), "=", ps[k].value.as_str());
        put(argv, flag.as_str());
        assert(facts::pairs(ps@)[k as int] == (ps@[k as int].key@, ps@[k as int].value@));
        assert(before + all.take(k + 1) =~= (before + all.take(k as int)).push(all[k as int]));
        k = k + 1;
    }
    assert(all.take(all.len() as int) =~= all);
}

/// What upstream Maven is run with: its arguments, and the variables that are set.
fn fork_with(global: &GlobalFlags, phase: MavenPhase, args: &MavenVocabArgs, setup: &ForkSetup) -> (r:
    (Vec<String>, Vec<Binding>))
    ensures
        is_fork(
            *global,
            phase,
            text::texts(args.args@),
            *setup,
            text::texts(r.0@),
            facts::pairs(r.1@),
        ),
{
    let mut argv: Vec<String> = Vec::new();
    assert(text::texts(argv@) =~= Seq::empty());
    put_settings(&mut argv, &setup.settings, &setup.home);
    let ghost front = settings_args(text::opt_text(setup.settings), text::opt_text(setup.home));
    assert(text::texts(argv@) =~= front);
    let mut rest = build_mvn_argv(global, phase, args);
    let ghost joined = text::texts(argv@) + text::texts(rest@);
    argv.append(&mut rest);
    assert(text::texts(argv@) =~= joined);
    if global.ci {
        let seed = ci_repro::build_seed(&setup.vars, setup.git_head);
        let properties = ci_repro::unclaimed_bindings(&seed.system_properties, &args.args);
        put_properties(&mut argv, &properties);
        let env = ci_repro::unset_bindings(&seed.env, &setup.vars);
        (argv, env)
    } else {
        let env: Vec<Binding> = Vec::new();
        assert(facts::pairs(env@) =~= Seq::empty());
        (argv, env)
    }
}

/// What a lifecycle command does under `--no-daemon`.
#[derive(Debug)]
pub enum Dispatch {
    /// What stands at this path has to be recorded first.
    NeedKind(String),
    /// `$PATH` has to be searched for the launcher first.
    NeedWhich,
    /// Print a message and exit with a code.
    Refuse { message: String, code: i32 },
    /// Run upstream Maven in a directory, with these variables set; print a trace before,
    /// where there is one.
    Fork {
        mvn: String,
        argv: Vec<String>,
        env: Vec<Binding>,
        dir: String,
        trace: Option<String>,
    },
}

/// The directory that upstream Maven runs in.
pub open spec fn fork_dir(global: GlobalFlags, f: Facts, cwd: Seq<char>) -> Seq<char> {
    match global.root {
        Some(root) => root@,
        None => match global.file {
            None => cwd,
            Some(file) => if f.kind_at(file@) == Some(PathKind::Dir) {
                file@
            } else {
                match paths::parent_path(file@) {
                    Some(p) => p,
                    None => cwd,
                }
            },
        },
    }
}

/// Whether `r` is what a lifecycle command does under `--no-daemon`. Upstream Maven is looked
/// for first; where none is found, the command is refused. Then the directory is settled, and
/// Maven is run.
pub open spec fn is_dispatch(
    global: GlobalFlags,
    phase: MavenPhase,
    args: Seq<Seq<char>>,
    setup: ForkSetup,
    f: Facts,
    on_path: Option<Option<String>>,
    r: Dispatch,
) -> bool {
    let home = text::opt_text(setup.maven_home);
    let bin = setup.bin_name@;
    if home_is_open(home, bin, f) {
        r matches Dispatch::NeedKind(p) && p@ == home_launcher(home->0, bin)
    } else if !home_has_mvn(home, bin, f) && on_path is None {
        r is NeedWhich
    } else if !home_has_mvn(home, bin, f) && on_path == Some(None::<String>) {
        r matches Dispatch::Refuse { message, code } && code == EXIT_MVN_NOT_FOUND && message@
            == not_found_text(home)
    } else if global.root is None && (global.file matches Some(file) && f.kind_at(file@) is None) {
        r matches Dispatch::NeedKind(p) && p@ == global.file->0@
    } else {
        r matches Dispatch::Fork { mvn, argv, env, dir, trace } && {
            &&& mvn@ == (if home_has_mvn(home, bin, f) {
                home_launcher(home->0, bin)
            } else {
                on_path->0->0@
            })
            &&& is_fork(global, phase, args, setup, text::texts(argv@), facts::pairs(env@))
            &&& dir@ == fork_dir(global, f, setup.cwd@)
            &&& text::opt_text(trace) == (if global.verbose >= 1 {
                Some(trace_text(mvn@, text::texts(argv@)))
            } else {
                None
            })
        }
    }
}

/// The trace of a run.
pub open spec fn trace_text(mvn: Seq<char>, argv: Seq<Seq<char>>) -> Seq<char> {
    "barista: --no-daemon → "@ + mvn + " "@ + text::joined(
        argv.map_values(|a: Seq<char>| maven_vocab::backticked(a)),
        " "@,
    )
}

/// Each argument in backticks, with blanks between.
fn backtick_all(argv: &Vec<String>) -> (r: String)
    ensures
        r@ == text::joined(
            text::texts(argv@).map_values(|a: Seq<char>| maven_vocab::backticked(a)),
            " "@,
        ),
{
    let mut parts: Vec<String> = Vec::new();
    let ghost all = text::texts(argv@).map_values(|a: Seq<char>| maven_vocab::backticked(a));
    let mut k: usize = 0;
    while k < argv.len()
        invariant
            k <= argv@.len(),
            all == text::texts(argv@).map_values(|a: Seq<char>| maven_vocab::backticked(a)),
            text::texts(parts@) == all.take(k as int),
        decreases argv@.len() - k,
    {
        let mut s = "`".to_owned();
        s.append(argv[k].as_str());
        s.append("`");
        put(&mut parts, s.as_str());
        assert(all.take(k + 1) =~= all.take(k as int).push(all[k as int]));
        k = k + 1;
    }
    assert(all.take(all.len() as int) =~= all);
    text::join(&parts, " ")
}

/// What a lifecycle command does under `--no-daemon`.
pub fn dispatch(
    global: &GlobalFlags,
    phase: MavenPhase,
    args: &MavenVocabArgs,
    setup: &ForkSetup,
    known: &Facts,
    on_path: &Option<Option<String>>,
) -> (r: Dispatch)
    ensures
        is_dispatch(*global, phase, text::texts(args.args@), *setup, *known, *on_path, r),
{
    let mvn = match resolve_mvn(&setup.maven_home, setup.bin_name.as_str(), known, on_path) {
        MvnLookup::NeedKind(p) => return Dispatch::NeedKind(p),
        MvnLookup::NeedWhich => return Dispatch::NeedWhich,
        MvnLookup::Known(Ok(p)) => p,
        MvnLookup::Known(Err(e)) => return Dispatch::Refuse {
            message: e.render(),
            code: EXIT_MVN_NOT_FOUND,
        },
    };
    let dir = match resolve_working_dir(global, known, setup.cwd.as_str()) {
        Ok(d) => d,
        Err(p) => return Dispatch::NeedKind(p),
    };
    let (argv, env) = fork_with(global, phase, args, setup);
    let trace = if global.verbose >= 1 {
        Some(
            text::four(
                "barista: --no-daemon → ",
                mvn.as_str(),
                " ",
                backtick_all(&argv).as_str(),
            ),
        )
    } else {
        None
    };
    Dispatch::Fork { mvn, argv, env, dir, trace }
}

/// How upstream Maven ended.
#[derive(Debug, Clone, Copy, PartialEq, Eq, Structural)]
pub enum SpawnOutcome {
    /// With an exit code.
    Exited(i32),
    /// By a signal.
    Signal,
}

/// The exit code of the command: Maven's own, or 1 after a signal.
pub fn forwarded_exit_code(outcome: SpawnOutcome) -> (r: i32)
    ensures
        r == (match outcome {
            SpawnOutcome::Exited(code) => code as int,
            SpawnOutcome::Signal => 1,
        }),
{
    match outcome {
        SpawnOutcome::Exited(code) => code,
        SpawnOutcome::Signal => 1,
    }
}

/// What is told, and how a run counts, where upstream Maven cannot be started.
pub fn spawn_failure(mvn: &str, detail: &str) -> (r: (String, SpawnOutcome))
    ensures
        r.0@ == ERR_CODE_MVN_NOT_FOUND@ + ": failed to spawn `mvn` at "@ + mvn@ + ": "@ + detail@,
        r.1 == SpawnOutcome::Exited(EXIT_MVN_NOT_FOUND),
{
    let mut s = text::four(ERR_CODE_MVN_NOT_FOUND, ": failed to spawn `mvn` at ", mvn, ": ");
    s.append(detail);
    (s, SpawnOutcome::Exited(EXIT_MVN_NOT_FOUND))
}

// ---------------------------------------------------------------------------
// Laws
// ---------------------------------------------------------------------------

/// A launcher below `$MAVEN_HOME` wins over whatever `$PATH` leads to.
pub proof fn maven_home_wins(
    home: Seq<char>,
    bin: Seq<char>,
    f: Facts,
    on_path: Option<Option<String>>,
    r: MvnLookup,
)
    requires
        is_mvn(Some(home), bin, f, on_path, r),
        f.kind_at(home_launcher(home, bin)) == Some(PathKind::File),
    ensures
        r matches MvnLookup::Known(Ok(p)) && p@ == home_launcher(home, bin),
{
}

/// Under `--ci` a property that the user defines is not defined a second time.
pub proof fn user_properties_win(ps: Seq<(Seq<char>, Seq<char>)>, args: Seq<Seq<char>>, i: int)
    requires
        0 <= i < ci_repro::unclaimed_pairs(ps, args).len(),
    ensures
        !ci_repro::defines(args, ci_repro::unclaimed_pairs(ps, args)[i].0),
        ps.contains(ci_repro::unclaimed_pairs(ps, args)[i]),
    decreases ps.len(),
{
    let rest = ci_repro::unclaimed_pairs(ps.drop_last(), args);
    if i < rest.len() {
        user_properties_win(ps.drop_last(), args, i);
        let x = rest[i];
        let j = choose|j: int| 0 <= j < ps.drop_last().len() && ps.drop_last()[j] == x;
        assert(ps[j] == x);
    } else {
        assert(ps[ps.len() - 1] == ps.last());
    }
}

/// The user's arguments reach Maven unchanged, after everything else, with the phase right
/// before them.
pub proof fn user_arguments_pass_through(
    quiet: bool,
    verbose: u8,
    no_color: bool,
    phase: MavenPhase,
    args: Seq<Seq<char>>,
)
    ensures
        ({
            let all = mvn_args(quiet, verbose, no_color, phase, args);
            let n = all.len() - args.len();
            &&& 1 <= n <= 3
            &&& all.skip(n) == args
            &&& all[n - 1] == maven_vocab::phase_name(phase)
        }),
{
    let all = mvn_args(quiet, verbose, no_color, phase, args);
    assert(all.skip(all.len() - args.len()) =~= args);
}

/// The `mvn` that runs is the one in `bin` below `$MAVEN_HOME` where that is a file, and
/// otherwise the one that `$PATH` leads to; it is missing only where neither is there.
pub proof fn maven_is_found_where_it_is(
    home: Option<Seq<char>>,
    bin: Seq<char>,
    f: Facts,
    on_path: Option<String>,
    r: MvnLookup,
)
    requires
        is_mvn(home, bin, f, Some(on_path), r),
        home matches Some(h) ==> f.kind_at(
            paths::joined_path(paths::joined_path(h, "bin"@), bin),
        ) is Some,
    ensures
        r is Known,
        r matches MvnLookup::Known(Ok(p)) ==> ({
            ||| home matches Some(h) && p@ == paths::joined_path(paths::joined_path(h, "bin"@), bin)
                && f.kind_at(p@) == Some(PathKind::File)
            ||| on_path matches Some(q) && p@ == q@ && (home matches Some(h) ==> f.kind_at(
                paths::joined_path(paths::joined_path(h, "bin"@), bin),
            ) != Some(PathKind::File))
        }),
        r matches MvnLookup::Known(Err(_)) ==> on_path is None && (home matches Some(h) ==> f.kind_at(
            paths::joined_path(paths::joined_path(h, "bin"@), bin),
        ) != Some(PathKind::File)),
{
}

/// How much Maven tells is what was asked of barista: `-q` under `--quiet`, else `-X` from the
/// second `-v` on, and `-B` where there is no color; no flag is added for anything else.
pub proof fn flags_reach_maven(
    quiet: bool,
    verbose: u8,
    no_color: bool,
    phase: MavenPhase,
    args: Seq<Seq<char>>,
)
    ensures
        ({
            let all = mvn_args(quiet, verbose, no_color, phase, args);
            let told = quiet || verbose >= 2;
            &&& quiet ==> all[0] == "-q"@
            &&& !quiet && verbose >= 2 ==> all[0] == "-X"@
            &&& no_color && told ==> all[1] == "-B"@
            &&& no_color && !told ==> all[0] == "-B"@
            &&& all.len() == args.len() + 1 + (if told {
                1int
            } else {
                0
            }) + (if no_color {
                1int
            } else {
                0
            })
        }),
{
}

/// The settings file is named to Maven unless it is the one that Maven reads by itself.
pub proof fn settings_are_named_unless_default(settings: Option<Seq<char>>, home: Option<Seq<char>>)
    ensures
        settings is None ==> settings_args(settings, home).len() == 0,
        settings matches Some(p) ==> ({
            let default = home matches Some(h) && p == paths::joined_path(
                paths::joined_path(h, ".m2"@),
                "settings.xml"@,
            );
            &&& default ==> settings_args(settings, home).len() == 0
            &&& !default ==> settings_args(settings, home) == seq!["-s"@, p]
        }),
{
}

/// Every property is handed over, in its order, as `-Dkey=value`.
pub proof fn properties_are_defined_in_their_order(ps: Seq<(Seq<char>, Seq<char>)>)
    ensures
        property_flags(ps).len() == ps.len(),
        forall|i: int|
            0 <= i < ps.len() ==> #[trigger] property_flags(ps)[i] == "-D"@ + ps[i].0 + "="@
                + ps[i].1,
{
}

/// A run that is handed over happens in the directory that was named, runs the `mvn` that was
/// found and tells so only under `-v`; without `--ci` it gets nothing but the settings and
/// the arguments.
pub proof fn fork_runs_where_it_was_asked(
    global: GlobalFlags,
    phase: MavenPhase,
    args: Seq<Seq<char>>,
    setup: ForkSetup,
    f: Facts,
    on_path: Option<Option<String>>,
    r: Dispatch,
)
    requires
        is_dispatch(global, phase, args, setup, f, on_path, r),
    ensures
        r matches Dispatch::Fork { mvn, argv, env, dir, trace } ==> {
            &&& global.root matches Some(root) ==> dir@ == root@
            &&& global.root is None && global.file is None ==> dir@ == setup.cwd@
            &&& global.root is None ==> (global.file matches Some(file) ==> {
                &&& f.kind_at(file@) == Some(PathKind::Dir) ==> dir@ == file@
                &&& f.kind_at(file@) != Some(PathKind::Dir) ==> (paths::parent_path(file@) matches Some(
                    p,
                ) ==> dir@ == p)
            })
            &&& trace is Some <==> global.verbose >= 1
            &&& !global.ci ==> env@.len() == 0
            &&& !global.ci ==> argv@.len() >= args.len() && text::texts(argv@).skip(
                argv@.len() - args.len(),
            ) == args
        },
        r matches Dispatch::Refuse { code, .. } ==> code == 2 && on_path == Some(None::<String>),
{
    if r is Fork && !global.ci {
        let argv = r->argv;
        let plain = settings_args(text::opt_text(setup.settings), text::opt_text(setup.home))
            + mvn_args(global.quiet, global.verbose, global.no_color, phase, args);
        assert(text::texts(argv@) == plain);
        user_arguments_pass_through(global.quiet, global.verbose, global.no_color, phase, args);
        let own = mvn_args(global.quiet, global.verbose, global.no_color, phase, args);
        assert(own.skip(own.len() - args.len()) == args);
        assert(plain.skip(plain.len() - args.len()) =~= own.skip(own.len() - args.len()));
        assert(text::texts(argv@).len() == argv@.len());
        assert(facts::pairs(r->env@).len() == r->env@.len());
    }
}

/// The line that tells what runs names the program and every argument.
pub proof fn trace_tells_the_command(mvn: Seq<char>, argv: Seq<Seq<char>>)
    ensures
        ("barista: --no-daemon → "@ + mvn + " "@).is_prefix_of(trace_text(mvn, argv)),
{
}

/// What Maven exits with is what barista exits with, and a signal is a failure.
pub proof fn exit_code_is_forwarded(outcome: SpawnOutcome, r: i32)
    requires
        call_ensures(forwarded_exit_code, (outcome,), r),
    ensures
        outcome matches SpawnOutcome::Exited(code) ==> r == code,
        outcome is Signal ==> r != 0,
{
}

/// Maven's launcher is a script of its own on Windows.
pub proof fn launcher_has_the_name_of_its_platform(windows: bool, r: &'static str)
    requires
        call_ensures(mvn_bin_name, (windows,), r),
    ensures
        windows ==> r@ == "mvn.cmd"@,
        !windows ==> r@ == "mvn"@,
{
}

/// Maven runs in the root that is named, else where the named file stands, else in the current
/// directory.
pub proof fn working_directory_is_the_named_one(
    global: &GlobalFlags,
    known: &Facts,
    cwd: &str,
    r: Result<String, String>,
)
    requires
        call_ensures(resolve_working_dir, (global, known, cwd), r),
    ensures
        global.root matches Some(root) ==> (r matches Ok(d) && d@ == root@),
        global.root is None && global.file is None ==> (r matches Ok(d) && d@ == cwd@),
        global.root is None ==> (global.file matches Some(file) ==> {
            &&& known.kind_at(file@) is None <==> r is Err
            &&& known.kind_at(file@) == Some(PathKind::Dir) ==> (r matches Ok(d) && d@ == file@)
            &&& known.kind_at(file@) is Some && known.kind_at(file@) != Some(PathKind::Dir)
                && paths::parent_path(file@) is Some ==> (r matches Ok(d) && Some(d@)
                == paths::parent_path(file@))
        }),
{
}

/// A Maven that cannot be started ends the run as one that is missing does.
pub proof fn unstartable_maven_exits_like_a_missing_one(
    mvn: &str,
    detail: &str,
    r: (String, SpawnOutcome),
)
    requires
        call_ensures(spawn_failure, (mvn, detail), r),
    ensures
        r.1 == SpawnOutcome::Exited(2),
        r.0@ == "BAR-NODAEMON-MVN-NOT-FOUND"@ + ": failed to spawn `mvn` at "@ + mvn@ + ": "@
            + detail@,
{
}

/// A Maven that was not found is told with its code, and with the home that was tried.
pub proof fn missing_maven_is_explained(tried: Option<Seq<char>>)
    ensures
        ({
            let front =
                "barista: `--no-daemon` needs an upstream `mvn` on the system, but none was found.\n\n  code:  "@
                + "BAR-NODAEMON-MVN-NOT-FOUND"@
                + "\n  tried: $MAVEN_HOME, then $PATH\n  hint:  "@;
            &&& tried matches Some(p) ==> (front + ("MAVEN_HOME was set to "@ + p
                + " but no `bin/mvn` was found there.\n"@)).is_prefix_of(not_found_text(tried))
            &&& tried is None ==> (front + "MAVEN_HOME is unset.\n"@).is_prefix_of(
                not_found_text(tried),
            )
        }),
{
}

/// What is not known yet is asked for: what stands at the launcher of `$MAVEN_HOME` first, then
/// what `$PATH` leads to. A missing Maven names the home that was tried.
pub proof fn launcher_is_asked_for_in_order(
    home: Option<Seq<char>>,
    bin: Seq<char>,
    f: Facts,
    on_path: Option<Option<String>>,
    r: MvnLookup,
)
    requires
        is_mvn(home, bin, f, on_path, r),
    ensures
        r matches MvnLookup::NeedKind(p) ==> (home matches Some(h) && p@ == paths::joined_path(
            paths::joined_path(h, "bin"@),
            bin,
        ) && f.kind_at(p@) is None),
        r is NeedWhich ==> on_path is None,
        r matches MvnLookup::Known(Err(ResolveMvnError::NotFound { tried_maven_home }))
            ==> text::opt_text(tried_maven_home) == home,
{
}

} // verus!
