//! Finding or starting the daemon: what to run, where, and when it is ready.

use vstd::prelude::*;
use vstd::string::*;

use crate::facts;
use crate::facts::{Facts, PathKind, ReadOutcome};
use crate::paths;
use crate::text;

verus! {

/// The daemon's socket, below the socket directory.
pub const SOCKET_LEAF: &'static str = "barback.sock";

/// The daemon's process-id file, below the socket directory.
pub const PID_LEAF: &'static str = "barback.pid";

/// The cached classpath of a development checkout, below its `target` directory.
pub const CLASSPATH_CACHE_LEAF: &'static str = "barback.classpath";

/// The daemon's main class.
pub const MAIN_CLASS: &'static str = "com.bluminal.barista.barback.Server";

/// The sources of a daemon, as an error lists them.
pub const TRIED_LIST: &'static str =
    "$BARISTA_BARBACK_JAR, $BARISTA_BARBACK_CLASSPATH, $BARISTA_BARBACK_HOME/target/classes";

/// How long a new daemon may take to accept connections, in milliseconds.
pub const SPAWN_TIMEOUT_MS: u64 = 30_000;

/// Why the daemon could not be reached or started.
#[derive(Debug)]
pub enum LauncherError {
    /// No source of a daemon was found.
    JarNotFound { tried: String },
    /// No `java` was found.
    JavaNotFound,
    /// The process could not be started.
    SpawnFailed { argv: Vec<String>, source: String },
    /// The daemon did not accept connections in time.
    SpawnTimeout { socket: String, timeout_ms: u64 },
    /// Maven could not give the classpath.
    MavenClasspathFailed { exit: Option<i32>, stderr: String },
    /// Reading or writing failed.
    Io { path: String, source: String },
}

/// What is needed to start a daemon.
#[derive(Debug)]
pub struct LaunchPlan {
    /// The directory of the socket and the process-id file.
    pub socket_dir: String,
    /// The socket.
    pub socket_path: String,
    /// The number of workers.
    pub workers: usize,
    /// After how many idle seconds the daemon ends itself.
    pub idle_shutdown_secs: u32,
    /// After how many actions the daemon is to crash, for tests.
    pub crash_after: Option<u32>,
    /// How long the daemon may take to accept connections, in milliseconds.
    pub spawn_timeout_ms: u64,
}

/// What the Java virtual machine runs.
#[derive(Debug)]
pub enum JvmEntry {
    /// `java -jar <path>`.
    Jar(String),
    /// `java -cp <classpath> <main-class>`.
    Classpath { classpath: String, main_class: String },
}

impl LaunchPlan {
    /// A plan with the defaults for everything that is not given.
    pub fn new(socket_dir: String, workers: usize, idle_shutdown_secs: u32) -> (r: LaunchPlan)
        ensures
            r.socket_dir == socket_dir,
            r.socket_path@ == paths::joined_path(socket_dir@, SOCKET_LEAF@),
            r.workers == workers,
            r.idle_shutdown_secs == idle_shutdown_secs,
            r.crash_after is None,
            r.spawn_timeout_ms == SPAWN_TIMEOUT_MS,
    {
        let socket_path = paths::join(socket_dir.as_str(), SOCKET_LEAF);
        LaunchPlan {
            socket_dir,
            socket_path,
            workers,
            idle_shutdown_secs,
            crash_after: None,
            spawn_timeout_ms: SPAWN_TIMEOUT_MS,
        }
    }
}

// ---------------------------------------------------------------------------
// The command line of the daemon
// ---------------------------------------------------------------------------

/// The model of a [`JvmEntry`].
pub enum EntryModel {
    Jar(Seq<char>),
    Classpath { classpath: Seq<char>, main_class: Seq<char> },
}

impl View for JvmEntry {
    type V = EntryModel;

    open spec fn view(&self) -> EntryModel {
        match self {
            JvmEntry::Jar(p) => EntryModel::Jar(p@),
            JvmEntry::Classpath { classpath, main_class } => EntryModel::Classpath {
                classpath: classpath@,
                main_class: main_class@,
            },
        }
    }
}

/// What selects the entry.
pub open spec fn entry_args(e: EntryModel) -> Seq<Seq<char>> {
    match e {
        EntryModel::Jar(p) => seq!["-jar"@, p],
        EntryModel::Classpath { classpath, main_class } => seq!["-cp"@, classpath, main_class],
    }
}

/// The daemon's own options.
pub open spec fn option_args(plan: LaunchPlan) -> Seq<Seq<char>> {
    seq![
        "--socket"@,
        plan.socket_path@,
        "--workers"@,
        text::dec(plan.workers as nat),
        "--idle-shutdown"@,
        text::dec(plan.idle_shutdown_secs as nat),
    ] + (match plan.crash_after {
        Some(n) => seq!["--crash-after"@, text::dec(n as nat)],
        None => Seq::empty(),
    })
}

/// The arguments with which `java` starts the daemon.
pub fn daemon_args(plan: &LaunchPlan, entry: &JvmEntry) -> (r: Vec<String>)
    ensures
        text::texts(r@) == entry_args(entry@) + option_args(*plan),
{
    let mut out: Vec<String> = Vec::new();
    match entry {
        JvmEntry::Jar(jar) => {
            out.push("-jar".to_owned());
            out.push(jar.clone());
        },
        JvmEntry::Classpath { classpath, main_class } => {
            out.push("-cp".to_owned());
            out.push(classpath.clone());
            out.push(main_class.clone());
        },
    }
    assert(text::texts(out@) =~= entry_args(entry@));
    let ghost front = text::texts(out@);
    out.push("--socket".to_owned());
    out.push(plan.socket_path.clone());
    out.push("--workers".to_owned());
    out.push(text::dec_u64(plan.workers as u64));
    out.push("--idle-shutdown".to_owned());
    out.push(text::dec_u64(plan.idle_shutdown_secs as u64));
    if let Some(n) = plan.crash_after {
        out.push("--crash-after".to_owned());
        out.push(text::dec_u64(n as u64));
    }
    assert(text::texts(out@) =~= front + option_args(*plan));
    out
}

/// Where `java` is: the one of `$JAVA_HOME`, else the one that a search of `$PATH` found.
pub open spec fn java_at(java_home: Option<Seq<char>>, on_path: Option<Seq<char>>, f: Facts) -> facts::Answer<
    Option<Seq<char>>,
> {
    match java_home {
        None => facts::Answer::Known(on_path),
        Some(home) => {
            let candidate = paths::joined_path(paths::joined_path(home, "bin"@), "java"@);
            match f.kind_at(candidate) {
                None => facts::Answer::NeedKind(candidate),
                Some(k) => if k == PathKind::File {
                    facts::Answer::Known(Some(candidate))
                } else {
                    facts::Answer::Known(on_path)
                },
            }
        },
    }
}

/// The model of what [`locate_java`] returns.
pub open spec fn java_of(r: facts::Lookup<Result<String, LauncherError>>) -> facts::Answer<
    Option<Seq<char>>,
> {
    match r {
        facts::Lookup::Known(Ok(p)) => facts::Answer::Known(Some(p@)),
        facts::Lookup::Known(Err(_)) => facts::Answer::Known(None),
        facts::Lookup::NeedKind(p) => facts::Answer::NeedKind(p@),
        facts::Lookup::NeedText(p) => facts::Answer::NeedText(p@),
    }
}

/// Locates `java`. `on_path` is what a search of `$PATH` found.
pub fn locate_java(java_home: Option<&str>, on_path: Option<String>, known: &Facts) -> (r:
    facts::Lookup<Result<String, LauncherError>>)
    ensures
        java_of(r) == java_at(
            match java_home {
                Some(s) => Some(s@),
                None => None,
            },
            text::opt_text(on_path),
            *known,
        ),
        r matches facts::Lookup::Known(Err(e)) ==> e is JavaNotFound,
{
    if let Some(home) = java_home {
        let candidate = paths::join(paths::join(home, "bin").as_str(), "java");
        match known.kind(candidate.as_str()) {
            None => return facts::Lookup::NeedKind(candidate),
            Some(k) => {
                if k == PathKind::File {
                    return facts::Lookup::Known(Ok(candidate));
                }
            },
        }
    }
    match on_path {
        Some(p) => facts::Lookup::Known(Ok(p)),
        None => facts::Lookup::Known(Err(LauncherError::JavaNotFound)),
    }
}

// ---------------------------------------------------------------------------
// Waiting for the socket
// ---------------------------------------------------------------------------

/// How an attempt to connect to the socket ended.
#[derive(Debug, Clone, Copy, PartialEq, Eq, Structural)]
pub enum ConnectOutcome {
    /// The daemon accepted.
    Accepted,
    /// Nothing listens there (yet).
    Refused,
    /// Connecting failed in another way.
    Failed,
}

/// What a probe of the socket does next.
#[derive(Debug, Clone, Copy, PartialEq, Eq, Structural)]
pub enum ProbeStep {
    /// The daemon listens.
    Live,
    /// No daemon listens.
    Dead,
    /// Try again after a short pause.
    Again,
}

/// What a probe does after an attempt to connect. Only a refusal before the deadline is
/// tried again.
pub fn probe_step(outcome: ConnectOutcome, deadline_passed: bool) -> (r: ProbeStep)
    ensures
        r == (match outcome {
            ConnectOutcome::Accepted => ProbeStep::Live,
            ConnectOutcome::Refused => if deadline_passed {
                ProbeStep::Dead
            } else {
                ProbeStep::Again
            },
            ConnectOutcome::Failed => ProbeStep::Dead,
        }),
{
    match outcome {
        ConnectOutcome::Accepted => ProbeStep::Live,
        ConnectOutcome::Refused => if deadline_passed {
            ProbeStep::Dead
        } else {
            ProbeStep::Again
        },
        ConnectOutcome::Failed => ProbeStep::Dead,
    }
}

/// What to do after a probe of a new daemon: `None` waits on, `Some` ends the wait.
pub fn ready_step(plan: &LaunchPlan, live: bool, deadline_passed: bool) -> (r: Option<
    Result<(), LauncherError>,
>)
    ensures
        match r {
            None => !live && !deadline_passed,
            Some(Ok(())) => live,
            Some(Err(LauncherError::SpawnTimeout { socket, timeout_ms })) => !live
                && deadline_passed && socket@ == plan.socket_path@ && timeout_ms
                == plan.spawn_timeout_ms,
            Some(Err(_)) => false,
        },
{
    if live {
        Some(Ok(()))
    } else if deadline_passed {
        Some(
            Err(
                LauncherError::SpawnTimeout {
                    socket: plan.socket_path.clone(),
                    timeout_ms: plan.spawn_timeout_ms,
                },
            ),
        )
    } else {
        None
    }
}

/// The process that the process-id file names, if it names one: the process to end before
/// a new daemon is started in its place.
pub fn stale_daemon(pid_text: &str) -> (r: Option<i32>)
    ensures
        match r {
            Some(pid) => text::signed_value(
                text::trimmed(pid_text@),
                i32::MIN as int,
                i32::MAX as int,
            ) == Some(pid as int),
            None => text::signed_value(
                text::trimmed(pid_text@),
                i32::MIN as int,
                i32::MAX as int,
            ) is None,
        },
{
    let trimmed = text::trim(pid_text);
    text::parse_i32(trimmed.as_str())
}

// ---------------------------------------------------------------------------
// What to run
// ---------------------------------------------------------------------------

/// How a run of `mvn` ended.
#[derive(Debug)]
pub enum MvnOutcome {
    /// The process could not be started.
    NotStarted(String),
    /// The process ended, with its exit code unless a signal ended it.
    Exited { success: bool, code: Option<i32>, stdout: String, stderr: String },
}

/// The environment variables and runs that a discovery of the entry depends on.
#[derive(Debug)]
pub struct EntrySources {
    /// `$BARISTA_BARBACK_JAR`.
    pub jar: Option<String>,
    /// `$BARISTA_BARBACK_CLASSPATH`.
    pub classpath: Option<String>,
    /// `$BARISTA_BARBACK_HOME`.
    pub home: Option<String>,
    /// How `mvn dependency:build-classpath` ended, once it was run.
    pub mvn_classpath: Option<MvnOutcome>,
    /// How `mvn test-compile` ended, once it was run.
    pub mvn_compile: Option<MvnOutcome>,
}

/// What the discovery of an entry came to, as far as is known.
#[derive(Debug)]
pub enum EntryLookup {
    /// The entry, or why there is none.
    Known(Result<JvmEntry, LauncherError>),
    /// What stands at this path has to be recorded first.
    NeedKind(String),
    /// The text of the file at this path has to be recorded first.
    NeedText(String),
    /// `mvn dependency:build-classpath` has to be run on this checkout first.
    NeedMvnClasspath(String),
    /// `mvn test-compile` has to be run on this checkout first.
    NeedMvnCompile(String),
}

/// The model of a [`LauncherError`] that a discovery gives.
pub enum EntryFault {
    JarNotFound(Seq<char>),
    Mvn { exit: Option<i32>, stderr: Seq<char> },
    Io { path: Seq<char>, source: Seq<char> },
    Unrelated,
}

/// The model of an [`EntryLookup`].
pub enum EntryAnswer {
    Known(Result<EntryModel, EntryFault>),
    NeedKind(Seq<char>),
    NeedText(Seq<char>),
    NeedMvnClasspath(Seq<char>),
    NeedMvnCompile(Seq<char>),
}

pub open spec fn entry_fault(e: LauncherError) -> EntryFault {
    match e {
        LauncherError::JarNotFound { tried } => EntryFault::JarNotFound(tried@),
        LauncherError::MavenClasspathFailed { exit, stderr } => EntryFault::Mvn {
            exit,
            stderr: stderr@,
        },
        LauncherError::Io { path, source } => EntryFault::Io { path: path@, source: source@ },
        _ => EntryFault::Unrelated,
    }
}

pub open spec fn entry_answer(l: EntryLookup) -> EntryAnswer {
    match l {
        EntryLookup::Known(Ok(e)) => EntryAnswer::Known(Ok(e@)),
        EntryLookup::Known(Err(e)) => EntryAnswer::Known(Err(entry_fault(e))),
        EntryLookup::NeedKind(p) => EntryAnswer::NeedKind(p@),
        EntryLookup::NeedText(p) => EntryAnswer::NeedText(p@),
        EntryLookup::NeedMvnClasspath(p) => EntryAnswer::NeedMvnClasspath(p@),
        EntryLookup::NeedMvnCompile(p) => EntryAnswer::NeedMvnCompile(p@),
    }
}

/// What a run of `mvn` on the checkout `dir` gives: its output, or an error.
pub open spec fn mvn_result(dir: Seq<char>, o: MvnOutcome) -> Result<Seq<char>, EntryFault> {
    match o {
        MvnOutcome::NotStarted(e) => Err(EntryFault::Io { path: dir, source: e@ }),
        MvnOutcome::Exited { success, code, stdout, stderr } => if success {
            Ok(text::trimmed(stdout@))
        } else {
            Err(EntryFault::Mvn { exit: code, stderr: stderr@ })
        },
    }
}

/// A directory of a checkout's `target`.
pub open spec fn target_of(dir: Seq<char>, leaf: Seq<char>) -> Seq<char> {
    paths::joined_path(paths::joined_path(dir, "target"@), leaf)
}

/// Where a search for a fact-dependent value came to.
pub enum Step<T> {
    Got(T),
    Stop(EntryAnswer),
}

/// The nearest directory above `cwd` that holds a `barback` checkout.
pub open spec fn dev_dir(cwd: Seq<char>, f: Facts) -> Step<Option<Seq<char>>>
    decreases cwd.len(),
{
    let dir = paths::joined_path(cwd, "barback"@);
    let pom = paths::joined_path(dir, "pom.xml"@);
    match f.kind_at(pom) {
        None => Step::Stop(EntryAnswer::NeedKind(pom)),
        Some(PathKind::File) => Step::Got(Some(dir)),
        Some(_) => match paths::parent_path(cwd) {
            None => Step::Got(None),
            Some(up) => {
                proof {
                    paths::parent_is_shorter(cwd);
                }
                dev_dir(up, f)
            },
        },
    }
}

/// The classpath of a checkout's dependencies: the cached one where there is one next to
/// compiled classes, else what Maven gives.
pub open spec fn dependency_classpath(dir: Seq<char>, s: EntrySources, f: Facts) -> Step<Seq<char>> {
    let cache = target_of(dir, CLASSPATH_CACHE_LEAF@);
    let classes = target_of(dir, "classes"@);
    let by_maven = match s.mvn_classpath {
        None => Step::Stop(EntryAnswer::NeedMvnClasspath(dir)),
        Some(o) => match mvn_result(dir, o) {
            Ok(cp) => Step::Got(cp),
            Err(e) => Step::Stop(EntryAnswer::Known(Err(e))),
        },
    };
    match f.kind_at(cache) {
        None => Step::Stop(EntryAnswer::NeedKind(cache)),
        Some(k) => if k != PathKind::File {
            by_maven
        } else {
            match f.kind_at(classes) {
                None => Step::Stop(EntryAnswer::NeedKind(classes)),
                Some(k) => if k != PathKind::Dir {
                    by_maven
                } else {
                    match f.read_at(cache) {
                        None => Step::Stop(EntryAnswer::NeedText(cache)),
                        Some(facts::ReadText::Text(t)) => Step::Got(text::trimmed(t)),
                        Some(_) => by_maven,
                    }
                },
            }
        },
    }
}

/// The classpath of a checkout: its test classes where there are any, its classes, which
/// are compiled where they are missing, and its dependencies.
pub open spec fn dev_classpath(dir: Seq<char>, s: EntrySources, f: Facts) -> EntryAnswer {
    let classes = target_of(dir, "classes"@);
    let test_classes = target_of(dir, "test-classes"@);
    match dependency_classpath(dir, s, f) {
        Step::Stop(a) => a,
        Step::Got(deps) => match f.kind_at(test_classes) {
            None => EntryAnswer::NeedKind(test_classes),
            Some(t) => match f.kind_at(classes) {
                None => EntryAnswer::NeedKind(classes),
                Some(c) => {
                    let full = (if t == PathKind::Dir {
                        test_classes + ":"@
                    } else {
                        Seq::empty()
                    }) + classes + ":"@ + deps;
                    let done = EntryAnswer::Known(
                        Ok(EntryModel::Classpath { classpath: full, main_class: MAIN_CLASS@ }),
                    );
                    if c == PathKind::Dir {
                        done
                    } else {
                        match s.mvn_compile {
                            None => EntryAnswer::NeedMvnCompile(dir),
                            Some(o) => match mvn_result(dir, o) {
                                Ok(_) => done,
                                Err(e) => EntryAnswer::Known(Err(e)),
                            },
                        }
                    }
                },
            },
        },
    }
}

/// What the sources after the explicit jar give.
pub open spec fn entry_without_jar(cwd: Seq<char>, s: EntrySources, f: Facts) -> EntryAnswer {
    match s.classpath {
        Some(cp) => EntryAnswer::Known(
            Ok(EntryModel::Classpath { classpath: cp@, main_class: MAIN_CLASS@ }),
        ),
        None => match s.home {
            Some(home) => dev_classpath(home@, s, f),
            None => match dev_dir(cwd, f) {
                Step::Stop(a) => a,
                Step::Got(Some(dir)) => dev_classpath(dir, s, f),
                Step::Got(None) => EntryAnswer::Known(Err(EntryFault::JarNotFound(TRIED_LIST@))),
            },
        },
    }
}

/// What to run: an explicit jar that exists, else an explicit classpath, else a checkout.
pub open spec fn entry_of(cwd: Seq<char>, s: EntrySources, f: Facts) -> EntryAnswer {
    match s.jar {
        None => entry_without_jar(cwd, s, f),
        Some(jar) => match f.kind_at(jar@) {
            None => EntryAnswer::NeedKind(jar@),
            Some(k) => if k == PathKind::File {
                EntryAnswer::Known(Ok(EntryModel::Jar(jar@)))
            } else {
                entry_without_jar(cwd, s, f)
            },
        },
    }
}

/// The output of a run of `mvn`, or its error.
pub fn mvn_output(dir: &str, outcome: &MvnOutcome) -> (r: Result<String, LauncherError>)
    ensures
        match r {
            Ok(s) => mvn_result(dir@, *outcome) == Ok::<Seq<char>, EntryFault>(s@),
            Err(e) => mvn_result(dir@, *outcome) == Err::<Seq<char>, EntryFault>(entry_fault(e)),
        },
{
    match outcome {
        MvnOutcome::NotStarted(e) => Err(
            LauncherError::Io { path: dir.to_owned(), source: e.clone() },
        ),
        MvnOutcome::Exited { success, code, stdout, stderr } => if *success {
            Ok(text::trim(stdout.as_str()))
        } else {
            Err(LauncherError::MavenClasspathFailed { exit: *code, stderr: stderr.clone() })
        },
    }
}

/// Where a search for a fact-dependent value came to, in executable form.
enum Halt<T> {
    Got(T),
    Stop(EntryLookup),
}

fn find_barback_dev_dir(cwd: &str, known: &Facts) -> (r: Halt<Option<String>>)
    ensures
        dev_dir(cwd@, *known) == match r {
            Halt::Got(o) => Step::Got(text::opt_text(o)),
            Halt::Stop(l) => Step::Stop(entry_answer(l)),
        },
{
    let mut here = cwd.to_owned();
    loop
        invariant
            dev_dir(here@, *known) == dev_dir(cwd@, *known),
        decreases here@.len(),
    {
        let dir = paths::join(here.as_str(), "barback");
        let pom = paths::join(dir.as_str(), "pom.xml");
        match known.kind(pom.as_str()) {
            None => return Halt::Stop(EntryLookup::NeedKind(pom)),
            Some(k) => {
                if k == PathKind::File {
                    return Halt::Got(Some(dir));
                }
            },
        }
        proof {
            paths::parent_is_shorter(here@);
        }
        match paths::parent(here.as_str()) {
            None => return Halt::Got(None),
            Some(up) => {
                here = up;
            },
        }
    }
}

fn target_path(dir: &str, leaf: &str) -> (r: String)
    ensures
        r@ == target_of(dir@, leaf@),
{
    paths::join(paths::join(dir, "target").as_str(), leaf)
}

fn classpath_by_maven(dir: &str, sources: &EntrySources) -> (r: Halt<String>)
    ensures
        (match sources.mvn_classpath {
            None => Step::Stop(EntryAnswer::NeedMvnClasspath(dir@)),
            Some(o) => match mvn_result(dir@, o) {
                Ok(cp) => Step::Got(cp),
                Err(e) => Step::Stop(EntryAnswer::Known(Err(e))),
            },
        }) == match r {
            Halt::Got(s) => Step::Got(s@),
            Halt::Stop(l) => Step::Stop(entry_answer(l)),
        },
{
    match &sources.mvn_classpath {
        None => Halt::Stop(EntryLookup::NeedMvnClasspath(dir.to_owned())),
        Some(o) => match mvn_output(dir, o) {
            Ok(cp) => Halt::Got(cp),
            Err(e) => Halt::Stop(EntryLookup::Known(Err(e))),
        },
    }
}

fn resolved_classpath(dir: &str, sources: &EntrySources, known: &Facts) -> (r: Halt<String>)
    ensures
        dependency_classpath(dir@, *sources, *known) == match r {
            Halt::Got(s) => Step::Got(s@),
            Halt::Stop(l) => Step::Stop(entry_answer(l)),
        },
{
    let cache = target_path(dir, CLASSPATH_CACHE_LEAF);
    let classes = target_path(dir, "classes");
    match known.kind(cache.as_str()) {
        None => return Halt::Stop(EntryLookup::NeedKind(cache)),
        Some(k) => {
            if k != PathKind::File {
                return classpath_by_maven(dir, sources);
            }
        },
    }
    match known.kind(classes.as_str()) {
        None => return Halt::Stop(EntryLookup::NeedKind(classes)),
        Some(k) => {
            if k != PathKind::Dir {
                return classpath_by_maven(dir, sources);
            }
        },
    }
    match known.read(cache.as_str()) {
        None => Halt::Stop(EntryLookup::NeedText(cache)),
        Some(ReadOutcome::Text(t)) => Halt::Got(text::trim(t.as_str())),
        Some(_) => classpath_by_maven(dir, sources),
    }
}

fn build_classpath_from_dev_dir(dir: &str, sources: &EntrySources, known: &Facts) -> (r: EntryLookup)
    ensures
        entry_answer(r) == dev_classpath(dir@, *sources, *known),
{
    let classes = target_path(dir, "classes");
    let test_classes = target_path(dir, "test-classes");
    let deps = match resolved_classpath(dir, sources, known) {
        Halt::Got(s) => s,
        Halt::Stop(l) => return l,
    };
    let has_tests = match known.kind(test_classes.as_str()) {
        None => return EntryLookup::NeedKind(test_classes),
        Some(k) => k == PathKind::Dir,
    };
    let compiled = match known.kind(classes.as_str()) {
        None => return EntryLookup::NeedKind(classes),
        Some(k) => k == PathKind::Dir,
    };
    if !compiled {
        match &sources.mvn_compile {
            None => return EntryLookup::NeedMvnCompile(dir.to_owned()),
            Some(o) => match mvn_output(dir, o) {
                Ok(_) => {},
                Err(e) => return EntryLookup::Known(Err(e)),
            },
        }
    }
    let mut full = String::new();
    if has_tests {
        full.append(test_classes.as_str());
        full.append(":");
        assert(full@ =~= test_classes@ + ":"@);
    }
    full.append(classes.as_str());
    full.append(":");
    full.append(deps.as_str());
    EntryLookup::Known(
        Ok(JvmEntry::Classpath { classpath: full, main_class: MAIN_CLASS.to_owned() }),
    )
}

/// Discovers what to run. `cwd` is where the search for a checkout starts.
pub fn discover_jvm_entry(cwd: &str, sources: &EntrySources, known: &Facts) -> (r: EntryLookup)
    ensures
        entry_answer(r) == entry_of(cwd@, *sources, *known),
{
    if let Some(jar) = &sources.jar {
        match known.kind(jar.as_str()) {
            None => return EntryLookup::NeedKind(jar.clone()),
            Some(k) => {
                if k == PathKind::File {
                    return EntryLookup::Known(Ok(JvmEntry::Jar(jar.clone())));
                }
            },
        }
    }
    if let Some(cp) = &sources.classpath {
        return EntryLookup::Known(
            Ok(JvmEntry::Classpath { classpath: cp.clone(), main_class: MAIN_CLASS.to_owned() }),
        );
    }
    if let Some(home) = &sources.home {
        return build_classpath_from_dev_dir(home.as_str(), sources, known);
    }
    match find_barback_dev_dir(cwd, known) {
        Halt::Stop(l) => l,
        Halt::Got(Some(dir)) => build_classpath_from_dev_dir(dir.as_str(), sources, known),
        Halt::Got(None) => EntryLookup::Known(
            Err(LauncherError::JarNotFound { tried: TRIED_LIST.to_owned() }),
        ),
    }
}

// ---------------------------------------------------------------------------
// Messages
// ---------------------------------------------------------------------------

/// The digits of a fraction without its trailing zeros.
pub open spec fn short_fraction(s: Seq<char>) -> Seq<char>
    decreases s.len(),
{
    if s.len() > 0 && s.last() == '0' {
        short_fraction(s.drop_last())
    } else {
        s
    }
}

/// A number of milliseconds as `{:?}` prints a duration.
pub open spec fn duration_text(ms: nat) -> Seq<char> {
    if ms == 0 {
        "0ns"@
    } else if ms < 1000 {
        text::dec(ms) + "ms"@
    } else if ms % 1000 == 0 {
        text::dec(ms / 1000) + "s"@
    } else {
        text::dec(ms / 1000) + "."@ + short_fraction(text::padded(ms % 1000, 3)) + "s"@
    }
}

fn shorten_fraction(s: &str) -> (r: String)
    ensures
        r@ == short_fraction(s@),
{
    let chars = text::chars_of(s);
    let mut n: usize = chars.len();
    assert(chars@.take(n as int) =~= s@);
    while n > 0 && chars[n - 1] == '0'
        invariant
            n <= chars@.len(),
            short_fraction(chars@.take(n as int)) == short_fraction(s@),
        decreases n,
    {
        assert(chars@.take(n as int).drop_last() =~= chars@.take(n - 1));
        n = n - 1;
    }
    assert(chars@.subrange(0, n as int) =~= chars@.take(n as int));
    text::text_of(&chars, 0, n)
}

/// A number of milliseconds as `{:?}` prints a duration.
pub fn duration_string(ms: u64) -> (r: String)
    ensures
        r@ == duration_text(ms as nat),
{
    if ms == 0 {
        "0ns".to_owned()
    } else if ms < 1000 {
        let mut out = text::dec_u64(ms);
        out.append("ms");
        out
    } else if ms % 1000 == 0 {
        let mut out = text::dec_u64(ms / 1000);
        out.append("s");
        out
    } else {
        let mut out = text::dec_u64(ms / 1000);
        out.append(".");
        out.append(shorten_fraction(text::padded_u64(ms % 1000, 3).as_str()).as_str());
        out.append("s");
        out
    }
}

/// An exit code as `{:?}` prints it.
pub open spec fn exit_text(exit: Option<i32>) -> Seq<char> {
    match exit {
        Some(c) => "Some("@ + text::signed_dec(c as int) + ")"@,
        None => "None"@,
    }
}

/// The text of an error.
pub open spec fn launcher_text(e: LauncherError) -> Seq<char> {
    match e {
        LauncherError::JarNotFound { tried } =>
            "BAR-DAEMON-JAR-NOT-FOUND: no barback classpath found. Set `BARISTA_BARBACK_JAR=/path/to/barback-uber.jar`, `BARISTA_BARBACK_CLASSPATH=<classpath>`, or run from a dev checkout containing `barback/target/classes`. (tried: "@
            + tried@ + ")"@,
        LauncherError::JavaNotFound =>
            "BAR-DAEMON-JAVA-NOT-FOUND: no `java` on $PATH or $JAVA_HOME/bin/java. Install a JDK 17+ or set $JAVA_HOME."@,
        LauncherError::SpawnFailed { argv, source } => "failed to spawn barback (java "@
            + text::quoted_list_text(text::texts(argv@)) + "): "@ + source@,
        LauncherError::SpawnTimeout { socket, timeout_ms } =>
            "BAR-DAEMON-SPAWN-TIMEOUT: barback did not become ready at "@
            + text::quoted_path_text(socket@) + " within "@ + duration_text(timeout_ms as nat)
            + "; the daemon's stderr may have more detail."@,
        LauncherError::MavenClasspathFailed { exit, stderr } =>
            "`mvn dependency:build-classpath` failed (exit "@ + exit_text(exit) + "): "@ + stderr@,
        LauncherError::Io { path, source } => "I/O error at "@ + text::quoted_path_text(path@)
            + ": "@ + source@,
    }
}

fn exit_string(exit: &Option<i32>) -> (r: String)
    ensures
        r@ == exit_text(*exit),
{
    match exit {
        Some(c) => {
            let mut out = "Some(".to_owned();
            out.append(text::dec_i64(*c as i64).as_str());
            out.append(")");
            out
        },
        None => "None".to_owned(),
    }
}

impl LauncherError {
    /// The error as the user sees it.
    pub fn to_message(&self) -> (r: String)
        ensures
            r@ == launcher_text(*self),
    {
        match self {
            LauncherError::JarNotFound { tried } => {
                let mut out =
                    "BAR-DAEMON-JAR-NOT-FOUND: no barback classpath found. Set `BARISTA_BARBACK_JAR=/path/to/barback-uber.jar`, `BARISTA_BARBACK_CLASSPATH=<classpath>`, or run from a dev checkout containing `barback/target/classes`. (tried: ".to_owned();
                out.append(tried.as_str());
                out.append(")");
                out
            },
            LauncherError::JavaNotFound =>
                "BAR-DAEMON-JAVA-NOT-FOUND: no `java` on $PATH or $JAVA_HOME/bin/java. Install a JDK 17+ or set $JAVA_HOME.".to_owned(),
            LauncherError::SpawnFailed { argv, source } => {
                let mut out = "failed to spawn barback (java ".to_owned();
                out.append(text::quoted_list(argv).as_str());
                out.append("): ");
                out.append(source.as_str());
                out
            },
            LauncherError::SpawnTimeout { socket, timeout_ms } => {
                let mut out =
                    "BAR-DAEMON-SPAWN-TIMEOUT: barback did not become ready at ".to_owned();
                out.append(text::quoted_path(socket.as_str()).as_str());
                out.append(" within ");
                out.append(duration_string(*timeout_ms).as_str());
                out.append("; the daemon's stderr may have more detail.");
                out
            },
            LauncherError::MavenClasspathFailed { exit, stderr } => {
                let mut out = "`mvn dependency:build-classpath` failed (exit ".to_owned();
                out.append(exit_string(exit).as_str());
                out.append("): ");
                out.append(stderr.as_str());
                out
            },
            LauncherError::Io { path, source } => {
                let mut out = "I/O error at ".to_owned();
                out.append(text::quoted_path(path.as_str()).as_str());
                out.append(": ");
                out.append(source.as_str());
                out
            },
        }
    }
}

// ---------------------------------------------------------------------------
// Laws
// ---------------------------------------------------------------------------

/// An explicit classpath is used wherever no explicit jar exists, whatever checkouts there
/// are.
pub proof fn explicit_classpath_wins(cwd: Seq<char>, s: EntrySources, f: Facts)
    requires
        s.classpath is Some,
        s.jar matches Some(jar) ==> f.kind_at(jar@) matches Some(k) && k != PathKind::File,
    ensures
        entry_of(cwd, s, f) == EntryAnswer::Known(
            Ok(EntryModel::Classpath { classpath: s.classpath->0@, main_class: MAIN_CLASS@ }),
        ),
{
}

/// An explicit jar that exists wins over everything else.
pub proof fn explicit_jar_wins(cwd: Seq<char>, s: EntrySources, f: Facts)
    requires
        s.jar matches Some(jar) && f.kind_at(jar@) == Some(PathKind::File),
    ensures
        entry_of(cwd, s, f) == EntryAnswer::Known(Ok(EntryModel::Jar(s.jar->0@))),
{
}

/// The daemon is started with its entry in front and is told the socket, the workers and the
/// time after which it ends by itself, each behind its own option.
pub proof fn daemon_is_told_its_options(plan: LaunchPlan, e: EntryModel)
    ensures
        ({
            let o = option_args(plan);
            &&& o.len() == (if plan.crash_after is Some {
                8int
            } else {
                6
            })
            &&& o[0] == "--socket"@ && o[1] == plan.socket_path@
            &&& o[2] == "--workers"@ && o[3] == text::dec(plan.workers as nat)
            &&& o[4] == "--idle-shutdown"@ && o[5] == text::dec(plan.idle_shutdown_secs as nat)
            &&& plan.crash_after matches Some(n) ==> o[6] == "--crash-after"@ && o[7]
                == text::dec(n as nat)
        }),
        e matches EntryModel::Jar(p) ==> entry_args(e) == seq!["-jar"@, p],
        e matches EntryModel::Classpath { classpath, main_class } ==> entry_args(e) == seq![
            "-cp"@,
            classpath,
            main_class,
        ],
{
}

/// The `java` below `$JAVA_HOME` is taken where it is a file; otherwise the one on `$PATH` is.
pub proof fn java_home_comes_first(home: Seq<char>, on_path: Option<Seq<char>>, f: Facts)
    ensures
        ({
            let java = paths::joined_path(paths::joined_path(home, "bin"@), "java"@);
            &&& f.kind_at(java) == Some(PathKind::File) ==> java_at(Some(home), on_path, f)
                == facts::Answer::Known(Some(java))
            &&& f.kind_at(java) is Some && f.kind_at(java) != Some(PathKind::File) ==> java_at(
                Some(home),
                on_path,
                f,
            ) == facts::Answer::Known(on_path)
            &&& f.kind_at(java) is None ==> java_at(Some(home), on_path, f) == facts::Answer::<
                Option<Seq<char>>,
            >::NeedKind(java)
        }),
        java_at(None, on_path, f) == facts::Answer::Known(on_path),
{
}

/// A checkout that is found is a directory `barback` with a POM in it.
pub proof fn found_checkout_has_a_pom(cwd: Seq<char>, f: Facts)
    ensures
        dev_dir(cwd, f) matches Step::Got(Some(dir)) ==> {
            &&& exists|d: Seq<char>| dir == #[trigger] paths::joined_path(d, "barback"@)
            &&& f.kind_at(paths::joined_path(dir, "pom.xml"@)) == Some(PathKind::File)
        },
    decreases cwd.len(),
{
    let dir = paths::joined_path(cwd, "barback"@);
    if f.kind_at(paths::joined_path(dir, "pom.xml"@)) is Some && f.kind_at(
        paths::joined_path(dir, "pom.xml"@),
    ) != Some(PathKind::File) {
        if let Some(up) = paths::parent_path(cwd) {
            paths::parent_is_shorter(cwd);
            found_checkout_has_a_pom(up, f);
        }
    }
}

/// The nearest checkout is found: that of the directory itself where there is one, else what
/// is found from its parent.
pub proof fn nearest_checkout_is_found(cwd: Seq<char>, f: Facts)
    ensures
        ({
            let dir = paths::joined_path(cwd, "barback"@);
            let pom = f.kind_at(paths::joined_path(dir, "pom.xml"@));
            &&& pom == Some(PathKind::File) ==> dev_dir(cwd, f) == Step::Got(Some(dir))
            &&& pom is Some && pom != Some(PathKind::File) ==> {
                &&& paths::parent_path(cwd) is None ==> dev_dir(cwd, f) == Step::Got(
                    None::<Seq<char>>,
                )
                &&& paths::parent_path(cwd) matches Some(up) ==> dev_dir(cwd, f) == dev_dir(up, f)
            }
        }),
{
}

/// The cached classpath of a checkout is used only where it is a file beside compiled classes;
/// otherwise what Maven printed is used.
pub proof fn cached_classpath_needs_classes(
    dir: Seq<char>,
    s: EntrySources,
    f: Facts,
    t: Seq<char>,
)
    ensures
        ({
            let target = paths::joined_path(dir, "target"@);
            let cache = paths::joined_path(target, "barback.classpath"@);
            let classes = paths::joined_path(target, "classes"@);
            dependency_classpath(dir, s, f) matches Step::Got(cp) ==> {
                ||| {
                    &&& f.kind_at(cache) == Some(PathKind::File)
                    &&& f.kind_at(classes) == Some(PathKind::Dir)
                    &&& f.read_at(cache) matches Some(facts::ReadText::Text(u)) && cp
                        == text::trimmed(u)
                }
                ||| s.mvn_classpath matches Some(
                    MvnOutcome::Exited { success, stdout, .. },
                ) && success && cp == text::trimmed(stdout@)
            }
        }),
        ({
            let target = paths::joined_path(dir, "target"@);
            let cache = paths::joined_path(target, "barback.classpath"@);
            let classes = paths::joined_path(target, "classes"@);
            f.kind_at(cache) == Some(PathKind::File) && f.kind_at(classes) == Some(PathKind::Dir)
                && f.read_at(cache) == Some(facts::ReadText::Text(t)) ==> dependency_classpath(
                dir,
                s,
                f,
            ) == Step::Got(text::trimmed(t))
        }),
{
}

/// A checkout runs its server from its test classes where they are compiled, then its classes,
/// then what it depends on.
pub proof fn checkout_classpath_is_in_order(dir: Seq<char>, s: EntrySources, f: Facts)
    ensures
        ({
            let target = paths::joined_path(dir, "target"@);
            let classes = paths::joined_path(target, "classes"@);
            let tests = paths::joined_path(target, "test-classes"@);
            dev_classpath(dir, s, f) matches EntryAnswer::Known(Ok(e)) ==> {
                &&& e matches EntryModel::Classpath { classpath, main_class } && main_class
                    == "com.bluminal.barista.barback.Server"@ && (dependency_classpath(dir, s, f)
                    matches Step::Got(deps) && {
                    &&& f.kind_at(tests) == Some(PathKind::Dir) ==> classpath == tests + ":"@
                        + classes + ":"@ + deps
                    &&& f.kind_at(tests) != Some(PathKind::Dir) ==> classpath == classes + ":"@
                        + deps
                })
                &&& f.kind_at(classes) == Some(PathKind::Dir) || (s.mvn_compile matches Some(
                    MvnOutcome::Exited { success, .. },
                ) && success)
            }
        }),
{
}

/// Without a jar, a classpath, a home and a checkout nothing can be started.
pub proof fn nothing_to_start_is_reported(cwd: Seq<char>, s: EntrySources, f: Facts)
    requires
        s.jar is None,
        s.classpath is None,
        s.home is None,
        dev_dir(cwd, f) == Step::Got(None::<Seq<char>>),
    ensures
        entry_of(cwd, s, f) matches EntryAnswer::Known(Err(EntryFault::JarNotFound(_))),
{
}

/// A home that is named is used as it is, without a search.
pub proof fn named_home_is_used(cwd: Seq<char>, s: EntrySources, f: Facts)
    requires
        s.jar is None,
        s.classpath is None,
        s.home is Some,
    ensures
        entry_of(cwd, s, f) == dev_classpath(s.home->0@, s, f),
{
}

/// The zeros that a fraction is shown without are at its end, and there are none left.
pub proof fn only_trailing_zeros_are_left_out(s: Seq<char>)
    ensures
        short_fraction(s).is_prefix_of(s),
        forall|i: int| short_fraction(s).len() <= i < s.len() ==> #[trigger] s[i] == '0',
        short_fraction(s).len() > 0 ==> short_fraction(s).last() != '0',
    decreases s.len(),
{
    if s.len() > 0 && s.last() == '0' {
        let t = s.drop_last();
        only_trailing_zeros_are_left_out(t);
        assert forall|i: int| short_fraction(s).len() <= i < s.len() implies #[trigger] s[i]
            == '0' by {
            if i < t.len() {
                assert(t[i] == s[i]);
            }
        }
    }
}

/// A time is shown in milliseconds below a second, else in seconds with the milliseconds as
/// a fraction of three digits without its last zeros.
pub proof fn times_are_shown_in_seconds(ms: nat)
    ensures
        0 < ms < 1000 ==> duration_text(ms) == text::dec(ms) + "ms"@,
        ms >= 1000 && ms % 1000 == 0 ==> duration_text(ms) == text::dec(ms / 1000) + "s"@,
        ms > 1000 && ms % 1000 != 0 ==> ({
            let t = text::padded(ms % 1000, 3);
            &&& t.len() == 3
            &&& text::digits_value(t) == ms % 1000
            &&& duration_text(ms) == text::dec(ms / 1000) + "."@ + short_fraction(t) + "s"@
        }),
{
    reveal_with_fuel(text::power_of_ten, 4);
    text::padded_number_reads_back(ms % 1000, 3);
}

/// What Maven printed is used only where it succeeded; otherwise its exit code and its words
/// are kept.
pub proof fn failed_maven_gives_nothing(dir: Seq<char>, o: MvnOutcome)
    ensures
        mvn_result(dir, o) is Ok <==> (o matches MvnOutcome::Exited { success, .. } && success),
        o matches MvnOutcome::Exited { success, code, stdout, stderr } ==> (if success {
            mvn_result(dir, o) == Ok::<Seq<char>, EntryFault>(text::trimmed(stdout@))
        } else {
            mvn_result(dir, o) == Err::<Seq<char>, EntryFault>(
                EntryFault::Mvn { exit: code, stderr: stderr@ },
            )
        }),
        o matches MvnOutcome::NotStarted(e) ==> mvn_result(dir, o) == Err::<Seq<char>, EntryFault>(
            EntryFault::Io { path: dir, source: e@ },
        ),
{
}

/// A daemon that accepts a connection is live; one that refuses is tried again until its time
/// is over; any other failure means that there is none.
pub proof fn accepted_connection_means_live(
    outcome: ConnectOutcome,
    deadline_passed: bool,
    r: ProbeStep,
)
    requires
        call_ensures(probe_step, (outcome, deadline_passed), r),
    ensures
        r is Live <==> outcome is Accepted,
        r is Again <==> outcome is Refused && !deadline_passed,
        r is Dead <==> outcome is Failed || (outcome is Refused && deadline_passed),
{
}

/// A daemon is waited for until it is live, but no longer than it may take.
pub proof fn daemon_is_waited_for(
    plan: &LaunchPlan,
    live: bool,
    deadline_passed: bool,
    r: Option<Result<(), LauncherError>>,
)
    requires
        call_ensures(ready_step, (plan, live, deadline_passed), r),
    ensures
        live ==> (r matches Some(Ok(_))),
        !live && !deadline_passed ==> r is None,
        !live && deadline_passed ==> (r matches Some(
            Err(LauncherError::SpawnTimeout { socket, timeout_ms }),
        ) && socket@ == plan.socket_path@ && timeout_ms == plan.spawn_timeout_ms),
{
}

/// A daemon left behind is known by the number in its file.
pub proof fn stale_daemon_is_the_one_recorded(pid_text: &str, r: Option<i32>, n: i32)
    requires
        call_ensures(stale_daemon, (pid_text,), r),
    ensures
        text::trimmed(pid_text@) == text::signed_dec(n as int) ==> r == Some(n),
{
    text::signed_number_reads_back(n as int, i32::MIN as int, i32::MAX as int);
}

/// A plan is for the socket of its directory, with the workers and the time it was given.
pub proof fn plan_is_for_its_directory(
    socket_dir: String,
    workers: usize,
    idle_shutdown_secs: u32,
    r: LaunchPlan,
)
    requires
        call_ensures(LaunchPlan::new, (socket_dir, workers, idle_shutdown_secs), r),
    ensures
        r.socket_dir == socket_dir,
        r.socket_path@ == paths::joined_path(socket_dir@, "barback.sock"@),
        r.workers == workers,
        r.idle_shutdown_secs == idle_shutdown_secs,
        r.crash_after is None,
        r.spawn_timeout_ms == 30_000,
{
}

/// What is said of an entry, or of what is missing to find it, is said of what was found.
pub proof fn answers_are_those_of_the_search(
    e: JvmEntry,
    path: String,
    exit: Option<i32>,
    stderr: String,
)
    ensures
        entry_answer(EntryLookup::Known(Ok(e))) == EntryAnswer::Known(
            Ok::<EntryModel, EntryFault>(e@),
        ),
        entry_answer(EntryLookup::NeedKind(path)) == EntryAnswer::NeedKind(path@),
        entry_answer(EntryLookup::NeedText(path)) == EntryAnswer::NeedText(path@),
        entry_answer(EntryLookup::NeedMvnClasspath(path)) == EntryAnswer::NeedMvnClasspath(path@),
        entry_answer(EntryLookup::NeedMvnCompile(path)) == EntryAnswer::NeedMvnCompile(path@),
        e matches JvmEntry::Jar(p) ==> e@ == EntryModel::Jar(p@),
        e matches JvmEntry::Classpath { classpath, main_class } ==> e@ == (EntryModel::Classpath {
            classpath: classpath@,
            main_class: main_class@,
        }),
        entry_fault(LauncherError::JarNotFound { tried: path }) == EntryFault::JarNotFound(path@),
        entry_fault(LauncherError::MavenClasspathFailed { exit, stderr }) == (EntryFault::Mvn {
            exit,
            stderr: stderr@,
        }),
        java_of(facts::Lookup::Known(Ok::<String, LauncherError>(path))) == facts::Answer::Known(
            Some(path@),
        ),
        java_of(facts::Lookup::Known(Err::<String, LauncherError>(LauncherError::JavaNotFound)))
            == facts::Answer::Known(None::<Seq<char>>),
{
}

} // verus!
